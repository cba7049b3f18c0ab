//! The computational cores of the template filters: the identity filter,
//! suffixing with a filter argument, quote-squashing for embeddable JSON
//! text, and base64 encoding.

use vstd::prelude::*;
use vstd::string::StringSliceAdditionalSpecFns;
use crate::node::ConfigNode;
use crate::strings::{occurs_at, has_sub, first_occur, find_sub, lemma_first_occur};
use crate::trusted::{base64_of, base64_encode};

verus! {

/// The identity filter: hands its value back unchanged.
pub fn filter1(value: &ConfigNode) -> (r: ConfigNode)
    ensures
        r@ == value@,
{
    value.deep_copy()
}

/// The suffixing filter: appends a dash and the `name` argument, which
/// defaults to `common`.
pub fn filter2(value: &str, name: Option<&str>) -> (r: String)
    ensures
        r@ == value@ + "-"@ + (match name {
            Some(n) => n@,
            None => "common"@,
        }),
{
    let mut s = String::from_str(value);
    s.append("-");
    match name {
        Some(n) => s.append(n),
        None => s.append("common"),
    }
    proof {
        assert(s@ =~= value@ + "-"@ + (match name {
            Some(n) => n@,
            None => "common"@,
        }));
    }
    s
}

/// Every double quote turned into a single quote, character for
/// character.
pub open spec fn squash_quotes(s: Seq<char>) -> Seq<char> {
    s.map_values(
        |c: char| if c == '"' {
            '\''
        } else {
            c
        },
    )
}

/// Turns the double quotes of serialized JSON text into single quotes,
/// keeping the result embeddable in single-quoted host strings.
pub fn as_json_text(json: &str) -> (r: String)
    ensures
        r@ == squash_quotes(json@),
    decreases json@.len(),
{
    proof {
        reveal_strlit("\"");
        reveal_strlit("'");
        assert(json@.skip(0) =~= json@);
    }
    let n = json.unicode_len();
    match find_sub(json, "\"", 0) {
        None => {
            let r = String::from_str(json);
            proof {
                assert forall|j: int| 0 <= j < json@.len() implies json@[j] != '"' by {
                    if json@[j] == '"' {
                        assert(json@.subrange(j, j + 1) =~= "\""@);
                        assert(occurs_at(json@, "\""@, j));
                    }
                }
                assert(r@ =~= squash_quotes(json@));
            }
            r
        },
        Some(p) => {
            proof {
                assert forall|j: int| 0 <= j < p as int implies json@[j] != '"' by {
                    if json@[j] == '"' {
                        assert(json@.subrange(j, j + 1) =~= "\""@);
                        assert(occurs_at(json@, "\""@, j));
                    }
                }
                assert(json@.subrange(p as int, p as int + 1) =~= "\""@);
                assert(json@.subrange(p as int, p as int + 1)[0] == json@[p as int]);
                assert("\""@[0] == '"');
                assert(json@[p as int] == '"');
            }
            let mut out = String::from_str(json.substring_char(0, p));
            out.append("'");
            let rest = json.substring_char(p + 1, n);
            proof {
                assert(rest@ =~= json@.skip(p as int + 1));
            }
            let tail = as_json_text(rest);
            out.append(tail.as_str());
            proof {
                assert(out@ =~= squash_quotes(json@));
            }
            out
        },
    }
}

/// Encodes serialized JSON text as base64.
pub fn as_base64_text(json: &str) -> (r: String)
    requires
        json.spec_bytes().len() * 4 <= usize::MAX as int,
    ensures
        r@ == base64_of(json@),
{
    base64_encode(json)
}

} // verus!
