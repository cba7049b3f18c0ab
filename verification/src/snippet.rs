//! Contextual snippets for configuration parse errors: a few numbered
//! lines around the failing one, with an arrow marking it.

use vstd::prelude::*;
use crate::strings::{has_sub, first_occur, find_sub, lemma_first_occur, dec_digits,
    u64_to_string};
use crate::scaffold::str_views;

verus! {

/// The lines of a text, split on newlines; a trailing newline adds no
/// empty last line.
pub open spec fn lines_spec(s: Seq<char>) -> Seq<Seq<char>>
    decreases s.len(),
    via lines_spec_dec
{
    if s.len() == 0 {
        Seq::empty()
    } else if !has_sub(s, "\n"@) {
        seq![s]
    } else {
        let p = first_occur(s, "\n"@);
        seq![s.subrange(0, p)] + lines_spec(s.skip(p + 1))
    }
}

#[via_fn]
proof fn lines_spec_dec(s: Seq<char>) {
    reveal_strlit("\n");
    if s.len() != 0 && has_sub(s, "\n"@) {
        lemma_first_occur(s, "\n"@);
    }
}

/// Splits a text into its lines.
pub fn split_lines(s: &str) -> (r: Vec<String>)
    ensures
        str_views(r@) =~= lines_spec(s@),
    decreases s@.len(),
{
    proof {
        reveal_strlit("\n");
        assert(s@.skip(0) =~= s@);
    }
    let n = s.unicode_len();
    if n == 0 {
        let r: Vec<String> = Vec::new();
        proof {
            assert(str_views(r@) =~= lines_spec(s@));
        }
        return r;
    }
    match find_sub(s, "\n", 0) {
        None => {
            let mut r: Vec<String> = Vec::new();
            r.push(String::from_str(s));
            proof {
                assert(str_views(r@) =~= lines_spec(s@));
            }
            r
        },
        Some(p) => {
            proof {
                lemma_first_occur(s@, "\n"@);
                assert(first_occur(s@, "\n"@) == p as int);
            }
            let first = String::from_str(s.substring_char(0, p));
            let rest = s.substring_char(p + 1, n);
            proof {
                assert(rest@ =~= s@.skip(p as int + 1));
            }
            let mut r = split_lines(rest);
            r.insert(0, first);
            proof {
                assert(str_views(r@) =~= lines_spec(s@));
            }
            r
        },
    }
}

/// One numbered snippet row: the one-based line number, an arrow for the
/// failing line or matching padding, then the line's text.
pub open spec fn snippet_row(ls: Seq<Seq<char>>, j: int, line: int) -> Seq<char> {
    dec_digits((j + 1) as nat) + (if j == line {
        " --> "@
    } else {
        "     "@
    }) + ls[j]
}

/// The rows of the snippet window.
pub open spec fn snippet_rows(ls: Seq<Seq<char>>, start: int, end: int, line: int) -> Seq<
    Seq<char>,
> {
    Seq::new(
        (end - start) as nat,
        |i: int| if 0 <= i < end - start {
            snippet_row(ls, start + i, line)
        } else {
            Seq::empty()
        },
    )
}

/// Rows joined with newlines.
pub open spec fn nl_join(parts: Seq<Seq<char>>) -> Seq<char>
    decreases parts.len(),
{
    if parts.len() == 0 {
        Seq::empty()
    } else if parts.len() == 1 {
        parts[0]
    } else {
        nl_join(parts.drop_last()) + "\n"@ + parts.last()
    }
}

/// The snippet window around a failing line: up to two lines before and
/// three after, clamped to the text.
pub open spec fn snippet_spec(content: Seq<char>, line: int) -> Seq<char> {
    let ls = lines_spec(content);
    let end = if line + 3 < ls.len() {
        line + 3
    } else {
        ls.len() as int
    };
    let start0 = if line > 2 {
        line - 2
    } else {
        0
    };
    let start = if start0 > end {
        end
    } else {
        start0
    };
    nl_join(snippet_rows(ls, start, end, line))
}

/// Builds the numbered snippet around the failing line of a text.
pub fn get_error_snippet(yaml_content: &str, line: usize, _col: usize) -> (r: String)
    ensures
        r@ == snippet_spec(yaml_content@, line as int),
{
    let lines = split_lines(yaml_content);
    let ghost ls = lines_spec(yaml_content@);
    proof {
        assert(ls.len() == lines@.len());
    }
    let len = lines.len();
    let end: usize = if len > 3 && line < len - 3 {
        line + 3
    } else {
        len
    };
    let start0: usize = if line > 2 {
        line - 2
    } else {
        0
    };
    let start: usize = if start0 > end {
        end
    } else {
        start0
    };
    proof {
        assert(end as int == (if (line as int) + 3 < ls.len() {
            (line as int) + 3
        } else {
            ls.len() as int
        }));
    }
    let ghost rows = snippet_rows(ls, start as int, end as int, line as int);
    let mut out = String::new();
    let mut i: usize = start;
    while i < end
        invariant
            start <= i <= end,
            end <= lines@.len(),
            ls == lines_spec(yaml_content@),
            ls.len() == lines@.len(),
            str_views(lines@) =~= ls,
            rows == snippet_rows(ls, start as int, end as int, line as int),
            out@ == nl_join(rows.subrange(0, i as int - start as int)),
        decreases end - i,
    {
        proof {
            let w = i as int - start as int;
            assert(rows.subrange(0, w + 1).drop_last() =~= rows.subrange(0, w));
            assert(rows.subrange(0, w + 1).last() == rows[w]);
            assert(rows[w] == snippet_row(ls, i as int, line as int));
            assert(str_views(lines@)[i as int] == lines@[i as int]@);
            assert(ls[i as int] == lines@[i as int]@);
        }
        if i > start {
            out.append("\n");
        }
        let num = u64_to_string((i as u64) + 1);
        out.append(num.as_str());
        if i == line {
            out.append(" --> ");
        } else {
            out.append("     ");
        }
        out.append(lines[i].as_str());
        proof {
            let w = i as int - start as int;
            if i == start {
                assert(rows.subrange(0, 1)[0] == rows[0]);
            }
            assert(out@ =~= nl_join(rows.subrange(0, w + 1)));
        }
        i = i + 1;
    }
    proof {
        assert(rows.subrange(0, end as int - start as int) =~= rows);
    }
    out
}

} // verus!
