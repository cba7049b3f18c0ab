//! The configuration resolution pipeline: fold the discovered documents
//! into one tree, capture the reference table, and substitute references.
//! Template rendering and file access happen outside; the stages here are
//! the decisions between them.

use vstd::prelude::*;
use crate::node::{ConfigNode, NodeV};
use crate::merge::{merge_spec, merge_all_spec, merge_all, merged};
use crate::resolve::{ReferenceTable, resolve_node_spec, resolve_node};
use crate::display::{node_text, to_display_string};
use crate::strings::{has_sub, first_occur, last_occur, trim_spec, find_sub, find_last,
    lemma_first_occur, lemma_last_occur, trim_str};
use crate::expand::{MergeKeyError, expand_ok, expand_val, expand_merge_keys};

verus! {

/// The bare dotted path inside a handlebars expression: the trimmed text
/// between the first `{{` and the last `}}`. An expression with a pipe
/// (a filter) is returned unchanged, as is one without a well-formed
/// `{{ .. }}` pair.
pub open spec fn extract_path_spec(s: Seq<char>) -> Seq<char> {
    if has_sub(s, "|"@) {
        s
    } else if has_sub(s, "{{"@) && has_sub(s, "}}"@) && last_occur(s, "}}"@) >= first_occur(
        s,
        "{{"@,
    ) + 2 {
        trim_spec(s.subrange(first_occur(s, "{{"@) + 2, last_occur(s, "}}"@)))
    } else {
        s
    }
}

/// Extracts the bare dotted path from a handlebars expression such as
/// `{{ object.path }}`.
pub fn extract_object_path_from_handlebars(handlebars: &str) -> (r: String)
    ensures
        r@ == extract_path_spec(handlebars@),
{
    if contains_pipe(handlebars) {
        return String::from_str(handlebars);
    }
    proof {
        reveal_strlit("{{");
        reveal_strlit("}}");
    }
    let n = handlebars.unicode_len();
    let open = find_sub(handlebars, "{{", 0);
    let close = find_last(handlebars, "}}");
    proof {
        assert(handlebars@.skip(0) =~= handlebars@);
    }
    match (open, close) {
        (Some(p), Some(q)) => {
            proof {
                lemma_first_occur(handlebars@, "{{"@);
                lemma_last_occur(handlebars@, "}}"@);
                assert(first_occur(handlebars@, "{{"@) == p as int);
                assert(last_occur(handlebars@, "}}"@) == q as int);
            }
            if q >= p + 2 {
                let inner = handlebars.substring_char(p + 2, q);
                proof {
                    assert(inner@ =~= handlebars@.subrange(p as int + 2, q as int));
                }
                trim_str(inner)
            } else {
                String::from_str(handlebars)
            }
        },
        _ => String::from_str(handlebars),
    }
}

/// Whether the expression holds a filter pipe.
fn contains_pipe(s: &str) -> (r: bool)
    ensures
        r == has_sub(s@, "|"@),
{
    proof {
        reveal_strlit("|");
    }
    crate::strings::contains_sub(s, "|")
}

/// The reference table captured from a merged document: its top-level
/// scalar and mapping bindings, each with the string form of its value;
/// sequence bindings are not resolvable references.
pub open spec fn table_entries(es: Seq<(Seq<char>, NodeV)>) -> Seq<(Seq<char>, Seq<char>)>
    decreases es.len(),
{
    if es.len() == 0 {
        Seq::empty()
    } else {
        let rest = table_entries(es.drop_last());
        if es.last().1 is Array {
            rest
        } else {
            rest.push((es.last().0, node_text(es.last().1)))
        }
    }
}

/// The reference table of a document: its top-level bindings when it is a
/// mapping, nothing otherwise.
pub open spec fn ref_table_spec(n: NodeV) -> Seq<(Seq<char>, Seq<char>)> {
    if n is Hash {
        table_entries(n->Hash_0)
    } else {
        Seq::empty()
    }
}

/// Captures the resolvable references of a merged document.
pub fn build_reference_table(doc: &ConfigNode) -> (r: ReferenceTable)
    ensures
        r@ == ref_table_spec(doc@),
{
    let mut entries: Vec<(String, String)> = Vec::new();
    match doc {
        ConfigNode::Hash(v) => {
            let ghost es = doc@->Hash_0;
            let mut i: usize = 0;
            while i < v.len()
                invariant
                    i <= v.len(),
                    *doc is Hash && doc->Hash_0 == *v,
                    es == doc@->Hash_0,
                    Seq::new(
                        entries@.len(),
                        |l: int| (entries@[l].0@, entries@[l].1@),
                    ) =~= table_entries(es.subrange(0, i as int)),
                decreases v.len() - i,
            {
                proof {
                    assert(es.subrange(0, i as int + 1).drop_last() =~= es.subrange(0, i as int));
                    assert(es.subrange(0, i as int + 1).last() == es[i as int]);
                    assert(es[i as int] == (v@[i as int].0@, v@[i as int].1@));
                }
                let is_array = match &v[i].1 {
                    ConfigNode::Array(_) => true,
                    _ => false,
                };
                if !is_array {
                    let text = to_display_string(&v[i].1);
                    entries.push((v[i].0.clone(), text));
                }
                proof {
                    assert(Seq::new(
                        entries@.len(),
                        |l: int| (entries@[l].0@, entries@[l].1@),
                    ) =~= table_entries(es.subrange(0, i as int + 1)));
                }
                i = i + 1;
            }
            proof {
                assert(es.subrange(0, es.len() as int) =~= es);
            }
        },
        _ => {},
    }
    let r = ReferenceTable { entries };
    proof {
        assert(r@ =~= ref_table_spec(doc@));
    }
    r
}

/// Expands merge keys in every discovered configuration document, folds
/// the documents into one tree (later documents override earlier ones),
/// captures the reference table from the merged tree, and substitutes
/// references through it. The caller renders the result as a template
/// and re-parses it. A document with an invalid merge value fails the
/// whole pass.
pub fn process_configuration_files(docs: &Vec<ConfigNode>) -> (r: Result<
    (ConfigNode, ReferenceTable),
    MergeKeyError,
>)
    ensures
        ({
            let dv = Seq::new(docs@.len(), |i: int| docs@[i]@);
            &&& (r is Ok <==> (forall|i: int| 0 <= i < dv.len() ==> expand_ok(#[trigger] dv[i])))
            &&& (r matches Ok(p) ==> {
                let m = merge_all_spec(dv.map_values(|d: NodeV| expand_val(d)));
                p.1@ == ref_table_spec(m) && p.0@ == resolve_node_spec(m, ref_table_spec(m))
            })
        }),
{
    let ghost dv = Seq::new(docs@.len(), |i: int| docs@[i]@);
    let mut expanded: Vec<ConfigNode> = Vec::new();
    let mut i: usize = 0;
    while i < docs.len()
        invariant
            i <= docs.len(),
            dv == Seq::new(docs@.len(), |l: int| docs@[l]@),
            expanded@.len() == i as int,
            forall|j: int| 0 <= j < i as int ==> expand_ok(#[trigger] dv[j]),
            forall|j: int| 0 <= j < i as int ==> expanded@[j]@ == expand_val(#[trigger] dv[j]),
        decreases docs.len() - i,
    {
        match expand_merge_keys(&docs[i]) {
            Ok(d) => {
                expanded.push(d);
            },
            Err(e) => {
                proof {
                    assert(!expand_ok(dv[i as int]));
                }
                return Err(e);
            },
        }
        i = i + 1;
    }
    let merged_doc = merge_all(&expanded);
    proof {
        assert(Seq::new(expanded@.len(), |l: int| expanded@[l]@) =~= dv.map_values(
            |d: NodeV| expand_val(d),
        ));
    }
    let refs = build_reference_table(&merged_doc);
    let resolved = resolve_node(&merged_doc, &refs);
    Ok((resolved, refs))
}

/// Combines the playbook definition document into the resolved
/// configuration (new keys win, with the merge's override semantics).
/// The caller renders the result against current facts and parses it into
/// the playbook structure.
pub fn process_playbook(config: &ConfigNode, playbook_doc: &ConfigNode) -> (r: ConfigNode)
    ensures
        r@ == merge_spec(config@, playbook_doc@),
{
    merged(config, playbook_doc)
}

} // verus!
