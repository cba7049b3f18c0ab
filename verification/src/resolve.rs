//! Cross-document reference substitution: `{{ ref:NAME }}` markers in
//! string scalars are replaced by the string form of previously collected
//! top-level values.

use vstd::prelude::*;
use crate::node::{ConfigNode, NodeV, hash_lookup};
use crate::strings::{occurs_at, has_sub, first_occur, find_sub, lemma_first_occur};

verus! {

/// The opening delimiter of a reference marker.
pub open spec fn open_marker() -> Seq<char> {
    "{{ ref:"@
}

/// The closing delimiter of a reference marker.
pub open spec fn close_marker() -> Seq<char> {
    " }}"@
}

/// The table of resolvable references: top-level names bound to the string
/// form of their values.
pub struct ReferenceTable {
    pub entries: Vec<(String, String)>,
}

impl View for ReferenceTable {
    type V = Seq<(Seq<char>, Seq<char>)>;

    open spec fn view(&self) -> Seq<(Seq<char>, Seq<char>)> {
        Seq::new(self.entries@.len(), |i: int| (self.entries@[i].0@, self.entries@[i].1@))
    }
}

/// The replacement text for a reference name: the bound string, or the
/// empty string for an unknown name.
pub open spec fn ref_string(refs: Seq<(Seq<char>, Seq<char>)>, name: Seq<char>) -> Seq<char> {
    match hash_lookup(refs, name) {
        Some(v) => v,
        None => Seq::empty(),
    }
}

/// One pass of reference substitution over a string: each
/// `{{ ref:NAME }}` marker is replaced by the replacement text for `NAME`;
/// the scan continues after the marker, never inside replacement text.
pub open spec fn resolve_str_spec(s: Seq<char>, refs: Seq<(Seq<char>, Seq<char>)>) -> Seq<char>
    decreases s.len(),
    via resolve_str_dec
{
    if !has_sub(s, open_marker()) {
        s
    } else {
        let p = first_occur(s, open_marker());
        let rest = s.skip(p + 7);
        if !has_sub(rest, close_marker()) {
            s
        } else {
            let q = first_occur(rest, close_marker());
            s.subrange(0, p) + ref_string(refs, rest.subrange(0, q)) + resolve_str_spec(
                rest.skip(q + 3),
                refs,
            )
        }
    }
}

#[via_fn]
proof fn resolve_str_dec(s: Seq<char>, refs: Seq<(Seq<char>, Seq<char>)>) {
    proof_marker_lengths();
    if has_sub(s, open_marker()) {
        lemma_first_occur(s, open_marker());
        let p = first_occur(s, open_marker());
        let rest = s.skip(p + 7);
        if has_sub(rest, close_marker()) {
            lemma_first_occur(rest, close_marker());
        }
    }
}

/// The marker delimiters have lengths 7 and 3.
pub proof fn proof_marker_lengths()
    ensures
        open_marker().len() == 7,
        close_marker().len() == 3,
{
    reveal_strlit("{{ ref:");
    reveal_strlit(" }}");
}

/// Looks up a reference name, yielding its replacement text.
pub fn lookup_ref(refs: &ReferenceTable, name: &str) -> (r: String)
    ensures
        r@ == ref_string(refs@, name@),
{
    let key = String::from_str(name);
    let mut i: usize = 0;
    while i < refs.entries.len()
        invariant
            i <= refs.entries.len(),
            key@ == name@,
            forall|j: int| 0 <= j < i as int ==> refs@[j].0 != name@,
        decreases refs.entries.len() - i,
    {
        if refs.entries[i].0 == key {
            proof {
                crate::merge::lemma_lookup_at_index(refs@, name@, i as int);
            }
            return refs.entries[i].1.clone();
        }
        proof {
            assert(refs@[i as int].0 == refs.entries@[i as int].0@);
        }
        i = i + 1;
    }
    proof {
        assert(!crate::node::hash_has_key(refs@, name@)) by {
            if crate::node::hash_has_key(refs@, name@) {
                let j = choose|j: int| 0 <= j < refs@.len() && refs@[j].0 == name@;
                assert(refs@[j].0 != name@);
            }
        }
        crate::merge::lemma_lookup_absent(refs@, name@);
    }
    String::new()
}

/// One pass of reference substitution over a string.
pub fn resolve_str(s: &str, refs: &ReferenceTable) -> (r: String)
    ensures
        r@ == resolve_str_spec(s@, refs@),
    decreases s@.len(),
{
    proof {
        proof_marker_lengths();
        assert(s@.skip(0) =~= s@);
    }
    let n = s.unicode_len();
    match find_sub(s, "{{ ref:", 0) {
        None => {
            proof {
                assert("{{ ref:"@ == open_marker());
            }
            String::from_str(s)
        },
        Some(p) => {
            proof {
                assert(occurs_at(s@, open_marker(), p as int));
                lemma_first_occur(s@, open_marker());
                assert(first_occur(s@, open_marker()) == p as int);
            }
            let rest = s.substring_char(p + 7, n);
            proof {
                assert(rest@ =~= s@.skip(p as int + 7));
                assert(rest@.skip(0) =~= rest@);
            }
            match find_sub(rest, " }}", 0) {
                None => {
                    proof {
                        assert(" }}"@ == close_marker());
                    }
                    String::from_str(s)
                },
                Some(q) => {
                    proof {
                        assert(occurs_at(rest@, close_marker(), q as int));
                        lemma_first_occur(rest@, close_marker());
                        assert(first_occur(rest@, close_marker()) == q as int);
                    }
                    let name = rest.substring_char(0, q);
                    proof {
                        assert(name@ =~= rest@.subrange(0, q as int));
                    }
                    let mut out = String::from_str(s.substring_char(0, p));
                    let rep = lookup_ref(refs, name);
                    out.append(rep.as_str());
                    let tail_src = rest.substring_char(q + 3, rest.unicode_len());
                    proof {
                        assert(tail_src@ =~= rest@.skip(q as int + 3));
                    }
                    let tail = resolve_str(tail_src, refs);
                    out.append(tail.as_str());
                    proof {
                        assert(out@ =~= resolve_str_spec(s@, refs@));
                    }
                    out
                },
            }
        },
    }
}

/// Reference substitution over a document tree: string scalars are
/// substituted, sequence elements and mapping values are visited
/// recursively, mapping keys are left alone.
pub open spec fn resolve_node_spec(n: NodeV, refs: Seq<(Seq<char>, Seq<char>)>) -> NodeV
    decreases n,
    via resolve_node_dec
{
    match n {
        NodeV::Str(s) => NodeV::Str(resolve_str_spec(s, refs)),
        NodeV::Array(el) => NodeV::Array(
            Seq::new(
                el.len(),
                |i: int| if 0 <= i < el.len() {
                    resolve_node_spec(el[i], refs)
                } else {
                    NodeV::Null
                },
            ),
        ),
        NodeV::Hash(es) => NodeV::Hash(
            Seq::new(
                es.len(),
                |i: int| if 0 <= i < es.len() {
                    (es[i].0, resolve_node_spec(es[i].1, refs))
                } else {
                    (Seq::empty(), NodeV::Null)
                },
            ),
        ),
        _ => n,
    }
}

#[via_fn]
proof fn resolve_node_dec(n: NodeV, refs: Seq<(Seq<char>, Seq<char>)>) {
    match n {
        NodeV::Array(el) => {
            assert forall|i: int| 0 <= i < el.len() implies decreases_to!(n => el[i]) by {
                assert(decreases_to!(n => el));
                assert(decreases_to!(el => el[i]));
            }
        },
        NodeV::Hash(es) => {
            assert forall|i: int| 0 <= i < es.len() implies decreases_to!(n => es[i].1) by {
                assert(decreases_to!(n => es));
                assert(decreases_to!(es => es[i]));
                assert(decreases_to!(es[i] => es[i].1));
            }
        },
        _ => {},
    }
}

/// Applies one pass of reference substitution to a tree, producing a new
/// tree.
pub fn resolve_node(n: &ConfigNode, refs: &ReferenceTable) -> (r: ConfigNode)
    ensures
        r@ == resolve_node_spec(n@, refs@),
    decreases n,
{
    match n {
        ConfigNode::Str(s) => ConfigNode::Str(resolve_str(s.as_str(), refs)),
        ConfigNode::Array(v) => {
            let mut out: Vec<ConfigNode> = Vec::new();
            let mut i: usize = 0;
            while i < v.len()
                invariant
                    i <= v.len(),
                    out@.len() == i as int,
                    *n is Array && n->Array_0 == *v,
                    forall|j: int| 0 <= j < i as int ==> out@[j]@ == resolve_node_spec(
                        v@[j]@,
                        refs@,
                    ),
                decreases v.len() - i,
            {
                proof {
                    assert(decreases_to!(*n => *v));
                    assert(decreases_to!(*v => v@[i as int]));
                }
                out.push(resolve_node(&v[i], refs));
                i = i + 1;
            }
            let r = ConfigNode::Array(out);
            proof {
                assert(r@->Array_0 =~= resolve_node_spec(n@, refs@)->Array_0);
            }
            r
        },
        ConfigNode::Hash(v) => {
            let mut out: Vec<(String, ConfigNode)> = Vec::new();
            let mut i: usize = 0;
            while i < v.len()
                invariant
                    i <= v.len(),
                    out@.len() == i as int,
                    *n is Hash && n->Hash_0 == *v,
                    forall|j: int| 0 <= j < i as int ==> out@[j].0@ == v@[j].0@ && out@[j].1@
                        == resolve_node_spec(v@[j].1@, refs@),
                decreases v.len() - i,
            {
                proof {
                    assert(decreases_to!(*n => *v));
                    assert(decreases_to!(*v => v@[i as int]));
                    assert(decreases_to!(v@[i as int] => v@[i as int].1));
                }
                out.push((v[i].0.clone(), resolve_node(&v[i].1, refs)));
                i = i + 1;
            }
            let r = ConfigNode::Hash(out);
            proof {
                assert(r@->Hash_0 =~= resolve_node_spec(n@, refs@)->Hash_0);
            }
            r
        },
        _ => {
            let r = n.deep_copy();
            r
        },
    }
}

/// Substitutes references in the document behind `doc`, in place.
pub fn resolve(doc: &mut ConfigNode, refs: &ReferenceTable)
    ensures
        final(doc)@ == resolve_node_spec(old(doc)@, refs@),
{
    let r = resolve_node(doc, refs);
    *doc = r;
}

/// Whether a string holds a reference marker opening.
pub open spec fn str_has_marker(s: Seq<char>) -> bool {
    has_sub(s, open_marker())
}

/// Whether any string scalar in the tree holds a reference marker opening.
pub open spec fn doc_has_marker(n: NodeV) -> bool
    decreases n,
    via doc_has_marker_dec
{
    match n {
        NodeV::Str(s) => str_has_marker(s),
        NodeV::Array(el) => exists|i: int| 0 <= i < el.len() && doc_has_marker(el[i]),
        NodeV::Hash(es) => exists|i: int| 0 <= i < es.len() && doc_has_marker(es[i].1),
        _ => false,
    }
}

#[via_fn]
proof fn doc_has_marker_dec(n: NodeV) {
    match n {
        NodeV::Array(el) => {
            assert forall|i: int| 0 <= i < el.len() implies decreases_to!(n => el[i]) by {
                assert(decreases_to!(n => el));
                assert(decreases_to!(el => el[i]));
            }
        },
        NodeV::Hash(es) => {
            assert forall|i: int| 0 <= i < es.len() implies decreases_to!(n => es[i].1) by {
                assert(decreases_to!(n => es));
                assert(decreases_to!(es => es[i]));
                assert(decreases_to!(es[i] => es[i].1));
            }
        },
        _ => {},
    }
}

/// Reference substitution leaves a marker-free string unchanged.
pub proof fn lemma_resolve_str_no_marker(s: Seq<char>, refs: Seq<(Seq<char>, Seq<char>)>)
    requires
        !str_has_marker(s),
    ensures
        resolve_str_spec(s, refs) == s,
{
}

/// Reference substitution idempotence, first half: resolving a document
/// with no reference markers returns it unchanged.
pub proof fn lemma_resolve_doc_no_marker(n: NodeV, refs: Seq<(Seq<char>, Seq<char>)>)
    requires
        !doc_has_marker(n),
    ensures
        resolve_node_spec(n, refs) == n,
    decreases n,
{
    match n {
        NodeV::Str(s) => {
            lemma_resolve_str_no_marker(s, refs);
        },
        NodeV::Array(el) => {
            assert forall|i: int| 0 <= i < el.len() implies resolve_node_spec(el[i], refs)
                == el[i] by {
                assert(decreases_to!(n => el));
                assert(decreases_to!(el => el[i]));
                assert(!doc_has_marker(el[i]));
                lemma_resolve_doc_no_marker(el[i], refs);
            }
            assert(resolve_node_spec(n, refs)->Array_0 =~= el);
        },
        NodeV::Hash(es) => {
            assert forall|i: int| 0 <= i < es.len() implies resolve_node_spec(es[i].1, refs)
                == es[i].1 by {
                assert(decreases_to!(n => es));
                assert(decreases_to!(es => es[i]));
                assert(decreases_to!(es[i] => es[i].1));
                assert(!doc_has_marker(es[i].1));
                lemma_resolve_doc_no_marker(es[i].1, refs);
            }
            assert(resolve_node_spec(n, refs)->Hash_0 =~= es);
        },
        _ => {},
    }
}

/// Reference substitution idempotence, second half: when one resolution
/// pass leaves no markers behind, a second pass changes nothing.
pub proof fn lemma_resolve_doc_idempotent(n: NodeV, refs: Seq<(Seq<char>, Seq<char>)>)
    requires
        !doc_has_marker(resolve_node_spec(n, refs)),
    ensures
        resolve_node_spec(resolve_node_spec(n, refs), refs) == resolve_node_spec(n, refs),
{
    lemma_resolve_doc_no_marker(resolve_node_spec(n, refs), refs);
}

} // verus!
