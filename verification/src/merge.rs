//! Deep merge of configuration documents with override semantics.

use vstd::prelude::*;
use crate::node::{ConfigNode, NodeV, hash_lookup, hash_has_key, hash_find, lemma_hash_lookup_skip, lemma_hash_lookup_some_iff_has_key};

verus! {

/// Predicate selecting the entries of a source mapping whose key is absent
/// from the target mapping `ae`.
pub open spec fn key_absent_in(ae: Seq<(Seq<char>, NodeV)>) -> spec_fn((Seq<char>, NodeV)) -> bool {
    |e: (Seq<char>, NodeV)| !hash_has_key(ae, e.0)
}

/// Deep merge: when both nodes are mappings, entries of the source merge
/// recursively into the target (target entry order kept, new keys appended
/// in source order); any other combination lets the source `b` wholly
/// replace the target `a`.
pub open spec fn merge_spec(a: NodeV, b: NodeV) -> NodeV
    decreases a,
    via merge_spec_dec
{
    if a is Hash && b is Hash {
        let ae = a->Hash_0;
        let be = b->Hash_0;
        NodeV::Hash(
            Seq::new(
                ae.len(),
                |i: int| if 0 <= i < ae.len() {
                    match hash_lookup(be, ae[i].0) {
                        Option::Some(bv) => (ae[i].0, merge_spec(ae[i].1, bv)),
                        Option::None => ae[i],
                    }
                } else {
                    (Seq::empty(), NodeV::Null)
                },
            ) + be.filter(key_absent_in(ae)),
        )
    } else {
        b
    }
}

#[via_fn]
proof fn merge_spec_dec(a: NodeV, b: NodeV) {
    if a is Hash && b is Hash {
        let ae = a->Hash_0;
        assert forall|i: int| 0 <= i < ae.len() implies decreases_to!(a => ae[i].1) by {
            assert(decreases_to!(a => ae));
            assert(decreases_to!(ae => ae[i]));
            assert(decreases_to!(ae[i] => ae[i].1));
        }
    }
}

/// Index of the first entry binding `k`, for a mapping that has `k`.
pub open spec fn first_key_index(entries: Seq<(Seq<char>, NodeV)>, k: Seq<char>) -> int
    decreases entries.len(),
{
    if entries.len() == 0 {
        0
    } else if entries[0].0 == k {
        0
    } else {
        1 + first_key_index(entries.drop_first(), k)
    }
}

pub proof fn lemma_first_key_index(entries: Seq<(Seq<char>, NodeV)>, k: Seq<char>)
    requires
        hash_has_key(entries, k),
    ensures
        0 <= first_key_index(entries, k) < entries.len(),
        entries[first_key_index(entries, k)].0 == k,
        forall|j: int| 0 <= j < first_key_index(entries, k) ==> entries[j].0 != k,
    decreases entries.len(),
{
    let i0 = choose|i: int| 0 <= i < entries.len() && entries[i].0 == k;
    if entries[0].0 != k {
        assert(entries.drop_first()[i0 - 1].0 == k);
        lemma_first_key_index(entries.drop_first(), k);
        let f = first_key_index(entries.drop_first(), k);
        assert forall|j: int| 0 <= j < 1 + f implies entries[j].0 != k by {
            if j > 0 {
                assert(entries.drop_first()[j - 1].0 != k);
            }
        }
    }
}

/// Looking up a key whose first occurrence is at index `i`.
pub proof fn lemma_lookup_at_index<V>(entries: Seq<(Seq<char>, V)>, k: Seq<char>, i: int)
    requires
        0 <= i < entries.len(),
        entries[i].0 == k,
        forall|j: int| 0 <= j < i ==> entries[j].0 != k,
    ensures
        hash_lookup(entries, k) == Some(entries[i].1),
{
    lemma_hash_lookup_skip(entries, k, i);
    assert(entries.skip(i)[0] == entries[i]);
}

/// Looking up an absent key yields nothing.
pub proof fn lemma_lookup_absent<V>(entries: Seq<(Seq<char>, V)>, k: Seq<char>)
    requires
        !hash_has_key(entries, k),
    ensures
        hash_lookup(entries, k) is None,
{
    assert forall|j: int| 0 <= j < entries.len() implies entries[j].0 != k by {
        if entries[j].0 == k {
            assert(hash_has_key(entries, k));
        }
    }
    lemma_hash_lookup_skip(entries, k, entries.len() as int);
    assert(entries.skip(entries.len() as int) =~= Seq::empty());
}

/// Looking up in a concatenation: the left part is searched first.
pub proof fn lemma_lookup_concat(
    s1: Seq<(Seq<char>, NodeV)>,
    s2: Seq<(Seq<char>, NodeV)>,
    k: Seq<char>,
)
    ensures
        hash_lookup(s1 + s2, k) == if hash_has_key(s1, k) {
            hash_lookup(s1, k)
        } else {
            hash_lookup(s2, k)
        },
    decreases s1.len(),
{
    if s1.len() == 0 {
        assert(s1 + s2 =~= s2);
        assert(!hash_has_key(s1, k));
    } else {
        assert((s1 + s2)[0] == s1[0]);
        if s1[0].0 == k {
            assert(hash_has_key(s1, k));
        } else {
            assert((s1 + s2).drop_first() =~= s1.drop_first() + s2);
            lemma_lookup_concat(s1.drop_first(), s2, k);
            assert(hash_has_key(s1, k) ==> hash_has_key(s1.drop_first(), k)) by {
                if hash_has_key(s1, k) {
                    let i = choose|i: int| 0 <= i < s1.len() && s1[i].0 == k;
                    assert(s1.drop_first()[i - 1].0 == k);
                }
            }
            assert(hash_has_key(s1.drop_first(), k) ==> hash_has_key(s1, k)) by {
                if hash_has_key(s1.drop_first(), k) {
                    let i = choose|i: int|
                        0 <= i < s1.drop_first().len() && s1.drop_first()[i].0 == k;
                    assert(s1[i + 1].0 == k);
                }
            }
        }
    }
}

/// Dropping the entries whose key is bound in `ae` does not change lookups
/// of keys that `ae` does not bind.
pub proof fn lemma_lookup_filter_absent(
    ae: Seq<(Seq<char>, NodeV)>,
    be: Seq<(Seq<char>, NodeV)>,
    k: Seq<char>,
)
    requires
        !hash_has_key(ae, k),
    ensures
        hash_lookup(be.filter(key_absent_in(ae)), k) == hash_lookup(be, k),
    decreases be.len(),
{
    reveal_with_fuel(Seq::<_>::filter, 3);
    let pred = key_absent_in(ae);
    if be.len() == 0 {
        assert(be.filter(pred) =~= be);
    } else {
        let d = be.drop_last();
        let x = be.last();
        lemma_lookup_filter_absent(ae, d, k);
        assert(be =~= d + seq![x]);
        lemma_lookup_concat(d, seq![x], k);
        lemma_hash_lookup_some_iff_has_key(d, k);
        lemma_hash_lookup_some_iff_has_key(d.filter(pred), k);
        assert(seq![x].drop_first() =~= Seq::empty());
        if pred(x) {
            assert(be.filter(pred) == d.filter(pred).push(x));
            assert(d.filter(pred).push(x) =~= d.filter(pred) + seq![x]);
            lemma_lookup_concat(d.filter(pred), seq![x], k);
            assert(hash_lookup(be.filter(pred), k) == hash_lookup(be, k));
        } else {
            assert(be.filter(pred) == d.filter(pred));
            assert(x.0 != k) by {
                if x.0 == k {
                    assert(pred(x));
                }
            }
            assert(hash_lookup(seq![x], k) is None) by {
                assert(seq![x][0] == x);
                assert(seq![x].drop_first() =~= Seq::<(Seq<char>, NodeV)>::empty());
                assert(hash_lookup(Seq::<(Seq<char>, NodeV)>::empty(), k) is None);
            }
            assert(hash_lookup(be.filter(pred), k) == hash_lookup(be, k));
        }
    }
}

/// The merge override law at one mapping level: for mappings `a` and `b`,
/// a key bound in both maps to the merge of the two bound values (which is
/// the source value unless both are mappings); a key bound only in `a`
/// keeps `a`'s value; a key bound only in `b` gets `b`'s value.
pub proof fn lemma_merge_lookup(a: NodeV, b: NodeV, k: Seq<char>)
    requires
        a is Hash,
        b is Hash,
    ensures
        merge_spec(a, b) is Hash,
        hash_lookup(merge_spec(a, b)->Hash_0, k) == {
            let ae = a->Hash_0;
            let be = b->Hash_0;
            if hash_has_key(ae, k) {
                if hash_has_key(be, k) {
                    Some(
                        merge_spec(hash_lookup(ae, k)->Some_0, hash_lookup(be, k)->Some_0),
                    )
                } else {
                    hash_lookup(ae, k)
                }
            } else {
                hash_lookup(be, k)
            }
        },
{
    let ae = a->Hash_0;
    let be = b->Hash_0;
    let m = merge_spec(a, b)->Hash_0;
    let pred = key_absent_in(ae);
    assert(m.len() == ae.len() + be.filter(pred).len());
    assert(forall|i: int| 0 <= i < ae.len() ==> (#[trigger] m[i]).0 == ae[i].0);
    lemma_hash_lookup_some_iff_has_key(ae, k);
    lemma_hash_lookup_some_iff_has_key(be, k);
    if hash_has_key(ae, k) {
        let fi = first_key_index(ae, k);
        lemma_first_key_index(ae, k);
        lemma_lookup_at_index(ae, k, fi);
        lemma_lookup_at_index(m, k, fi);
        if hash_has_key(be, k) {
            assert(m[fi].1 == merge_spec(ae[fi].1, hash_lookup(be, k)->Some_0));
        } else {
            lemma_lookup_absent(be, k);
            assert(m[fi].1 == ae[fi].1);
        }
    } else {
        assert(forall|j: int| 0 <= j < ae.len() ==> (#[trigger] m[j]).0 != k) by {
            assert forall|j: int| 0 <= j < ae.len() implies (#[trigger] m[j]).0 != k by {
                if m[j].0 == k {
                    assert(ae[j].0 == k);
                    assert(hash_has_key(ae, k));
                }
            }
        }
        lemma_hash_lookup_skip(m, k, ae.len() as int);
        assert(m.skip(ae.len() as int) =~= be.filter(pred));
        lemma_lookup_filter_absent(ae, be, k);
    }
}

/// The value found by following a path of keys through nested mappings.
pub open spec fn get_path(n: NodeV, path: Seq<Seq<char>>) -> Option<NodeV>
    decreases path.len(),
{
    if path.len() == 0 {
        Some(n)
    } else if n is Hash {
        match hash_lookup(n->Hash_0, path[0]) {
            Some(c) => get_path(c, path.drop_first()),
            None => None,
        }
    } else {
        None
    }
}

/// Merge override law, source side: a key path present in both documents,
/// at which the two bound values are not both mappings, ends up bound to
/// the source document's value.
pub proof fn lemma_merge_override(a: NodeV, b: NodeV, p: Seq<Seq<char>>)
    requires
        get_path(a, p) is Some,
        get_path(b, p) is Some,
        !(get_path(a, p)->Some_0 is Hash && get_path(b, p)->Some_0 is Hash),
    ensures
        get_path(merge_spec(a, b), p) == get_path(b, p),
    decreases p.len(),
{
    if !(a is Hash && b is Hash) {
        assert(merge_spec(a, b) == b);
    } else if p.len() == 0 {
        assert(get_path(a, p)->Some_0 == a);
    } else {
        let k = p[0];
        lemma_hash_lookup_some_iff_has_key(a->Hash_0, k);
        lemma_hash_lookup_some_iff_has_key(b->Hash_0, k);
        let av = hash_lookup(a->Hash_0, k)->Some_0;
        let bv = hash_lookup(b->Hash_0, k)->Some_0;
        lemma_merge_lookup(a, b, k);
        lemma_merge_override(av, bv, p.drop_first());
    }
}

/// Whether the source document `b` leaves the target's binding at `p`
/// alone: at each step of the path either the key is absent from the
/// source, or both bound values are mappings to descend into.
pub open spec fn source_leaves_path(a: NodeV, b: NodeV, p: Seq<Seq<char>>) -> bool
    decreases p.len(),
{
    if p.len() == 0 {
        false
    } else if !(a is Hash && b is Hash) {
        false
    } else {
        match hash_lookup(b->Hash_0, p[0]) {
            None => true,
            Some(bv) => match hash_lookup(a->Hash_0, p[0]) {
                Some(av) => av is Hash && bv is Hash && source_leaves_path(av, bv, p.drop_first()),
                None => false,
            },
        }
    }
}

/// Merge override law, target side: a key path present in the target that
/// the source leaves alone keeps the target's value.
pub proof fn lemma_merge_keeps_target(a: NodeV, b: NodeV, p: Seq<Seq<char>>)
    requires
        get_path(a, p) is Some,
        source_leaves_path(a, b, p),
    ensures
        get_path(merge_spec(a, b), p) == get_path(a, p),
    decreases p.len(),
{
    let k = p[0];
    lemma_hash_lookup_some_iff_has_key(a->Hash_0, k);
    lemma_hash_lookup_some_iff_has_key(b->Hash_0, k);
    lemma_merge_lookup(a, b, k);
    let av = hash_lookup(a->Hash_0, k)->Some_0;
    match hash_lookup(b->Hash_0, k) {
        None => {},
        Some(bv) => {
            lemma_merge_keeps_target(av, bv, p.drop_first());
        },
    }
}

/// Deep-merges `b` into `a`, producing a new tree.
pub fn merged(a: &ConfigNode, b: &ConfigNode) -> (r: ConfigNode)
    ensures
        r@ == merge_spec(a@, b@),
    decreases a,
{
    match (a, b) {
        (ConfigNode::Hash(ae), ConfigNode::Hash(be)) => {
            let ghost am = a@->Hash_0;
            let ghost bm = b@->Hash_0;
            let mut out: Vec<(String, ConfigNode)> = Vec::new();
            let mut i: usize = 0;
            while i < ae.len()
                invariant
                    i <= ae.len(),
                    out@.len() == i as int,
                    *a is Hash && a->Hash_0 == *ae,
                    *b is Hash && b->Hash_0 == *be,
                    am == a@->Hash_0,
                    bm == b@->Hash_0,
                    forall|j: int| 0 <= j < i as int ==> (#[trigger] out@[j].0@, out@[j].1@)
                        == (match hash_lookup(bm, am[j].0) {
                            Option::Some(bv) => (am[j].0, merge_spec(am[j].1, bv)),
                            Option::None => am[j],
                        }),
                decreases ae.len() - i,
            {
                proof {
                    assert(decreases_to!(*a => *ae));
                    assert(decreases_to!(*ae => ae@[i as int]));
                    assert(decreases_to!(ae@[i as int] => ae@[i as int].1));
                }
                let ghost k = am[i as int].0;
                match hash_find(be, &ae[i].0) {
                    Some(bi) => {
                        proof {
                            lemma_lookup_at_index(bm, k, bi as int);
                        }
                        let v = merged(&ae[i].1, &be[bi].1);
                        out.push((ae[i].0.clone(), v));
                    },
                    None => {
                        proof {
                            lemma_lookup_absent(bm, k);
                        }
                        out.push((ae[i].0.clone(), ae[i].1.deep_copy()));
                    },
                }
                i = i + 1;
            }
            // Append the source-only entries, in source order.
            let ghost pred = key_absent_in(am);
            let mut j: usize = 0;
            while j < be.len()
                invariant
                    j <= be.len(),
                    *a is Hash && a->Hash_0 == *ae,
                    *b is Hash && b->Hash_0 == *be,
                    am == a@->Hash_0,
                    bm == b@->Hash_0,
                    pred == key_absent_in(am),
                    out@.len() >= am.len(),
                    out@.len() == am.len() + bm.subrange(0, j as int).filter(pred).len(),
                    forall|l: int| 0 <= l < am.len() ==> (#[trigger] out@[l].0@, out@[l].1@)
                        == (match hash_lookup(bm, am[l].0) {
                            Option::Some(bv) => (am[l].0, merge_spec(am[l].1, bv)),
                            Option::None => am[l],
                        }),
                    Seq::new(
                        (out@.len() - am.len()) as nat,
                        |l: int| if 0 <= l < out@.len() - am.len() {
                            (out@[am.len() + l].0@, out@[am.len() + l].1@)
                        } else {
                            (Seq::<char>::empty(), NodeV::Null)
                        },
                    ) =~= bm.subrange(0, j as int).filter(pred),
                decreases be.len() - j,
            {
                let ghost pre = bm.subrange(0, j as int);
                let ghost cur = bm.subrange(0, j as int + 1);
                proof {
                    assert(cur.drop_last() =~= pre);
                    assert(cur.last() == bm[j as int]);
                    reveal_with_fuel(Seq::<_>::filter, 3);
                }
                match hash_find(ae, &be[j].0) {
                    Some(ai) => {
                        proof {
                            assert(am[ai as int].0 == bm[j as int].0);
                            assert(hash_has_key(am, bm[j as int].0));
                            assert(!pred(bm[j as int]));
                            assert(cur.filter(pred) =~= pre.filter(pred));
                        }
                    },
                    None => {
                        proof {
                            assert(!hash_has_key(am, bm[j as int].0)) by {
                                if hash_has_key(am, bm[j as int].0) {
                                    let w = choose|w: int|
                                        0 <= w < am.len() && am[w].0 == bm[j as int].0;
                                    assert(ae@[w].0@ == be@[j as int].0@);
                                }
                            }
                            assert(pred(bm[j as int]));
                            assert(cur.filter(pred) =~= pre.filter(pred).push(bm[j as int]));
                        }
                        out.push((be[j].0.clone(), be[j].1.deep_copy()));
                    },
                }
                j = j + 1;
            }
            let r = ConfigNode::Hash(out);
            proof {
                assert(bm.subrange(0, bm.len() as int) =~= bm);
                assert(r@->Hash_0 =~= merge_spec(a@, b@)->Hash_0);
            }
            r
        },
        _ => {
            let r = b.deep_copy();
            proof {
                assert(!(a@ is Hash && b@ is Hash));
            }
            r
        },
    }
}

/// Deep-merges the source `b` into the target behind `a` (later document
/// wins, recursively for mappings).
pub fn combine_yaml(a: &mut ConfigNode, b: &ConfigNode)
    ensures
        final(a)@ == merge_spec(old(a)@, b@),
{
    let m = merged(a, b);
    *a = m;
}

/// Left-fold of a document list through the merge, lowest priority first,
/// starting from an empty (null) tree.
pub open spec fn merge_all_spec(docs: Seq<NodeV>) -> NodeV
    decreases docs.len(),
{
    if docs.len() == 0 {
        NodeV::Null
    } else {
        merge_spec(merge_all_spec(docs.drop_last()), docs.last())
    }
}

/// Three documents fold exactly as iterated left-to-right merging: the
/// fold of `[d1, d2, d3]` is `merge(merge(d1, d2), d3)` (merging into an
/// empty tree yields the document itself).
pub proof fn lemma_merge_all_is_iterated_merge(d1: NodeV, d2: NodeV, d3: NodeV)
    ensures
        merge_all_spec(seq![d1, d2, d3]) == merge_spec(merge_spec(d1, d2), d3),
{
    let s = seq![d1, d2, d3];
    assert(s.last() == d3);
    assert(s.drop_last() =~= seq![d1, d2]);
    assert(seq![d1, d2].last() == d2);
    assert(seq![d1, d2].drop_last() =~= seq![d1]);
    assert(seq![d1].last() == d1);
    assert(seq![d1].drop_last() =~= Seq::<NodeV>::empty());
    assert(merge_all_spec(Seq::<NodeV>::empty()) == NodeV::Null);
    assert(merge_spec(NodeV::Null, d1) == d1);
    assert(merge_all_spec(seq![d1]) == d1);
    assert(merge_all_spec(seq![d1, d2]) == merge_spec(d1, d2));
}

/// Folds an ordered document list into one tree; later documents override
/// earlier ones.
pub fn merge_all(docs: &Vec<ConfigNode>) -> (r: ConfigNode)
    ensures
        r@ == merge_all_spec(Seq::new(docs@.len(), |i: int| docs@[i]@)),
{
    let ghost dv = Seq::new(docs@.len(), |i: int| docs@[i]@);
    let mut acc = ConfigNode::Null;
    let mut i: usize = 0;
    while i < docs.len()
        invariant
            i <= docs.len(),
            dv == Seq::new(docs@.len(), |l: int| docs@[l]@),
            acc@ == merge_all_spec(dv.subrange(0, i as int)),
        decreases docs.len() - i,
    {
        proof {
            assert(dv.subrange(0, i as int + 1).drop_last() =~= dv.subrange(0, i as int));
            assert(dv.subrange(0, i as int + 1).last() == docs@[i as int]@);
        }
        combine_yaml(&mut acc, &docs[i]);
        i = i + 1;
    }
    proof {
        assert(dv.subrange(0, docs@.len() as int) =~= dv);
    }
    acc
}

} // verus!
