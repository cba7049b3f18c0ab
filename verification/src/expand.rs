//! Merge-key expansion: a mapping entry keyed `<<` inherits the entries
//! of its value (a mapping, or a sequence of mappings) into the mapping
//! that holds it, with explicit keys winning and inherited keys appended.
//! Expansion runs bottom-up over the whole tree, before cross-document
//! merging.

use vstd::prelude::*;
use crate::node::{ConfigNode, NodeV, hash_lookup, hash_has_key, hash_find};
use crate::facts::entries_view;
use crate::merge::{lemma_lookup_at_index, lemma_lookup_absent};

verus! {

/// The merge key.
pub open spec fn merge_key() -> Seq<char> {
    "<<"@
}

/// Expansion fails when a merge value is neither a mapping nor a sequence
/// of mappings.
#[derive(Debug)]
pub enum MergeKeyError {
    InvalidMergeValue,
}

impl MergeKeyError {
    /// The failure, described.
    pub fn message(&self) -> (r: String)
        ensures
            r@ == "only mappings and arrays of mappings may be merged"@,
    {
        String::from_str("only mappings and arrays of mappings may be merged")
    }
}

/// Entries of `extra` whose key is not yet bound are appended to `base`,
/// in order; keys already bound (including by earlier `extra` entries)
/// are left alone.
pub open spec fn add_absent(
    base: Seq<(Seq<char>, NodeV)>,
    extra: Seq<(Seq<char>, NodeV)>,
) -> Seq<(Seq<char>, NodeV)>
    decreases extra.len(),
{
    if extra.len() == 0 {
        base
    } else {
        let b2 = if hash_has_key(base, extra[0].0) {
            base
        } else {
            base.push(extra[0])
        };
        add_absent(b2, extra.drop_first())
    }
}

/// The folded entries of a sequence of mappings: each mapping's entries
/// merged in turn, earlier mappings winning.
pub open spec fn fold_hashes(arr: Seq<NodeV>) -> Seq<(Seq<char>, NodeV)>
    decreases arr.len(),
{
    if arr.len() == 0 {
        Seq::empty()
    } else {
        add_absent(
            fold_hashes(arr.drop_last()),
            if arr.last() is Hash {
                arr.last()->Hash_0
            } else {
                Seq::empty()
            },
        )
    }
}

/// The entries that keep their key after the merge key is removed.
pub open spec fn key_differs(k: Seq<char>) -> spec_fn((Seq<char>, NodeV)) -> bool {
    |e: (Seq<char>, NodeV)| e.0 != k
}

/// Whether expansion succeeds everywhere in the tree: every merge value
/// (after its own expansion) is a mapping or a sequence of mappings.
pub open spec fn expand_ok(n: NodeV) -> bool
    decreases n, 0int,
    via expand_ok_dec
{
    match n {
        NodeV::Array(el) => forall|i: int| 0 <= i < el.len() ==> expand_ok(#[trigger] el[i]),
        NodeV::Hash(es) => (forall|i: int|
            0 <= i < es.len() ==> expand_ok(#[trigger] es[i].1)) && (match hash_lookup(
            expanded_entries(es),
            merge_key(),
        ) {
            Some(mv) => mv is Hash || (mv is Array && forall|j: int|
                0 <= j < mv->Array_0.len() ==> (#[trigger] mv->Array_0[j]) is Hash),
            None => true,
        }),
        _ => true,
    }
}

/// The expanded tree (meaningful where expansion succeeds; a failing
/// merge value contributes nothing).
pub open spec fn expand_val(n: NodeV) -> NodeV
    decreases n, 0int,
    via expand_val_dec
{
    match n {
        NodeV::Array(el) => NodeV::Array(expanded_elems(el)),
        NodeV::Hash(es) => {
            let ee = expanded_entries(es);
            match hash_lookup(ee, merge_key()) {
                None => NodeV::Hash(ee),
                Some(mv) => {
                    let base = ee.filter(key_differs(merge_key()));
                    match mv {
                        NodeV::Hash(me) => NodeV::Hash(add_absent(base, me)),
                        NodeV::Array(arr) => NodeV::Hash(add_absent(base, fold_hashes(arr))),
                        _ => NodeV::Hash(base),
                    }
                },
            }
        },
        _ => n,
    }
}

/// The elements of a sequence node, each expanded.
pub open spec fn expanded_elems(el: Seq<NodeV>) -> Seq<NodeV>
    decreases el, 1int,
    via expanded_elems_dec
{
    Seq::new(
        el.len(),
        |i: int| if 0 <= i < el.len() {
            expand_val(el[i])
        } else {
            NodeV::Null
        },
    )
}

/// The entries of a mapping node, each value expanded.
pub open spec fn expanded_entries(es: Seq<(Seq<char>, NodeV)>) -> Seq<(Seq<char>, NodeV)>
    decreases es, 1int,
    via expanded_entries_dec
{
    Seq::new(
        es.len(),
        |i: int| if 0 <= i < es.len() {
            (es[i].0, expand_val(es[i].1))
        } else {
            (Seq::empty(), NodeV::Null)
        },
    )
}

#[via_fn]
proof fn expand_ok_dec(n: NodeV) {
    match n {
        NodeV::Array(el) => {
            assert forall|i: int| 0 <= i < el.len() implies decreases_to!(n => el[i]) by {
                assert(decreases_to!(n => el));
                assert(decreases_to!(el => el[i]));
            }
        },
        NodeV::Hash(es) => {
            assert(decreases_to!(n => es));
            assert forall|i: int| 0 <= i < es.len() implies decreases_to!(n => es[i].1) by {
                assert(decreases_to!(es => es[i]));
                assert(decreases_to!(es[i] => es[i].1));
            }
        },
        _ => {},
    }
}

#[via_fn]
proof fn expand_val_dec(n: NodeV) {
    match n {
        NodeV::Array(el) => {
            assert(decreases_to!(n => el));
        },
        NodeV::Hash(es) => {
            assert(decreases_to!(n => es));
        },
        _ => {},
    }
}

#[via_fn]
proof fn expanded_elems_dec(el: Seq<NodeV>) {
    assert forall|i: int| 0 <= i < el.len() implies decreases_to!(el => el[i]) by {}
}

#[via_fn]
proof fn expanded_entries_dec(es: Seq<(Seq<char>, NodeV)>) {
    assert forall|i: int| 0 <= i < es.len() implies decreases_to!(es => es[i].1) by {
        assert(decreases_to!(es => es[i]));
        assert(decreases_to!(es[i] => es[i].1));
    }
}

/// Appends to `base` the entries of `extra` whose key is not yet bound.
#[verifier::loop_isolation(false)]
fn push_absent(base: &mut Vec<(String, ConfigNode)>, extra: &Vec<(String, ConfigNode)>)
    ensures
        entries_view(final(base)@) == add_absent(entries_view(old(base)@), entries_view(extra@)),
{
    let ghost full = entries_view(extra@);
    proof {
        assert(full.skip(0) =~= full);
    }
    let mut j: usize = 0;
    while j < extra.len()
        invariant
            j <= extra.len(),
            full == entries_view(extra@),
            add_absent(entries_view(base@), full.skip(j as int)) == add_absent(
                entries_view(old(base)@),
                full,
            ),
        decreases extra.len() - j,
    {
        proof {
            assert(full.skip(j as int)[0] == full[j as int]);
            assert(full.skip(j as int).drop_first() =~= full.skip(j as int + 1));
            assert(full[j as int] == (extra@[j as int].0@, extra@[j as int].1@));
        }
        let ghost pre = entries_view(base@);
        match hash_find(base, &extra[j].0) {
            Some(w) => {
                proof {
                    assert(pre[w as int].0 == full[j as int].0);
                    assert(hash_has_key(pre, full[j as int].0));
                }
            },
            None => {
                proof {
                    assert(!hash_has_key(pre, full[j as int].0)) by {
                        if hash_has_key(pre, full[j as int].0) {
                            let w = choose|w: int|
                                0 <= w < pre.len() && pre[w].0 == full[j as int].0;
                            assert(base@[w].0@ != extra@[j as int].0@);
                        }
                    }
                }
                base.push((extra[j].0.clone(), extra[j].1.deep_copy()));
                proof {
                    assert(entries_view(base@) =~= pre.push(full[j as int]));
                }
            },
        }
        j = j + 1;
    }
    proof {
        assert(full.skip(extra@.len() as int) =~= Seq::<(Seq<char>, NodeV)>::empty());
    }
}

/// Expands merge keys everywhere in a tree, bottom-up: an expansion
/// succeeds exactly when every merge value is a mapping or a sequence of
/// mappings, and then yields the expanded tree.
#[verifier::loop_isolation(false)]
pub fn expand_merge_keys(n: &ConfigNode) -> (r: Result<ConfigNode, MergeKeyError>)
    ensures
        r is Ok <==> expand_ok(n@),
        r matches Ok(v) ==> v@ == expand_val(n@),
    decreases n,
{
    match n {
        ConfigNode::Null => Ok(ConfigNode::Null),
        ConfigNode::Bool(b) => Ok(ConfigNode::Bool(*b)),
        ConfigNode::Int(i) => Ok(ConfigNode::Int(*i)),
        ConfigNode::Str(s) => Ok(ConfigNode::Str(s.clone())),
        ConfigNode::Array(v) => {
            let ghost el = n@->Array_0;
            let mut out: Vec<ConfigNode> = Vec::new();
            let mut i: usize = 0;
            while i < v.len()
                invariant
                    i <= v.len(),
                    out@.len() == i as int,
                    *n is Array && n->Array_0 == *v,
                    el == n@->Array_0,
                    forall|j: int| 0 <= j < i as int ==> expand_ok(#[trigger] el[j]),
                    forall|j: int| 0 <= j < i as int ==> out@[j]@ == expand_val(#[trigger] el[j]),
                decreases v.len() - i,
            {
                proof {
                    assert(decreases_to!(*n => *v));
                    assert(decreases_to!(*v => v@[i as int]));
                    assert(el[i as int] == v@[i as int]@);
                }
                match expand_merge_keys(&v[i]) {
                    Ok(c) => {
                        out.push(c);
                    },
                    Err(e) => {
                        proof {
                            assert(!expand_ok(el[i as int]));
                            assert(!expand_ok(n@));
                        }
                        return Err(e);
                    },
                }
                i = i + 1;
            }
            let r = ConfigNode::Array(out);
            proof {
                assert(expand_ok(n@));
                assert(r@->Array_0 =~= expanded_elems(el));
                assert(r@ == expand_val(n@));
            }
            Ok(r)
        },
        ConfigNode::Hash(v) => {
            let ghost es = n@->Hash_0;
            let mut ee: Vec<(String, ConfigNode)> = Vec::new();
            let mut i: usize = 0;
            while i < v.len()
                invariant
                    i <= v.len(),
                    ee@.len() == i as int,
                    *n is Hash && n->Hash_0 == *v,
                    es == n@->Hash_0,
                    forall|j: int| 0 <= j < i as int ==> expand_ok(#[trigger] es[j].1),
                    forall|j: int| 0 <= j < i as int ==> (#[trigger] ee@[j].0@, ee@[j].1@) == (
                    es[j].0, expand_val(es[j].1)),
                decreases v.len() - i,
            {
                proof {
                    assert(decreases_to!(*n => *v));
                    assert(decreases_to!(*v => v@[i as int]));
                    assert(decreases_to!(v@[i as int] => v@[i as int].1));
                    assert(es[i as int] == (v@[i as int].0@, v@[i as int].1@));
                }
                match expand_merge_keys(&v[i].1) {
                    Ok(c) => {
                        ee.push((v[i].0.clone(), c));
                    },
                    Err(e) => {
                        proof {
                            assert(!expand_ok(es[i as int].1));
                            assert(!expand_ok(n@));
                        }
                        return Err(e);
                    },
                }
                i = i + 1;
            }
            proof {
                assert(entries_view(ee@) =~= expanded_entries(es));
            }
            let mk = String::from_str("<<");
            proof {
                reveal_strlit("<<");
                assert(mk@ == merge_key());
            }
            let eev_ghost = Ghost(entries_view(ee@));
            match hash_find(&ee, &mk) {
                None => {
                    proof {
                        assert(!hash_has_key(entries_view(ee@), merge_key())) by {
                            if hash_has_key(entries_view(ee@), merge_key()) {
                                let w = choose|w: int|
                                    0 <= w < entries_view(ee@).len() && entries_view(ee@)[w].0
                                        == merge_key();
                                assert(ee@[w].0@ != mk@);
                            }
                        }
                        lemma_lookup_absent(entries_view(ee@), merge_key());
                        assert(expand_ok(n@));
                    }
                    let r = ConfigNode::Hash(ee);
                    proof {
                        assert(r@->Hash_0 =~= expanded_entries(es));
                        assert(r@ == expand_val(n@));
                    }
                    Ok(r)
                },
                Some(mi) => {
                    proof {
                        lemma_lookup_at_index(entries_view(ee@), merge_key(), mi as int);
                    }
                    let mv = ee[mi].1.deep_copy();
                    // Keep the entries whose key is not the merge key.
                    let ghost eev = entries_view(ee@);
                    let ghost pred = key_differs(merge_key());
                    let mut base: Vec<(String, ConfigNode)> = Vec::new();
                    let mut j: usize = 0;
                    while j < ee.len()
                        invariant
                            j <= ee.len(),
                            eev == entries_view(ee@),
                            pred == key_differs(merge_key()),
                            mk@ == merge_key(),
                            entries_view(base@) =~= eev.subrange(0, j as int).filter(pred),
                        decreases ee.len() - j,
                    {
                        let ghost pre = eev.subrange(0, j as int);
                        let ghost cur = eev.subrange(0, j as int + 1);
                        proof {
                            assert(cur.drop_last() =~= pre);
                            assert(cur.last() == eev[j as int]);
                            reveal_with_fuel(Seq::<_>::filter, 3);
                        }
                        if !(ee[j].0 == mk) {
                            proof {
                                assert(eev[j as int].0 == ee@[j as int].0@);
                                assert(pred(eev[j as int]));
                            }
                            base.push((ee[j].0.clone(), ee[j].1.deep_copy()));
                            proof {
                                assert(entries_view(base@) =~= pre.filter(pred).push(
                                    eev[j as int],
                                ));
                            }
                        } else {
                            proof {
                                assert(!pred(eev[j as int]));
                                assert(cur.filter(pred) =~= pre.filter(pred));
                            }
                        }
                        j = j + 1;
                    }
                    proof {
                        assert(eev.subrange(0, eev.len() as int) =~= eev);
                    }
                    match mv {
                        ConfigNode::Hash(me) => {
                            proof {
                                assert(mv@->Hash_0 =~= entries_view(me@));
                            }
                            push_absent(&mut base, &me);
                            proof {
                                assert(expand_ok(n@));
                            }
                            let r = ConfigNode::Hash(base);
                            proof {
                                assert(r@->Hash_0 =~= entries_view(base@));
                                assert(r@->Hash_0 =~= expand_val(n@)->Hash_0);
                                assert(r@ == expand_val(n@));
                            }
                            Ok(r)
                        },
                        ConfigNode::Array(items) => {
                            let ghost arr = mv@->Array_0;
                            let mut acc: Vec<(String, ConfigNode)> = Vec::new();
                            proof {
                                assert(entries_view(acc@) =~= fold_hashes(arr.subrange(0, 0)));
                            }
                            let mut w: usize = 0;
                            while w < items.len()
                                invariant
                                    w <= items.len(),
                                    mv is Array && mv->Array_0 == items,
                                    arr == mv@->Array_0,
                                    forall|l: int| 0 <= l < w as int ==> (#[trigger] arr[l])
                                        is Hash,
                                    entries_view(acc@) == fold_hashes(arr.subrange(0, w as int)),
                                decreases items.len() - w,
                            {
                                proof {
                                    assert(arr.subrange(0, w as int + 1).drop_last()
                                        =~= arr.subrange(0, w as int));
                                    assert(arr.subrange(0, w as int + 1).last()
                                        == arr[w as int]);
                                    assert(arr[w as int] == items@[w as int]@);
                                }
                                match &items[w] {
                                    ConfigNode::Hash(me) => {
                                        proof {
                                            assert(entries_view(me@) =~= arr[w as int]->Hash_0);
                                        }
                                        push_absent(&mut acc, me);
                                    },
                                    _ => {
                                        proof {
                                            assert(!(arr[w as int] is Hash));
                                            assert(!expand_ok(n@)) by {
                                                assert(hash_lookup(
                                                    expanded_entries(es),
                                                    merge_key(),
                                                ) == Some(mv@));
                                            }
                                        }
                                        return Err(MergeKeyError::InvalidMergeValue);
                                    },
                                }
                                w = w + 1;
                            }
                            proof {
                                assert(arr.subrange(0, arr.len() as int) =~= arr);
                                assert(expand_ok(n@)) by {
                                    assert(hash_lookup(expanded_entries(es), merge_key())
                                        == Some(mv@));
                                }
                            }
                            push_absent(&mut base, &acc);
                            let r = ConfigNode::Hash(base);
                            proof {
                                assert(r@->Hash_0 =~= entries_view(base@));
                                assert(r@->Hash_0 =~= expand_val(n@)->Hash_0);
                                assert(r@ == expand_val(n@));
                            }
                            Ok(r)
                        },
                        _ => {
                            proof {
                                assert(!expand_ok(n@)) by {
                                    assert(hash_lookup(expanded_entries(es), merge_key())
                                        == Some(mv@));
                                    assert(!(mv@ is Hash));
                                    assert(!(mv@ is Array));
                                }
                            }
                            Err(MergeKeyError::InvalidMergeValue)
                        },
                    }
                },
            }
        },
    }
}

} // verus!
