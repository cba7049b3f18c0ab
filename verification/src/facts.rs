//! The fact store: the keyed context that seeds template rendering and
//! accumulates task-registered outputs. It is an explicitly passed value;
//! callers that need sharing wrap it in their own lock.

use vstd::prelude::*;
use crate::node::{ConfigNode, NodeV, hash_lookup, hash_has_key, hash_find};
use crate::merge::{first_key_index, lemma_first_key_index, lemma_lookup_at_index,
    lemma_lookup_absent, lemma_lookup_concat};

verus! {

/// The model of the entries of a fact store or mapping node.
pub open spec fn entries_view(v: Seq<(String, ConfigNode)>) -> Seq<(Seq<char>, NodeV)> {
    Seq::new(v.len(), |i: int| (v[i].0@, v[i].1@))
}

/// Entries after binding `k` to `v`: the first entry with key `k` is
/// replaced, or a new entry is appended.
pub open spec fn hash_insert(
    entries: Seq<(Seq<char>, NodeV)>,
    k: Seq<char>,
    v: NodeV,
) -> Seq<(Seq<char>, NodeV)> {
    if hash_has_key(entries, k) {
        entries.update(first_key_index(entries, k), (k, v))
    } else {
        entries.push((k, v))
    }
}

/// Binding a key and then looking up: the bound key yields the new value,
/// every other key is unaffected.
pub proof fn lemma_insert_lookup(
    entries: Seq<(Seq<char>, NodeV)>,
    k: Seq<char>,
    v: NodeV,
    k2: Seq<char>,
)
    ensures
        hash_lookup(hash_insert(entries, k, v), k2) == if k2 == k {
            Some(v)
        } else {
            hash_lookup(entries, k2)
        },
{
    let m = hash_insert(entries, k, v);
    if hash_has_key(entries, k) {
        let fi = first_key_index(entries, k);
        lemma_first_key_index(entries, k);
        assert(m =~= entries.update(fi, (k, v)));
        if k2 == k {
            lemma_lookup_at_index(m, k2, fi);
        } else {
            if hash_has_key(entries, k2) {
                let fi2 = first_key_index(entries, k2);
                lemma_first_key_index(entries, k2);
                lemma_lookup_at_index(entries, k2, fi2);
                assert(fi2 != fi);
                assert(m[fi2] == entries[fi2]);
                assert forall|j: int| 0 <= j < fi2 implies m[j].0 != k2 by {
                    if j == fi {
                        assert(m[j].0 == k);
                    } else {
                        assert(m[j] == entries[j]);
                    }
                }
                lemma_lookup_at_index(m, k2, fi2);
            } else {
                lemma_lookup_absent(entries, k2);
                assert(!hash_has_key(m, k2)) by {
                    if hash_has_key(m, k2) {
                        let j = choose|j: int| 0 <= j < m.len() && m[j].0 == k2;
                        assert(entries[j].0 == k2);
                        assert(hash_has_key(entries, k2));
                    }
                }
                lemma_lookup_absent(m, k2);
            }
        }
    } else {
        assert(m =~= entries + seq![(k, v)]);
        lemma_lookup_concat(entries, seq![(k, v)], k2);
        assert(seq![(k, v)][0] == (k, v));
        assert(seq![(k, v)].drop_first() =~= Seq::<(Seq<char>, NodeV)>::empty());
        if k2 == k {
            lemma_lookup_absent(entries, k2);
            assert(!hash_has_key(entries, k2));
        } else {
            assert(seq![(k, v)][0].0 == k);
            assert(hash_lookup(seq![(k, v)], k2) is None) by {
                assert(hash_lookup(Seq::<(Seq<char>, NodeV)>::empty(), k2) is None);
            }
            if !hash_has_key(entries, k2) {
                lemma_lookup_absent(entries, k2);
            }
        }
    }
}

/// The shared fact store: a keyed context of configuration values, plus
/// the raw text of the last rendered playbook document.
pub struct Facts {
    /// Top-level bindings of the current render context.
    pub context: Vec<(String, ConfigNode)>,
    /// Raw text of the last rendered playbook document.
    pub text: String,
}

impl View for Facts {
    type V = Seq<(Seq<char>, NodeV)>;

    open spec fn view(&self) -> Seq<(Seq<char>, NodeV)> {
        entries_view(self.context@)
    }
}

impl Facts {
    /// An empty fact store.
    pub fn new() -> (r: Facts)
        ensures
            r@ =~= Seq::<(Seq<char>, NodeV)>::empty(),
            r.text@ == Seq::<char>::empty(),
    {
        Facts { context: Vec::new(), text: String::new() }
    }

    /// The value bound to `path`, if any.
    pub fn get(&self, path: &str) -> (r: Option<ConfigNode>)
        ensures
            match r {
                Some(v) => hash_lookup(self@, path@) == Some(v@),
                None => hash_lookup(self@, path@) is None,
            },
    {
        let key = String::from_str(path);
        match hash_find(&self.context, &key) {
            Some(i) => {
                proof {
                    lemma_lookup_at_index(self@, path@, i as int);
                }
                Some(self.context[i].1.deep_copy())
            },
            None => {
                proof {
                    assert(!hash_has_key(self@, path@)) by {
                        if hash_has_key(self@, path@) {
                            let j = choose|j: int| 0 <= j < self@.len() && self@[j].0 == path@;
                            assert(self.context@[j].0@ != path@);
                        }
                    }
                    lemma_lookup_absent(self@, path@);
                }
                None
            },
        }
    }

    /// Binds `name` to `value`, overwriting any existing top-level binding;
    /// the new binding is visible to all later reads.
    pub fn insert(&mut self, name: &str, value: ConfigNode)
        ensures
            final(self)@ == hash_insert(old(self)@, name@, value@),
            final(self).text == old(self).text,
    {
        let key = String::from_str(name);
        match hash_find(&self.context, &key) {
            Some(i) => {
                proof {
                    assert(self@[i as int].0 == name@);
                    assert(hash_has_key(self@, name@));
                    lemma_first_key_index(self@, name@);
                    assert(first_key_index(self@, name@) == i as int) by {
                        let fi = first_key_index(self@, name@);
                        assert(self@[fi].0 == name@);
                        assert(self@[i as int].0 == name@);
                        if fi < i as int {
                            assert(self.context@[fi].0@ != name@);
                        }
                        if (i as int) < fi {
                            assert(self@[i as int].0 != name@);
                        }
                    }
                }
                let entry = (key, value);
                self.context[i] = entry;
                proof {
                    assert(self@ =~= hash_insert(old(self)@, name@, value@));
                }
            },
            None => {
                proof {
                    assert(!hash_has_key(old(self)@, name@)) by {
                        if hash_has_key(old(self)@, name@) {
                            let j = choose|j: int|
                                0 <= j < old(self)@.len() && old(self)@[j].0 == name@;
                            assert(old(self).context@[j].0@ != name@);
                        }
                    }
                }
                self.context.push((key, value));
                proof {
                    assert(self@ =~= hash_insert(old(self)@, name@, value@));
                }
            },
        }
    }

    /// Replaces the context with the top-level bindings of a mapping
    /// document (or empties it for any other document), and caches the
    /// raw rendered text.
    pub fn from_yaml2(&mut self, doc: &ConfigNode, raw: String)
        ensures
            final(self)@ == (if doc@ is Hash {
                doc@->Hash_0
            } else {
                Seq::<(Seq<char>, NodeV)>::empty()
            }),
            final(self).text == raw,
    {
        match doc {
            ConfigNode::Hash(es) => {
                let copy = doc.deep_copy();
                match copy {
                    ConfigNode::Hash(entries) => {
                        self.context = entries;
                        proof {
                            assert(self@ =~= doc@->Hash_0);
                        }
                    },
                    _ => {
                        proof {
                            assert(false);
                        }
                    },
                }
            },
            _ => {
                self.context = Vec::new();
                proof {
                    assert(self@ =~= Seq::<(Seq<char>, NodeV)>::empty());
                }
            },
        }
        self.text = raw;
    }
}

} // verus!
