//! The configuration document tree and its mathematical model.

use vstd::prelude::*;

verus! {

/// Mathematical model of a configuration tree node: scalars, sequences and
/// mappings, with mappings as ordered key/value sequences.
pub enum NodeV {
    Null,
    Bool(bool),
    Int(int),
    Str(Seq<char>),
    Array(Seq<NodeV>),
    Hash(Seq<(Seq<char>, NodeV)>),
}

/// A structured configuration document node (the YAML-like tree the engine
/// works on). Mappings keep insertion order; keys are plain strings.
pub enum ConfigNode {
    Null,
    Bool(bool),
    Int(i64),
    Str(String),
    Array(Vec<ConfigNode>),
    Hash(Vec<(String, ConfigNode)>),
}

/// The value bound to `k` in a mapping's entry sequence: the first entry
/// whose key equals `k`, if any.
pub open spec fn hash_lookup<V>(entries: Seq<(Seq<char>, V)>, k: Seq<char>) -> Option<V>
    decreases entries.len(),
{
    if entries.len() == 0 {
        None
    } else if entries[0].0 == k {
        Some(entries[0].1)
    } else {
        hash_lookup(entries.drop_first(), k)
    }
}

/// Whether some entry of a mapping binds the key `k`.
pub open spec fn hash_has_key<V>(entries: Seq<(Seq<char>, V)>, k: Seq<char>) -> bool {
    exists|i: int| 0 <= i < entries.len() && entries[i].0 == k
}

pub proof fn lemma_hash_lookup_some_iff_has_key<V>(entries: Seq<(Seq<char>, V)>, k: Seq<char>)
    ensures
        hash_lookup(entries, k) is Some <==> hash_has_key(entries, k),
    decreases entries.len(),
{
    if entries.len() > 0 && entries[0].0 != k {
        lemma_hash_lookup_some_iff_has_key(entries.drop_first(), k);
        assert(hash_has_key(entries.drop_first(), k) ==> hash_has_key(entries, k)) by {
            if hash_has_key(entries.drop_first(), k) {
                let i = choose|i: int|
                    0 <= i < entries.drop_first().len() && entries.drop_first()[i].0 == k;
                assert(entries[i + 1].0 == k);
            }
        }
        assert(hash_has_key(entries, k) ==> hash_has_key(entries.drop_first(), k)) by {
            if hash_has_key(entries, k) {
                let i = choose|i: int| 0 <= i < entries.len() && entries[i].0 == k;
                assert(entries.drop_first()[i - 1].0 == k);
            }
        }
    }
}

/// Advancing past non-matching entries keeps the lookup result.
pub proof fn lemma_hash_lookup_skip<V>(entries: Seq<(Seq<char>, V)>, k: Seq<char>, i: int)
    requires
        0 <= i <= entries.len(),
        forall|j: int| 0 <= j < i ==> entries[j].0 != k,
    ensures
        hash_lookup(entries, k) == hash_lookup(entries.skip(i), k),
    decreases i,
{
    if i > 0 {
        lemma_hash_lookup_skip(entries.drop_first(), k, i - 1);
        assert(entries.drop_first().skip(i - 1) =~= entries.skip(i));
    } else {
        assert(entries.skip(0) =~= entries);
    }
}

impl View for ConfigNode {
    type V = NodeV;

    open spec fn view(&self) -> NodeV {
        self.model()
    }
}

impl ConfigNode {
    /// The mathematical value of this tree.
    pub open spec fn model(&self) -> NodeV
        decreases self,
        via Self::model_dec
    {
        match self {
            ConfigNode::Null => NodeV::Null,
            ConfigNode::Bool(b) => NodeV::Bool(*b),
            ConfigNode::Int(i) => NodeV::Int(*i as int),
            ConfigNode::Str(s) => NodeV::Str(s@),
            ConfigNode::Array(v) => NodeV::Array(
                Seq::new(
                    v@.len(),
                    |i: int| if 0 <= i < v@.len() { v@[i].model() } else { NodeV::Null },
                ),
            ),
            ConfigNode::Hash(v) => NodeV::Hash(
                Seq::new(
                    v@.len(),
                    |i: int| if 0 <= i < v@.len() {
                        (v@[i].0@, v@[i].1.model())
                    } else {
                        (Seq::empty(), NodeV::Null)
                    },
                ),
            ),
        }
    }

    #[via_fn]
    proof fn model_dec(&self) {
        match self {
            ConfigNode::Array(v) => {
                assert forall|i: int| 0 <= i < v@.len() implies decreases_to!(*self => v@[i]) by {
                    assert(decreases_to!(*self => *v));
                    assert(decreases_to!(*v => v@[i]));
                }
            },
            ConfigNode::Hash(v) => {
                assert forall|i: int|
                    0 <= i < v@.len() implies decreases_to!(*self => v@[i].1) by {
                    assert(decreases_to!(*self => *v));
                    assert(decreases_to!(*v => v@[i]));
                    assert(decreases_to!(v@[i] => v@[i].1));
                }
            },
            _ => {},
        }
    }

    /// A structurally equal copy of the tree.
    pub fn deep_copy(&self) -> (r: ConfigNode)
        ensures
            r@ == self@,
        decreases self,
    {
        match self {
            ConfigNode::Null => ConfigNode::Null,
            ConfigNode::Bool(b) => ConfigNode::Bool(*b),
            ConfigNode::Int(i) => ConfigNode::Int(*i),
            ConfigNode::Str(s) => ConfigNode::Str(s.clone()),
            ConfigNode::Array(v) => {
                let mut out: Vec<ConfigNode> = Vec::new();
                let mut i: usize = 0;
                while i < v.len()
                    invariant
                        i <= v.len(),
                        out@.len() == i as int,
                        *self is Array && self->Array_0 == *v,
                        forall|j: int| 0 <= j < i as int ==> out@[j]@ == v@[j]@,
                    decreases v.len() - i,
                {
                    proof {
                        assert(decreases_to!(*self => *v));
                        assert(decreases_to!(*v => v@[i as int]));
                    }
                    out.push(v[i].deep_copy());
                    i = i + 1;
                }
                let r = ConfigNode::Array(out);
                proof {
                    assert(r@->Array_0 =~= self@->Array_0);
                }
                r
            },
            ConfigNode::Hash(v) => {
                let mut out: Vec<(String, ConfigNode)> = Vec::new();
                let mut i: usize = 0;
                while i < v.len()
                    invariant
                        i <= v.len(),
                        out@.len() == i as int,
                        *self is Hash && self->Hash_0 == *v,
                        forall|j: int| 0 <= j < i as int ==> out@[j].0@ == v@[j].0@
                            && out@[j].1@ == v@[j].1@,
                    decreases v.len() - i,
                {
                    proof {
                        assert(decreases_to!(*self => *v));
                        assert(decreases_to!(*v => v@[i as int]));
                        assert(decreases_to!(v@[i as int] => v@[i as int].1));
                    }
                    out.push((v[i].0.clone(), v[i].1.deep_copy()));
                    i = i + 1;
                }
                let r = ConfigNode::Hash(out);
                proof {
                    assert(r@->Hash_0 =~= self@->Hash_0);
                }
                r
            },
        }
    }

    /// Structural equality of two trees, decided executably.
    pub fn deep_eq(&self, other: &ConfigNode) -> (r: bool)
        ensures
            r == (self@ == other@),
        decreases self,
    {
        match (self, other) {
            (ConfigNode::Null, ConfigNode::Null) => {
                proof {
                    assert(*self is Null);
                    assert(*other is Null);
                    assert(self@ == NodeV::Null);
                    assert(other@ == NodeV::Null);
                }
                true
            },
            (ConfigNode::Bool(a), ConfigNode::Bool(b)) => {
                let r = a == b;
                proof {
                    assert(r == (self@ == other@));
                }
                r
            },
            (ConfigNode::Int(a), ConfigNode::Int(b)) => {
                let r = a == b;
                proof {
                    assert(r == (self@ == other@));
                }
                r
            },
            (ConfigNode::Str(a), ConfigNode::Str(b)) => {
                let r = *a == *b;
                proof {
                    if a@ == b@ {
                        assert(self@ == other@);
                    } else {
                        assert(self@ != other@);
                    }
                }
                r
            },
            (ConfigNode::Array(a), ConfigNode::Array(b)) => {
                if a.len() != b.len() {
                    proof {
                        assert(self@->Array_0.len() != other@->Array_0.len());
                    }
                    return false;
                }
                let mut i: usize = 0;
                while i < a.len()
                    invariant
                        i <= a.len(),
                        a@.len() == b@.len(),
                        *self is Array && self->Array_0 == *a,
                        *other is Array && other->Array_0 == *b,
                        forall|j: int| 0 <= j < i as int ==> a@[j]@ == b@[j]@,
                    decreases a.len() - i,
                {
                    proof {
                        assert(decreases_to!(*self => *a));
                        assert(decreases_to!(*a => a@[i as int]));
                    }
                    if !a[i].deep_eq(&b[i]) {
                        proof {
                            assert(self@->Array_0[i as int] != other@->Array_0[i as int]);
                        }
                        return false;
                    }
                    i = i + 1;
                }
                proof {
                    assert(self@->Array_0 =~= other@->Array_0);
                    assert(self@ == NodeV::Array(self@->Array_0));
                    assert(other@ == NodeV::Array(other@->Array_0));
                }
                true
            },
            (ConfigNode::Hash(a), ConfigNode::Hash(b)) => {
                if a.len() != b.len() {
                    proof {
                        assert(self@->Hash_0.len() != other@->Hash_0.len());
                    }
                    return false;
                }
                let mut i: usize = 0;
                while i < a.len()
                    invariant
                        i <= a.len(),
                        a@.len() == b@.len(),
                        *self is Hash && self->Hash_0 == *a,
                        *other is Hash && other->Hash_0 == *b,
                        forall|j: int| 0 <= j < i as int ==> a@[j].0@ == b@[j].0@
                            && a@[j].1@ == b@[j].1@,
                    decreases a.len() - i,
                {
                    proof {
                        assert(decreases_to!(*self => *a));
                        assert(decreases_to!(*a => a@[i as int]));
                        assert(decreases_to!(a@[i as int] => a@[i as int].1));
                    }
                    let keys_eq = a[i].0 == b[i].0;
                    if !keys_eq || !a[i].1.deep_eq(&b[i].1) {
                        proof {
                            assert(self@->Hash_0[i as int] != other@->Hash_0[i as int]);
                        }
                        return false;
                    }
                    i = i + 1;
                }
                proof {
                    assert(self@->Hash_0 =~= other@->Hash_0);
                    assert(self@ == NodeV::Hash(self@->Hash_0));
                    assert(other@ == NodeV::Hash(other@->Hash_0));
                }
                true
            },
            _ => {
                proof {
                    assert(self@ != other@);
                }
                false
            },
        }
    }
}

/// Index of the first entry of `entries` binding `key`, if any.
pub fn hash_find(entries: &Vec<(String, ConfigNode)>, key: &String) -> (r: Option<usize>)
    ensures
        match r {
            Some(i) => i < entries@.len() && entries@[i as int].0@ == key@
                && (forall|j: int| 0 <= j < i as int ==> entries@[j].0@ != key@),
            None => forall|j: int| 0 <= j < entries@.len() ==> entries@[j].0@ != key@,
        },
{
    let mut i: usize = 0;
    while i < entries.len()
        invariant
            i <= entries.len(),
            forall|j: int| 0 <= j < i as int ==> entries@[j].0@ != key@,
        decreases entries.len() - i,
    {
        if entries[i].0 == *key {
            return Some(i);
        }
        i = i + 1;
    }
    None
}

} // verus!
