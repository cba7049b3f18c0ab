//! The textual form of configuration values: scalars print bare, sequences
//! and mappings print in flow style.

use vstd::prelude::*;
use crate::node::{ConfigNode, NodeV};
use crate::strings::{dec_int, i64_to_string};

verus! {

/// Joins text pieces with a comma and a space.
pub open spec fn comma_join(parts: Seq<Seq<char>>) -> Seq<char>
    decreases parts.len(),
{
    if parts.len() == 0 {
        Seq::empty()
    } else if parts.len() == 1 {
        parts[0]
    } else {
        comma_join(parts.drop_last()) + ", "@ + parts.last()
    }
}

/// The textual form of a tree: `null`, `true`/`false`, decimal integers,
/// bare strings, `[..]` sequences and `{k: v}` mappings.
pub open spec fn node_text(n: NodeV) -> Seq<char>
    decreases n, 0int,
    via node_text_dec
{
    match n {
        NodeV::Null => "null"@,
        NodeV::Bool(b) => if b {
            "true"@
        } else {
            "false"@
        },
        NodeV::Int(i) => dec_int(i),
        NodeV::Str(s) => s,
        NodeV::Array(el) => "["@ + comma_join(array_parts(el)) + "]"@,
        NodeV::Hash(es) => "{"@ + comma_join(hash_parts(es)) + "}"@,
    }
}

/// The text pieces of a sequence node, one per element.
pub open spec fn array_parts(el: Seq<NodeV>) -> Seq<Seq<char>>
    decreases el, 1int,
    via array_parts_dec
{
    Seq::new(
        el.len(),
        |i: int| if 0 <= i < el.len() {
            node_text(el[i])
        } else {
            Seq::empty()
        },
    )
}

/// The text pieces of a mapping node, `key: value` for each entry.
pub open spec fn hash_parts(es: Seq<(Seq<char>, NodeV)>) -> Seq<Seq<char>>
    decreases es, 1int,
    via hash_parts_dec
{
    Seq::new(
        es.len(),
        |i: int| if 0 <= i < es.len() {
            es[i].0 + ": "@ + node_text(es[i].1)
        } else {
            Seq::empty()
        },
    )
}

#[via_fn]
proof fn node_text_dec(n: NodeV) {
    match n {
        NodeV::Array(el) => {
            assert(decreases_to!(n => el));
        },
        NodeV::Hash(es) => {
            assert(decreases_to!(n => es));
        },
        _ => {},
    }
}

#[via_fn]
proof fn array_parts_dec(el: Seq<NodeV>) {
    assert forall|i: int| 0 <= i < el.len() implies decreases_to!(el => el[i]) by {}
}

#[via_fn]
proof fn hash_parts_dec(es: Seq<(Seq<char>, NodeV)>) {
    assert forall|i: int| 0 <= i < es.len() implies decreases_to!(es => es[i].1) by {
        assert(decreases_to!(es => es[i]));
        assert(decreases_to!(es[i] => es[i].1));
    }
}

/// Renders a tree as text.
pub fn to_display_string(n: &ConfigNode) -> (r: String)
    ensures
        r@ == node_text(n@),
    decreases n,
{
    match n {
        ConfigNode::Null => String::from_str("null"),
        ConfigNode::Bool(b) => {
            if *b {
                String::from_str("true")
            } else {
                String::from_str("false")
            }
        },
        ConfigNode::Int(i) => i64_to_string(*i),
        ConfigNode::Str(s) => s.clone(),
        ConfigNode::Array(v) => {
            let ghost el = n@->Array_0;
            let ghost parts = array_parts(el);
            proof {
                assert(parts.len() == v@.len());
            }
            let mut out = String::from_str("[");
            let mut i: usize = 0;
            while i < v.len()
                invariant
                    i <= v.len(),
                    *n is Array && n->Array_0 == *v,
                    el == n@->Array_0,
                    parts == array_parts(el),
                    parts.len() == v@.len(),
                    out@ == "["@ + comma_join(parts.subrange(0, i as int)),
                decreases v.len() - i,
            {
                proof {
                    assert(decreases_to!(*n => *v));
                    assert(decreases_to!(*v => v@[i as int]));
                    assert(el[i as int] == v@[i as int]@);
                    assert(parts[i as int] == node_text(v@[i as int]@));
                    assert(parts.subrange(0, i as int + 1).drop_last() =~= parts.subrange(
                        0,
                        i as int,
                    ));
                    assert(parts.subrange(0, i as int + 1).last() == parts[i as int]);
                }
                if i > 0 {
                    out.append(", ");
                }
                let piece = to_display_string(&v[i]);
                out.append(piece.as_str());
                proof {
                    if i == 0 {
                        assert(parts.subrange(0, 1)[0] == parts[0]);
                    }
                    assert(out@ =~= "["@ + comma_join(parts.subrange(0, i as int + 1)));
                }
                i = i + 1;
            }
            out.append("]");
            proof {
                assert(parts.subrange(0, v@.len() as int) =~= parts);
                assert(out@ =~= node_text(n@));
            }
            out
        },
        ConfigNode::Hash(v) => {
            let ghost es = n@->Hash_0;
            let ghost parts = hash_parts(es);
            proof {
                assert(parts.len() == v@.len());
            }
            let mut out = String::from_str("{");
            let mut i: usize = 0;
            while i < v.len()
                invariant
                    i <= v.len(),
                    *n is Hash && n->Hash_0 == *v,
                    es == n@->Hash_0,
                    parts == hash_parts(es),
                    parts.len() == v@.len(),
                    out@ == "{"@ + comma_join(parts.subrange(0, i as int)),
                decreases v.len() - i,
            {
                proof {
                    assert(decreases_to!(*n => *v));
                    assert(decreases_to!(*v => v@[i as int]));
                    assert(decreases_to!(v@[i as int] => v@[i as int].1));
                    assert(es[i as int] == (v@[i as int].0@, v@[i as int].1@));
                    assert(parts[i as int] == v@[i as int].0@ + ": "@ + node_text(
                        v@[i as int].1@,
                    ));
                    assert(parts.subrange(0, i as int + 1).drop_last() =~= parts.subrange(
                        0,
                        i as int,
                    ));
                    assert(parts.subrange(0, i as int + 1).last() == parts[i as int]);
                }
                if i > 0 {
                    out.append(", ");
                }
                out.append(v[i].0.as_str());
                out.append(": ");
                let piece = to_display_string(&v[i].1);
                out.append(piece.as_str());
                proof {
                    if i == 0 {
                        assert(parts.subrange(0, 1)[0] == parts[0]);
                    }
                    assert(out@ =~= "{"@ + comma_join(parts.subrange(0, i as int + 1)));
                }
                i = i + 1;
            }
            out.append("}");
            proof {
                assert(parts.subrange(0, v@.len() as int) =~= parts);
                assert(out@ =~= node_text(n@));
            }
            out
        },
    }
}

} // verus!
