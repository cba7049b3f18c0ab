//! Merging, merge-key expansion and reference resolution.

use chgops::node::ConfigNode;
use chgops::merge::{merged, combine_yaml, merge_all};
use chgops::expand::expand_merge_keys;
use chgops::resolve::{ReferenceTable, resolve_str, resolve_node, resolve};
use chgops::pipeline::{build_reference_table, process_playbook, process_configuration_files,
    extract_object_path_from_handlebars};

fn s(t: &str) -> String {
    t.to_string()
}

fn node_str(t: &str) -> ConfigNode {
    ConfigNode::Str(s(t))
}

fn hash(entries: Vec<(&str, ConfigNode)>) -> ConfigNode {
    ConfigNode::Hash(entries.into_iter().map(|(k, v)| (s(k), v)).collect())
}

#[test]
fn merge_scenario_nested_override() {
    // {a: 1, b: {x: 1}} then {b: {y: 2}, c: 3} -> {a: 1, b: {x: 1, y: 2}, c: 3}
    let d1 = hash(vec![
        ("a", ConfigNode::Int(1)),
        ("b", hash(vec![("x", ConfigNode::Int(1))])),
    ]);
    let d2 = hash(vec![
        ("b", hash(vec![("y", ConfigNode::Int(2))])),
        ("c", ConfigNode::Int(3)),
    ]);
    let m = merged(&d1, &d2);
    let expected = hash(vec![
        ("a", ConfigNode::Int(1)),
        (
            "b",
            hash(vec![("x", ConfigNode::Int(1)), ("y", ConfigNode::Int(2))]),
        ),
        ("c", ConfigNode::Int(3)),
    ]);
    assert!(m.deep_eq(&expected));
}

#[test]
fn merge_later_document_wins_on_leaves() {
    let d1 = hash(vec![("k", node_str("old")), ("only1", ConfigNode::Int(7))]);
    let d2 = hash(vec![("k", node_str("new"))]);
    let m = merged(&d1, &d2);
    let expected = hash(vec![("k", node_str("new")), ("only1", ConfigNode::Int(7))]);
    assert!(m.deep_eq(&expected));
}

#[test]
fn merge_replaces_mapping_with_scalar() {
    let d1 = hash(vec![("k", hash(vec![("inner", ConfigNode::Int(1))]))]);
    let d2 = hash(vec![("k", ConfigNode::Int(5))]);
    let m = merged(&d1, &d2);
    let expected = hash(vec![("k", ConfigNode::Int(5))]);
    assert!(m.deep_eq(&expected));
}

#[test]
fn merge_in_place_matches_pure_merge() {
    let mut a = hash(vec![("a", ConfigNode::Int(1))]);
    let b = hash(vec![("b", ConfigNode::Int(2))]);
    let m = merged(&a, &b);
    combine_yaml(&mut a, &b);
    assert!(a.deep_eq(&m));
}

#[test]
fn merge_all_matches_iterated_left_fold() {
    let d1 = hash(vec![("a", ConfigNode::Int(1))]);
    let d2 = hash(vec![("b", hash(vec![("x", ConfigNode::Int(1))]))]);
    let d3 = hash(vec![("b", hash(vec![("y", ConfigNode::Int(2))])), ("a", ConfigNode::Int(9))]);
    let folded = merge_all(&vec![d1.deep_copy(), d2.deep_copy(), d3.deep_copy()]);
    let step0 = merged(&ConfigNode::Null, &d1);
    let step1 = merged(&step0, &d2);
    let step2 = merged(&step1, &d3);
    assert!(folded.deep_eq(&step2));
}

#[test]
fn expand_merge_key_inherits_and_overrides() {
    // {<<: {merged_key: merged, added_key: merged}, merged_key: given}
    // -> {merged_key: given, added_key: merged}
    let anchor = hash(vec![
        ("merged_key", node_str("merged")),
        ("added_key", node_str("merged")),
    ]);
    let doc = hash(vec![("<<", anchor), ("merged_key", node_str("given"))]);
    let r = expand_merge_keys(&doc).unwrap();
    let expected = hash(vec![
        ("merged_key", node_str("given")),
        ("added_key", node_str("merged")),
    ]);
    assert!(r.deep_eq(&expected));
}

#[test]
fn expand_merge_key_sequence_earlier_wins() {
    let first = hash(vec![("k", node_str("first")), ("a", ConfigNode::Int(1))]);
    let second = hash(vec![("k", node_str("second")), ("b", ConfigNode::Int(2))]);
    let doc = hash(vec![("<<", ConfigNode::Array(vec![first, second]))]);
    let r = expand_merge_keys(&doc).unwrap();
    let expected = hash(vec![
        ("k", node_str("first")),
        ("a", ConfigNode::Int(1)),
        ("b", ConfigNode::Int(2)),
    ]);
    assert!(r.deep_eq(&expected));
}

#[test]
fn expand_merge_key_scalar_value_is_an_error() {
    let doc = hash(vec![("<<", ConfigNode::Int(4)), ("x", ConfigNode::Int(1))]);
    let r = expand_merge_keys(&doc);
    assert!(r.is_err());
}

#[test]
fn resolve_substitutes_reference() {
    let refs = ReferenceTable { entries: vec![(s("name"), s("world"))] };
    let r = resolve_str("hello {{ ref:name }}", &refs);
    assert_eq!(r, s("hello world"));
}

#[test]
fn resolve_unknown_reference_becomes_empty() {
    let refs = ReferenceTable { entries: vec![] };
    let r = resolve_str("a {{ ref:missing }} b", &refs);
    assert_eq!(r, s("a  b"));
}

#[test]
fn resolve_without_markers_is_identity() {
    let refs = ReferenceTable { entries: vec![(s("name"), s("world"))] };
    let doc = hash(vec![("k", node_str("no markers here"))]);
    let r = resolve_node(&doc, &refs);
    assert!(r.deep_eq(&doc));
}

#[test]
fn resolve_does_not_rescan_replacement_text() {
    // A replacement that itself looks like a marker is not substituted
    // again within the same pass.
    let refs = ReferenceTable {
        entries: vec![(s("a"), s("{{ ref:b }}")), (s("b"), s("X"))],
    };
    let r = resolve_str("{{ ref:a }}", &refs);
    assert_eq!(r, s("{{ ref:b }}"));
}

#[test]
fn resolve_twice_matches_once_when_marker_free() {
    let refs = ReferenceTable { entries: vec![(s("name"), s("world"))] };
    let mut doc = hash(vec![("greeting", node_str("hello {{ ref:name }}"))]);
    resolve(&mut doc, &refs);
    let once = doc.deep_copy();
    resolve(&mut doc, &refs);
    assert!(doc.deep_eq(&once));
}

#[test]
fn reference_table_skips_sequences() {
    let doc = hash(vec![
        ("name", node_str("world")),
        ("list", ConfigNode::Array(vec![ConfigNode::Int(1)])),
        ("num", ConfigNode::Int(42)),
    ]);
    let t = build_reference_table(&doc);
    assert_eq!(t.entries.len(), 2);
    assert_eq!(t.entries[0].0, s("name"));
    assert_eq!(t.entries[0].1, s("world"));
    assert_eq!(t.entries[1].0, s("num"));
    assert_eq!(t.entries[1].1, s("42"));
}

#[test]
fn configuration_pipeline_merges_and_resolves() {
    let d1 = hash(vec![("name", node_str("world"))]);
    let d2 = hash(vec![("greeting", node_str("hello {{ ref:name }}"))]);
    let (doc, refs) = process_configuration_files(&vec![d1, d2]).unwrap();
    assert_eq!(refs.entries.len(), 2);
    let expected = hash(vec![
        ("name", node_str("world")),
        ("greeting", node_str("hello world")),
    ]);
    assert!(doc.deep_eq(&expected));
}

#[test]
fn playbook_document_combines_into_configuration() {
    let config = hash(vec![("a", ConfigNode::Int(1))]);
    let playbook_doc = hash(vec![("name", node_str("pb"))]);
    let m = process_playbook(&config, &playbook_doc);
    let expected = hash(vec![("a", ConfigNode::Int(1)), ("name", node_str("pb"))]);
    assert!(m.deep_eq(&expected));
}

#[test]
fn extract_object_path_trims_handlebars() {
    let r = extract_object_path_from_handlebars("{{ object.path }}");
    assert_eq!(r, s("object.path"));
}

#[test]
fn extract_object_path_keeps_piped_expressions() {
    let r = extract_object_path_from_handlebars("{{ self | as_json }}");
    assert_eq!(r, s("{{ self | as_json }}"));
}

#[test]
fn extract_object_path_without_braces_is_unchanged() {
    let r = extract_object_path_from_handlebars("plain text");
    assert_eq!(r, s("plain text"));
}

#[test]
fn resolve_leaves_mapping_keys_alone() {
    let refs = ReferenceTable { entries: vec![(s("name"), s("world"))] };
    let doc = hash(vec![("{{ ref:name }}", node_str("{{ ref:name }}"))]);
    let r = resolve_node(&doc, &refs);
    let expected = hash(vec![("{{ ref:name }}", node_str("world"))]);
    assert!(r.deep_eq(&expected));
}

#[test]
fn merge_with_empty_mapping_changes_nothing() {
    let d = hash(vec![("a", ConfigNode::Int(1))]);
    let empty = hash(vec![]);
    assert!(merged(&d, &empty).deep_eq(&d));
    assert!(merged(&empty, &d).deep_eq(&d));
}

#[test]
fn merge_of_no_documents_is_null() {
    let m = merge_all(&vec![]);
    assert!(m.deep_eq(&ConfigNode::Null));
}
