//! Text helpers: display form, formatting, filters, snippets and
//! scaffolding plans.

use chgops::node::ConfigNode;
use chgops::display::to_display_string;
use chgops::strings::{i64_to_string, u64_to_string, trim_str, contains_sub};
use chgops::filters::{filter1, filter2, as_json_text, as_base64_text};
use chgops::snippet::get_error_snippet;
use chgops::scaffold::{sort_files_by_path_length, join_files, join_files_into, collection_init,
    collection_test, action_init};
use chgops::shell::{Shell, Bash, WinCmd, AzCli, AzLogin};

fn s(t: &str) -> String {
    t.to_string()
}

#[test]
fn display_renders_flow_style() {
    let doc = ConfigNode::Hash(vec![
        (s("a"), ConfigNode::Int(1)),
        (s("b"), ConfigNode::Array(vec![ConfigNode::Int(2), ConfigNode::Bool(true)])),
        (s("c"), ConfigNode::Str(s("text"))),
        (s("d"), ConfigNode::Null),
    ]);
    assert_eq!(to_display_string(&doc), s("{a: 1, b: [2, true], c: text, d: null}"));
}

#[test]
fn integers_format_in_decimal() {
    assert_eq!(u64_to_string(0), s("0"));
    assert_eq!(u64_to_string(12345), s("12345"));
    assert_eq!(i64_to_string(-42), s("-42"));
    assert_eq!(i64_to_string(i64::MIN), s("-9223372036854775808"));
}

#[test]
fn trim_removes_surrounding_whitespace() {
    assert_eq!(trim_str("  object.path \t"), s("object.path"));
    assert_eq!(trim_str("none"), s("none"));
    assert_eq!(trim_str("   "), s(""));
}

#[test]
fn contains_sub_finds_patterns() {
    assert!(contains_sub("hello {{ world", "{{"));
    assert!(!contains_sub("hello world", "{{"));
}

#[test]
fn filter1_hands_the_value_back() {
    let v = ConfigNode::Array(vec![ConfigNode::Int(1)]);
    assert!(filter1(&v).deep_eq(&v));
}

#[test]
fn filter2_appends_name_or_default() {
    assert_eq!(filter2("value", Some("extra")), s("value-extra"));
    assert_eq!(filter2("value", None), s("value-common"));
}

#[test]
fn as_json_swaps_double_quotes() {
    assert_eq!(as_json_text("{\"a\": \"b\"}"), s("{'a': 'b'}"));
    assert_eq!(as_json_text("none"), s("none"));
}

#[test]
fn as_base64_encodes_standard_alphabet() {
    assert_eq!(as_base64_text("hello"), s("aGVsbG8="));
    assert_eq!(as_base64_text(""), s(""));
}

#[test]
fn snippet_marks_the_failing_line() {
    let content = "l1\nl2\nl3\nl4\nl5\nl6\nl7";
    let snip = get_error_snippet(content, 3, 0);
    assert_eq!(snip, s("2     l2\n3     l3\n4 --> l4\n5     l5\n6     l6"));
}

#[test]
fn snippet_clamps_at_start() {
    let content = "a\nb\nc";
    let snip = get_error_snippet(content, 0, 0);
    assert_eq!(snip, s("1 --> a\n2     b\n3     c"));
}

#[test]
fn sort_orders_shortest_path_first() {
    let mut files = vec![s("dir/deeper/file.yaml"), s("a.yaml"), s("dir/b.yaml")];
    sort_files_by_path_length(&mut files);
    assert_eq!(files, vec![s("a.yaml"), s("dir/b.yaml"), s("dir/deeper/file.yaml")]);
}

#[test]
fn join_files_concatenates_contents() {
    let contents = vec![s("a: 1\n"), s("b: 2\n")];
    assert_eq!(join_files(&contents), s("a: 1\nb: 2\n"));
}

#[test]
fn join_files_into_adds_separators() {
    let contents = vec![s("a"), s("b")];
    assert_eq!(join_files_into(&contents, "\n---\n"), s("a\n---\nb\n---\n"));
}

#[test]
fn collection_init_plans_folders_and_seed_files() {
    let plan = collection_init("my_namespace", "my_collection", true).unwrap();
    assert!(plan.force_update);
    let folders: Vec<String> = plan.folders;
    assert_eq!(
        folders,
        vec![
            s("./collections"),
            s("./collections/my_namespace"),
            s("./collections/my_namespace/my_collection"),
            s("./collections/my_namespace/my_collection/core"),
        ]
    );
    assert_eq!(plan.files[0].path, s("./collections/my_namespace/vars.yaml"));
    assert_eq!(plan.files[0].content, s("#!chgops.namespace\nmy_namespace: level1\n"));
    assert_eq!(
        plan.files[1].content,
        s("#!chgops.collection\nmy_namespace_my_collection: level2\n")
    );
    assert_eq!(plan.files[2].content, s("#!chgops.core\nmy_namespace_my_collection_core: level2\n"));
}

#[test]
fn collection_init_rejects_short_names() {
    let r = collection_init("x", "col", false);
    assert!(r.is_err());
    let r2 = collection_init("namespace", "y", false);
    assert!(r2.is_err());
}

#[test]
fn collection_test_lists_paths_to_check() {
    let paths = collection_test("my_namespace.my_collection").unwrap();
    assert_eq!(paths.len(), 7);
    assert_eq!(paths[0], s("./collections"));
    assert_eq!(paths[3], s("./collections/my_namespace/my_collection/core"));
    assert_eq!(paths[6], s("./collections/my_namespace/my_collection/core/vars.yaml"));
}

#[test]
fn collection_test_rejects_bad_scopes() {
    assert!(collection_test("nodots").is_err());
    assert!(collection_test("a.b.c").is_err());
    assert!(collection_test("x.collection").is_err());
}

#[test]
fn action_init_selects_template_content() {
    let plan = action_init("workspace3", "default", false);
    assert_eq!(plan.folders[1], s("./playbooks/workspace3"));
    assert_eq!(plan.files[1].path, s("./playbooks/workspace3/playbook.yaml"));
    assert!(plan.files[1].content.contains("dx.core.print"));
    let simple = action_init("workspace3", "simple", false);
    assert!(!simple.files[1].content.contains("dx.core.print"));
}

#[test]
fn shells_carry_their_interpreter() {
    let sh = Shell::new("sh", "echo hi");
    assert_eq!(sh.shell, s("sh"));
    assert_eq!(sh.command, s("echo hi"));
    let b = Bash::new("echo hi");
    assert_eq!(b.shell.shell, s("sh"));
    let w = WinCmd::new("dir");
    assert_eq!(w.shell.shell, s("cmd"));
    let az = AzCli::new("group list");
    assert_eq!(az.command, s("group list"));
}

#[test]
fn login_display_redacts_the_secret() {
    let login = AzLogin::new(s("id"), s("hidden-value"), s("tenant"));
    let line = login.display_line();
    assert!(!line.contains("hidden-value"));
    assert_eq!(line, s("az login --service-principal -u id -p *** --tenant tenant"));
}
