//! Task execution, the fact store, and run aggregation.

use chgops::node::ConfigNode;
use chgops::facts::Facts;
use chgops::tasks::{CmdResult, TaskEvent, PlaybookCommand, BashCommandVars, PrintCommandVars,
    BashCommandTask, PrintCommandTask};
use chgops::output::{PlaybookCommandOutput, PlaybookSummary};
use chgops::playbook::{CoreTasks, PlaybookTasks, Playbook, Settings};
use chgops::workspace::ChgOpsWorkspace;

fn s(t: &str) -> String {
    t.to_string()
}

fn bash_task(command: &str, register: Option<&str>, when: Option<&str>) -> BashCommandTask {
    PlaybookCommand {
        command: s(command),
        name: Some(s("test task")),
        vars: BashCommandVars { resource: ConfigNode::Null },
        register: register.map(s),
        state: None,
        when: when.map(s),
        output: PlaybookCommandOutput::new(),
    }
}

fn print_task(resource: ConfigNode, register: Option<&str>, when: Option<&str>) -> PrintCommandTask {
    PlaybookCommand {
        command: Some(s("print")),
        name: Some(s("print task")),
        vars: PrintCommandVars { resource },
        register: register.map(s),
        state: None,
        when: when.map(s),
        output: PlaybookCommandOutput::new(),
    }
}

fn ok_cmd(stdout: &str, exit_status: i32) -> TaskEvent {
    TaskEvent::Command(Ok(CmdResult {
        stdout: s(stdout),
        stderr: String::new(),
        exit_status,
    }))
}

#[test]
fn shell_task_captures_stdout_and_succeeds() {
    // A shell task running `echo hi`: the runner captured "hi\n", exit 0.
    let mut task = bash_task("echo hi", None, None);
    let mut facts = Facts::new();
    task.run_command(&ok_cmd("hi\n", 0), &mut facts);
    assert!(task.output.stdout.contains("hi"));
    assert_eq!(task.output.success, 1);
    assert_eq!(task.output.failed, 0);
    assert_eq!(task.output.skipped, 0);
    assert_eq!(task.output.status, 0);
    assert_eq!(task.output.message, s("Success"));
}

#[test]
fn shell_task_nonzero_exit_fails() {
    let mut task = bash_task("false", None, None);
    let mut facts = Facts::new();
    task.run_command(&ok_cmd("", 1), &mut facts);
    assert_eq!(task.output.success, 0);
    assert_eq!(task.output.failed, 1);
    assert_eq!(task.output.status, 1);
    assert_eq!(task.output.message, s("Failed"));
}

#[test]
fn shell_task_spawn_failure_is_reported_not_fatal() {
    let mut task = bash_task("echo hi", None, None);
    let mut facts = Facts::new();
    task.run_command(&TaskEvent::Command(Err(s("no such interpreter"))), &mut facts);
    assert_eq!(task.output.failed, 1);
    assert_eq!(task.output.success, 0);
    assert_eq!(task.output.stderr, s("no such interpreter"));
}

#[test]
fn skipped_task_writes_no_fact_even_with_register() {
    // when == "false": skipped == 1, success == 0, failed == 0, and no
    // fact store write happened although register was set.
    let mut task = bash_task("echo hi", Some("x"), Some("false"));
    let mut facts = Facts::new();
    task.run_command(&ok_cmd("hi\n", 0), &mut facts);
    assert_eq!(task.output.skipped, 1);
    assert_eq!(task.output.success, 0);
    assert_eq!(task.output.failed, 0);
    assert_eq!(task.output.message, s("Skipped"));
    assert!(facts.get("x").is_none());
}

#[test]
fn when_true_runs_normally() {
    let mut task = bash_task("echo hi", None, Some("true"));
    let mut facts = Facts::new();
    task.run_command(&ok_cmd("hi\n", 0), &mut facts);
    assert_eq!(task.output.success, 1);
}

#[test]
fn register_makes_stdout_visible_as_fact() {
    let mut task = bash_task("echo hi", Some("x"), None);
    let mut facts = Facts::new();
    task.run_command(&ok_cmd("hi\n", 0), &mut facts);
    let v = facts.get("x").expect("fact x");
    assert!(v.deep_eq(&ConfigNode::Str(s("hi\n"))));
}

#[test]
fn print_task_echoes_literal_string() {
    let mut task = print_task(ConfigNode::Str(s("value")), None, None);
    let mut facts = Facts::new();
    task.execute(&TaskEvent::Absent, &mut facts);
    assert_eq!(task.output.stdout, s("value"));
    assert_eq!(task.output.success, 1);
    assert!(task.output.data.as_ref().unwrap().deep_eq(&ConfigNode::Str(s("value"))));
}

#[test]
fn print_task_resolves_fact_path_and_registers() {
    // vars.resource "{{ facts.path }}" with the fact bound: the produced
    // data is registered and visible to the next task before it begins.
    let mut facts = Facts::new();
    facts.insert("facts.path", ConfigNode::Str(s("value")));
    let mut task = print_task(ConfigNode::Str(s("{{ facts.path }}")), Some("result"), None);
    task.execute(&TaskEvent::Absent, &mut facts);
    assert_eq!(task.output.success, 1);
    let registered = facts.get("result").expect("fact result");
    assert!(registered.deep_eq(&ConfigNode::Str(s("value"))));

    // A subsequent task reading fact `result` sees "value".
    let mut next = print_task(ConfigNode::Str(s("{{ result }}")), None, None);
    next.execute(&TaskEvent::Absent, &mut facts);
    assert_eq!(next.output.stdout, s("value"));
}

#[test]
fn print_task_unbound_path_is_a_task_failure() {
    let mut facts = Facts::new();
    let mut task = print_task(ConfigNode::Str(s("{{ nothing.here }}")), None, None);
    task.execute(&TaskEvent::Absent, &mut facts);
    assert_eq!(task.output.failed, 1);
    assert_eq!(task.output.message, s("fact not found: nothing.here"));
}

#[test]
fn print_task_rendered_event_takes_precedence() {
    let mut facts = Facts::new();
    let mut task = print_task(ConfigNode::Str(s("{{ ignored }}")), None, None);
    task.execute(&TaskEvent::Rendered(Ok(ConfigNode::Str(s("rendered")))), &mut facts);
    assert_eq!(task.output.stdout, s("rendered"));
    assert_eq!(task.output.success, 1);
}

#[test]
fn print_task_render_error_fails_task() {
    let mut facts = Facts::new();
    let mut task = print_task(ConfigNode::Str(s("x")), None, None);
    task.execute(&TaskEvent::Rendered(Err(s("template error"))), &mut facts);
    assert_eq!(task.output.failed, 1);
    assert_eq!(task.output.message, s("template error"));
}

#[test]
fn print_task_state_absent_reports_removed() {
    let mut facts = Facts::new();
    let mut task = print_task(ConfigNode::Str(s("v")), None, None);
    task.state = Some(s("absent"));
    task.execute(&TaskEvent::Absent, &mut facts);
    assert_eq!(task.output.message, s("Removed"));
}

#[test]
fn facts_insert_overwrites_and_get_reads() {
    let mut facts = Facts::new();
    facts.insert("k", ConfigNode::Int(1));
    facts.insert("k", ConfigNode::Int(2));
    let v = facts.get("k").expect("fact k");
    assert!(v.deep_eq(&ConfigNode::Int(2)));
    assert!(facts.get("other").is_none());
}

#[test]
fn summary_counts_every_flag() {
    let mut summary = PlaybookSummary::new();
    let mut o = PlaybookCommandOutput::new();
    o.success = 1;
    summary.increment_as_task(o);
    let mut o2 = PlaybookCommandOutput::new();
    o2.skipped = 1;
    summary.increment_as_task(o2);
    assert_eq!(summary.tasks_counter, 2);
    assert_eq!(summary.success_counter, 1);
    assert_eq!(summary.skipped_counter, 1);
    assert_eq!(summary.failed_counter, 0);
}

#[test]
fn run_summary_totals_match_per_task_flags() {
    // Three tasks: one succeeds, one is skipped, one fails; the summary
    // counts one of each and three tasks in all.
    let tasks = vec![
        PlaybookTasks::CoreTasks(CoreTasks::BashCommandTask(bash_task("echo a", None, None))),
        PlaybookTasks::CoreTasks(CoreTasks::BashCommandTask(bash_task(
            "echo b",
            None,
            Some("false"),
        ))),
        PlaybookTasks::CoreTasks(CoreTasks::BashCommandTask(bash_task("false", None, None))),
    ];
    let events = vec![ok_cmd("a\n", 0), TaskEvent::Absent, ok_cmd("", 2)];
    let mut ws = ChgOpsWorkspace::new("/tmp/ws");
    ws.playbook = Playbook::new("demo", Settings::new(), tasks);
    let mut facts = Facts::new();
    ws.run_playbook(&events, &mut facts);
    assert_eq!(ws.summary.tasks_counter, 3);
    assert_eq!(ws.summary.success_counter, 1);
    assert_eq!(ws.summary.skipped_counter, 1);
    assert_eq!(ws.summary.failed_counter, 1);
    assert_eq!(ws.summary.changed_counter, 0);
    assert!(ws.summary.start_time.is_some());
    assert!(ws.summary.end_time.is_some());
}

#[test]
fn register_fact_flows_between_playbook_tasks() {
    let tasks = vec![
        PlaybookTasks::CoreTasks(CoreTasks::PrintCommandTask(print_task(
            ConfigNode::Str(s("value")),
            Some("result"),
            None,
        ))),
        PlaybookTasks::CoreTasks(CoreTasks::PrintCommandTask(print_task(
            ConfigNode::Str(s("{{ result }}")),
            None,
            None,
        ))),
    ];
    let mut pb = Playbook::new("demo", Settings::new(), tasks);
    let events = vec![TaskEvent::Absent, TaskEvent::Absent];
    let mut facts = Facts::new();
    pb.run_tasks(&events, &mut facts);
    let second = pb.tasks[1].output();
    assert_eq!(second.stdout, s("value"));
    assert_eq!(second.success, 1);
}

#[test]
fn workspace_paths_are_built_from_parts() {
    let mut ws = ChgOpsWorkspace::new("/root/dir");
    ws.playbook_name = s("playbook");
    assert_eq!(ws.workspace_path(), s("/root/dir"));
    assert_eq!(ws.collection_path(), s("/root/dir/collections"));
    assert_eq!(ws.playbook_full_path(), s("/root/dir/playbook.yaml"));
    assert_eq!(ws.config_full_path(), s("/root/dir/config.yaml"));
    ws.workspace_path = s("/elsewhere");
    assert_eq!(ws.workspace_path(), s("/elsewhere"));
}

#[test]
fn output_timestamps_are_ordered() {
    let mut o = PlaybookCommandOutput::new();
    o.set_start_time();
    o.set_end_time();
    assert!(o.start_time.unwrap() <= o.end_time.unwrap());
}

#[test]
fn zero_duration_reads_as_now() {
    let mut o = PlaybookCommandOutput::new();
    o.start_time = Some(1000);
    o.end_time = Some(1000);
    assert_eq!(o.duration(), s("now"));
}

#[test]
fn empty_register_name_writes_no_fact() {
    let mut task = bash_task("echo hi", Some(""), None);
    let mut facts = Facts::new();
    task.run_command(&ok_cmd("hi\n", 0), &mut facts);
    assert_eq!(task.output.success, 1);
    assert!(facts.get("").is_none());
    assert_eq!(facts.context.len(), 0);
}

#[test]
fn failed_task_still_registers_captured_stdout() {
    // The register write is unconditional for non-skipped tasks: a failed
    // command publishes whatever stdout was captured.
    let mut task = bash_task("false", Some("x"), None);
    let mut facts = Facts::new();
    let event = TaskEvent::Command(Ok(CmdResult {
        stdout: s("partial"),
        stderr: String::new(),
        exit_status: 7,
    }));
    task.run_command(&event, &mut facts);
    assert_eq!(task.output.failed, 1);
    let v = facts.get("x").expect("fact x");
    assert!(v.deep_eq(&ConfigNode::Str(s("partial"))));
}

#[test]
fn print_failure_registers_empty_stdout() {
    let mut facts = Facts::new();
    let mut task = print_task(ConfigNode::Str(s("{{ unbound.path }}")), Some("r"), None);
    task.execute(&TaskEvent::Absent, &mut facts);
    assert_eq!(task.output.failed, 1);
    let v = facts.get("r").expect("fact r");
    assert!(v.deep_eq(&ConfigNode::Str(s(""))));
}

#[test]
fn print_sub_mode_changes_no_result_field() {
    // The command sub-mode selects a display channel only: two executions
    // differing only in it produce identical result fields.
    let mut facts_a = Facts::new();
    let mut a = print_task(ConfigNode::Str(s("value")), None, None);
    a.command = Some(s("print"));
    a.execute(&TaskEvent::Absent, &mut facts_a);
    let mut facts_b = Facts::new();
    let mut b = print_task(ConfigNode::Str(s("value")), None, None);
    b.command = Some(s("warning"));
    b.execute(&TaskEvent::Absent, &mut facts_b);
    assert_eq!(a.output.stdout, b.output.stdout);
    assert_eq!(a.output.message, b.output.message);
    assert_eq!(a.output.success, b.output.success);
    assert_eq!(a.output.failed, b.output.failed);
    assert!(a.output.data.as_ref().unwrap().deep_eq(b.output.data.as_ref().unwrap()));
}
