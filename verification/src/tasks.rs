//! The task model: a closed set of task kinds with a uniform execution
//! contract. A task decides everything itself; the outside work it cannot
//! do (spawning a command, rendering a template) is handed in as an event
//! by the caller that drives the run.

use vstd::prelude::*;
use crate::node::{ConfigNode, NodeV, hash_lookup};
use crate::facts::{Facts, hash_insert};
use crate::output::PlaybookCommandOutput;
use crate::display::{node_text, to_display_string};
use crate::strings::has_sub;
use crate::pipeline::{extract_path_spec, extract_object_path_from_handlebars};

verus! {

/// What the outside command runner captured for one spawned command.
pub struct CmdResult {
    pub stdout: String,
    pub stderr: String,
    pub exit_status: i32,
}

/// The outside work handed to a task execution: a spawned command's
/// captured result, a rendered resource parsed back into a tree, or
/// nothing.
pub enum TaskEvent {
    Absent,
    Command(Result<CmdResult, String>),
    Rendered(Result<ConfigNode, String>),
}

/// One task: a kind-specific command payload, optional label, auxiliary
/// parameters, an optional fact name to register the output under, a
/// state selector, a `when` guard, and the output of the last execution.
pub struct PlaybookCommand<COMMAND, VARS> {
    pub command: COMMAND,
    pub name: Option<String>,
    pub vars: VARS,
    pub register: Option<String>,
    pub state: Option<String>,
    pub when: Option<String>,
    pub output: PlaybookCommandOutput,
}

/// Auxiliary parameters of a shell task.
pub struct BashCommandVars {
    pub resource: ConfigNode,
}

/// Auxiliary parameters of a platform-shell task.
pub struct WinCmdCommandVars {
    pub resource: ConfigNode,
}

/// Auxiliary parameters of a print task: the resource to evaluate.
pub struct PrintCommandVars {
    pub resource: ConfigNode,
}

/// Auxiliary parameters of a cloud-CLI task.
pub struct AzureCliVars {
    pub resource: ConfigNode,
}

/// Credentials for a cloud login; empty fields are filled from the
/// environment by the caller before the task runs.
pub struct AzureLoginVars {
    pub client_id: String,
    pub secret: String,
    pub tenant: String,
}

pub type BashCommandTask = PlaybookCommand<String, BashCommandVars>;

pub type WinCmdCommandTask = PlaybookCommand<String, WinCmdCommandVars>;

pub type PrintCommandTask = PlaybookCommand<Option<String>, PrintCommandVars>;

pub type AzureLoginTask = PlaybookCommand<AzureLoginVars, ConfigNode>;

pub type AzureCliTask = PlaybookCommand<String, AzureCliVars>;

/// A `when` guard of the literal string `false` skips the task.
pub open spec fn when_skips(when: Option<String>) -> bool {
    match when {
        Some(s) => s@ == "false"@,
        None => false,
    }
}

/// The fact name a task registers under: its `register` field, unless
/// empty or absent.
pub open spec fn register_name(reg: Option<String>) -> Option<Seq<char>> {
    match reg {
        Some(r) => if r@.len() == 0 {
            None
        } else {
            Some(r@)
        },
        None => None,
    }
}

/// The value a task publishes: its structured data when present, else its
/// raw stdout.
pub open spec fn registered_value(o: PlaybookCommandOutput) -> NodeV {
    match o.data {
        Some(d) => d@,
        None => NodeV::Str(o.stdout@),
    }
}

/// The fact store after a non-skipped task completes: a task with a
/// register name publishes its value, whatever its disposition; a task
/// without one leaves the store alone.
pub open spec fn facts_after(
    pre: Seq<(Seq<char>, NodeV)>,
    reg: Option<String>,
    o: PlaybookCommandOutput,
) -> Seq<(Seq<char>, NodeV)> {
    match register_name(reg) {
        Some(rn) => hash_insert(pre, rn, registered_value(o)),
        None => pre,
    }
}

/// Register visibility: a non-skipped task with a register name makes the
/// fact store yield its published value immediately after execution, and
/// leaves every other fact alone.
pub proof fn lemma_registered_fact_visible(
    pre: Seq<(Seq<char>, NodeV)>,
    reg: Option<String>,
    o: PlaybookCommandOutput,
    k: Seq<char>,
)
    requires
        register_name(reg) is Some,
    ensures
        hash_lookup(facts_after(pre, reg, o), k) == (if k == register_name(reg)->Some_0 {
            Some(registered_value(o))
        } else {
            hash_lookup(pre, k)
        }),
{
    crate::facts::lemma_insert_lookup(pre, register_name(reg)->Some_0, registered_value(o), k);
}

/// The output of a skipped task: only the skipped flag is set, the
/// message says so, and nothing else was produced.
pub open spec fn skipped_execution(o: PlaybookCommandOutput) -> bool {
    &&& o.skipped == 1
    &&& o.success == 0
    &&& o.failed == 0
    &&& o.changed == 0
    &&& o.message@ == "Skipped"@
    &&& o.stdout@ == Seq::<char>::empty()
    &&& o.stderr@ == Seq::<char>::empty()
    &&& o.data is None
    &&& o.status == 0
}

/// The output of a command task, for each possible runner event: a
/// captured result populates the streams and the exit status gates
/// success; a spawn failure or a missing result is a reported failure.
pub open spec fn command_execution(o: PlaybookCommandOutput, event: TaskEvent) -> bool {
    match event {
        TaskEvent::Command(res) => match res {
            Ok(c) => {
                &&& o.stdout@ == c.stdout@
                &&& o.stderr@ == c.stderr@
                &&& o.status == c.exit_status
                &&& o.skipped == 0
                &&& o.changed == 0
                &&& o.data is None
                &&& (c.exit_status == 0 ==> o.success == 1 && o.failed == 0 && o.message@
                    == "Success"@)
                &&& (c.exit_status != 0 ==> o.success == 0 && o.failed == 1 && o.message@
                    == "Failed"@)
            },
            Err(e) => {
                &&& o.success == 0
                &&& o.failed == 1
                &&& o.skipped == 0
                &&& o.changed == 0
                &&& o.stdout@ == Seq::<char>::empty()
                &&& o.stderr@ == e@
                &&& o.message@ == "Failed"@
                &&& o.status == -1
                &&& o.data is None
            },
        },
        _ => {
            &&& o.success == 0
            &&& o.failed == 1
            &&& o.skipped == 0
            &&& o.changed == 0
            &&& o.stdout@ == Seq::<char>::empty()
            &&& o.stderr@ == "no command result supplied"@
            &&& o.message@ == "Failed"@
            &&& o.status == -1
            &&& o.data is None
        },
    }
}

/// The structured value a print task evaluates to, against the fact
/// store: a fact looked up through a handlebars path or the `[object]`
/// marker, the literal string, or the raw resource; an unbound path is
/// an error.
pub open spec fn lookup_path_spec(
    facts: Seq<(Seq<char>, NodeV)>,
    path: Seq<char>,
) -> Result<NodeV, Seq<char>> {
    match hash_lookup(facts, path) {
        Some(v) => Ok(v),
        None => Err("fact not found: "@ + path),
    }
}

/// What a print task evaluates its rendered resource to.
pub open spec fn print_data_spec(
    res: NodeV,
    template: NodeV,
    facts: Seq<(Seq<char>, NodeV)>,
) -> Result<NodeV, Seq<char>> {
    match res {
        NodeV::Str(s) => {
            if has_sub(s, "{{"@) && has_sub(s, "}}"@) {
                lookup_path_spec(facts, extract_path_spec(s))
            } else if has_sub(s, "[object]"@) {
                match template {
                    NodeV::Str(t) => lookup_path_spec(facts, extract_path_spec(t)),
                    _ => Err("object reference without a template string"@),
                }
            } else {
                Ok(NodeV::Str(s))
            }
        },
        _ => Ok(template),
    }
}

/// The message a print task reports on success: `Removed` when the state
/// selector asks for absence, `Success` otherwise.
pub open spec fn print_message(state: Option<String>) -> Seq<char> {
    match state {
        Some(s) => if s@ == "absent"@ {
            "Removed"@
        } else {
            "Success"@
        },
        None => "Success"@,
    }
}

/// The output of a print task once its resource evaluated to `d` or to an
/// error.
pub open spec fn print_outcome(
    o: PlaybookCommandOutput,
    res: NodeV,
    template: NodeV,
    state: Option<String>,
    pre_facts: Seq<(Seq<char>, NodeV)>,
) -> bool {
    match print_data_spec(res, template, pre_facts) {
        Ok(d) => {
            &&& o.data is Some
            &&& o.data->Some_0@ == d
            &&& o.stdout@ == node_text(d)
            &&& o.stderr@ == Seq::<char>::empty()
            &&& o.success == 1
            &&& o.failed == 0
            &&& o.skipped == 0
            &&& o.changed == 0
            &&& o.status == 1
            &&& o.message@ == print_message(state)
        },
        Err(m) => {
            &&& o.success == 0
            &&& o.failed == 1
            &&& o.skipped == 0
            &&& o.changed == 0
            &&& o.message@ == m
            &&& o.stdout@ == Seq::<char>::empty()
            &&& o.stderr@ == Seq::<char>::empty()
            &&& o.data is None
            &&& o.status == -1
        },
    }
}

/// The output of a print task, for each possible event.
pub open spec fn print_execution(
    o: PlaybookCommandOutput,
    event: TaskEvent,
    template: NodeV,
    state: Option<String>,
    pre_facts: Seq<(Seq<char>, NodeV)>,
) -> bool {
    match event {
        TaskEvent::Rendered(res) => match res {
            Ok(n) => print_outcome(o, n@, template, state, pre_facts),
            Err(e) => {
                &&& o.success == 0
                &&& o.failed == 1
                &&& o.skipped == 0
                &&& o.changed == 0
                &&& o.message@ == e@
                &&& o.stdout@ == Seq::<char>::empty()
                &&& o.stderr@ == Seq::<char>::empty()
                &&& o.data is None
                &&& o.status == -1
            },
        },
        TaskEvent::Absent => print_outcome(o, template, template, state, pre_facts),
        TaskEvent::Command(_) => {
            &&& o.success == 0
            &&& o.failed == 1
            &&& o.skipped == 0
            &&& o.changed == 0
            &&& o.message@ == "no rendered resource supplied"@
            &&& o.stdout@ == Seq::<char>::empty()
            &&& o.stderr@ == Seq::<char>::empty()
            &&& o.data is None
            &&& o.status == -1
        },
    }
}

/// Two outputs agree in every observable field.
pub open spec fn outputs_match(a: PlaybookCommandOutput, b: PlaybookCommandOutput) -> bool {
    &&& a.stdout@ == b.stdout@
    &&& a.stderr@ == b.stderr@
    &&& a.message@ == b.message@
    &&& a.status == b.status
    &&& a.success == b.success
    &&& a.failed == b.failed
    &&& a.skipped == b.skipped
    &&& a.changed == b.changed
    &&& (match (a.data, b.data) {
        (Some(x), Some(y)) => x@ == y@,
        (None, None) => true,
        _ => false,
    })
    &&& a.start_time == b.start_time
    &&& a.end_time == b.end_time
}

impl<COMMAND, VARS> PlaybookCommand<COMMAND, VARS> {
    /// The task's definition fields are untouched by an execution.
    pub open spec fn meta_unchanged(pre: &Self, post: &Self) -> bool {
        &&& post.command == pre.command
        &&& post.name == pre.name
        &&& post.vars == pre.vars
        &&& post.register == pre.register
        &&& post.state == pre.state
        &&& post.when == pre.when
    }

    /// A copy of the last execution's output.
    pub fn output(&self) -> (r: PlaybookCommandOutput)
        ensures
            outputs_match(r, self.output),
    {
        PlaybookCommandOutput {
            stdout: self.output.stdout.clone(),
            stderr: self.output.stderr.clone(),
            message: self.output.message.clone(),
            status: self.output.status,
            success: self.output.success,
            failed: self.output.failed,
            skipped: self.output.skipped,
            changed: self.output.changed,
            data: match &self.output.data {
                Some(d) => Some(d.deep_copy()),
                None => None,
            },
            start_time: self.output.start_time,
            end_time: self.output.end_time,
        }
    }

    /// Whether the `when` guard calls for a skip.
    fn is_skipped(&self) -> (r: bool)
        ensures
            r == when_skips(self.when),
    {
        let f = String::from_str("false");
        match &self.when {
            Some(w) => *w == f,
            None => false,
        }
    }

    /// Runs a command-style task against the runner's event: evaluates
    /// the `when` guard, populates the output from the captured result
    /// (the exit status gates success), and publishes the output under
    /// the register name whenever the task was not skipped.
    pub fn run_command(&mut self, event: &TaskEvent, facts: &mut Facts)
        ensures
            Self::meta_unchanged(old(self), final(self)),
            final(self).output.flags_wf(),
            final(self).output.times_wf(),
            when_skips(old(self).when) ==> skipped_execution(final(self).output) && final(facts)@
                == old(facts)@ && final(facts).text == old(facts).text,
            !when_skips(old(self).when)
                ==> command_execution(final(self).output, *event)
                    && final(facts)@ == facts_after(
                        old(facts)@,
                        old(self).register,
                        final(self).output,
                    )
                    && final(facts).text == old(facts).text,
    {
        self.output = PlaybookCommandOutput::new();
        self.output.set_start_time();
        if self.is_skipped() {
            self.output.message = String::from_str("Skipped");
            self.output.skipped = 1;
            self.output.set_end_time();
            return ;
        }
        match event {
            TaskEvent::Command(Ok(c)) => {
                self.output.stdout = c.stdout.clone();
                self.output.stderr = c.stderr.clone();
                self.output.status = c.exit_status;
                if c.exit_status == 0 {
                    self.output.success = 1;
                    self.output.message = String::from_str("Success");
                } else {
                    self.output.failed = 1;
                    self.output.message = String::from_str("Failed");
                }
            },
            TaskEvent::Command(Err(e)) => {
                self.output.failed = 1;
                self.output.stderr = e.clone();
                self.output.message = String::from_str("Failed");
                self.output.status = -1;
            },
            _ => {
                self.output.failed = 1;
                self.output.stderr = String::from_str("no command result supplied");
                self.output.message = String::from_str("Failed");
                self.output.status = -1;
            },
        }
        let reg = match &self.register {
            Some(r) => if r.as_str().is_empty() {
                None
            } else {
                Some(r.clone())
            },
            None => None,
        };
        match reg {
            Some(r) => {
                let v = ConfigNode::Str(self.output.stdout.clone());
                facts.insert(r.as_str(), v);
            },
            None => {},
        }
        self.output.set_end_time();
    }
}

impl PrintCommandTask {
    /// Runs a print task: evaluates the rendered resource against the
    /// fact store (a handlebars path or `[object]` marker reads a fact;
    /// an unbound path is a reported failure), echoes the value as its
    /// stdout, and publishes its value under the register name whenever
    /// the task was not skipped.
    pub fn execute(&mut self, event: &TaskEvent, facts: &mut Facts)
        ensures
            PlaybookCommand::<Option<String>, PrintCommandVars>::meta_unchanged(
                old(self),
                final(self),
            ),
            final(self).output.flags_wf(),
            final(self).output.times_wf(),
            when_skips(old(self).when) ==> skipped_execution(final(self).output) && final(facts)@
                == old(facts)@ && final(facts).text == old(facts).text,
            !when_skips(old(self).when) ==> print_execution(
                final(self).output,
                *event,
                old(self).vars.resource@,
                old(self).state,
                old(facts)@,
            ) && final(facts)@ == facts_after(old(facts)@, old(self).register, final(self).output)
                && final(facts).text == old(facts).text,
    {
        self.output = PlaybookCommandOutput::new();
        self.output.set_start_time();
        if self.is_skipped() {
            self.output.message = String::from_str("Skipped");
            self.output.skipped = 1;
            self.output.set_end_time();
            return ;
        }
        let res: Result<ConfigNode, String> = match event {
            TaskEvent::Rendered(Ok(n)) => Ok(n.deep_copy()),
            TaskEvent::Rendered(Err(e)) => Err(e.clone()),
            TaskEvent::Absent => Ok(self.vars.resource.deep_copy()),
            TaskEvent::Command(_) => Err(String::from_str("no rendered resource supplied")),
        };
        proof {
            reveal_strlit("{{");
            reveal_strlit("}}");
            reveal_strlit("[object]");
        }
        let data: Result<ConfigNode, String> = match res {
            Err(m) => Err(m),
            Ok(resv) => match &resv {
                ConfigNode::Str(s) => {
                    if crate::strings::contains_sub(s.as_str(), "{{")
                        && crate::strings::contains_sub(s.as_str(), "}}") {
                        let path = extract_object_path_from_handlebars(s.as_str());
                        match facts.get(path.as_str()) {
                            Some(v) => Ok(v),
                            None => {
                                let mut m = String::from_str("fact not found: ");
                                m.append(path.as_str());
                                Err(m)
                            },
                        }
                    } else if crate::strings::contains_sub(s.as_str(), "[object]") {
                        match &self.vars.resource {
                            ConfigNode::Str(t) => {
                                let path = extract_object_path_from_handlebars(t.as_str());
                                match facts.get(path.as_str()) {
                                    Some(v) => Ok(v),
                                    None => {
                                        let mut m = String::from_str("fact not found: ");
                                        m.append(path.as_str());
                                        Err(m)
                                    },
                                }
                            },
                            _ => Err(
                                String::from_str("object reference without a template string"),
                            ),
                        }
                    } else {
                        Ok(ConfigNode::Str(s.clone()))
                    }
                },
                _ => Ok(self.vars.resource.deep_copy()),
            },
        };
        match data {
            Ok(d) => {
                self.output.stdout = to_display_string(&d);
                self.output.success = 1;
                self.output.status = 1;
                let absent = String::from_str("absent");
                let is_absent = match &self.state {
                    Some(st) => *st == absent,
                    None => false,
                };
                if is_absent {
                    self.output.message = String::from_str("Removed");
                } else {
                    self.output.message = String::from_str("Success");
                }
                self.output.data = Some(d);
            },
            Err(m) => {
                self.output.failed = 1;
                self.output.message = m;
                self.output.status = -1;
            },
        }
        let reg = match &self.register {
            Some(r) => if r.as_str().is_empty() {
                None
            } else {
                Some(r.clone())
            },
            None => None,
        };
        match reg {
            Some(r) => {
                let v = match &self.output.data {
                    Some(d) => d.deep_copy(),
                    None => ConfigNode::Str(self.output.stdout.clone()),
                };
                facts.insert(r.as_str(), v);
            },
            None => {},
        }
        self.output.set_end_time();
    }
}

} // verus!
