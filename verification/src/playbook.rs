//! The playbook: an ordered task list behind a closed set of task kinds,
//! executed sequentially against the shared fact store.

use vstd::prelude::*;
use crate::facts::Facts;
use crate::output::PlaybookCommandOutput;
use crate::node::NodeV;
use crate::tasks::{TaskEvent, PlaybookCommand, BashCommandTask, WinCmdCommandTask,
    PrintCommandTask, AzureLoginTask, AzureCliTask, when_skips, skipped_execution, facts_after,
    outputs_match, command_execution, print_execution};

verus! {

/// The built-in task kinds.
pub enum CoreTasks {
    BashCommandTask(BashCommandTask),
    WinCmdCommandTask(WinCmdCommandTask),
    PrintCommandTask(PrintCommandTask),
}

/// The cloud task kinds.
pub enum AzureTasks {
    AzureLoginTask(AzureLoginTask),
    AzureCliTask(AzureCliTask),
}

/// One playbook task, of any kind.
pub enum PlaybookTasks {
    CoreTasks(CoreTasks),
    AzureTasks(AzureTasks),
}

impl CoreTasks {
    /// The task's `when` guard.
    pub open spec fn when_of(&self) -> Option<String> {
        match self {
            CoreTasks::BashCommandTask(t) => t.when,
            CoreTasks::WinCmdCommandTask(t) => t.when,
            CoreTasks::PrintCommandTask(t) => t.when,
        }
    }

    /// The task's register field.
    pub open spec fn register_of(&self) -> Option<String> {
        match self {
            CoreTasks::BashCommandTask(t) => t.register,
            CoreTasks::WinCmdCommandTask(t) => t.register,
            CoreTasks::PrintCommandTask(t) => t.register,
        }
    }

    /// The task's last execution output.
    pub open spec fn output_of(&self) -> PlaybookCommandOutput {
        match self {
            CoreTasks::BashCommandTask(t) => t.output,
            CoreTasks::WinCmdCommandTask(t) => t.output,
            CoreTasks::PrintCommandTask(t) => t.output,
        }
    }

    /// Same kind and same definition fields; only the output may differ.
    pub open spec fn same_def(pre: &CoreTasks, post: &CoreTasks) -> bool {
        match (pre, post) {
            (CoreTasks::BashCommandTask(a), CoreTasks::BashCommandTask(b)) => {
                PlaybookCommand::meta_unchanged(a, b)
            },
            (CoreTasks::WinCmdCommandTask(a), CoreTasks::WinCmdCommandTask(b)) => {
                PlaybookCommand::meta_unchanged(a, b)
            },
            (CoreTasks::PrintCommandTask(a), CoreTasks::PrintCommandTask(b)) => {
                PlaybookCommand::meta_unchanged(a, b)
            },
            _ => false,
        }
    }

    /// The kind's execution outcome, tied to the event: shell kinds
    /// populate their output from the captured command result, the print
    /// kind evaluates its rendered resource against the fact store.
    pub open spec fn execution_matches(
        pre: &CoreTasks,
        post: &CoreTasks,
        event: TaskEvent,
        pre_facts: Seq<(Seq<char>, NodeV)>,
    ) -> bool {
        match (pre, post) {
            (CoreTasks::BashCommandTask(_), CoreTasks::BashCommandTask(b)) => {
                command_execution(b.output, event)
            },
            (CoreTasks::WinCmdCommandTask(_), CoreTasks::WinCmdCommandTask(b)) => {
                command_execution(b.output, event)
            },
            (CoreTasks::PrintCommandTask(a), CoreTasks::PrintCommandTask(b)) => {
                print_execution(b.output, event, a.vars.resource@, a.state, pre_facts)
            },
            _ => false,
        }
    }

    /// Executes the task against the supplied event.
    pub fn execute(&mut self, event: &TaskEvent, facts: &mut Facts)
        ensures
            Self::same_def(old(self), final(self)),
            final(self).when_of() == old(self).when_of(),
            final(self).register_of() == old(self).register_of(),
            final(self).output_of().flags_wf(),
            final(self).output_of().times_wf(),
            when_skips(old(self).when_of())
                ==> skipped_execution(final(self).output_of()) && final(facts)@ == old(facts)@
                    && final(facts).text == old(facts).text,
            !when_skips(old(self).when_of()) ==> Self::execution_matches(
                old(self),
                final(self),
                *event,
                old(facts)@,
            ) && final(facts)@ == facts_after(
                old(facts)@,
                old(self).register_of(),
                final(self).output_of(),
            ) && final(facts).text == old(facts).text,
    {
        match self {
            CoreTasks::BashCommandTask(t) => t.run_command(event, facts),
            CoreTasks::WinCmdCommandTask(t) => t.run_command(event, facts),
            CoreTasks::PrintCommandTask(t) => t.execute(event, facts),
        }
    }

    /// A copy of the task's last execution output.
    pub fn output(&self) -> (r: PlaybookCommandOutput)
        ensures
            outputs_match(r, self.output_of()),
    {
        match self {
            CoreTasks::BashCommandTask(t) => t.output(),
            CoreTasks::WinCmdCommandTask(t) => t.output(),
            CoreTasks::PrintCommandTask(t) => t.output(),
        }
    }
}

impl AzureTasks {
    /// The task's `when` guard.
    pub open spec fn when_of(&self) -> Option<String> {
        match self {
            AzureTasks::AzureLoginTask(t) => t.when,
            AzureTasks::AzureCliTask(t) => t.when,
        }
    }

    /// The task's register field.
    pub open spec fn register_of(&self) -> Option<String> {
        match self {
            AzureTasks::AzureLoginTask(t) => t.register,
            AzureTasks::AzureCliTask(t) => t.register,
        }
    }

    /// The task's last execution output.
    pub open spec fn output_of(&self) -> PlaybookCommandOutput {
        match self {
            AzureTasks::AzureLoginTask(t) => t.output,
            AzureTasks::AzureCliTask(t) => t.output,
        }
    }

    /// Same kind and same definition fields; only the output may differ.
    pub open spec fn same_def(pre: &AzureTasks, post: &AzureTasks) -> bool {
        match (pre, post) {
            (AzureTasks::AzureLoginTask(a), AzureTasks::AzureLoginTask(b)) => {
                PlaybookCommand::meta_unchanged(a, b)
            },
            (AzureTasks::AzureCliTask(a), AzureTasks::AzureCliTask(b)) => {
                PlaybookCommand::meta_unchanged(a, b)
            },
            _ => false,
        }
    }

    /// The kind's execution outcome, tied to the event: both cloud kinds
    /// populate their output from the captured command result.
    pub open spec fn execution_matches(
        pre: &AzureTasks,
        post: &AzureTasks,
        event: TaskEvent,
        pre_facts: Seq<(Seq<char>, NodeV)>,
    ) -> bool {
        match (pre, post) {
            (AzureTasks::AzureLoginTask(_), AzureTasks::AzureLoginTask(b)) => {
                command_execution(b.output, event)
            },
            (AzureTasks::AzureCliTask(_), AzureTasks::AzureCliTask(b)) => {
                command_execution(b.output, event)
            },
            _ => false,
        }
    }

    /// Executes the task against the supplied event.
    pub fn execute(&mut self, event: &TaskEvent, facts: &mut Facts)
        ensures
            Self::same_def(old(self), final(self)),
            final(self).when_of() == old(self).when_of(),
            final(self).register_of() == old(self).register_of(),
            final(self).output_of().flags_wf(),
            final(self).output_of().times_wf(),
            when_skips(old(self).when_of())
                ==> skipped_execution(final(self).output_of()) && final(facts)@ == old(facts)@
                    && final(facts).text == old(facts).text,
            !when_skips(old(self).when_of()) ==> Self::execution_matches(
                old(self),
                final(self),
                *event,
                old(facts)@,
            ) && final(facts)@ == facts_after(
                old(facts)@,
                old(self).register_of(),
                final(self).output_of(),
            ) && final(facts).text == old(facts).text,
    {
        match self {
            AzureTasks::AzureLoginTask(t) => t.run_command(event, facts),
            AzureTasks::AzureCliTask(t) => t.run_command(event, facts),
        }
    }

    /// A copy of the task's last execution output.
    pub fn output(&self) -> (r: PlaybookCommandOutput)
        ensures
            outputs_match(r, self.output_of()),
    {
        match self {
            AzureTasks::AzureLoginTask(t) => t.output(),
            AzureTasks::AzureCliTask(t) => t.output(),
        }
    }
}

impl PlaybookTasks {
    /// The task's `when` guard.
    pub open spec fn when_of(&self) -> Option<String> {
        match self {
            PlaybookTasks::CoreTasks(t) => t.when_of(),
            PlaybookTasks::AzureTasks(t) => t.when_of(),
        }
    }

    /// The task's register field.
    pub open spec fn register_of(&self) -> Option<String> {
        match self {
            PlaybookTasks::CoreTasks(t) => t.register_of(),
            PlaybookTasks::AzureTasks(t) => t.register_of(),
        }
    }

    /// The task's last execution output.
    pub open spec fn output_of(&self) -> PlaybookCommandOutput {
        match self {
            PlaybookTasks::CoreTasks(t) => t.output_of(),
            PlaybookTasks::AzureTasks(t) => t.output_of(),
        }
    }

    /// Same kind and same definition fields; only the output may differ.
    pub open spec fn same_def(pre: &PlaybookTasks, post: &PlaybookTasks) -> bool {
        match (pre, post) {
            (PlaybookTasks::CoreTasks(a), PlaybookTasks::CoreTasks(b)) => CoreTasks::same_def(
                a,
                b,
            ),
            (PlaybookTasks::AzureTasks(a), PlaybookTasks::AzureTasks(b)) => AzureTasks::same_def(
                a,
                b,
            ),
            _ => false,
        }
    }

    /// The kind's execution outcome, tied to the event.
    pub open spec fn execution_matches(
        pre: &PlaybookTasks,
        post: &PlaybookTasks,
        event: TaskEvent,
        pre_facts: Seq<(Seq<char>, NodeV)>,
    ) -> bool {
        match (pre, post) {
            (PlaybookTasks::CoreTasks(a), PlaybookTasks::CoreTasks(b)) => {
                CoreTasks::execution_matches(a, b, event, pre_facts)
            },
            (PlaybookTasks::AzureTasks(a), PlaybookTasks::AzureTasks(b)) => {
                AzureTasks::execution_matches(a, b, event, pre_facts)
            },
            _ => false,
        }
    }

    /// Executes the task against the supplied event.
    pub fn execute(&mut self, event: &TaskEvent, facts: &mut Facts)
        ensures
            Self::same_def(old(self), final(self)),
            final(self).when_of() == old(self).when_of(),
            final(self).register_of() == old(self).register_of(),
            final(self).output_of().flags_wf(),
            final(self).output_of().times_wf(),
            when_skips(old(self).when_of())
                ==> skipped_execution(final(self).output_of()) && final(facts)@ == old(facts)@
                    && final(facts).text == old(facts).text,
            !when_skips(old(self).when_of()) ==> Self::execution_matches(
                old(self),
                final(self),
                *event,
                old(facts)@,
            ) && final(facts)@ == facts_after(
                old(facts)@,
                old(self).register_of(),
                final(self).output_of(),
            ) && final(facts).text == old(facts).text,
    {
        match self {
            PlaybookTasks::CoreTasks(t) => t.execute(event, facts),
            PlaybookTasks::AzureTasks(t) => t.execute(event, facts),
        }
    }

    /// A copy of the task's last execution output.
    pub fn output(&self) -> (r: PlaybookCommandOutput)
        ensures
            outputs_match(r, self.output_of()),
    {
        match self {
            PlaybookTasks::CoreTasks(t) => t.output(),
            PlaybookTasks::AzureTasks(t) => t.output(),
        }
    }
}

/// Per-run settings from the playbook definition.
pub struct Settings {
    pub name: String,
    pub vars: Option<Vec<(String, String)>>,
}

impl Settings {
    /// Empty settings.
    pub fn new() -> (r: Settings)
        ensures
            r.name@ == Seq::<char>::empty(),
            r.vars is None,
    {
        Settings { name: String::new(), vars: None }
    }
}

/// Workspace-level configuration parameters.
pub struct WorkspaceConfigurations {
    pub params: Option<String>,
}

impl WorkspaceConfigurations {
    /// Empty configuration parameters.
    pub fn new() -> (r: WorkspaceConfigurations)
        ensures
            r.params is None,
    {
        WorkspaceConfigurations { params: None }
    }
}

/// Workspace-level variable bindings.
pub struct WorkspaceVariables {
    pub params: Option<Vec<(String, String)>>,
    pub vars: Option<Vec<(String, String)>>,
}

impl WorkspaceVariables {
    /// Empty variable bindings.
    pub fn new() -> (r: WorkspaceVariables)
        ensures
            r.params is None,
            r.vars is None,
    {
        WorkspaceVariables { params: None, vars: None }
    }
}

/// A playbook: a name, per-run settings, and the ordered task list.
pub struct Playbook {
    pub name: String,
    pub settings: Settings,
    pub tasks: Vec<PlaybookTasks>,
}

impl Playbook {
    /// A playbook with the given name, settings and tasks.
    pub fn new(name: &str, settings: Settings, tasks: Vec<PlaybookTasks>) -> (r: Playbook)
        ensures
            r.name@ == name@,
            r.settings == settings,
            r.tasks == tasks,
    {
        Playbook { name: String::from_str(name), settings, tasks }
    }

    /// Executes the tasks in order, each against its event from the
    /// caller-driven runner. A task whose `when` guard is the literal
    /// `false` is skipped and writes no fact; every other task executes
    /// against its event with the fact store as left by the tasks before
    /// it, and its fact write is visible to the tasks after it.
    pub fn run_tasks(&mut self, events: &Vec<TaskEvent>, facts: &mut Facts)
        requires
            events@.len() == old(self).tasks@.len(),
        ensures
            final(self).name == old(self).name,
            final(self).settings == old(self).settings,
            final(self).tasks@.len() == old(self).tasks@.len(),
            forall|i: int| 0 <= i < final(self).tasks@.len() ==> PlaybookTasks::same_def(
                &old(self).tasks@[i],
                &(#[trigger] final(self).tasks@[i]),
            ),
            forall|i: int| 0 <= i < final(self).tasks@.len()
                ==> (#[trigger] final(self).tasks@[i].output_of()).flags_wf()
                    && final(self).tasks@[i].output_of().times_wf(),
            forall|i: int| 0 <= i < final(self).tasks@.len() && when_skips(
                old(self).tasks@[i].when_of(),
            ) ==> skipped_execution(#[trigger] final(self).tasks@[i].output_of()),
            forall|i: int| 0 <= i < final(self).tasks@.len() && !when_skips(
                old(self).tasks@[i].when_of(),
            ) ==> PlaybookTasks::execution_matches(
                &old(self).tasks@[i],
                &(#[trigger] final(self).tasks@[i]),
                events@[i],
                facts_thread(
                    old(self).tasks@.subrange(0, i),
                    final(self).tasks@.subrange(0, i),
                    old(facts)@,
                ),
            ),
            final(facts)@ == facts_thread(old(self).tasks@, final(self).tasks@, old(facts)@),
            final(facts).text == old(facts).text,
    {
        let ghost f0 = old(facts)@;
        proof {
            assert(old(self).tasks@.subrange(0, 0) =~= Seq::<PlaybookTasks>::empty());
            assert(self.tasks@.subrange(0, 0) =~= Seq::<PlaybookTasks>::empty());
        }
        let mut i: usize = 0;
        while i < self.tasks.len()
            invariant
                i <= self.tasks@.len(),
                self.tasks@.len() == old(self).tasks@.len(),
                events@.len() == old(self).tasks@.len(),
                self.name == old(self).name,
                self.settings == old(self).settings,
                f0 == old(facts)@,
                forall|j: int| i as int <= j < self.tasks@.len()
                    ==> self.tasks@[j] == old(self).tasks@[j],
                forall|j: int| 0 <= j < i as int ==> PlaybookTasks::same_def(
                    &old(self).tasks@[j],
                    &(#[trigger] self.tasks@[j]),
                ),
                forall|j: int| 0 <= j < i as int ==> (#[trigger] self.tasks@[j].output_of()).flags_wf()
                    && self.tasks@[j].output_of().times_wf(),
                forall|j: int| 0 <= j < i as int && when_skips(old(self).tasks@[j].when_of())
                    ==> skipped_execution(#[trigger] self.tasks@[j].output_of()),
                forall|j: int| 0 <= j < i as int && !when_skips(old(self).tasks@[j].when_of())
                    ==> PlaybookTasks::execution_matches(
                        &old(self).tasks@[j],
                        &(#[trigger] self.tasks@[j]),
                        events@[j],
                        facts_thread(
                            old(self).tasks@.subrange(0, j),
                            self.tasks@.subrange(0, j),
                            f0,
                        ),
                    ),
                facts@ == facts_thread(
                    old(self).tasks@.subrange(0, i as int),
                    self.tasks@.subrange(0, i as int),
                    f0,
                ),
                facts.text == old(facts).text,
            decreases self.tasks@.len() - i,
        {
            let ghost pre_tasks = self.tasks@;
            let ghost pre_facts = facts@;
            let task = &mut self.tasks[i];
            task.execute(&events[i], facts);
            proof {
                assert(old(self).tasks@.subrange(0, i as int + 1).drop_last()
                    =~= old(self).tasks@.subrange(0, i as int));
                assert(self.tasks@.subrange(0, i as int + 1).drop_last() =~= self.tasks@.subrange(
                    0,
                    i as int,
                ));
                assert(old(self).tasks@.subrange(0, i as int + 1).last() == old(self).tasks@[
                    i as int]);
                assert(self.tasks@.subrange(0, i as int + 1).last() == self.tasks@[i as int]);
                assert(self.tasks@.subrange(0, i as int) =~= pre_tasks.subrange(0, i as int));
                assert forall|j: int| 0 <= j < i as int implies self.tasks@.subrange(0, j)
                    =~= pre_tasks.subrange(0, j) by {}
            }
            i = i + 1;
        }
        proof {
            assert(old(self).tasks@.subrange(0, old(self).tasks@.len() as int)
                =~= old(self).tasks@);
            assert(self.tasks@.subrange(0, self.tasks@.len() as int) =~= self.tasks@);
        }
    }
}

/// The fact store threaded through a completed run: each non-skipped task
/// publishes per its register field, skipped tasks leave the store alone.
pub open spec fn facts_thread(
    pre: Seq<PlaybookTasks>,
    post: Seq<PlaybookTasks>,
    f0: Seq<(Seq<char>, NodeV)>,
) -> Seq<(Seq<char>, NodeV)>
    decreases pre.len(),
{
    if pre.len() == 0 {
        f0
    } else {
        let fprev = facts_thread(pre.drop_last(), post.drop_last(), f0);
        if when_skips(pre.last().when_of()) {
            fprev
        } else {
            facts_after(fprev, pre.last().register_of(), post.last().output_of())
        }
    }
}

} // verus!
