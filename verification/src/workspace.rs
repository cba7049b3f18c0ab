//! The workspace: paths, the loaded playbook, and the run that executes
//! its tasks and aggregates their outputs into the summary.

use vstd::prelude::*;
use crate::facts::Facts;
use crate::node::ConfigNode;
use crate::output::PlaybookSummary;
use crate::node::NodeV;
use crate::playbook::{Playbook, PlaybookTasks, Settings, facts_thread};
use crate::tasks::{TaskEvent, when_skips, skipped_execution};

verus! {

/// Sum of the success flags of the tasks' outputs.
pub open spec fn sum_success(tasks: Seq<PlaybookTasks>) -> int
    decreases tasks.len(),
{
    if tasks.len() == 0 {
        0
    } else {
        sum_success(tasks.drop_last()) + tasks.last().output_of().success
    }
}

/// Sum of the failed flags of the tasks' outputs.
pub open spec fn sum_failed(tasks: Seq<PlaybookTasks>) -> int
    decreases tasks.len(),
{
    if tasks.len() == 0 {
        0
    } else {
        sum_failed(tasks.drop_last()) + tasks.last().output_of().failed
    }
}

/// Sum of the skipped flags of the tasks' outputs.
pub open spec fn sum_skipped(tasks: Seq<PlaybookTasks>) -> int
    decreases tasks.len(),
{
    if tasks.len() == 0 {
        0
    } else {
        sum_skipped(tasks.drop_last()) + tasks.last().output_of().skipped
    }
}

/// Sum of the changed flags of the tasks' outputs.
pub open spec fn sum_changed(tasks: Seq<PlaybookTasks>) -> int
    decreases tasks.len(),
{
    if tasks.len() == 0 {
        0
    } else {
        sum_changed(tasks.drop_last()) + tasks.last().output_of().changed
    }
}

/// How much detail task and playbook displays echo.
pub enum Verbose {
    Empty,
    V,
    VV,
    VVV,
}

impl Verbose {
    /// The verbosity as a small ordinal: 0 is quiet, 3 is a full dump.
    pub fn level(&self) -> (r: u8)
        ensures
            r == (match self {
                Verbose::Empty => 0u8,
                Verbose::V => 1u8,
                Verbose::VV => 2u8,
                Verbose::VVV => 3u8,
            }),
    {
        match self {
            Verbose::Empty => 0,
            Verbose::V => 1,
            Verbose::VV => 2,
            Verbose::VVV => 3,
        }
    }
}

/// The workspace under operation: where it lives, what it runs, and the
/// run's summary.
pub struct ChgOpsWorkspace {
    pub current_dir: String,
    pub workspace_path: String,
    pub playbook_name: String,
    pub verbose: String,
    pub arguments: String,
    pub playbook: Playbook,
    pub configurations: Vec<ConfigNode>,
    pub variables: Vec<ConfigNode>,
    pub summary: PlaybookSummary,
    pub active_playbook_document: String,
}

impl ChgOpsWorkspace {
    /// A fresh workspace rooted at the caller's current directory.
    pub fn new(current_dir: &str) -> (r: ChgOpsWorkspace)
        ensures
            r.current_dir@ == current_dir@,
            r.workspace_path@ == current_dir@,
            r.playbook_name@ == Seq::<char>::empty(),
            r.verbose@ == Seq::<char>::empty(),
            r.arguments@ == Seq::<char>::empty(),
            r.playbook.tasks@.len() == 0,
            r.summary.tasks_counter == 0,
            r.summary.wf(),
    {
        ChgOpsWorkspace {
            current_dir: String::from_str(current_dir),
            workspace_path: String::from_str(current_dir),
            playbook_name: String::new(),
            verbose: String::new(),
            arguments: String::new(),
            playbook: Playbook::new("", Settings::new(), Vec::new()),
            configurations: Vec::new(),
            variables: Vec::new(),
            summary: PlaybookSummary::new(),
            active_playbook_document: String::new(),
        }
    }

    /// The effective workspace path: the configured one, or the current
    /// directory when none is set.
    pub fn workspace_path(&self) -> (r: String)
        ensures
            r@ == if self.workspace_path@.len() == 0 {
                self.current_dir@
            } else {
                self.workspace_path@
            },
    {
        if self.workspace_path.as_str().is_empty() {
            self.current_dir.clone()
        } else {
            self.workspace_path.clone()
        }
    }

    /// The shared collection tree under the current directory.
    pub fn collection_path(&self) -> (r: String)
        ensures
            r@ == self.current_dir@ + "/collections"@,
    {
        let mut s = self.current_dir.clone();
        s.append("/collections");
        s
    }

    /// The playbook definition file within the workspace.
    pub fn playbook_full_path(&self) -> (r: String)
        ensures
            r@ == (if self.workspace_path@.len() == 0 {
                self.current_dir@
            } else {
                self.workspace_path@
            }) + "/"@ + self.playbook_name@ + ".yaml"@,
    {
        let mut s = self.workspace_path();
        s.append("/");
        s.append(self.playbook_name.as_str());
        s.append(".yaml");
        proof {
            assert(s@ =~= (if self.workspace_path@.len() == 0 {
                self.current_dir@
            } else {
                self.workspace_path@
            }) + "/"@ + self.playbook_name@ + ".yaml"@);
        }
        s
    }

    /// The workspace's configuration file.
    pub fn config_full_path(&self) -> (r: String)
        ensures
            r@ == (if self.workspace_path@.len() == 0 {
                self.current_dir@
            } else {
                self.workspace_path@
            }) + "/config.yaml"@,
    {
        let mut s = self.workspace_path();
        s.append("/config.yaml");
        s
    }

    /// Runs the playbook's tasks in order against the supplied events and
    /// folds every task's output into the summary: the task counter grows
    /// by the number of tasks, and each disposition counter by the sum of
    /// the corresponding per-task flags.
    pub fn run_playbook(&mut self, events: &Vec<TaskEvent>, facts: &mut Facts)
        requires
            events@.len() == old(self).playbook.tasks@.len(),
            old(self).summary.wf(),
            old(self).summary.tasks_counter + old(self).playbook.tasks@.len() <= i32::MAX,
        ensures
            final(self).playbook.tasks@.len() == old(self).playbook.tasks@.len(),
            final(self).summary.wf(),
            final(self).summary.tasks_counter == old(self).summary.tasks_counter + old(
                self,
            ).playbook.tasks@.len(),
            final(self).summary.success_counter == old(self).summary.success_counter + sum_success(
                final(self).playbook.tasks@,
            ),
            final(self).summary.failed_counter == old(self).summary.failed_counter + sum_failed(
                final(self).playbook.tasks@,
            ),
            final(self).summary.skipped_counter == old(self).summary.skipped_counter + sum_skipped(
                final(self).playbook.tasks@,
            ),
            final(self).summary.changed_counter == old(self).summary.changed_counter + sum_changed(
                final(self).playbook.tasks@,
            ),
            final(self).summary.start_time is Some,
            final(self).summary.end_time is Some,
            final(self).summary.start_time->Some_0 <= final(self).summary.end_time->Some_0,
            forall|i: int| 0 <= i < final(self).playbook.tasks@.len() ==> PlaybookTasks::same_def(
                &old(self).playbook.tasks@[i],
                &(#[trigger] final(self).playbook.tasks@[i]),
            ),
            forall|i: int| 0 <= i < final(self).playbook.tasks@.len() && when_skips(
                old(self).playbook.tasks@[i].when_of(),
            ) ==> skipped_execution(#[trigger] final(self).playbook.tasks@[i].output_of()),
            forall|i: int| 0 <= i < final(self).playbook.tasks@.len() && !when_skips(
                old(self).playbook.tasks@[i].when_of(),
            ) ==> PlaybookTasks::execution_matches(
                &old(self).playbook.tasks@[i],
                &(#[trigger] final(self).playbook.tasks@[i]),
                events@[i],
                facts_thread(
                    old(self).playbook.tasks@.subrange(0, i),
                    final(self).playbook.tasks@.subrange(0, i),
                    old(facts)@,
                ),
            ),
            final(facts)@ == facts_thread(
                old(self).playbook.tasks@,
                final(self).playbook.tasks@,
                old(facts)@,
            ),
            final(facts).text == old(facts).text,
    {
        self.summary.set_start_time();
        self.playbook.run_tasks(events, facts);
        let ghost done = self.playbook.tasks@;
        let mut i: usize = 0;
        while i < self.playbook.tasks.len()
            invariant
                i <= self.playbook.tasks@.len(),
                done == self.playbook.tasks@,
                done.len() == old(self).playbook.tasks@.len(),
                forall|j: int| 0 <= j < done.len() ==> (#[trigger] done[j].output_of()).flags_wf(),
                self.summary.wf(),
                self.summary.start_time is Some,
                self.summary.tasks_counter == old(self).summary.tasks_counter + i as int,
                self.summary.tasks_counter <= i32::MAX - (done.len() - i as int),
                self.summary.success_counter == old(self).summary.success_counter + sum_success(
                    done.subrange(0, i as int),
                ),
                self.summary.failed_counter == old(self).summary.failed_counter + sum_failed(
                    done.subrange(0, i as int),
                ),
                self.summary.skipped_counter == old(self).summary.skipped_counter + sum_skipped(
                    done.subrange(0, i as int),
                ),
                self.summary.changed_counter == old(self).summary.changed_counter + sum_changed(
                    done.subrange(0, i as int),
                ),
            decreases self.playbook.tasks@.len() - i,
        {
            proof {
                assert(done.subrange(0, i as int + 1).drop_last() =~= done.subrange(0, i as int));
                assert(done.subrange(0, i as int + 1).last() == done[i as int]);
            }
            let out = self.playbook.tasks[i].output();
            self.summary.increment_as_task(out);
            i = i + 1;
        }
        proof {
            assert(done.subrange(0, done.len() as int) =~= done);
        }
        self.summary.set_end_time();
    }
}

} // verus!
