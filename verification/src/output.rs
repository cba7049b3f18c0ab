//! Per-task execution results and the per-run summary.

use vstd::prelude::*;
use crate::node::ConfigNode;
use crate::trusted::{now_millis, humanize_millis, human_duration_of};

verus! {

/// The result of one task execution: captured streams, a disposition
/// (exactly one of success/failed/skipped set, as 0/1 flags), an optional
/// structured value, and timestamps.
pub struct PlaybookCommandOutput {
    pub stdout: String,
    pub stderr: String,
    pub message: String,
    pub status: i32,
    pub success: i32,
    pub failed: i32,
    pub skipped: i32,
    pub changed: i32,
    pub data: Option<ConfigNode>,
    pub start_time: Option<i64>,
    pub end_time: Option<i64>,
}

impl PlaybookCommandOutput {
    /// The disposition flags are 0/1 and at most one of
    /// success/failed/skipped is set.
    pub open spec fn flags_wf(&self) -> bool {
        &&& (self.success == 0 || self.success == 1)
        &&& (self.failed == 0 || self.failed == 1)
        &&& (self.skipped == 0 || self.skipped == 1)
        &&& (self.changed == 0 || self.changed == 1)
        &&& self.success + self.failed + self.skipped <= 1
    }

    /// Both timestamps are stamped and in order.
    pub open spec fn times_wf(&self) -> bool {
        &&& self.start_time is Some
        &&& self.end_time is Some
        &&& self.start_time->Some_0 <= self.end_time->Some_0
    }

    /// A fresh output: empty streams, all counters zero, nothing stamped.
    pub fn new() -> (r: PlaybookCommandOutput)
        ensures
            r.stdout@ == Seq::<char>::empty(),
            r.stderr@ == Seq::<char>::empty(),
            r.message@ == Seq::<char>::empty(),
            r.status == 0,
            r.success == 0,
            r.failed == 0,
            r.skipped == 0,
            r.changed == 0,
            r.data is None,
            r.start_time is None,
            r.end_time is None,
            r.flags_wf(),
    {
        PlaybookCommandOutput {
            stdout: String::new(),
            stderr: String::new(),
            message: String::new(),
            status: 0,
            success: 0,
            failed: 0,
            skipped: 0,
            changed: 0,
            data: None,
            start_time: None,
            end_time: None,
        }
    }

    /// Stamps the start of an execution with the current time.
    pub fn set_start_time(&mut self)
        ensures
            final(self).start_time is Some,
            *final(self) == (PlaybookCommandOutput {
                start_time: final(self).start_time,
                ..*old(self)
            }),
    {
        self.start_time = Some(now_millis());
    }

    /// Stamps the end of an execution; the recorded end never precedes a
    /// recorded start.
    pub fn set_end_time(&mut self)
        ensures
            final(self).end_time is Some,
            old(self).start_time is Some
                ==> final(self).start_time->Some_0 <= final(self).end_time->Some_0,
            *final(self) == (PlaybookCommandOutput { end_time: final(self).end_time, ..*old(self) }),
    {
        let t = now_millis();
        let e = match self.start_time {
            Some(s) => if s > t {
                s
            } else {
                t
            },
            None => t,
        };
        self.end_time = Some(e);
    }

    /// The elapsed time between the recorded start and end, as a
    /// human-readable phrase.
    pub fn duration(&self) -> (r: String)
        requires
            self.start_time is Some,
            self.end_time is Some,
            0 <= self.start_time->Some_0 <= self.end_time->Some_0,
        ensures
            r@ == human_duration_of(self.end_time->Some_0 - self.start_time->Some_0),
    {
        let s = match self.start_time {
            Some(s) => s,
            None => 0,
        };
        let e = match self.end_time {
            Some(e) => e,
            None => 0,
        };
        humanize_millis(e - s)
    }
}

/// Running totals of task dispositions and timing for one playbook run.
pub struct PlaybookSummary {
    pub tasks_counter: i32,
    pub success_counter: i32,
    pub failed_counter: i32,
    pub skipped_counter: i32,
    pub changed_counter: i32,
    pub start_time: Option<i64>,
    pub end_time: Option<i64>,
}

impl PlaybookSummary {
    /// Counters are non-negative and none exceeds the number of tasks
    /// counted.
    pub open spec fn wf(&self) -> bool {
        &&& 0 <= self.success_counter <= self.tasks_counter
        &&& 0 <= self.failed_counter <= self.tasks_counter
        &&& 0 <= self.skipped_counter <= self.tasks_counter
        &&& 0 <= self.changed_counter <= self.tasks_counter
    }

    /// An empty summary.
    pub fn new() -> (r: PlaybookSummary)
        ensures
            r.tasks_counter == 0,
            r.success_counter == 0,
            r.failed_counter == 0,
            r.skipped_counter == 0,
            r.changed_counter == 0,
            r.start_time is None,
            r.end_time is None,
            r.wf(),
    {
        PlaybookSummary {
            tasks_counter: 0,
            success_counter: 0,
            failed_counter: 0,
            skipped_counter: 0,
            changed_counter: 0,
            start_time: None,
            end_time: None,
        }
    }

    /// Adds to the executed-task count.
    pub fn increment_tasks(&mut self, tasks: i32)
        requires
            old(self).tasks_counter + tasks <= i32::MAX,
            i32::MIN <= old(self).tasks_counter + tasks,
        ensures
            *final(self) == (PlaybookSummary {
                tasks_counter: (old(self).tasks_counter + tasks) as i32,
                ..*old(self)
            }),
    {
        self.tasks_counter = self.tasks_counter + tasks;
    }

    /// Adds to the succeeded-task count.
    pub fn increment_success(&mut self, success: i32)
        requires
            old(self).success_counter + success <= i32::MAX,
            i32::MIN <= old(self).success_counter + success,
        ensures
            *final(self) == (PlaybookSummary {
                success_counter: (old(self).success_counter + success) as i32,
                ..*old(self)
            }),
    {
        self.success_counter = self.success_counter + success;
    }

    /// Adds to the failed-task count.
    pub fn increment_failed(&mut self, failed: i32)
        requires
            old(self).failed_counter + failed <= i32::MAX,
            i32::MIN <= old(self).failed_counter + failed,
        ensures
            *final(self) == (PlaybookSummary {
                failed_counter: (old(self).failed_counter + failed) as i32,
                ..*old(self)
            }),
    {
        self.failed_counter = self.failed_counter + failed;
    }

    /// Adds to the skipped-task count.
    pub fn increment_skipped(&mut self, skipped: i32)
        requires
            old(self).skipped_counter + skipped <= i32::MAX,
            i32::MIN <= old(self).skipped_counter + skipped,
        ensures
            *final(self) == (PlaybookSummary {
                skipped_counter: (old(self).skipped_counter + skipped) as i32,
                ..*old(self)
            }),
    {
        self.skipped_counter = self.skipped_counter + skipped;
    }

    /// Adds to the changed-task count.
    pub fn increment_changed(&mut self, changed: i32)
        requires
            old(self).changed_counter + changed <= i32::MAX,
            i32::MIN <= old(self).changed_counter + changed,
        ensures
            *final(self) == (PlaybookSummary {
                changed_counter: (old(self).changed_counter + changed) as i32,
                ..*old(self)
            }),
    {
        self.changed_counter = self.changed_counter + changed;
    }

    /// Folds one task's output into the totals: the task count grows by
    /// one and each disposition counter by that task's flag. No bound is
    /// put on the added flag values beyond fitting the counters.
    pub fn increment_as_task(&mut self, output: PlaybookCommandOutput)
        requires
            old(self).tasks_counter < i32::MAX,
            i32::MIN <= old(self).success_counter + output.success <= i32::MAX,
            i32::MIN <= old(self).failed_counter + output.failed <= i32::MAX,
            i32::MIN <= old(self).skipped_counter + output.skipped <= i32::MAX,
            i32::MIN <= old(self).changed_counter + output.changed <= i32::MAX,
        ensures
            final(self).tasks_counter == old(self).tasks_counter + 1,
            final(self).success_counter == old(self).success_counter + output.success,
            final(self).failed_counter == old(self).failed_counter + output.failed,
            final(self).skipped_counter == old(self).skipped_counter + output.skipped,
            final(self).changed_counter == old(self).changed_counter + output.changed,
            final(self).start_time == old(self).start_time,
            final(self).end_time == old(self).end_time,
    {
        self.increment_tasks(1);
        self.increment_success(output.success);
        self.increment_failed(output.failed);
        self.increment_skipped(output.skipped);
        self.increment_changed(output.changed);
    }

    /// Stamps the start of the run with the current time.
    pub fn set_start_time(&mut self)
        ensures
            final(self).start_time is Some,
            *final(self) == (PlaybookSummary { start_time: final(self).start_time, ..*old(self) }),
    {
        self.start_time = Some(now_millis());
    }

    /// Stamps the end of the run; the recorded end never precedes a
    /// recorded start.
    pub fn set_end_time(&mut self)
        ensures
            final(self).end_time is Some,
            old(self).start_time is Some
                ==> final(self).start_time->Some_0 <= final(self).end_time->Some_0,
            *final(self) == (PlaybookSummary { end_time: final(self).end_time, ..*old(self) }),
    {
        let t = now_millis();
        let e = match self.start_time {
            Some(s) => if s > t {
                s
            } else {
                t
            },
            None => t,
        };
        self.end_time = Some(e);
    }

    /// The elapsed time of the run, as a human-readable phrase.
    pub fn duration(&self) -> (r: String)
        requires
            self.start_time is Some,
            self.end_time is Some,
            0 <= self.start_time->Some_0 <= self.end_time->Some_0,
        ensures
            r@ == human_duration_of(self.end_time->Some_0 - self.start_time->Some_0),
    {
        let s = match self.start_time {
            Some(s) => s,
            None => 0,
        };
        let e = match self.end_time {
            Some(e) => e,
            None => 0,
        };
        humanize_millis(e - s)
    }
}

} // verus!
