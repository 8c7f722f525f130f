//! Recorded stretches of work on a task.

use vstd::prelude::*;
use crate::task::{chart_rgb, hex_to_rgb_piechart, spec_hex_to_rgb, Task};

verus! {

/// Where a recorded stretch of work stands.
#[derive(Debug, Clone, Copy, PartialEq, Eq, Structural)]
pub enum TaskStatus {
    Canceled,
    Running,
    Complete,
}

/// One stretch of work on a task: when it started and ended (`"Null"` while
/// it runs), how many whole minutes it has lasted, and its description.
#[derive(Debug)]
pub struct TaskInstance {
    pub task: Task,
    pub duration: i64,
    pub status: TaskStatus,
    pub start_time: String,
    pub end_time: String,
    pub desc: String,
}

/// What completing a stretch returns and leaves: a running stretch becomes
/// complete (0); any other stays as it is (-1).
pub open spec fn completed(t: TaskInstance) -> (i8, TaskInstance) {
    if t.status == TaskStatus::Running {
        (0i8, TaskInstance { status: TaskStatus::Complete, ..t })
    } else {
        (-1i8, t)
    }
}

impl TaskInstance {
    /// Marks a running stretch complete and returns 0; any other stretch is
    /// left as it is and -1 is returned.
    pub fn complete(&mut self) -> (r: i8)
        ensures
            (r, *final(self)) == completed(*old(self)),
    {
        if self.status != TaskStatus::Running {
            return -1;
        }
        self.status = TaskStatus::Complete;
        0
    }

    /// The stretch as the user edited it: the given task name (with no
    /// colour), start, end and description, no duration, and this stretch's
    /// status.
    pub fn update_instance(
        &self,
        name: String,
        start_time: String,
        end_time: String,
        desc: String,
    ) -> (t: TaskInstance)
        ensures
            t.task.name == name,
            t.task.color@ == Seq::<char>::empty(),
            t.start_time == start_time,
            t.end_time == end_time,
            t.desc == desc,
            t.duration == 0,
            t.status == self.status,
    {
        TaskInstance {
            task: Task { name, color: String::new() },
            start_time,
            end_time,
            duration: 0,
            status: self.status,
            desc,
        }
    }
}

/// One slice of the pie chart of a day: the task's name, the minutes spent
/// and the task's colour.
#[derive(Debug)]
pub struct ChartSlice {
    pub label: String,
    pub minutes: i64,
    pub color: piechart::Color,
}

/// Whether `slice` is the chart slice of the stretch `t`.
pub open spec fn is_slice_of(slice: ChartSlice, t: TaskInstance) -> bool {
    &&& slice.label == t.task.name
    &&& slice.minutes == t.duration
    &&& match spec_hex_to_rgb(t.task.color@) {
        Some((r, g, b)) => slice.color == chart_rgb(r, g, b),
        None => false,
    }
}

/// The slices of the pie chart of the given stretches, in the same order.
pub fn chart_slices(tasks: &Vec<TaskInstance>) -> (slices: Vec<ChartSlice>)
    requires
        forall|i: int| 0 <= i < tasks@.len() ==> spec_hex_to_rgb(#[trigger] tasks@[i].task.color@) is Some,
    ensures
        slices@.len() == tasks@.len(),
        forall|i: int| 0 <= i < tasks@.len() ==> is_slice_of(#[trigger] slices@[i], tasks@[i]),
{
    let mut slices: Vec<ChartSlice> = Vec::new();
    let mut i: usize = 0;
    while i < tasks.len()
        invariant
            i <= tasks@.len(),
            slices@.len() == i,
            forall|j: int| 0 <= j < tasks@.len() ==> spec_hex_to_rgb(#[trigger] tasks@[j].task.color@) is Some,
            forall|j: int| 0 <= j < i ==> is_slice_of(#[trigger] slices@[j], tasks@[j]),
        decreases tasks@.len() - i,
    {
        let t = &tasks[i];
        assert(spec_hex_to_rgb(tasks@[i as int].task.color@) is Some);
        let color = hex_to_rgb_piechart(&t.task.color);
        slices.push(ChartSlice { label: t.task.name.clone(), minutes: t.duration, color });
        i = i + 1;
    }
    slices
}

} // verus!
