//! The rules that decide what happens to the task store.
//!
//! The store itself is a database that the application queries; these
//! functions take what it reported and decide the outcome, and turn the rows
//! it returned into tasks and task instances.

use vstd::prelude::*;
use crate::task::Task;
use crate::task_instance::{TaskInstance, TaskStatus};
use crate::text::same_text;

verus! {

/// The decisions about tasks.
pub struct TaskController {}

/// Why a request about a task was refused: `-1` when the task does not
/// exist (or, on creation, already exists), `-2` when its running state
/// forbids the request.
#[derive(Debug)]
pub struct TaskError {
    pub code: i8,
    pub desc: String,
}

/// What the store reports about one task name.
#[derive(Debug, Clone, Copy, PartialEq, Eq, Structural)]
pub struct TaskLookup {
    /// A task of that name has been created.
    pub exists: bool,
    /// A stretch of work on it has started and not ended.
    pub running: bool,
}

/// A row of the history of one day: task name and colour, start, end
/// (`"Null"` while running), minutes elapsed and description.
#[derive(Debug)]
pub struct HistoryRow {
    pub name: String,
    pub color: String,
    pub started: String,
    pub ended: String,
    pub minutes: i64,
    pub desc: String,
}

/// A row of the stretches still running: task name and colour, start time,
/// minutes elapsed and description.
#[derive(Debug)]
pub struct RunningRow {
    pub name: String,
    pub color: String,
    pub started: String,
    pub minutes: i64,
    pub desc: String,
}

/// The status a history row stands for.
pub open spec fn status_of_end(ended: Seq<char>) -> TaskStatus {
    if ended == "Null"@ {
        TaskStatus::Running
    } else {
        TaskStatus::Complete
    }
}

/// The task instance a history row stands for.
pub open spec fn history_instance(row: HistoryRow) -> TaskInstance {
    TaskInstance {
        task: Task { name: row.name, color: row.color },
        start_time: row.started,
        end_time: row.ended,
        duration: row.minutes,
        desc: row.desc,
        status: status_of_end(row.ended@),
    }
}

/// Whether `t` is the instance a running row stands for.
pub open spec fn is_running_instance(t: TaskInstance, row: RunningRow) -> bool {
    &&& t.task.name == row.name
    &&& t.task.color == row.color
    &&& t.start_time == row.started
    &&& t.end_time@ == "Null"@
    &&& t.duration == row.minutes
    &&& t.desc == row.desc
    &&& t.status == TaskStatus::Running
}

/// Whether `e` is the error with the given code and description.
pub open spec fn is_error(e: TaskError, code: int, desc: Seq<char>) -> bool {
    e.code == code && e.desc@ == desc
}

/// Whether `r` is a refusal with the given code and description.
pub open spec fn refused<T>(r: Result<T, TaskError>, code: int, desc: Seq<char>) -> bool {
    match r {
        Err(e) => is_error(e, code, desc),
        Ok(_) => false,
    }
}

/// A task may be created when none of its name exists.
pub open spec fn create_allowed(l: TaskLookup) -> bool {
    !l.exists
}

/// A task may be started when it exists and is not running.
pub open spec fn start_allowed(l: TaskLookup) -> bool {
    l.exists && !l.running
}

/// A task may be stopped when it exists and is running.
pub open spec fn stop_allowed(l: TaskLookup) -> bool {
    l.exists && l.running
}

/// What the store reports about a name once its task has been created.
pub open spec fn after_create(l: TaskLookup) -> TaskLookup {
    TaskLookup { exists: true, running: false }
}

/// What the store reports about a task once it has been started.
pub open spec fn after_start(l: TaskLookup) -> TaskLookup {
    TaskLookup { exists: l.exists, running: true }
}

/// What the store reports about a task once it has been stopped.
pub open spec fn after_stop(l: TaskLookup) -> TaskLookup {
    TaskLookup { exists: l.exists, running: false }
}

fn error(code: i8, desc: &str) -> (e: TaskError)
    ensures
        is_error(e, code as int, desc@),
{
    TaskError { code, desc: desc.to_owned() }
}

impl TaskController {
    /// A task may be created when no task of its name exists.
    pub fn create_task(t: Task, lookup: TaskLookup) -> (r: Result<Task, TaskError>)
        ensures
            lookup.exists ==> refused(r, -1, "The task already exists"@),
            create_allowed(lookup) ==> r == Ok::<Task, TaskError>(t),
    {
        if lookup.exists {
            return Err(error(-1, "The task already exists"));
        }
        Ok(t)
    }

    /// A task may be started when it exists and is not running.
    pub fn start_task(lookup: TaskLookup) -> (r: Result<(), TaskError>)
        ensures
            !lookup.exists ==> refused(r, -1, "The task doesn't exists"@),
            lookup.exists && lookup.running ==> refused(r, -2,
                "The task is already running"@,
            ),
            start_allowed(lookup) <==> r is Ok,
    {
        if !lookup.exists {
            return Err(error(-1, "The task doesn't exists"));
        }
        if lookup.running {
            return Err(error(-2, "The task is already running"));
        }
        Ok(())
    }

    /// A task may be stopped when it exists and is running.
    pub fn stop_task(lookup: TaskLookup) -> (r: Result<(), TaskError>)
        ensures
            !lookup.exists ==> refused(r, -1, "The task doesn't exists"@),
            lookup.exists && !lookup.running ==> refused(r, -2,
                "The task is not running"@,
            ),
            stop_allowed(lookup) <==> r is Ok,
    {
        if !lookup.exists {
            return Err(error(-1, "The task doesn't exists"));
        }
        if !lookup.running {
            return Err(error(-2, "The task is not running"));
        }
        Ok(())
    }

    /// The tasks that the rows `(name, colour)` of the task table stand for,
    /// in the same order.
    pub fn get_tasks(rows: &Vec<(String, String)>) -> (tasks: Vec<Task>)
        ensures
            tasks@.len() == rows@.len(),
            forall|i: int|
                0 <= i < rows@.len() ==> #[trigger] tasks@[i] == (Task {
                    name: rows@[i].0,
                    color: rows@[i].1,
                }),
    {
        let mut tasks: Vec<Task> = Vec::new();
        let mut i: usize = 0;
        while i < rows.len()
            invariant
                i <= rows@.len(),
                tasks@.len() == i,
                forall|j: int|
                    0 <= j < i ==> #[trigger] tasks@[j] == (Task {
                        name: rows@[j].0,
                        color: rows@[j].1,
                    }),
            decreases rows@.len() - i,
        {
            let row = &rows[i];
            tasks.push(Task { name: row.0.clone(), color: row.1.clone() });
            i = i + 1;
        }
        tasks
    }

    /// The task instances that the history rows of one day stand for, in the
    /// same order; a row whose end is `"Null"` is still running.
    pub fn get_date_tasks(rows: &Vec<HistoryRow>) -> (tasks: Vec<TaskInstance>)
        ensures
            tasks@.len() == rows@.len(),
            forall|i: int| 0 <= i < rows@.len() ==> #[trigger] tasks@[i] == history_instance(rows@[i]),
            forall|i: int|
                0 <= i < rows@.len() ==> {
                    &&& (#[trigger] tasks@[i]).task.name == rows@[i].name
                    &&& tasks@[i].task.color == rows@[i].color
                    &&& tasks@[i].start_time == rows@[i].started
                    &&& tasks@[i].end_time == rows@[i].ended
                    &&& tasks@[i].duration == rows@[i].minutes
                    &&& tasks@[i].desc == rows@[i].desc
                    &&& (tasks@[i].status == TaskStatus::Running <==> rows@[i].ended@ == "Null"@)
                    &&& (tasks@[i].status == TaskStatus::Running || tasks@[i].status
                        == TaskStatus::Complete)
                },
    {
        let mut tasks: Vec<TaskInstance> = Vec::new();
        let mut i: usize = 0;
        while i < rows.len()
            invariant
                i <= rows@.len(),
                tasks@.len() == i,
                forall|j: int| 0 <= j < i ==> #[trigger] tasks@[j] == history_instance(rows@[j]),
            decreases rows@.len() - i,
        {
            let row = &rows[i];
            let status = if same_text(row.ended.as_str(), "Null") {
                TaskStatus::Running
            } else {
                TaskStatus::Complete
            };
            tasks.push(
                TaskInstance {
                    task: Task { name: row.name.clone(), color: row.color.clone() },
                    start_time: row.started.clone(),
                    end_time: row.ended.clone(),
                    duration: row.minutes,
                    desc: row.desc.clone(),
                    status,
                },
            );
            i = i + 1;
        }
        tasks
    }

    /// The running task instances that the rows stand for, in the same order.
    pub fn get_running_tasks(rows: &Vec<RunningRow>) -> (tasks: Vec<TaskInstance>)
        ensures
            tasks@.len() == rows@.len(),
            forall|i: int| 0 <= i < rows@.len() ==> is_running_instance(#[trigger] tasks@[i], rows@[i]),
            forall|i: int|
                0 <= i < rows@.len() ==> {
                    &&& (#[trigger] tasks@[i]).task.name == rows@[i].name
                    &&& tasks@[i].task.color == rows@[i].color
                    &&& tasks@[i].start_time == rows@[i].started
                    &&& tasks@[i].duration == rows@[i].minutes
                    &&& tasks@[i].desc == rows@[i].desc
                    &&& tasks@[i].status == TaskStatus::Running
                },
    {
        let mut tasks: Vec<TaskInstance> = Vec::new();
        let mut i: usize = 0;
        while i < rows.len()
            invariant
                i <= rows@.len(),
                tasks@.len() == i,
                forall|j: int| 0 <= j < i ==> is_running_instance(#[trigger] tasks@[j], rows@[j]),
            decreases rows@.len() - i,
        {
            let row = &rows[i];
            tasks.push(
                TaskInstance {
                    task: Task { name: row.name.clone(), color: row.color.clone() },
                    start_time: row.started.clone(),
                    end_time: "Null".to_owned(),
                    duration: row.minutes,
                    desc: row.desc.clone(),
                    status: TaskStatus::Running,
                },
            );
            i = i + 1;
        }
        tasks
    }
}

} // verus!
