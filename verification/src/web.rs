//! What the web server's endpoints take and answer.

use vstd::prelude::*;
use vstd::string::*;
use crate::controller::TaskError;

verus! {

/// A request naming a day (`YYYY-MM-DD`).
#[derive(Debug)]
pub struct DateRequest {
    pub date: String,
}

/// A request naming a task.
#[derive(Debug)]
pub struct TaskRequest {
    pub name: String,
}

/// The body answered to a request to start a task.
pub fn start_task_reply(result: &Result<(), TaskError>) -> (body: &'static str)
    ensures
        body@ == (if result is Ok {
            "{result: true}"@
        } else {
            "{result: false}"@
        }),
{
    match result {
        Ok(_) => "{result: true}",
        Err(_) => "{result: false}",
    }
}

/// The answer to a request to stop a task: an empty JSON object, or the
/// reason for refusing the request.
pub fn stop_task_reply(result: &Result<(), TaskError>) -> (r: Result<&'static str, &'static str>)
    ensures
        match r {
            Ok(body) => result is Ok && body@ == "{}"@,
            Err(reason) => result is Err && reason@ == "task doesn't exist"@,
        },
{
    match result {
        Ok(_) => Ok("{}"),
        Err(_) => Err("task doesn't exist"),
    }
}

} // verus!
