use timr::controller::{TaskController, TaskError, TaskLookup};
use timr::web::{start_task_reply, stop_task_reply, DateRequest, TaskRequest};

fn refused() -> Result<(), TaskError> {
    TaskController::start_task(TaskLookup { exists: false, running: false })
}

#[test]
fn start_reply_bodies() {
    assert_eq!(start_task_reply(&Ok(())), "{result: true}");
    assert_eq!(start_task_reply(&refused()), "{result: false}");
}

#[test]
fn stop_reply_bodies() {
    assert_eq!(stop_task_reply(&Ok(())), Ok("{}"));
    assert_eq!(stop_task_reply(&refused()), Err("task doesn't exist"));
}

#[test]
fn requests_hold_their_text() {
    let d = DateRequest { date: String::from("2024-03-01") };
    let t = TaskRequest { name: String::from("gym") };
    assert_eq!(d.date, "2024-03-01");
    assert_eq!(t.name, "gym");
}
