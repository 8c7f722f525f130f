use timr::controller::{HistoryRow, RunningRow, TaskController, TaskLookup};
use timr::task::Task;
use timr::task_instance::TaskStatus;

fn task(name: &str) -> Task {
    Task { name: String::from(name), color: String::from("123456") }
}

const NEW: TaskLookup = TaskLookup { exists: false, running: false };
const IDLE: TaskLookup = TaskLookup { exists: true, running: false };
const RUNNING: TaskLookup = TaskLookup { exists: true, running: true };

#[test]
fn create_task_when_name_is_free() {
    let t = TaskController::create_task(task("gym"), NEW).ok().unwrap();
    assert_eq!(t.name, "gym");
    assert_eq!(t.color, "123456");
}

#[test]
fn create_task_refuses_existing_name() {
    let e = TaskController::create_task(task("gym"), IDLE).err().unwrap();
    assert_eq!(e.code, -1);
    assert_eq!(e.desc, "The task already exists");
}

#[test]
fn start_task_decisions() {
    assert!(TaskController::start_task(IDLE).is_ok());
    let e = TaskController::start_task(NEW).err().unwrap();
    assert_eq!((e.code, e.desc.as_str()), (-1, "The task doesn't exists"));
    let e = TaskController::start_task(RUNNING).err().unwrap();
    assert_eq!((e.code, e.desc.as_str()), (-2, "The task is already running"));
}

#[test]
fn stop_task_decisions() {
    assert!(TaskController::stop_task(RUNNING).is_ok());
    let e = TaskController::stop_task(NEW).err().unwrap();
    assert_eq!((e.code, e.desc.as_str()), (-1, "The task doesn't exists"));
    let e = TaskController::stop_task(IDLE).err().unwrap();
    assert_eq!((e.code, e.desc.as_str()), (-2, "The task is not running"));
}

#[test]
fn law_start_stop_exclusive_example() {
    for l in [NEW, IDLE, RUNNING].iter() {
        let start = TaskController::start_task(*l).is_ok();
        let stop = TaskController::stop_task(*l).is_ok();
        assert!(!(start && stop));
        assert_eq!(l.exists, start || stop);
    }
}

#[test]
fn law_stop_undoes_start_example() {
    assert!(TaskController::start_task(IDLE).is_ok());
    let after_start = TaskLookup { exists: true, running: true };
    assert_eq!(TaskController::start_task(after_start).err().unwrap().code, -2);
    assert!(TaskController::stop_task(after_start).is_ok());
    let after_stop = TaskLookup { exists: true, running: false };
    assert_eq!(after_stop, IDLE);
    assert!(TaskController::start_task(after_stop).is_ok());
}

#[test]
fn law_create_once_example() {
    assert!(TaskController::create_task(task("piano"), NEW).is_ok());
    let after_create = TaskLookup { exists: true, running: false };
    assert_eq!(TaskController::create_task(task("piano"), after_create).err().unwrap().code, -1);
    assert!(TaskController::start_task(after_create).is_ok());
}

#[test]
fn get_tasks_maps_rows_in_order() {
    let rows = vec![
        (String::from("gym"), String::from("ff0000")),
        (String::from("work"), String::from("00ff00")),
    ];
    let tasks = TaskController::get_tasks(&rows);
    assert_eq!(tasks.len(), 2);
    assert_eq!((tasks[0].name.as_str(), tasks[0].color.as_str()), ("gym", "ff0000"));
    assert_eq!((tasks[1].name.as_str(), tasks[1].color.as_str()), ("work", "00ff00"));
    assert!(TaskController::get_tasks(&Vec::new()).is_empty());
}

#[test]
fn get_date_tasks_reads_status_from_end() {
    let rows = vec![
        HistoryRow {
            name: String::from("gym"),
            color: String::from("ff0000"),
            started: String::from("2024-03-01 08:00:00"),
            ended: String::from("2024-03-01 09:00:00"),
            minutes: 60,
            desc: String::from(""),
        },
        HistoryRow {
            name: String::from("work"),
            color: String::from("00ff00"),
            started: String::from("2024-03-01 09:30:00"),
            ended: String::from("Null"),
            minutes: 12,
            desc: String::from("emails"),
        },
    ];
    let tasks = TaskController::get_date_tasks(&rows);
    assert_eq!(tasks.len(), 2);
    assert_eq!(tasks[0].status, TaskStatus::Complete);
    assert_eq!(tasks[0].duration, 60);
    assert_eq!(tasks[0].end_time, "2024-03-01 09:00:00");
    assert_eq!(tasks[1].status, TaskStatus::Running);
    assert_eq!(tasks[1].task.name, "work");
    assert_eq!(tasks[1].desc, "emails");
    assert_eq!(tasks[1].start_time, "2024-03-01 09:30:00");
}

#[test]
fn get_running_tasks_marks_all_running() {
    let rows = vec![RunningRow {
        name: String::from("work"),
        color: String::from("00ff00"),
        started: String::from("09:30"),
        minutes: 5,
        desc: String::from(""),
    }];
    let tasks = TaskController::get_running_tasks(&rows);
    assert_eq!(tasks.len(), 1);
    assert_eq!(tasks[0].status, TaskStatus::Running);
    assert_eq!(tasks[0].end_time, "Null");
    assert_eq!(tasks[0].start_time, "09:30");
    assert_eq!(tasks[0].duration, 5);
    assert_eq!(tasks[0].task.color, "00ff00");
}
