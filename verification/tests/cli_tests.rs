use timr::cli::{input_or_default, ArgsHandeler, CliAction, Commands, MissingArgument, Query};

fn line(words: &[&str]) -> Vec<String> {
    words.iter().map(|w| w.to_string()).collect()
}

#[test]
fn query_splits_program_directory_and_arguments() {
    let args = line(&["/usr/local/bin/timr", "show", "tasks"]);
    let q = Query::new(&args);
    assert_eq!(q.filepath, "/usr/local/bin");
    assert_eq!(q.format_args(0, 2), "show tasks ");
}

#[test]
fn query_directory_of_relative_program() {
    let args = line(&["./timr"]);
    let q = Query::new(&args);
    assert_eq!(q.filepath, ".");
    assert!(matches!(q.process_args(), Ok(CliAction::NoArguments)));
}

#[test]
fn format_args_ranges() {
    let args = line(&["/bin/timr", "start", "task", "x"]);
    let q = Query::new(&args);
    assert_eq!(q.format_args(0, 0), "");
    assert_eq!(q.format_args(1, 3), "task x ");
    assert_eq!(q.format_args(2, 1), "");
}

fn action(words: &[&str]) -> Result<CliAction, MissingArgument> {
    let mut all = vec!["/bin/timr"];
    all.extend_from_slice(words);
    let args = line(&all);
    let q = Query::new(&args);
    q.process_args()
}

#[test]
fn add_task_strips_quotes() {
    match action(&["add", "task", "\"deep work\""]) {
        Ok(CliAction::AddTask { name }) => assert_eq!(name, "deep work"),
        other => panic!("{:?}", other),
    }
}

#[test]
fn add_needs_its_arguments() {
    assert_eq!(action(&["add"]).err(), Some(MissingArgument { at: 1 }));
    assert_eq!(action(&["add", "task"]).err(), Some(MissingArgument { at: 2 }));
    assert!(matches!(action(&["add", "tusk", "x"]), Ok(CliAction::NotFound { at: 1 })));
}

#[test]
fn show_forms() {
    assert!(matches!(action(&["show", "tasks"]), Ok(CliAction::ShowTasks)));
    assert!(matches!(action(&["show", "status"]), Ok(CliAction::ShowStatus)));
    match action(&["show", "graph"]) {
        Ok(CliAction::ShowGraph { date }) => assert_eq!(date, None),
        other => panic!("{:?}", other),
    }
    match action(&["show", "list", "2024-03-01"]) {
        Ok(CliAction::ShowList { date }) => assert_eq!(date.as_deref(), Some("2024-03-01")),
        other => panic!("{:?}", other),
    }
    assert!(matches!(action(&["show"]), Ok(CliAction::NotFound { at: 1 })));
    assert!(matches!(action(&["show", "everything"]), Ok(CliAction::NotFound { at: 1 })));
}

#[test]
fn start_forms() {
    match action(&["start", "task", "\"gym\"", "legs day"]) {
        Ok(CliAction::StartTask { name, desc }) => {
            assert_eq!(name, "gym");
            assert_eq!(desc.as_deref(), Some("legs day"));
        }
        other => panic!("{:?}", other),
    }
    match action(&["start", "task", "gym"]) {
        Ok(CliAction::StartTask { name, desc }) => {
            assert_eq!(name, "gym");
            assert_eq!(desc, None);
        }
        other => panic!("{:?}", other),
    }
    assert!(matches!(action(&["start", "server"]), Ok(CliAction::StartServer)));
    assert_eq!(action(&["start"]).err(), Some(MissingArgument { at: 1 }));
    assert_eq!(action(&["start", "task"]).err(), Some(MissingArgument { at: 2 }));
}

#[test]
fn stop_keeps_name_as_typed() {
    match action(&["stop", "task", "\"gym\""]) {
        Ok(CliAction::StopTask { name, desc }) => {
            assert_eq!(name, "\"gym\"");
            assert_eq!(desc, None);
        }
        other => panic!("{:?}", other),
    }
    assert!(matches!(action(&["stop", "server"]), Ok(CliAction::NotFound { at: 1 })));
}

#[test]
fn edit_forms() {
    match action(&["edit", "tasks", "2024-02-29"]) {
        Ok(CliAction::EditTasks { date }) => assert_eq!(date.as_deref(), Some("2024-02-29")),
        other => panic!("{:?}", other),
    }
    assert!(matches!(action(&["edit"]), Ok(CliAction::NotFound { at: 1 })));
}

#[test]
fn unknown_command() {
    assert!(matches!(action(&["dance"]), Ok(CliAction::NotFound { at: 0 })));
    assert!(matches!(action(&[]), Ok(CliAction::NoArguments)));
}

#[test]
fn handlers_at_other_positions() {
    let args = line(&["/bin/timr", "x", "add", "task", "a"]);
    let q = Query::new(&args);
    match ArgsHandeler::command_add(&q, 2) {
        Ok(CliAction::AddTask { name }) => assert_eq!(name, "a"),
        other => panic!("{:?}", other),
    }
}

#[test]
fn command_table_layout() {
    let c: Commands<'static> = Commands::new();
    assert_eq!(c.arr[0], ["add", "start", "stop", "show", "edit"]);
    assert_eq!(c.arr[1], ["task 'name'", "task 'name'", "task 'name'", "", ""]);
    assert_eq!(c.arr[6][3], "status");
}

#[test]
fn sub_commands_of_each_basic_command() {
    let c: Commands<'static> = Commands::new();
    assert_eq!(c.sub_commands(0), vec!["task 'name'"]);
    assert_eq!(c.sub_commands(1), vec!["task 'name'", "server"]);
    assert_eq!(c.sub_commands(2), vec!["task 'name'"]);
    assert_eq!(c.sub_commands(3), vec!["tasks ?date", "graph ?date", "list ?date", "status"]);
    assert_eq!(c.sub_commands(4), vec!["tasks ?date"]);
}

#[test]
fn basic_index_finds_basic_commands() {
    let c: Commands<'static> = Commands::new();
    assert_eq!(c.basic_index("add"), Some(0));
    assert_eq!(c.basic_index("edit"), Some(4));
    assert_eq!(c.basic_index("dance"), None);
    assert_eq!(c.basic_index(""), None);
}

#[test]
fn law_not_found_example() {
    let c: Commands<'static> = Commands::new();
    for words in [vec!["show", "x"], vec!["add", "y", "z"], vec!["edit"]].iter() {
        if let Ok(CliAction::NotFound { at }) = action(words) {
            assert!(at > 0);
            assert!(c.basic_index(words[0]).is_some());
        } else {
            panic!("expected not found");
        }
    }
    assert!(matches!(action(&["shw"]), Ok(CliAction::NotFound { at: 0 })));
    assert_eq!(c.basic_index("shw"), None);
}

#[test]
fn input_or_default_choices() {
    assert_eq!(input_or_default(String::from("\n"), 1, "gym"), "gym");
    assert_eq!(input_or_default(String::from("run\n"), 4, "gym"), "run");
    assert_eq!(input_or_default(String::from(""), 0, "gym"), "");
    assert_eq!(input_or_default(String::from("é\n"), 3, "gym"), "é");
}
