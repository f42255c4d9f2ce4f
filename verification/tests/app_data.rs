use topspin::app_data::{AppData, Delegate, EditState, Entry, EntryData, ResponseHandler, RunState};
use topspin::model::{program_id, ExitStatus, OsError, RunResponse};
use topspin::persist::{CommandEntry, Commands};

fn sample_data(alias: &str, command: &str, args: &str) -> EntryData {
    EntryData {
        alias: alias.to_string(),
        command: command.to_string(),
        args: args.to_string(),
        working_dir: None,
    }
}

#[test]
fn edit_state_map_keeps_position() {
    let new_state: EditState<i32> = EditState::New(5);
    assert_eq!(new_state.map(|v: &i32| v + 1), EditState::New(6));
    let edit_state: EditState<i32> = EditState::Edit(3, 10);
    assert_eq!(edit_state.map(|v: &i32| v * 2), EditState::Edit(3, 20));
    let idle: EditState<i32> = EditState::Idle;
    assert_eq!(idle.map(|v: &i32| v + 1), EditState::Idle);
}

#[test]
fn edit_state_map_to_replaces_value() {
    let edit_state: EditState<i32> = EditState::Edit(2, 10);
    assert_eq!(edit_state.map_to("x"), EditState::Edit(2, "x"));
    let new_state: EditState<i32> = EditState::New(1);
    assert_eq!(new_state.map_to("y"), EditState::New("y"));
    let idle: EditState<i32> = EditState::Idle;
    assert_eq!(idle.map_to("z"), EditState::Idle);
}

#[test]
fn edit_state_take_leaves_idle() {
    let mut state: EditState<i32> = EditState::New(4);
    assert_eq!(state.take(), EditState::New(4));
    assert_eq!(state, EditState::Idle);
}

#[test]
fn run_state_advances_by_response() {
    let id = program_id(1);
    let other = program_id(2);
    let busy = RunState::Busy(id);
    assert_eq!(
        busy.next(&RunResponse::Started(id, 77)),
        RunState::Running(id, 77)
    );
    assert_eq!(busy.next(&RunResponse::Started(other, 77)), busy);
    assert_eq!(
        busy.next(&RunResponse::Exited(id, ExitStatus(0))),
        RunState::Idle(Some(id))
    );
    let running = RunState::Running(id, 77);
    assert_eq!(
        running.next(&RunResponse::Exited(id, ExitStatus(1))),
        RunState::Idle(Some(id))
    );
    assert_eq!(running.next(&RunResponse::Exited(other, ExitStatus(1))), running);
    assert_eq!(running.next(&RunResponse::Started(id, 78)), running);
    // An I/O error resets any state to a fresh idle.
    assert_eq!(
        running.next(&RunResponse::IoError(id, OsError(5))),
        RunState::Idle(None)
    );
    let idle = RunState::Idle(Some(id));
    assert_eq!(idle.next(&RunResponse::Started(id, 80)), idle);
    assert_eq!(RunState::default(), RunState::Idle(None));
}

#[test]
fn entry_data_round_trips_through_saved_pair() {
    let entry = CommandEntry {
        command: "nc".to_string(),
        args: Some("-l 7000".to_string()),
        working_dir: Some("~/".to_string()),
    };
    let data = EntryData::from_entry(("netcat".to_string(), entry));
    assert_eq!(data.alias, "netcat");
    assert_eq!(data.command, "nc");
    assert_eq!(data.args, "-l 7000");
    assert_eq!(data.working_dir, Some("~/".to_string()));
    let (alias, back) = data.into_entry();
    assert_eq!(alias, "netcat");
    assert_eq!(back.command, "nc");
    assert_eq!(back.args, Some("-l 7000".to_string()));
    assert_eq!(back.working_dir, Some("~/".to_string()));

    // A missing argument string becomes the empty line and is saved back
    // as missing.
    let bare = CommandEntry {
        command: "cat".to_string(),
        args: None,
        working_dir: None,
    };
    let data = EntryData::from_entry(("cat".to_string(), bare));
    assert_eq!(data.args, "");
    let (_, back) = data.into_entry();
    assert_eq!(back.args, None);
}

#[test]
fn make_command_splits_shell_words() {
    let data = sample_data("netcat", "nc", "-l 7000");
    let cmd = data.make_command(program_id(1)).unwrap();
    assert_eq!(cmd.id, program_id(1));
    assert_eq!(cmd.alias, "netcat");
    assert_eq!(cmd.name, "nc");
    assert_eq!(cmd.args, vec!["-l".to_string(), "7000".to_string()]);
    assert_eq!(cmd.working_dir, None);

    let quoted = sample_data("say", "echo", "one 'two words' three");
    let cmd = quoted.make_command(program_id(2)).unwrap();
    assert_eq!(
        cmd.args,
        vec![
            "one".to_string(),
            "two words".to_string(),
            "three".to_string(),
        ]
    );

    let empty = sample_data("cat", "cat", "");
    assert_eq!(empty.make_command(program_id(3)).unwrap().args.len(), 0);
}

#[test]
fn make_command_rejects_unmatched_quote() {
    let data = sample_data("bad", "echo", "\"unterminated");
    let err = data.make_command(program_id(1)).unwrap_err();
    assert_eq!(err, "Invalid command arguments");
}

#[test]
fn from_commands_builds_fresh_entries() {
    let commands = Commands::new(vec![
        (
            "cat".to_string(),
            CommandEntry {
                command: "cat".to_string(),
                args: None,
                working_dir: None,
            },
        ),
        (
            "netcat".to_string(),
            CommandEntry {
                command: "nc".to_string(),
                args: Some("-l 7000".to_string()),
                working_dir: Some("~/".to_string()),
            },
        ),
    ]);
    let app = AppData::from_commands(commands);
    assert_eq!(app.entries.len(), 2);
    assert_eq!(app.entries[0].data.alias, "cat");
    assert_eq!(app.entries[1].data.alias, "netcat");
    assert_eq!(app.entries[1].data.args, "-l 7000");
    assert_eq!(app.entries[0].state, RunState::Idle(None));
    assert_eq!(app.entries[0].last_run_error, None);
}

#[test]
fn commands_hand_out_pairs_in_order() {
    let pairs = vec![
        (
            "b".to_string(),
            CommandEntry {
                command: "b".to_string(),
                args: None,
                working_dir: None,
            },
        ),
        (
            "a".to_string(),
            CommandEntry {
                command: "a".to_string(),
                args: None,
                working_dir: None,
            },
        ),
    ];
    let commands = Commands::new(pairs.clone());
    assert_eq!(commands.into_iter(), pairs);
}

#[test]
fn done_editing_appends_new_entry() {
    let mut app = AppData::new();
    app.edit_entry = EditState::New(sample_data("cat", "cat", ""));
    app.done_editing();
    assert_eq!(app.entries.len(), 1);
    assert_eq!(app.entries[0].data.alias, "cat");
    assert_eq!(app.entries[0].state, RunState::Idle(None));
    assert_eq!(app.edit_entry, EditState::Idle);
}

#[test]
fn done_editing_replaces_fields_keeps_state() {
    let mut app = AppData::new();
    app.entries.push(Entry::new(sample_data("old", "old", "")));
    app.entries[0].state = RunState::Busy(program_id(0));
    app.edit_entry = EditState::Edit(0, sample_data("new", "new", "-v"));
    app.done_editing();
    assert_eq!(app.entries[0].data.alias, "new");
    assert_eq!(app.entries[0].state, RunState::Busy(program_id(0)));
    // An edit pointing past the list is dropped.
    app.edit_entry = EditState::Edit(9, sample_data("x", "x", ""));
    app.done_editing();
    assert_eq!(app.entries.len(), 1);
    assert_eq!(app.entries[0].data.alias, "new");
}

#[test]
fn start_entry_issues_id_and_turns_busy() {
    let mut app = AppData::new();
    app.entries.push(Entry::new(sample_data("cat", "cat", "")));
    let cmd = app.start_entry(0).unwrap();
    assert_eq!(cmd.id, program_id(0));
    assert_eq!(cmd.alias, "cat");
    assert_eq!(cmd.name, "cat");
    assert_eq!(app.entries[0].state, RunState::Busy(program_id(0)));
    assert_eq!(app.id_counter, 1);
    // A busy entry does not start again.
    assert!(app.start_entry(0).is_none());
    assert!(app.start_entry(5).is_none());
}

#[test]
fn start_entry_reuses_remembered_id() {
    let mut app = AppData::new();
    app.entries.push(Entry::new(sample_data("cat", "cat", "")));
    app.entries[0].state = RunState::Idle(Some(program_id(6)));
    let cmd = app.start_entry(0).unwrap();
    assert_eq!(cmd.id, program_id(6));
    // No fresh identifier was spent.
    assert_eq!(app.id_counter, 0);
}

#[test]
fn start_entry_records_bad_arguments() {
    let mut app = AppData::new();
    app.entries.push(Entry::new(sample_data("bad", "echo", "'open")));
    assert!(app.start_entry(0).is_none());
    assert_eq!(app.entries[0].state, RunState::Idle(None));
    assert_eq!(
        app.entries[0].last_run_error,
        Some("Invalid command arguments".to_string())
    );
}

#[test]
fn kill_entry_only_kills_running() {
    let mut app = AppData::new();
    app.entries.push(Entry::new(sample_data("cat", "cat", "")));
    assert_eq!(app.kill_entry(0), None);
    app.entries[0].state = RunState::Running(program_id(2), 555);
    assert_eq!(app.kill_entry(0), Some(program_id(2)));
    assert_eq!(app.entries[0].state, RunState::Busy(program_id(2)));
    assert_eq!(app.kill_entry(7), None);
}

#[test]
fn responses_drive_the_matching_entry() {
    let mut app = AppData::new();
    app.entries.push(Entry::new(sample_data("a", "a", "")));
    app.entries.push(Entry::new(sample_data("b", "b", "")));
    app.entries[1].state = RunState::Busy(program_id(0));

    app.handle_run_respone(&RunResponse::Started(program_id(0), 900));
    assert_eq!(app.entries[1].state, RunState::Running(program_id(0), 900));
    assert_eq!(app.entries[0].state, RunState::Idle(None));

    app.handle_run_respone(&RunResponse::Exited(program_id(0), ExitStatus(0)));
    assert_eq!(app.entries[1].state, RunState::Idle(Some(program_id(0))));
    assert_eq!(app.entries[1].last_run_error, None);

    // A response for an unknown identifier changes nothing.
    app.handle_run_respone(&RunResponse::Started(program_id(9), 1));
    assert_eq!(app.entries[0].state, RunState::Idle(None));
    assert_eq!(app.entries[1].state, RunState::Idle(Some(program_id(0))));
}

#[test]
fn io_error_response_records_message() {
    let mut app = AppData::new();
    app.entries.push(Entry::new(sample_data("cat", "cat", "")));
    app.entries[0].state = RunState::Busy(program_id(0));
    app.handle_run_respone(&RunResponse::IoError(program_id(0), OsError(5)));
    assert_eq!(app.entries[0].state, RunState::Idle(None));
    assert_eq!(app.entries[0].last_run_error, Some("os error 5".to_string()));
}

#[test]
fn delegate_and_handler_construct() {
    let _delegate = Delegate::new();
    let _handler = ResponseHandler::new();
}
