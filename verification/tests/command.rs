use toodoux::cli::{StatusFlags, SubCmdError};
use toodoux::command::{
    record_note, record_note_at, run, run_at, Command, NoteCommand, Outcome, ProjectCommand,
    Refusal, SubCommand,
};
use toodoux::metadata::{MetadataValidationError, Priority};
use toodoux::task::{Error, Event, Status, Task, TaskManager, UID};
use toodoux::time::Timestamp;

fn at(secs: i64) -> Timestamp {
    Timestamp::new(secs, 0).unwrap()
}

fn words(ws: &[&str]) -> Vec<String> {
    ws.iter().map(|w| w.to_string()).collect()
}

fn registry() -> TaskManager {
    let mut manager = TaskManager::new();
    let mut milk = Task::new_at("milk", at(0));
    milk.set_project_at("groceries", at(1));
    milk.add_note_at("first", at(2));
    milk.add_note_at("second", at(3));
    manager.register_task(milk);
    manager.register_task(Task::new_at("nails", at(0)));
    manager
}

fn histories(manager: &TaskManager) -> Vec<Vec<Event>> {
    manager
        .tasks()
        .iter()
        .map(|(_, task)| task.history().to_vec())
        .collect()
}

const MARKER: &str = "---------------------- >8 ----------------------\n";

#[test]
fn no_command_lists_the_active_tasks() {
    let mut manager = registry();
    let before = histories(&manager);
    assert_eq!(
        run_at(&mut manager, true, None, None, at(9)),
        Ok(Outcome::List {
            flags: StatusFlags {
                todo: true,
                start: true,
                cancelled: false,
                done: false
            },
            case_insensitive: false,
            metadata_filter: vec![],
        })
    );
    assert_eq!(histories(&manager), before);
}

#[test]
fn list_command_hands_on_flags_and_filter() {
    let mut manager = registry();
    let list = |todo, start, done, cancelled, all| SubCommand::List {
        todo,
        start,
        done,
        cancelled,
        all,
        case_insensitive: true,
        metadata_filter: words(&["@p", "x"]),
    };
    let flags = |todo, start, cancelled, done| StatusFlags {
        todo,
        start,
        cancelled,
        done,
    };
    let mut outcome = |command| match run(&mut manager, true, Some(command), Some(UID::new(0))) {
        Ok(Outcome::List {
            flags,
            case_insensitive,
            metadata_filter,
        }) => {
            assert!(case_insensitive);
            assert_eq!(metadata_filter, words(&["@p", "x"]));
            flags
        }
        other => panic!("{:?}", other),
    };
    assert_eq!(
        outcome(list(false, false, false, false, false)),
        flags(true, true, false, false)
    );
    assert_eq!(
        outcome(list(false, false, true, false, false)),
        flags(false, false, false, true)
    );
    assert_eq!(
        outcome(list(false, false, false, true, false)),
        flags(false, false, true, false)
    );
    assert_eq!(
        outcome(list(true, false, false, false, true)),
        flags(true, true, true, true)
    );
}

#[test]
fn add_command_registers_a_task() {
    let mut manager = registry();
    let add = SubCommand::Add {
        start: true,
        done: false,
        note: true,
        content: words(&["buy", "+c", "eggs #food"]),
    };
    assert_eq!(
        run_at(&mut manager, true, Some(add), None, at(9)),
        Ok(Outcome::Added {
            uid: UID::new(2),
            with_note: true
        })
    );
    let task = manager.get(UID::new(2)).unwrap();
    assert_eq!(task.name(), "buy eggs");
    assert_eq!(task.priority(), Some(Priority::Critical));
    assert_eq!(task.tags(), vec!["food"]);
    assert_eq!(task.status(), Status::Ongoing);
    assert_eq!(task.creation_date(), Some(at(9)));
    assert_eq!(manager.next_uid(), UID::new(3));
}

#[test]
fn add_command_is_refused_for_a_task_or_bad_metadata() {
    let mut manager = registry();
    let add = |content: &[&str]| SubCommand::Add {
        start: false,
        done: false,
        note: false,
        content: words(content),
    };
    assert_eq!(
        run_at(&mut manager, true, Some(add(&["x"])), Some(UID::new(7)), at(9)),
        Ok(Outcome::Refused(Refusal::CannotAddToTask))
    );
    assert_eq!(
        run(&mut manager, true, Some(add(&["@a", "@b"])), None),
        Err(SubCmdError::MetadataValidationError(
            MetadataValidationError::TooManyProjects(2)
        ))
    );
    assert_eq!(manager.next_uid(), UID::new(2));
    assert_eq!(manager.tasks().len(), 2);
}

#[test]
fn edit_command_changes_the_task_named() {
    let mut manager = registry();
    let edit = |content: &[&str]| SubCommand::Edit {
        content: words(content),
    };
    assert_eq!(
        run_at(
            &mut manager,
            true,
            Some(edit(&["rusty", "nails", "@hardware"])),
            Some(UID::new(1)),
            at(9)
        ),
        Ok(Outcome::Saved)
    );
    let task = manager.get(UID::new(1)).unwrap();
    assert_eq!(task.name(), "rusty nails");
    assert_eq!(task.project(), Some("hardware"));
    assert_eq!(manager.get(UID::new(0)).unwrap().name(), "milk");

    assert_eq!(
        run_at(&mut manager, true, Some(edit(&["+l +h"])), Some(UID::new(1)), at(9)),
        Err(SubCmdError::MetadataValidationError(
            MetadataValidationError::TooManyPriorities(2)
        ))
    );
    assert_eq!(manager.get(UID::new(1)).unwrap().history().len(), 3);
    assert_eq!(
        run_at(&mut manager, true, Some(edit(&["x"])), Some(UID::new(5)), at(9)),
        Ok(Outcome::Refused(Refusal::MissingTaskToEdit))
    );
    assert_eq!(
        run_at(&mut manager, true, Some(edit(&["x"])), None, at(9)),
        Ok(Outcome::Refused(Refusal::MissingTaskToEdit))
    );
}

#[test]
fn status_commands_record_the_status() {
    let cases = [
        (SubCommand::Todo, Status::Todo, Refusal::MissingTask),
        (
            SubCommand::Start,
            Status::Ongoing,
            Refusal::MissingTaskToStart,
        ),
        (SubCommand::Done, Status::Done, Refusal::MissingTaskToFinish),
        (
            SubCommand::Cancel,
            Status::Cancelled,
            Refusal::MissingTaskToCancel,
        ),
    ];
    for (command, status, refusal) in cases {
        let mut manager = registry();
        assert_eq!(
            run_at(
                &mut manager,
                true,
                Some(command.clone()),
                Some(UID::new(1)),
                at(9)
            ),
            Ok(Outcome::Saved)
        );
        assert_eq!(
            manager.get(UID::new(1)).unwrap().history().last(),
            Some(&Event::StatusChanged {
                event_date: at(9),
                status
            })
        );
        assert_eq!(manager.get(UID::new(0)).unwrap().history().len(), 5);
        assert_eq!(
            run(&mut manager, true, Some(command.clone()), Some(UID::new(2))),
            Ok(Outcome::Refused(refusal))
        );
        assert_eq!(
            run(&mut manager, true, Some(command), None),
            Ok(Outcome::Refused(refusal))
        );
    }
}

#[test]
fn show_history_and_remove_change_nothing() {
    let mut manager = registry();
    let before = histories(&manager);
    let uid = Some(UID::new(1));
    assert_eq!(
        run(&mut manager, true, Some(SubCommand::Show), uid),
        Ok(Outcome::Show(UID::new(1)))
    );
    assert_eq!(
        run(&mut manager, true, Some(SubCommand::Show), None),
        Ok(Outcome::Refused(Refusal::MissingTaskToShow))
    );
    assert_eq!(
        run(&mut manager, true, Some(SubCommand::History), uid),
        Ok(Outcome::History(UID::new(1)))
    );
    assert_eq!(
        run(&mut manager, true, Some(SubCommand::History), Some(UID::new(9))),
        Ok(Outcome::Refused(Refusal::MissingTaskForHistory))
    );
    assert_eq!(
        run(&mut manager, true, Some(SubCommand::Remove { all: true }), uid),
        Ok(Outcome::Nothing)
    );
    assert_eq!(histories(&manager), before);
}

#[test]
fn note_commands_ask_for_a_note() {
    let mut manager = registry();
    let note = |note_uid: Option<u32>, subcmd| SubCommand::Note {
        note_uid: note_uid.map(UID::new),
        subcmd,
    };
    let uid = Some(UID::new(0));
    assert_eq!(
        run(
            &mut manager,
            true,
            Some(note(None, NoteCommand::Add { no_history: false })),
            uid
        ),
        Ok(Outcome::EditNote {
            uid: UID::new(0),
            replace: None,
            with_history: true,
            prefill: "\n".to_owned(),
        })
    );
    assert_eq!(
        run(
            &mut manager,
            false,
            Some(note(Some(5), NoteCommand::Add { no_history: false })),
            uid
        ),
        Ok(Outcome::EditNote {
            uid: UID::new(0),
            replace: None,
            with_history: false,
            prefill: "\n".to_owned(),
        })
    );
    assert_eq!(
        run(
            &mut manager,
            true,
            Some(note(Some(2), NoteCommand::Edit { no_history: true })),
            uid
        ),
        Ok(Outcome::EditNote {
            uid: UID::new(0),
            replace: Some(UID::new(1)),
            with_history: false,
            prefill: "second".to_owned(),
        })
    );
    assert_eq!(
        run(
            &mut manager,
            true,
            Some(note(Some(0), NoteCommand::Edit { no_history: false })),
            uid
        ),
        Ok(Outcome::EditNote {
            uid: UID::new(0),
            replace: Some(UID::new(0)),
            with_history: true,
            prefill: "first".to_owned(),
        })
    );
    assert_eq!(
        run(
            &mut manager,
            true,
            Some(note(Some(9), NoteCommand::Edit { no_history: false })),
            uid
        ),
        Ok(Outcome::EditNote {
            uid: UID::new(0),
            replace: Some(UID::new(8)),
            with_history: true,
            prefill: String::new(),
        })
    );
    assert_eq!(
        run(
            &mut manager,
            true,
            Some(note(None, NoteCommand::Edit { no_history: false })),
            uid
        ),
        Ok(Outcome::Refused(Refusal::NoNoteUid(UID::new(0))))
    );
    assert_eq!(
        run(
            &mut manager,
            true,
            Some(note(Some(1), NoteCommand::Edit { no_history: false })),
            None
        ),
        Ok(Outcome::Refused(Refusal::MissingTaskForNotes))
    );
}

#[test]
fn rename_command_counts_the_tasks_moved() {
    let mut manager = registry();
    let rename = |current: &str, new: &str| {
        SubCommand::Project(ProjectCommand::Rename {
            current_project: current.to_owned(),
            new_project: new.to_owned(),
        })
    };
    assert_eq!(
        run_at(
            &mut manager,
            true,
            Some(rename("groceries", "shopping")),
            None,
            at(9)
        ),
        Ok(Outcome::Renamed(1))
    );
    assert_eq!(manager.get(UID::new(0)).unwrap().project(), Some("shopping"));
    assert_eq!(manager.get(UID::new(1)).unwrap().project(), None);
    assert_eq!(
        run(&mut manager, true, Some(rename("groceries", "x")), None),
        Ok(Outcome::Renamed(0))
    );
}

#[test]
fn record_note_adds_or_replaces() {
    let mut manager = registry();
    assert_eq!(
        record_note_at(&mut manager, UID::new(1), None, false, "a note", at(9)),
        Ok(())
    );
    assert_eq!(
        manager.get(UID::new(1)).unwrap().history().last(),
        Some(&Event::NoteAdded {
            event_date: at(9),
            content: "a note".to_owned()
        })
    );
    let edited = format!("> old notes\n{}better", MARKER);
    assert_eq!(
        record_note_at(
            &mut manager,
            UID::new(0),
            Some(UID::new(1)),
            true,
            &edited,
            at(9)
        ),
        Ok(())
    );
    let notes = manager.get(UID::new(0)).unwrap().notes();
    assert_eq!(notes[0].content, "first");
    assert_eq!(notes[1].content, "better");
    assert_eq!(notes[1].last_modification_date, at(9));
    assert_eq!(
        record_note(&mut manager, UID::new(1), None, false, "another"),
        Ok(())
    );
    assert_eq!(manager.get(UID::new(1)).unwrap().notes().len(), 2);
}

#[test]
fn record_note_refuses_and_records_nothing() {
    let mut manager = registry();
    let before = histories(&manager);
    assert_eq!(
        record_note_at(&mut manager, UID::new(0), None, false, " \n", at(9)),
        Err(SubCmdError::EmptyNote)
    );
    assert_eq!(
        record_note_at(&mut manager, UID::new(0), None, true, "no marker", at(9)),
        Err(SubCmdError::CannotEditNote(
            "I told you not to temper with this line!".to_owned()
        ))
    );
    assert_eq!(
        record_note_at(
            &mut manager,
            UID::new(0),
            Some(UID::new(2)),
            false,
            "text",
            at(9)
        ),
        Err(SubCmdError::ToodouxError(Error::UnknownNote(UID::new(2))))
    );
    assert_eq!(
        record_note_at(&mut manager, UID::new(7), None, false, "text", at(9)),
        Ok(())
    );
    assert_eq!(
        record_note(&mut manager, UID::new(0), Some(UID::new(0)), false, ""),
        Err(SubCmdError::EmptyNote)
    );
    assert_eq!(histories(&manager), before);
}

#[test]
fn refusal_messages() {
    let cases = [
        (
            Refusal::CannotAddToTask,
            "cannot add a task to another one; maybe you were looking for dependencies instead?",
        ),
        (Refusal::MissingTaskToEdit, "missing or unknown task to edit"),
        (Refusal::MissingTaskToShow, "missing or unknown task to show"),
        (Refusal::MissingTask, "missing or unknown task"),
        (
            Refusal::MissingTaskToStart,
            "missing or unknown task to start",
        ),
        (
            Refusal::MissingTaskToFinish,
            "missing or unknown task to finish",
        ),
        (
            Refusal::MissingTaskToCancel,
            "missing or unknown task to cancel",
        ),
        (
            Refusal::MissingTaskForNotes,
            "missing or unknown task to add, edit or list notes about",
        ),
        (
            Refusal::MissingTaskForHistory,
            "missing or unknown task to display history",
        ),
        (
            Refusal::NoNoteUid(UID::new(12)),
            "cannot edit task 12’s note: no note UID provided",
        ),
    ];
    for (refusal, message) in cases {
        assert_eq!(refusal.message(), message);
    }
}

#[test]
fn command_line_holds_its_parts() {
    let command = Command {
        task_uid: Some(UID::new(3)),
        subcmd: Some(SubCommand::Show),
        config: Some("/tmp/config".to_owned()),
    };
    assert_eq!(command.clone(), command);
    assert_eq!(command.task_uid, Some(UID::new(3)));
}
