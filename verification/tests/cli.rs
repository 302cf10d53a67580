use toodoux::cli::{
    active_status_flags, add_task, add_task_at, display_task_header, display_task_inline,
    edit_task, edit_task_at, extract_filters, extract_note, friendly_notes_nb, friendly_priority,
    friendly_spent_time, friendly_task_age, note_prefill, show_task, write_note_block, Cell,
    ListingColumn, NoteDetails, StatusFlags, SubCmdError, TaskDetails,
};
use toodoux::config::{ColorConfig, Config, MainConfig};
use toodoux::display::DisplayOptions;
use toodoux::metadata::{Metadata, MetadataValidationError, Priority};
use toodoux::task::{Error, Event, Status, Task, TaskManager, UID};
use toodoux::time::{Duration, Timestamp};

fn at(secs: i64) -> Timestamp {
    Timestamp::new(secs, 0).unwrap()
}

fn config() -> Config {
    Config::new(MainConfig::with_defaults("N/A"), ColorConfig::default())
}

#[test]
fn add_task_registers_what_the_content_describes() {
    let mut manager = TaskManager::new();
    let uid = add_task_at(
        &mut manager,
        false,
        false,
        &["Buy", "#errand milk", "@groceries", "+h"],
        at(5),
    )
    .unwrap();
    assert_eq!(uid, UID::new(0));
    let task = manager.get(uid).unwrap();
    assert_eq!(task.name(), "Buy milk");
    assert_eq!(task.status(), Status::Todo);
    assert_eq!(task.project(), Some("groceries"));
    assert_eq!(task.priority(), Some(Priority::High));
    assert_eq!(task.tags(), vec!["errand"]);
    assert_eq!(
        task.history(),
        &[
            Event::Created(at(5)),
            Event::StatusChanged {
                event_date: at(5),
                status: Status::Todo
            },
            Event::AddTag {
                event_date: at(5),
                tag: "errand".to_owned()
            },
            Event::SetProject {
                event_date: at(5),
                project: "groceries".to_owned()
            },
            Event::SetPriority {
                event_date: at(5),
                priority: Priority::High
            },
        ]
    );
}

#[test]
fn add_task_can_start_or_finish_at_once() {
    let mut manager = TaskManager::new();
    let started = add_task_at(&mut manager, true, true, &["a"], at(5)).unwrap();
    let done = add_task_at(&mut manager, false, true, &["b"], at(5)).unwrap();
    let plain = add_task(&mut manager, false, false, &["c"]).unwrap();
    assert_eq!(manager.get(started).unwrap().status(), Status::Ongoing);
    assert_eq!(manager.get(done).unwrap().status(), Status::Done);
    assert_eq!(manager.get(plain).unwrap().status(), Status::Todo);
    assert_eq!(manager.get(started).unwrap().history().len(), 3);
    assert_eq!(manager.next_uid(), UID::new(3));
}

#[test]
fn add_task_refuses_two_projects() {
    let mut manager = TaskManager::new();
    assert_eq!(
        add_task_at(&mut manager, false, false, &["@a x @b"], at(5)),
        Err(MetadataValidationError::TooManyProjects(2))
    );
    assert_eq!(
        add_task(&mut manager, false, false, &["+l +h +m"]),
        Err(MetadataValidationError::TooManyPriorities(3))
    );
    assert_eq!(manager.next_uid(), UID::new(0));
    assert!(manager.tasks().is_empty());
}

#[test]
fn edit_task_records_metadata_and_renames() {
    let mut task = Task::new_at("old name", at(0));
    assert_eq!(edit_task_at(&mut task, &["#t", "new", "name"], at(3)), Ok(()));
    assert_eq!(task.name(), "new name");
    assert_eq!(task.tags(), vec!["t"]);
    assert_eq!(edit_task_at(&mut task, &["@p"], at(4)), Ok(()));
    assert_eq!(task.name(), "new name");
    assert_eq!(task.project(), Some("p"));
    assert_eq!(edit_task(&mut task, &["+c"]), Ok(()));
    assert_eq!(task.priority(), Some(Priority::Critical));
    assert_eq!(task.history().len(), 5);
}

#[test]
fn edit_task_refuses_two_priorities_and_changes_nothing() {
    let mut task = Task::new_at("old name", at(0));
    assert_eq!(
        edit_task_at(&mut task, &["+l new +h"], at(3)),
        Err(MetadataValidationError::TooManyPriorities(2))
    );
    assert_eq!(task.name(), "old name");
    assert_eq!(task.history().len(), 2);
}

#[test]
fn status_flags_default_to_active_tasks() {
    let flags = |todo, start, cancelled, done| StatusFlags {
        todo,
        start,
        cancelled,
        done,
    };
    assert_eq!(
        active_status_flags(false, false, false, false, false),
        flags(true, true, false, false)
    );
    assert_eq!(
        active_status_flags(false, false, false, false, true),
        flags(true, true, true, true)
    );
    assert_eq!(
        active_status_flags(false, false, true, false, true),
        flags(true, true, true, true)
    );
    assert_eq!(
        active_status_flags(false, false, false, true, false),
        flags(false, false, false, true)
    );
    assert_eq!(
        active_status_flags(true, false, true, false, false),
        flags(true, false, true, false)
    );
}

#[test]
fn filters_from_words() {
    let (metadata, filter) = extract_filters(&["milk @home", "Buy", "milk", "#x"], false).unwrap();
    assert_eq!(metadata, vec![Metadata::project("home"), Metadata::tag("x")]);
    assert_eq!(filter.terms(), vec!["milk", "Buy"]);
    assert!(!filter.is_case_insensitive());
    let (metadata, filter) = extract_filters(&["A a"], true).unwrap();
    assert!(metadata.is_empty());
    assert_eq!(filter.terms(), vec!["A"]);
    assert!(filter.is_case_insensitive());
    let (metadata, filter) = extract_filters(&[], true).unwrap();
    assert!(metadata.is_empty());
    assert!(filter.is_empty());
    assert_eq!(
        extract_filters(&["@a @b"], false).err(),
        Some(MetadataValidationError::TooManyProjects(2))
    );
}

#[test]
fn friendly_texts() {
    assert_eq!(friendly_priority(Priority::Low), "LOW");
    assert_eq!(friendly_priority(Priority::Medium), "MED");
    assert_eq!(friendly_priority(Priority::High), "HIGH");
    assert_eq!(friendly_priority(Priority::Critical), "CRIT");
    assert_eq!(friendly_spent_time(Duration::zero()), "");
    assert_eq!(friendly_spent_time(Duration::seconds(90)), "1min");
    assert_eq!(friendly_spent_time(Duration::new(0, 1).unwrap()), "0s");
    assert_eq!(friendly_notes_nb(0), "");
    assert_eq!(friendly_notes_nb(12), "12");
    assert_eq!(
        friendly_task_age(&Task::new_at("t", at(0)), &at(7_200)),
        "2h"
    );
}

fn cell(column: ListingColumn, text: &str, width: usize) -> Cell {
    Cell {
        column,
        text: text.to_owned(),
        width,
    }
}

#[test]
fn cells_of_a_bare_listing() {
    let config = config();
    let task = Task::new_at("Foo", at(0));
    let opts = DisplayOptions::for_tasks(&config, Some(80), &[(UID::new(7), &task)], &at(30));
    assert_eq!(
        display_task_header(&config, &opts),
        vec![
            cell(ListingColumn::Uid, "UID", 3),
            cell(ListingColumn::Age, "Age", 3),
            cell(ListingColumn::Status, "Status", 6),
            cell(ListingColumn::Description, "Description", 11),
        ]
    );
    assert_eq!(
        display_task_inline(UID::new(7), &task, &config, &opts, &at(30)),
        vec![
            cell(ListingColumn::Uid, "7", 3),
            cell(ListingColumn::Age, "30s", 3),
            cell(ListingColumn::Status, "TODO", 6),
        ]
    );
    let narrow = DisplayOptions::for_tasks(&config, Some(20), &[(UID::new(7), &task)], &at(30));
    assert_eq!(
        display_task_header(&config, &narrow).last(),
        Some(&cell(ListingColumn::Description, "Description", 4))
    );
    let blind = DisplayOptions::for_tasks(&config, None, &[(UID::new(7), &task)], &at(30));
    assert_eq!(
        display_task_header(&config, &blind),
        vec![
            cell(ListingColumn::Uid, "UID", 3),
            cell(ListingColumn::Age, "Age", 3),
        ]
    );
    assert_eq!(
        display_task_inline(UID::new(7), &task, &config, &blind, &at(30)).len(),
        3
    );
}

#[test]
fn cells_of_a_full_listing() {
    let config = config();
    let mut full = Task::new_at("Buy some milk", at(0));
    full.set_project_at("groceries", at(1));
    full.set_priority_at(Priority::Critical, at(1));
    full.add_tag_at("errand", at(1));
    full.add_tag_at("x", at(1));
    full.add_note_at("call first", at(2));
    full.change_status_at(Status::Ongoing, at(10));
    let bare = Task::new_at("Foo", at(0));
    let now = at(3_600);
    let tasks = [(UID::new(12), &full), (UID::new(3), &bare)];
    let opts = DisplayOptions::for_tasks(&config, Some(100), &tasks, &now);
    assert_eq!(
        display_task_header(&config, &opts),
        vec![
            cell(ListingColumn::Uid, "UID", 3),
            cell(ListingColumn::Age, "Age", 3),
            cell(ListingColumn::Spent, "Spent", 5),
            cell(ListingColumn::Priority, "Prio", 4),
            cell(ListingColumn::Project, "Project", 9),
            cell(ListingColumn::Tags, "Tags", 9),
            cell(ListingColumn::NotesNb, "Notes", 5),
            cell(ListingColumn::Status, "Status", 6),
            cell(ListingColumn::Description, "Description", 13),
        ]
    );
    assert_eq!(
        display_task_inline(UID::new(12), &full, &config, &opts, &now),
        vec![
            cell(ListingColumn::Uid, "12", 3),
            cell(ListingColumn::Age, "1h", 3),
            cell(ListingColumn::Spent, "59min", 5),
            cell(ListingColumn::Priority, "CRIT", 4),
            cell(ListingColumn::Project, "groceries", 9),
            cell(ListingColumn::Tags, "errand, x", 9),
            cell(ListingColumn::NotesNb, "1", 5),
            cell(ListingColumn::Status, "WIP", 6),
        ]
    );
    assert_eq!(
        display_task_inline(UID::new(3), &bare, &config, &opts, &now),
        vec![
            cell(ListingColumn::Uid, "3", 3),
            cell(ListingColumn::Age, "1h", 3),
            cell(ListingColumn::Spent, "", 5),
            cell(ListingColumn::Priority, "", 4),
            cell(ListingColumn::Project, "", 9),
            cell(ListingColumn::Tags, "", 9),
            cell(ListingColumn::NotesNb, "", 5),
            cell(ListingColumn::Status, "TODO", 6),
        ]
    );
}

#[test]
fn cells_of_empty_columns_on_request() {
    let mut main = MainConfig::with_defaults("N/A");
    main.display_empty_cols = true;
    main.display_tags_listings = false;
    let config = Config::new(main, ColorConfig::default());
    let task = Task::new_at("Foo", at(0));
    let opts = DisplayOptions::for_tasks(&config, Some(80), &[(UID::new(7), &task)], &at(30));
    let columns: Vec<ListingColumn> = display_task_header(&config, &opts)
        .iter()
        .map(|c| c.column)
        .collect();
    assert_eq!(
        columns,
        vec![
            ListingColumn::Uid,
            ListingColumn::Age,
            ListingColumn::Spent,
            ListingColumn::Priority,
            ListingColumn::Project,
            ListingColumn::Status,
            ListingColumn::Description,
        ]
    );
}

const MARKER: &str = "---------------------- >8 ----------------------\n";

#[test]
fn note_prefill_without_history_is_the_prefill() {
    let mut task = Task::new_at("t", at(0));
    task.add_note_at("earlier", at(1));
    assert_eq!(note_prefill(&task, false, "start"), "start");
    assert_eq!(note_prefill(&task, false, ""), "");
}

#[test]
fn note_prefill_with_history_shows_earlier_notes() {
    let mut task = Task::new_at("t", at(0));
    task.add_note_at("first note", at(0));
    task.add_note_at("second\nnote", at(86_400));
    task.replace_note_at(UID::new(1), "second note", at(2 * 86_400))
        .unwrap();
    let expected = "> Note #1, on Thu, 01 Jan 1970 at 00:00, modified on Thu, 01 Jan 1970 at 00:00\n\
first note\n\n\
> Note #2, on Fri, 02 Jan 1970 at 00:00, modified on Sat, 03 Jan 1970 at 00:00\n\
second note\
> Above are the previously recorded notes. You are free to temper with them if you want.\n\
> You can add the content of your note under the following line. However, do not remove this line!\n\
---------------------- >8 ----------------------\n\
draft";
    assert_eq!(note_prefill(&task, true, "draft"), expected);
}

#[test]
fn note_prefill_with_history_but_no_notes() {
    let task = Task::new_at("t", at(0));
    let text = note_prefill(&task, true, "\n");
    assert!(text.starts_with("> Above are the previously recorded notes."));
    assert!(text.ends_with(&format!("{}\n", MARKER)));
}

#[test]
fn extract_note_takes_what_follows_the_marker() {
    let content = format!("> old\n{}new note\n", MARKER);
    assert_eq!(extract_note(&content, true), Ok("new note\n".to_owned()));
    let twice = format!("a{}b{}c", MARKER, MARKER);
    assert_eq!(extract_note(&twice, true), Ok(format!("b{}c", MARKER)));
    let accents = format!("é日本{}ünï", MARKER);
    assert_eq!(extract_note(&accents, true), Ok("ünï".to_owned()));
}

#[test]
fn extract_note_refuses_blank_notes() {
    assert_eq!(
        extract_note(&format!("x{} \n\t\u{a0}\u{3000}", MARKER), true),
        Err(SubCmdError::EmptyNote)
    );
    assert_eq!(extract_note(MARKER, true), Err(SubCmdError::EmptyNote));
    assert_eq!(extract_note("", false), Err(SubCmdError::EmptyNote));
    assert_eq!(
        extract_note(" \u{2003}\r\n", false),
        Err(SubCmdError::EmptyNote)
    );
    assert_eq!(
        extract_note(" \u{200b} ", false),
        Ok(" \u{200b} ".to_owned())
    );
}

#[test]
fn extract_note_without_the_marker() {
    assert_eq!(
        extract_note("some text", true),
        Err(SubCmdError::CannotEditNote(
            "I told you not to temper with this line!".to_owned()
        ))
    );
    assert_eq!(
        extract_note("---------------------- >8 ----------------------", true),
        Err(SubCmdError::CannotEditNote(
            "I told you not to temper with this line!".to_owned()
        ))
    );
    assert_eq!(extract_note("some text", false), Ok("some text".to_owned()));
    assert_eq!(
        extract_note(&format!("{}x", MARKER), false),
        Ok(format!("{}x", MARKER))
    );
}

#[test]
fn sub_command_error_messages() {
    assert_eq!(
        SubCmdError::MetadataValidationError(MetadataValidationError::TooManyProjects(2))
            .message(),
        "metadata validation error: too many projects: 2"
    );
    assert_eq!(
        SubCmdError::CannotEditNote("why".to_owned()).message(),
        "cannot edit note: why"
    );
    assert_eq!(
        SubCmdError::EmptyNote.message(),
        "the note was empty; nothing added"
    );
    assert_eq!(
        SubCmdError::ToodouxError(Error::UnknownNote(UID::new(4))).message(),
        "toodoux error: note 4 doesn’t exist"
    );
}

#[test]
fn note_blocks_show_number_and_dates() {
    assert_eq!(
        write_note_block(0, "Monday", None, "text"),
        "> Note #1, on Monday\ntext"
    );
    assert_eq!(
        write_note_block(41, "Monday", Some("Friday"), "two\nlines"),
        "> Note #42, on Monday, modified on Friday\ntwo\nlines"
    );
    assert_eq!(
        write_note_block(usize::MAX, "", Some(""), ""),
        format!("> Note #{}, on , modified on \n", usize::MAX as u128 + 1)
    );
}

#[test]
fn details_of_a_bare_task() {
    let task = Task::new_at("Foo", at(0));
    assert_eq!(
        show_task(UID::new(3), &task, &at(90)),
        TaskDetails {
            name: "Foo".to_owned(),
            uid: "3".to_owned(),
            age: "1min".to_owned(),
            spent: None,
            priority: None,
            project: None,
            tags: vec![],
            status: Status::Todo,
            notes: vec![],
        }
    );
}

#[test]
fn details_of_a_full_task() {
    let mut task = Task::new_at("Buy milk", at(0));
    task.set_project_at("groceries", at(1));
    task.set_priority_at(Priority::Low, at(1));
    task.add_tag_at("errand", at(1));
    task.add_tag_at("x", at(1));
    task.add_note_at("  call first \n", at(0));
    task.add_note_at("bring a bag", at(86_400));
    task.replace_note_at(UID::new(1), "\tbring two bags", at(2 * 86_400))
        .unwrap();
    task.change_status_at(Status::Ongoing, at(100));
    assert_eq!(
        show_task(UID::new(12), &task, &at(3 * 86_400)),
        TaskDetails {
            name: "Buy milk".to_owned(),
            uid: "12".to_owned(),
            age: "3d".to_owned(),
            spent: Some("2d".to_owned()),
            priority: Some(Priority::Low),
            project: Some("groceries".to_owned()),
            tags: vec!["errand".to_owned(), "x".to_owned()],
            status: Status::Ongoing,
            notes: vec![
                NoteDetails {
                    number: 1,
                    created: "Thu, 01 Jan 1970 at 00:00".to_owned(),
                    edited: None,
                    content: "call first".to_owned(),
                },
                NoteDetails {
                    number: 2,
                    created: "Fri, 02 Jan 1970 at 00:00".to_owned(),
                    edited: Some("Sat, 03 Jan 1970 at 00:00".to_owned()),
                    content: "bring two bags".to_owned(),
                },
            ],
        }
    );
}
