use toodoux::filter::TaskDescriptionFilter;
use toodoux::metadata::{Metadata, Priority};
use toodoux::task::{Error, Event, Note, Status, Task, TaskManager, UID};
use toodoux::time::{Duration, Timestamp};

fn at(secs: i64) -> Timestamp {
    Timestamp::new(secs, 0).unwrap()
}

fn no_filter() -> TaskDescriptionFilter {
    TaskDescriptionFilter::new(&[], false)
}

#[test]
fn new_task_is_created_and_todo() {
    let task = Task::new_at("Buy milk", at(100));
    assert_eq!(task.name(), "Buy milk");
    assert_eq!(
        task.history(),
        &[
            Event::Created(at(100)),
            Event::StatusChanged {
                event_date: at(100),
                status: Status::Todo
            }
        ]
    );
    assert_eq!(task.status(), Status::Todo);
    assert_eq!(task.creation_date(), Some(at(100)));
    assert_eq!(task.age_at(&at(100)), Duration::zero());
    assert_eq!(task.spent_time_at(&at(500)), Duration::zero());
    assert_eq!(task.project(), None);
    assert_eq!(task.priority(), None);
    assert!(task.tags().is_empty());
    assert!(task.notes().is_empty());
}

#[test]
fn scenario_create_task_with_the_clock() {
    let task = Task::new("Buy milk");
    assert_eq!(task.status(), Status::Todo);
    assert_eq!(task.history().len(), 2);
    assert_eq!(task.history()[0].date(), task.history()[1].date());
    let age = task.age();
    assert!(!age.is_negative());
    assert!(age.num_seconds() < 60);
    assert!(task.spent_time().is_zero());
}

#[test]
fn scenario_apply_metadata() {
    let mut task = Task::new("Buy milk");
    let (metadata, _) = Metadata::from_words(&["@groceries", "+h", "#errand"]);
    task.apply_metadata(&metadata);
    assert_eq!(task.project(), Some("groceries"));
    assert_eq!(task.priority(), Some(Priority::High));
    assert_eq!(task.tags(), vec!["errand"]);
    assert_eq!(task.history().len(), 5);
}

#[test]
fn apply_metadata_at_records_in_order() {
    let mut task = Task::new_at("t", at(1));
    task.apply_metadata_at(
        &[
            Metadata::tag("b"),
            Metadata::project("p"),
            Metadata::priority(Priority::Low),
            Metadata::tag("a"),
        ],
        at(7),
    );
    assert_eq!(
        &task.history()[2..],
        &[
            Event::AddTag {
                event_date: at(7),
                tag: "b".to_owned()
            },
            Event::SetProject {
                event_date: at(7),
                project: "p".to_owned()
            },
            Event::SetPriority {
                event_date: at(7),
                priority: Priority::Low
            },
            Event::AddTag {
                event_date: at(7),
                tag: "a".to_owned()
            },
        ]
    );
    assert_eq!(task.name(), "t");
}

#[test]
fn scenario_spent_time_between_start_and_done() {
    let mut task = Task::new_at("Buy milk", at(100));
    task.change_status_at(Status::Ongoing, at(130));
    assert_eq!(task.spent_time_at(&at(150)), Duration::seconds(20));
    task.change_status_at(Status::Done, at(190));
    assert_eq!(task.spent_time_at(&at(1000)), Duration::seconds(60));
    assert_eq!(task.status(), Status::Done);
}

#[test]
fn spent_time_with_the_clock() {
    let mut task = Task::new("t");
    task.change_status(Status::Ongoing);
    task.change_status(Status::Done);
    let spent = task.spent_time();
    assert!(!spent.is_negative());
    assert!(spent.num_seconds() < 60);
    assert_eq!(task.status(), Status::Done);
    assert_eq!(task.history().len(), 4);
}

#[test]
fn spent_time_adds_up_intervals() {
    let mut task = Task::new_at("t", at(0));
    task.change_status_at(Status::Ongoing, at(10));
    task.change_status_at(Status::Todo, at(15));
    task.change_status_at(Status::Cancelled, at(20));
    task.change_status_at(Status::Ongoing, at(30));
    task.add_note_at("in between", at(31));
    task.change_status_at(Status::Done, at(37));
    assert_eq!(task.spent_time_at(&at(100)), Duration::seconds(12));
}

#[test]
fn entering_ongoing_twice_drops_the_first_interval() {
    let mut task = Task::new_at("t", at(0));
    task.change_status_at(Status::Ongoing, at(10));
    task.change_status_at(Status::Ongoing, at(25));
    assert_eq!(task.spent_time_at(&at(30)), Duration::seconds(5));
    task.change_status_at(Status::Done, at(40));
    assert_eq!(task.spent_time_at(&at(99)), Duration::seconds(15));
}

#[test]
fn spent_time_keeps_nanoseconds() {
    let mut task = Task::new_at("t", at(0));
    task.change_status_at(Status::Ongoing, Timestamp::new(10, 900_000_000).unwrap());
    task.change_status_at(Status::Done, Timestamp::new(12, 100_000_000).unwrap());
    assert_eq!(
        task.spent_time_at(&at(50)),
        Duration::new(1, 200_000_000).unwrap()
    );
}

#[test]
fn spent_time_is_negative_when_dates_run_backwards() {
    let mut task = Task::new_at("t", at(0));
    task.change_status_at(Status::Ongoing, at(10));
    task.change_status_at(Status::Done, at(5));
    assert_eq!(task.spent_time_at(&at(50)), Duration::seconds(-5));
}

#[test]
fn spent_time_does_not_go_down_when_leaving_ongoing() {
    let mut task = Task::new_at("t", at(0));
    task.change_status_at(Status::Ongoing, at(10));
    let before = task.spent_time_at(&at(20));
    task.change_status_at(Status::Done, at(25));
    let after = task.spent_time_at(&at(30));
    assert_eq!(before, Duration::seconds(10));
    assert_eq!(after, Duration::seconds(15));
    task.add_tag_at("x", at(40));
    assert_eq!(task.spent_time_at(&at(50)), Duration::seconds(15));
}

#[test]
fn status_defaults_to_todo_without_status_events() {
    let task = Task::from_parts(
        "bare".to_owned(),
        vec![
            Event::Created(at(1)),
            Event::AddTag {
                event_date: at(2),
                tag: "x".to_owned(),
            },
        ],
    );
    assert_eq!(task.status(), Status::Todo);
    let empty = Task::from_parts(String::new(), vec![]);
    assert_eq!(empty.status(), Status::Todo);
    assert_eq!(empty.creation_date(), None);
    assert_eq!(empty.age_at(&at(99)), Duration::zero());
}

#[test]
fn status_is_the_last_one_set() {
    let mut task = Task::new_at("t", at(0));
    for (i, status) in [
        Status::Done,
        Status::Todo,
        Status::Cancelled,
        Status::Cancelled,
        Status::Ongoing,
    ]
    .into_iter()
    .enumerate()
    {
        task.change_status_at(status, at(i as i64));
        assert_eq!(task.status(), status);
    }
    assert_eq!(task.history().len(), 7);
}

#[test]
fn accessors_give_the_same_answer_twice() {
    let mut task = Task::new_at("t", at(0));
    task.set_project_at("p", at(1));
    task.set_priority_at(Priority::Medium, at(2));
    task.add_tag_at("a", at(3));
    task.add_note_at("n", at(4));
    task.change_status_at(Status::Ongoing, at(5));
    assert_eq!(task.status(), task.status());
    assert_eq!(task.project(), task.project());
    assert_eq!(task.priority(), task.priority());
    assert_eq!(task.tags(), task.tags());
    assert_eq!(task.notes(), task.notes());
    assert_eq!(task.creation_date(), task.creation_date());
    assert_eq!(task.age_at(&at(9)), task.age_at(&at(9)));
    assert_eq!(task.spent_time_at(&at(9)), task.spent_time_at(&at(9)));
}

#[test]
fn creation_date_is_the_first_created_event() {
    let task = Task::from_parts(
        "t".to_owned(),
        vec![
            Event::AddTag {
                event_date: at(1),
                tag: "x".to_owned(),
            },
            Event::Created(at(5)),
            Event::Created(at(9)),
        ],
    );
    assert_eq!(task.creation_date(), Some(at(5)));
    assert_eq!(task.age_at(&at(65)), Duration::seconds(60));
}

#[test]
fn change_name_leaves_no_event() {
    let mut task = Task::new_at("old", at(0));
    task.change_name("new");
    assert_eq!(task.name(), "new");
    assert_eq!(task.history().len(), 2);
}

#[test]
fn project_is_the_last_one_set_and_can_be_cleared() {
    let mut task = Task::new_at("t", at(0));
    task.set_project_at("a", at(1));
    task.set_project_at("b", at(2));
    assert_eq!(task.project(), Some("b"));
    task.set_project_at("", at(3));
    assert_eq!(task.project(), Some(""));
}

#[test]
fn tags_keep_order_and_repeats() {
    let mut task = Task::new_at("t", at(0));
    task.add_tag_at("b", at(1));
    task.add_tag_at("a", at(2));
    task.add_tag_at("b", at(3));
    assert_eq!(task.tags(), vec!["b", "a", "b"]);
}

#[test]
fn scenario_add_then_replace_note() {
    let mut task = Task::new_at("Buy milk", at(0));
    task.add_note_at("call first", at(10));
    assert_eq!(
        task.replace_note_at(UID::new(0), "call first, bring wallet", at(20)),
        Ok(())
    );
    let notes = task.notes();
    assert_eq!(
        notes,
        vec![Note {
            creation_date: at(10),
            last_modification_date: at(20),
            content: "call first, bring wallet".to_owned(),
        }]
    );
    assert!(notes[0]
        .creation_date
        .is_before(&notes[0].last_modification_date));
}

#[test]
fn notes_with_the_clock() {
    let mut task = Task::new("t");
    task.add_note("call first");
    assert_eq!(task.replace_note(UID::new(0), "call again"), Ok(()));
    assert_eq!(
        task.replace_note(UID::new(1), "nothing"),
        Err(Error::UnknownNote(UID::new(1)))
    );
    let notes = task.notes();
    assert_eq!(notes.len(), 1);
    assert_eq!(notes[0].content, "call again");
    assert!(!notes[0]
        .last_modification_date
        .is_before(&notes[0].creation_date));
    assert_eq!(task.history().len(), 4);
}

#[test]
fn note_index_counts_added_notes_only() {
    let mut task = Task::new_at("t", at(0));
    task.add_note_at("zero", at(1));
    task.add_tag_at("x", at(2));
    task.add_note_at("one", at(3));
    task.change_status_at(Status::Ongoing, at(4));
    task.add_note_at("two", at(5));
    assert_eq!(task.note_count(), 3);
    assert_eq!(task.replace_note_at(UID::new(1), "uno", at(6)), Ok(()));
    let notes = task.notes();
    let contents: Vec<&str> = notes.iter().map(|n| n.content.as_str()).collect();
    assert_eq!(contents, vec!["zero", "uno", "two"]);
    assert_eq!(notes[1].creation_date, at(3));
    assert_eq!(notes[1].last_modification_date, at(6));
    assert_eq!(notes[0].last_modification_date, at(1));
    assert_eq!(notes[2].last_modification_date, at(5));
    assert_eq!(task.note_count(), 3);
}

#[test]
fn replace_unknown_note_fails_and_changes_nothing() {
    let mut task = Task::new_at("t", at(0));
    task.add_note_at("zero", at(1));
    task.add_note_at("one", at(2));
    let before = task.history().to_vec();
    assert_eq!(
        task.replace_note_at(UID::new(2), "x", at(3)),
        Err(Error::UnknownNote(UID::new(2)))
    );
    assert_eq!(
        task.replace_note_at(UID::new(u32::MAX), "x", at(3)),
        Err(Error::UnknownNote(UID::new(u32::MAX)))
    );
    assert_eq!(task.history(), before.as_slice());
    assert_eq!(task.notes().len(), 2);
    let mut none = Task::new_at("t", at(0));
    assert_eq!(
        none.replace_note_at(UID::new(0), "x", at(3)),
        Err(Error::UnknownNote(UID::new(0)))
    );
}

#[test]
fn replaced_note_without_its_note_is_skipped_on_replay() {
    let task = Task::from_parts(
        "t".to_owned(),
        vec![
            Event::NoteReplaced {
                event_date: at(1),
                note_uid: UID::new(0),
                content: "early".to_owned(),
            },
            Event::NoteAdded {
                event_date: at(2),
                content: "kept".to_owned(),
            },
        ],
    );
    let notes = task.notes();
    assert_eq!(notes.len(), 1);
    assert_eq!(notes[0].content, "kept");
    assert_eq!(notes[0].last_modification_date, at(2));
}

#[test]
fn unknown_note_message() {
    assert_eq!(
        Error::UnknownNote(UID::new(3)).message(),
        "note 3 doesn’t exist"
    );
}

#[test]
fn check_metadata_wants_every_criterion() {
    let mut task = Task::new_at("t", at(0));
    task.set_project_at("Home", at(1));
    task.set_priority_at(Priority::High, at(2));
    task.add_tag_at("errand", at(3));
    task.add_tag_at("Quick", at(4));

    assert!(task.check_metadata(&[], false));
    assert!(task.check_metadata(&[Metadata::project("Home")], false));
    assert!(!task.check_metadata(&[Metadata::project("home")], false));
    assert!(!task.check_metadata(&[Metadata::project("Hom")], false));
    assert!(task.check_metadata(&[Metadata::priority(Priority::High)], false));
    assert!(!task.check_metadata(&[Metadata::priority(Priority::Low)], false));
    assert!(task.check_metadata(&[Metadata::tag("Quick")], false));
    assert!(!task.check_metadata(&[Metadata::tag("quick")], false));
    assert!(task.check_metadata(
        &[
            Metadata::tag("errand"),
            Metadata::project("Home"),
            Metadata::priority(Priority::High),
            Metadata::tag("Quick"),
        ],
        false
    ));
    assert!(!task.check_metadata(
        &[Metadata::tag("errand"), Metadata::tag("missing")],
        false
    ));
}

#[test]
fn check_metadata_can_fold_case() {
    let mut task = Task::new_at("t", at(0));
    task.set_project_at("Home", at(1));
    task.add_tag_at("Größe", at(2));
    assert!(task.check_metadata(&[Metadata::project("hOME")], true));
    assert!(task.check_metadata(&[Metadata::tag("GRÖSSE")], true));
    assert!(!task.check_metadata(&[Metadata::tag("GROSSE")], true));
    assert!(!task.check_metadata(&[Metadata::project("house")], true));
}

#[test]
fn check_metadata_on_a_task_without_anything() {
    let task = Task::new_at("t", at(0));
    assert!(task.check_metadata(&[], true));
    assert!(!task.check_metadata(&[Metadata::project("p")], false));
    assert!(!task.check_metadata(&[Metadata::priority(Priority::Low)], false));
    assert!(!task.check_metadata(&[Metadata::tag("t")], true));
}

#[test]
fn uid_arithmetic() {
    assert_eq!(UID::default(), UID::new(0));
    assert_eq!(UID::new(7).val(), 7);
    assert_eq!(UID::new(7).dec(), UID::new(6));
    assert_eq!(UID::new(0).dec(), UID::new(0));
    assert_eq!(UID::new(u32::MAX).dec().val(), u32::MAX - 1);
    assert_eq!(UID::new(1234).to_text(), "1234");
    assert_eq!(u32::from(UID::new(77)), 77);
    assert_eq!(usize::from(UID::new(u32::MAX)), u32::MAX as usize);
    assert!(UID::new(1) < UID::new(2));
}

#[test]
fn status_ranks_follow_the_enumeration() {
    let all = [
        Status::Todo,
        Status::Ongoing,
        Status::Done,
        Status::Cancelled,
    ];
    for (rank, status) in all.iter().enumerate() {
        assert_eq!(status.rank() as usize, rank);
    }
    assert!(Status::Todo < Status::Ongoing);
    assert!(Status::Ongoing < Status::Done);
    assert!(Status::Done < Status::Cancelled);
}

#[test]
fn event_duplicate_and_date() {
    let events = vec![
        Event::Created(at(1)),
        Event::StatusChanged {
            event_date: at(2),
            status: Status::Done,
        },
        Event::NoteAdded {
            event_date: at(3),
            content: "n".to_owned(),
        },
        Event::NoteReplaced {
            event_date: at(4),
            note_uid: UID::new(0),
            content: "m".to_owned(),
        },
        Event::SetProject {
            event_date: at(5),
            project: "p".to_owned(),
        },
        Event::SetPriority {
            event_date: at(6),
            priority: Priority::Low,
        },
        Event::AddTag {
            event_date: at(7),
            tag: "t".to_owned(),
        },
    ];
    for (i, event) in events.iter().enumerate() {
        assert_eq!(&event.duplicate(), event);
        assert_eq!(event.date(), at(i as i64 + 1));
    }
}

#[test]
fn registry_allocates_increasing_identifiers() {
    let mut manager = TaskManager::new();
    assert_eq!(manager.next_uid(), UID::new(0));
    let a = manager.register_task(Task::new_at("a", at(0)));
    let b = manager.register_task(Task::new_at("b", at(0)));
    let c = manager.register_task(Task::new_at("c", at(0)));
    assert_eq!((a, b, c), (UID::new(0), UID::new(1), UID::new(2)));
    assert_eq!(manager.next_uid(), UID::new(3));
    assert_eq!(manager.tasks().len(), 3);
    assert_eq!(manager.get(b).map(Task::name), Some("b"));
    assert!(manager.get(UID::new(3)).is_none());
}

#[test]
fn registry_get_mut_changes_one_task() {
    let mut manager = TaskManager::new();
    let a = manager.register_task(Task::new_at("a", at(0)));
    let b = manager.register_task(Task::new_at("b", at(0)));
    manager
        .get_mut(b)
        .unwrap()
        .change_status_at(Status::Done, at(5));
    assert_eq!(manager.get(a).unwrap().status(), Status::Todo);
    assert_eq!(manager.get(b).unwrap().status(), Status::Done);
    assert!(manager.get_mut(UID::new(9)).is_none());
    assert_eq!(manager.next_uid(), UID::new(2));
}

#[test]
fn registry_from_parts_checks_identifiers() {
    let task = |name: &str| Task::new_at(name, at(0));
    let good = TaskManager::from_parts(
        UID::new(10),
        vec![(UID::new(2), task("a")), (UID::new(7), task("b"))],
    )
    .unwrap();
    assert_eq!(good.next_uid(), UID::new(10));
    assert_eq!(good.get(UID::new(7)).map(Task::name), Some("b"));
    assert!(good.get(UID::new(3)).is_none());

    assert!(TaskManager::from_parts(UID::new(0), vec![]).is_some());
    assert!(TaskManager::from_parts(
        UID::new(7),
        vec![(UID::new(2), task("a")), (UID::new(7), task("b"))]
    )
    .is_none());
    assert!(TaskManager::from_parts(
        UID::new(10),
        vec![(UID::new(7), task("a")), (UID::new(2), task("b"))]
    )
    .is_none());
    assert!(TaskManager::from_parts(
        UID::new(10),
        vec![(UID::new(2), task("a")), (UID::new(2), task("b"))]
    )
    .is_none());
}

fn registry_with_projects() -> TaskManager {
    let mut manager = TaskManager::new();
    for (name, project) in [
        ("milk", Some("groceries")),
        ("nails", Some("hardware")),
        ("eggs", Some("groceries")),
        ("walk", None),
        ("bread", Some("groceries")),
    ] {
        let mut task = Task::new_at(name, at(0));
        if let Some(project) = project {
            task.set_project_at(project, at(1));
        }
        manager.register_task(task);
    }
    manager
}

fn projects(manager: &TaskManager) -> Vec<Option<String>> {
    manager
        .tasks()
        .iter()
        .map(|(_, task)| task.project().map(str::to_owned))
        .collect()
}

#[test]
fn scenario_rename_project() {
    let mut manager = registry_with_projects();
    let renamed = manager.rename_project_at("groceries", "shopping", at(9));
    assert_eq!(renamed, vec![UID::new(0), UID::new(2), UID::new(4)]);
    assert_eq!(
        projects(&manager),
        vec![
            Some("shopping".to_owned()),
            Some("hardware".to_owned()),
            Some("shopping".to_owned()),
            None,
            Some("shopping".to_owned()),
        ]
    );
    let milk = manager.get(UID::new(0)).unwrap();
    assert_eq!(milk.history().len(), 4);
    assert_eq!(
        milk.history()[3],
        Event::SetProject {
            event_date: at(9),
            project: "shopping".to_owned()
        }
    );
    assert_eq!(manager.get(UID::new(1)).unwrap().history().len(), 3);
    assert_eq!(manager.get(UID::new(3)).unwrap().history().len(), 2);
}

#[test]
fn rename_project_with_the_clock() {
    let mut manager = registry_with_projects();
    let renamed = manager.rename_project("groceries", "shopping");
    assert_eq!(renamed.len(), 3);
    assert_eq!(
        projects(&manager)
            .iter()
            .filter(|p| p.as_deref() == Some("shopping"))
            .count(),
        3
    );
}

#[test]
fn rename_project_looks_at_the_present_project_only() {
    let mut manager = TaskManager::new();
    let mut moved = Task::new_at("moved", at(0));
    moved.set_project_at("old", at(1));
    moved.set_project_at("other", at(2));
    let uid = manager.register_task(moved);
    assert!(manager.rename_project_at("old", "new", at(3)).is_empty());
    assert_eq!(manager.get(uid).unwrap().project(), Some("other"));
    assert!(manager.rename_project_at("OTHER", "new", at(3)).is_empty());
    assert_eq!(
        manager.rename_project_at("other", "new", at(3)),
        vec![uid]
    );
}

fn listing_names(rows: &[(UID, &Task)]) -> Vec<String> {
    rows.iter().map(|(_, task)| task.name().to_owned()).collect()
}

#[test]
fn scenario_high_priority_is_listed_first() {
    let mut manager = TaskManager::new();
    let mut low = Task::new_at("low", at(0));
    low.set_priority_at(Priority::Low, at(1));
    let mut high = Task::new_at("high", at(0));
    high.set_priority_at(Priority::High, at(1));
    manager.register_task(low);
    manager.register_task(high);
    let rows = manager.filtered_task_listing_at(
        &[],
        &no_filter(),
        true,
        true,
        false,
        false,
        false,
        &at(100),
    );
    assert_eq!(listing_names(&rows), vec!["high", "low"]);
    let rows = manager.filtered_task_listing(&[], &no_filter(), true, true, false, false, false);
    assert_eq!(listing_names(&rows), vec!["high", "low"]);
}

#[test]
fn listing_sorts_by_priority_age_status_and_identifier() {
    let mut manager = TaskManager::new();
    let mut add = |name: &str, created: i64, priority: Option<Priority>, status: Status| {
        let mut task = Task::new_at(name, at(created));
        if let Some(priority) = priority {
            task.set_priority_at(priority, at(created));
        }
        if status != Status::Todo {
            task.change_status_at(status, at(created));
        }
        manager.register_task(task)
    };
    add("none-old", 0, None, Status::Todo);
    add("low-young", 50, Some(Priority::Low), Status::Todo);
    add("low-old", 10, Some(Priority::Low), Status::Todo);
    add("crit", 90, Some(Priority::Critical), Status::Todo);
    add("tie-todo", 20, Some(Priority::Medium), Status::Todo);
    add("tie-ongoing", 20, Some(Priority::Medium), Status::Ongoing);
    add("tie-ongoing-later-uid", 20, Some(Priority::Medium), Status::Ongoing);
    add("none-young", 80, None, Status::Todo);

    let rows = manager.filtered_task_listing_at(
        &[],
        &no_filter(),
        true,
        true,
        true,
        true,
        false,
        &at(100),
    );
    assert_eq!(
        listing_names(&rows),
        vec![
            "crit",
            "tie-ongoing-later-uid",
            "tie-ongoing",
            "tie-todo",
            "low-old",
            "low-young",
            "none-old",
            "none-young",
        ]
    );
    let uids: Vec<u32> = rows.iter().map(|(uid, _)| uid.val()).collect();
    assert_eq!(uids, vec![3, 6, 5, 4, 2, 1, 0, 7]);
}

#[test]
fn listing_filters_by_status_flags() {
    let mut manager = TaskManager::new();
    for (name, status) in [
        ("todo", Status::Todo),
        ("ongoing", Status::Ongoing),
        ("done", Status::Done),
        ("cancelled", Status::Cancelled),
    ] {
        let mut task = Task::new_at(name, at(0));
        task.change_status_at(status, at(1));
        manager.register_task(task);
    }
    let list = |todo, start, done, cancelled| {
        let rows = manager.filtered_task_listing_at(
            &[],
            &no_filter(),
            todo,
            start,
            done,
            cancelled,
            false,
            &at(10),
        );
        let mut names = listing_names(&rows);
        names.sort();
        names
    };
    assert!(list(false, false, false, false).is_empty());
    assert_eq!(list(true, false, false, false), vec!["todo"]);
    assert_eq!(list(false, true, false, false), vec!["ongoing"]);
    assert_eq!(list(false, false, true, false), vec!["done"]);
    assert_eq!(list(false, false, false, true), vec!["cancelled"]);
    assert_eq!(
        list(true, true, true, true),
        vec!["cancelled", "done", "ongoing", "todo"]
    );
}

#[test]
fn listing_filters_by_metadata_and_name() {
    let mut manager = TaskManager::new();
    let mut add = |name: &str, project: &str, tag: &str| {
        let mut task = Task::new_at(name, at(0));
        task.set_project_at(project, at(1));
        task.add_tag_at(tag, at(2));
        manager.register_task(task);
    };
    add("buy milk today", "Groceries", "errand");
    add("buy nails", "hardware", "errand");
    add("sell milk", "groceries", "trade");

    let list = |metadata: &[Metadata], words: &[&str], fold: bool| {
        let filter = TaskDescriptionFilter::new(words, fold);
        let rows = manager
            .filtered_task_listing_at(metadata, &filter, true, true, true, true, fold, &at(10));
        let mut names = listing_names(&rows);
        names.sort();
        names
    };
    assert_eq!(
        list(&[Metadata::tag("errand")], &[], false),
        vec!["buy milk today", "buy nails"]
    );
    assert_eq!(
        list(&[Metadata::project("groceries")], &[], false),
        vec!["sell milk"]
    );
    assert_eq!(
        list(&[Metadata::project("groceries")], &[], true),
        vec!["buy milk today", "sell milk"]
    );
    assert_eq!(
        list(&[], &["milk"], false),
        vec!["buy milk today", "sell milk"]
    );
    assert_eq!(list(&[], &["milk", "buy"], false), vec!["buy milk today"]);
    assert_eq!(list(&[], &["MILK", "Buy"], false), Vec::<String>::new());
    assert_eq!(list(&[], &["MILK", "Buy"], true), vec!["buy milk today"]);
    assert_eq!(
        list(&[Metadata::tag("errand")], &["milk"], false),
        vec!["buy milk today"]
    );
    assert_eq!(list(&[], &["mil"], false), Vec::<String>::new());
}

#[test]
fn listing_order_has_no_ties() {
    let mut manager = TaskManager::new();
    for _ in 0..5 {
        manager.register_task(Task::new_at("same", at(0)));
    }
    let rows = manager.filtered_task_listing_at(
        &[],
        &no_filter(),
        true,
        false,
        false,
        false,
        false,
        &at(10),
    );
    let uids: Vec<u32> = rows.iter().map(|(uid, _)| uid.val()).collect();
    assert_eq!(uids, vec![4, 3, 2, 1, 0]);
}

#[test]
fn description_filter_terms_are_distinct() {
    let exact = TaskDescriptionFilter::new(&["a", "A", "b", "a"], false);
    assert_eq!(exact.terms(), vec!["a", "A", "b"]);
    assert!(!exact.is_case_insensitive());
    let folded = TaskDescriptionFilter::new(&["a", "A", "b", "a"], true);
    assert_eq!(folded.terms(), vec!["a", "b"]);
    assert!(folded.is_case_insensitive());
    assert!(TaskDescriptionFilter::new(&[], true).is_empty());
    assert!(!exact.is_empty());
}

#[test]
fn description_filter_remove_strikes_one_term() {
    let mut filter = TaskDescriptionFilter::new(&["milk", "Buy"], true);
    assert!(!filter.remove("eggs"));
    assert!(filter.remove("BUY"));
    assert_eq!(filter.terms(), vec!["milk"]);
    assert!(!filter.remove("buy"));
    assert!(filter.remove("milk"));
    assert!(filter.is_empty());
    assert!(!filter.remove("milk"));

    let mut exact = TaskDescriptionFilter::new(&["milk"], false);
    assert!(!exact.remove("Milk"));
    assert!(exact.remove("milk"));
}

#[test]
fn description_filter_accepts_when_every_term_is_a_word() {
    let filter = TaskDescriptionFilter::new(&["milk", "buy"], false);
    assert!(filter.accepts("buy some milk"));
    assert!(filter.accepts("milk\tto\nbuy"));
    assert!(!filter.accepts("buy some"));
    assert!(!filter.accepts("buymilk"));
    assert!(!filter.accepts(""));
    assert!(TaskDescriptionFilter::new(&[], false).accepts(""));
    assert!(TaskDescriptionFilter::new(&[], false).accepts("anything at all"));
    assert!(TaskDescriptionFilter::new(&["Ä"], true).accepts("x ä y"));
    assert!(!TaskDescriptionFilter::new(&["Ä"], false).accepts("x ä y"));
}
