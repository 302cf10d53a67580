use toodoux::config::{ColorConfig, Config, MainConfig};
use toodoux::display::{
    decimal_width, description_lines, friendly_duration, friendly_tags, guess_notes_width,
    guess_tags_width, guess_task_project_width, guess_task_status_width, guess_task_uid_width,
    join_strs, measure_header, measure_row, measure_words, signed_decimal_width, status_alias,
    wrap_words, DisplayOptions, HeaderMeasure, RowMeasure, Terminal,
};
use toodoux::metadata::Priority;
use toodoux::task::{Status, Task, UID};
use toodoux::time::{Duration, Timestamp};

struct DummyTerm {
    dimensions: [usize; 2],
}

impl DummyTerm {
    pub fn new(dimensions: [usize; 2]) -> Self {
        Self { dimensions }
    }
}

impl Terminal for DummyTerm {
    fn dimensions(&self) -> Option<[usize; 2]> {
        Some(self.dimensions)
    }
}

struct NoTerm;

impl Terminal for NoTerm {
    fn dimensions(&self) -> Option<[usize; 2]> {
        None
    }
}

fn at(secs: i64) -> Timestamp {
    Timestamp::new(secs, 0).unwrap()
}

fn default_config() -> Config {
    Config::new(MainConfig::with_defaults("N/A"), ColorConfig::default())
}

#[test]
fn guess_number_width() {
    for i in 0..10 {
        assert_eq!(toodoux::display::guess_number_width(i), 1);
    }

    for i in 10..100 {
        assert_eq!(toodoux::display::guess_number_width(i), 2);
    }

    for i in 100..1000 {
        assert_eq!(toodoux::display::guess_number_width(i), 3);
    }
}

#[test]
fn cli_guess_number_width() {
    for i in 0..10 {
        assert_eq!(toodoux::display::guess_number_width(i), 1);
    }

    for i in 10..100 {
        assert_eq!(toodoux::display::guess_number_width(i), 2);
    }

    for i in 100..1000 {
        assert_eq!(toodoux::display::guess_number_width(i), 3);
    }
}

#[test]
fn guess_duration_width() {
    assert_eq!(
        toodoux::display::guess_duration_width(&Duration::seconds(5)),
        2
    ); // 5s
    assert_eq!(
        toodoux::display::guess_duration_width(&Duration::seconds(10)),
        3
    ); // 10s
    assert_eq!(
        toodoux::display::guess_duration_width(&Duration::seconds(60)),
        4
    ); // 1min
    assert_eq!(
        toodoux::display::guess_duration_width(&Duration::minutes(59)),
        5
    ); // 59min
}

#[test]
fn cli_guess_duration_width() {
    assert_eq!(
        toodoux::display::guess_duration_width(&Duration::seconds(5)),
        2
    ); // 5s
    assert_eq!(
        toodoux::display::guess_duration_width(&Duration::seconds(10)),
        3
    ); // 10s
    assert_eq!(
        toodoux::display::guess_duration_width(&Duration::seconds(60)),
        4
    ); // 1min
    assert_eq!(
        toodoux::display::guess_duration_width(&Duration::minutes(59)),
        5
    ); // 59min
}

#[test]
fn display_options_term_width() {
    let main_config = MainConfig::new(
        "N/A",
        "TODO",
        "WIP",
        "DONE",
        "CANCELLED",
        "UID",
        "Age",
        "Spent",
        "Prio",
        "Project",
        "Status",
        "Desc",
        false,
        2,
    );
    let config = Config::new(main_config, ColorConfig::default());
    let tasks = &[(UID::default(), &Task::new("Foo"))];
    let term = DummyTerm::new([100, 1]);
    let opts = DisplayOptions::new(&config, &term, tasks);

    let description_offset = " UID ".len() + "Age ".len() + "Status ".len();
    assert_eq!(opts.description_offset, description_offset,);
    assert_eq!(
        opts.max_description_cols,
        Some(term.dimensions().unwrap()[0] - description_offset)
    );
}

#[test]
fn display_options_should_yield_no_description_if_too_short() {
    let main_config = MainConfig::new(
        "N/A",
        "TODO",
        "WIP",
        "DONE",
        "CANCELLED",
        "UID",
        "Age",
        "Spent",
        "Prio",
        "Project",
        "Status",
        "Desc",
        false,
        2,
    );
    let config = Config::new(main_config, ColorConfig::default());
    let tasks = &[(UID::default(), &Task::new("Foo"))];
    let term = DummyTerm::new([100, 1]);
    let opts = DisplayOptions::new(&config, &term, tasks);

    let description_offset = " UID ".len() + "Age ".len() + "Status ".len();
    assert_eq!(opts.description_offset, description_offset,);
    assert_eq!(
        opts.max_description_cols,
        Some(term.dimensions().unwrap()[0] - description_offset)
    );
}

#[test]
fn cli_display_options_term_width() {
    let config = default_config();
    let tasks = &[(UID::default(), &Task::new("Foo"))];
    let term = DummyTerm::new([100, 1]);
    let opts = DisplayOptions::new(&config, &term, tasks);

    let description_offset = " UID ".len() + "Age ".len() + "Status ".len();
    assert_eq!(opts.description_offset, description_offset,);
    assert_eq!(
        opts.max_description_cols,
        Some(term.dimensions().unwrap()[0] - description_offset)
    );
}

#[test]
fn cli_display_options_should_yield_no_description_if_too_short() {
    let config = default_config();
    let tasks = &[(UID::default(), &Task::new("Foo"))];
    let term = DummyTerm::new([100, 1]);
    let opts = DisplayOptions::new(&config, &term, tasks);

    let description_offset = " UID ".len() + "Age ".len() + "Status ".len();
    assert_eq!(opts.description_offset, description_offset,);
    assert_eq!(
        opts.max_description_cols,
        Some(term.dimensions().unwrap()[0] - description_offset)
    );
}

#[test]
fn no_description_without_room_or_without_dimensions() {
    let config = default_config();
    let task = Task::new_at("Foo", at(0));
    let tasks = &[(UID::default(), &task)];
    let opts = DisplayOptions::for_tasks(&config, Some(17), tasks, &at(0));
    assert_eq!(opts.description_offset, 16);
    assert_eq!(opts.max_description_cols, Some(1));
    let opts = DisplayOptions::for_tasks(&config, Some(16), tasks, &at(0));
    assert_eq!(opts.max_description_cols, None);
    let opts = DisplayOptions::for_tasks(&config, Some(3), tasks, &at(0));
    assert_eq!(opts.max_description_cols, None);
    let opts = DisplayOptions::for_tasks(&config, None, tasks, &at(0));
    assert_eq!(opts.max_description_cols, None);
    assert_eq!(opts.description_offset, 16);
    let fresh = Task::new("Foo");
    let opts = DisplayOptions::new(&config, &NoTerm, &[(UID::default(), &fresh)]);
    assert_eq!(opts.max_description_cols, None);
    assert_eq!(opts.description_offset, 16);
}

#[test]
fn decimal_widths() {
    assert_eq!(decimal_width(0), 1);
    assert_eq!(decimal_width(9), 1);
    assert_eq!(decimal_width(10), 2);
    assert_eq!(decimal_width(99_999), 5);
    assert_eq!(decimal_width(100_000), 6);
    assert_eq!(decimal_width(u64::MAX as u128), 20);
    assert_eq!(decimal_width(u128::MAX), 39);
    assert_eq!(toodoux::display::guess_number_width(usize::MAX), usize::MAX.to_string().len());
    assert_eq!(signed_decimal_width(0), 1);
    assert_eq!(signed_decimal_width(-1), 2);
    assert_eq!(signed_decimal_width(-1000), 5);
    assert_eq!(signed_decimal_width(i128::MIN), 40);
    assert_eq!(signed_decimal_width(i128::MAX), 39);
    assert_eq!(guess_task_uid_width(UID::new(0)), 1);
    assert_eq!(guess_task_uid_width(UID::new(u32::MAX)), 10);
    assert_eq!(guess_notes_width(0), 0);
    assert_eq!(guess_notes_width(1), 1);
    assert_eq!(guess_notes_width(12), 2);
}

#[test]
fn friendly_durations() {
    let cases: &[(i64, &str)] = &[
        (0, "0s"),
        (5, "5s"),
        (59, "59s"),
        (60, "1min"),
        (59 * 60 + 59, "59min"),
        (3_600, "1h"),
        (23 * 3_600 + 3_599, "23h"),
        (86_400, "1d"),
        (3 * 86_400, "3d"),
        (13 * 86_400 + 86_399, "13d"),
        (14 * 86_400, "2w"),
        (27 * 86_400 + 86_399, "3w"),
        (28 * 86_400, "1mth"),
        (16 * 7 * 86_400, "4mth"),
        (-5, "-5s"),
        (-100_000, "-100000s"),
    ];
    for (secs, text) in cases {
        let duration = Duration::seconds(*secs);
        assert_eq!(&friendly_duration(duration), text);
        assert_eq!(
            toodoux::display::guess_duration_width(&duration),
            text.len()
        );
    }
    assert_eq!(
        friendly_duration(Duration::new(59, 999_999_999).unwrap()),
        "59s"
    );
    assert_eq!(
        friendly_duration(Duration::new(-1, 500_000_000).unwrap()),
        "0s"
    );
}

#[test]
fn status_aliases_and_widths() {
    let config = default_config();
    assert_eq!(status_alias(&config, Status::Todo), "TODO");
    assert_eq!(status_alias(&config, Status::Ongoing), "WIP");
    assert_eq!(status_alias(&config, Status::Done), "DONE");
    assert_eq!(status_alias(&config, Status::Cancelled), "CANCELLED");
    assert_eq!(guess_task_status_width(&config, Status::Todo), 6);
    assert_eq!(guess_task_status_width(&config, Status::Cancelled), 9);
}

#[test]
fn project_and_tags_widths() {
    let mut task = Task::new_at("t", at(0));
    assert_eq!(guess_task_project_width(&task), None);
    assert_eq!(guess_tags_width(&task), 0);
    assert_eq!(friendly_tags(&task), "");
    task.set_project_at("日本語", at(1));
    assert_eq!(guess_task_project_width(&task), Some(6));
    task.add_tag_at("a", at(2));
    assert_eq!(guess_tags_width(&task), 1);
    task.add_tag_at("bcd", at(3));
    task.add_tag_at("日", at(3));
    assert_eq!(friendly_tags(&task), "a, bcd, 日");
    assert_eq!(guess_tags_width(&task), 1 + 2 + 3 + 2 + 2);
    assert_eq!(join_strs(&["x", "y", "z"], "--"), "x--y--z");
    assert_eq!(join_strs(&[], "--"), "");
}

#[test]
fn measure_row_of_a_full_task() {
    let config = default_config();
    let mut task = Task::new_at("Buy some milk", at(0));
    task.set_project_at("groceries", at(1));
    task.set_priority_at(Priority::High, at(1));
    task.add_tag_at("errand", at(1));
    task.add_tag_at("x", at(1));
    task.add_note_at("call first", at(2));
    task.change_status_at(Status::Ongoing, at(10));
    task.change_status_at(Status::Cancelled, at(100));
    let row = measure_row(UID::new(123), &task, &config, &at(3_600 * 5));
    assert_eq!(
        row,
        RowMeasure {
            task_uid_width: 3,
            age_width: 2,
            spent_width: 4,
            status_width: 9,
            description_width: 13,
            project_width: 9,
            tags_width: 9,
            has_spent_time: true,
            has_priority: true,
            has_project: true,
            has_tags: true,
            notes_nb_width: 1,
        }
    );
    let bare = measure_row(UID::new(0), &Task::new_at("x", at(0)), &config, &at(0));
    assert_eq!(
        bare,
        RowMeasure {
            task_uid_width: 1,
            age_width: 2,
            spent_width: 2,
            status_width: 6,
            description_width: 1,
            project_width: 0,
            tags_width: 0,
            has_spent_time: false,
            has_priority: false,
            has_project: false,
            has_tags: false,
            notes_nb_width: 0,
        }
    );
}

#[test]
fn measure_header_of_the_defaults() {
    assert_eq!(
        measure_header(&default_config()),
        HeaderMeasure {
            uid: 3,
            age: 3,
            spent: 5,
            prio: 4,
            project: 7,
            tags: 4,
            notes_nb: 5,
            status: 6,
            description: 11,
        }
    );
}

fn header() -> HeaderMeasure {
    HeaderMeasure {
        uid: 3,
        age: 3,
        spent: 5,
        prio: 4,
        project: 7,
        tags: 4,
        notes_nb: 5,
        status: 6,
        description: 11,
    }
}

fn row() -> RowMeasure {
    RowMeasure {
        task_uid_width: 1,
        age_width: 2,
        spent_width: 2,
        status_width: 6,
        description_width: 1,
        project_width: 0,
        tags_width: 0,
        has_spent_time: false,
        has_priority: false,
        has_project: false,
        has_tags: false,
        notes_nb_width: 0,
    }
}

#[test]
fn layout_takes_the_widest_row_and_the_title() {
    let rows = [
        RowMeasure {
            task_uid_width: 5,
            project_width: 12,
            has_project: true,
            description_width: 40,
            ..row()
        },
        RowMeasure {
            age_width: 6,
            spent_width: 7,
            has_spent_time: true,
            status_width: 9,
            notes_nb_width: 2,
            ..row()
        },
        RowMeasure {
            tags_width: 20,
            has_tags: true,
            has_priority: true,
            ..row()
        },
    ];
    let opts = DisplayOptions::from_measures(&header(), &rows, false, true, Some(120));
    let offset = 1 + 5 + 1 + 6 + 1 + (7 + 1) + (4 + 1) + (12 + 1) + (20 + 1) + (5 + 1) + 9 + 1;
    assert_eq!(
        opts,
        DisplayOptions {
            task_uid_width: 5,
            age_width: 6,
            spent_width: 7,
            status_width: 9,
            description_width: 40,
            project_width: 12,
            tags_width: 20,
            has_spent_time: true,
            has_priorities: true,
            has_projects: true,
            has_tags: true,
            description_offset: offset,
            max_description_cols: Some(120 - offset),
            notes_nb_width: 2,
        }
    );
}

#[test]
fn layout_of_no_rows_is_the_titles() {
    let opts = DisplayOptions::from_measures(&header(), &[], false, true, Some(80));
    assert_eq!(
        opts,
        DisplayOptions {
            task_uid_width: 3,
            age_width: 3,
            spent_width: 5,
            status_width: 6,
            description_width: 11,
            project_width: 7,
            tags_width: 4,
            has_spent_time: false,
            has_priorities: false,
            has_projects: false,
            has_tags: false,
            description_offset: 16,
            max_description_cols: Some(64),
            notes_nb_width: 0,
        }
    );
}

#[test]
fn layout_counts_empty_columns_on_request() {
    let opts = DisplayOptions::from_measures(&header(), &[row()], true, true, None);
    assert_eq!(
        opts.description_offset,
        1 + 3 + 1 + 3 + 1 + (5 + 1) + (4 + 1) + (7 + 1) + (4 + 1) + (0 + 1) + 6 + 1
    );
    let opts = DisplayOptions::from_measures(&header(), &[row()], true, false, None);
    assert_eq!(
        opts.description_offset,
        1 + 3 + 1 + 3 + 1 + (5 + 1) + (4 + 1) + (7 + 1) + (4 + 1) + (0 + 1) + 6 + 1
    );
}

#[test]
fn layout_leaves_tags_out_when_they_are_not_listed() {
    let rows = [RowMeasure {
        tags_width: 20,
        has_tags: true,
        ..row()
    }];
    let with = DisplayOptions::from_measures(&header(), &rows, false, true, None);
    let without = DisplayOptions::from_measures(&header(), &rows, false, false, None);
    assert_eq!(with.description_offset, 16 + 21);
    assert_eq!(without.description_offset, 16);
    assert_eq!(without.tags_width, 20);
    assert_eq!(
        without.guess_description_col_offset(&default_config()),
        16 + 21
    );
    assert_eq!(
        without.description_col_offset(4, 5, false, false),
        without.description_offset
    );
}

#[test]
fn layout_offset_stops_at_the_greatest_number() {
    let rows = [RowMeasure {
        task_uid_width: usize::MAX,
        age_width: usize::MAX,
        ..row()
    }];
    let opts = DisplayOptions::from_measures(&header(), &rows, false, true, Some(usize::MAX));
    assert_eq!(opts.description_offset, usize::MAX);
    assert_eq!(opts.max_description_cols, None);
}

fn measured(words: &[(&str, usize)]) -> Vec<(String, usize)> {
    words.iter().map(|(w, n)| (w.to_string(), *n)).collect()
}

#[test]
fn wrap_fills_lines_and_breaks_between_words() {
    let words = measured(&[("aaa", 3), ("bb", 2), ("cccc", 4), ("d", 1), ("ee", 2)]);
    assert_eq!(wrap_words(&words, 8, 10), vec!["aaa bb", "cccc d", "ee"]);
    assert_eq!(wrap_words(&words, 7, 10), vec!["aaa bb", "cccc d", "ee"]);
    assert_eq!(wrap_words(&words, 6, 10), vec!["aaa", "bb", "cccc", "d ee"]);
    assert_eq!(wrap_words(&words, 100, 10), vec!["aaa bb cccc d ee"]);
}

#[test]
fn wrap_cuts_with_an_ellipsis_at_the_line_limit() {
    let words = measured(&[("aaa", 3), ("bb", 2), ("cccc", 4), ("d", 1), ("ee", 2)]);
    assert_eq!(wrap_words(&words, 8, 2), vec!["aaa bb", "cccc d…"]);
    assert_eq!(wrap_words(&words, 8, 1), vec!["aaa bb…"]);
    assert_eq!(wrap_words(&words, 8, 0), vec!["aaa bb…"]);
    assert_eq!(wrap_words(&words, 8, 3), vec!["aaa bb", "cccc d", "ee"]);
}

#[test]
fn wrap_of_nothing_is_one_empty_line() {
    assert_eq!(wrap_words(&[], 10, 2), vec![""]);
    assert_eq!(wrap_words(&[], 0, 0), vec![""]);
}

#[test]
fn wrap_of_a_word_wider_than_the_line() {
    let words = measured(&[("abcdefghij", 10), ("k", 1)]);
    assert_eq!(wrap_words(&words, 5, 3), vec!["", "abcdefghij", "k"]);
    assert_eq!(wrap_words(&words, 5, 1), vec!["…"]);
    assert_eq!(wrap_words(&words, 0, 5), vec!["", "abcdefghij", "k"]);
}

#[test]
fn wrap_goes_by_the_widths_given() {
    let words = measured(&[("日本", 4), ("語", 2)]);
    assert_eq!(wrap_words(&words, 8, 2), vec!["日本 語"]);
    assert_eq!(wrap_words(&words, 7, 2), vec!["日本", "語"]);
    let huge = measured(&[("a", usize::MAX), ("b", usize::MAX)]);
    assert_eq!(wrap_words(&huge, usize::MAX, 5), vec!["", "a", "b"]);
}

#[test]
fn measure_words_uses_display_columns() {
    assert_eq!(
        measure_words("  héllo 日本語\tx… "),
        measured(&[("héllo", 5), ("日本語", 6), ("x…", 2)])
    );
    assert!(measure_words(" \n ").is_empty());
}

#[test]
fn wrapped_lines_fit_the_description_width() {
    let description = "the quick brown fox jumps over the lazy dog again and again";
    let words = measure_words(description);
    for width in 6..40 {
        for max_lines in 1..6 {
            for line in wrap_words(&words, width, max_lines) {
                assert!(line.chars().count() <= width, "{:?} at {}", line, width);
            }
        }
    }
}

#[test]
fn description_lines_use_the_room_left() {
    let config = default_config();
    let task = Task::new_at("Buy some milk and bread", at(0));
    let tasks = &[(UID::default(), &task)];
    let opts = DisplayOptions::for_tasks(&config, Some(16 + 10), tasks, &at(0));
    assert_eq!(opts.description_width, 23);
    assert_eq!(opts.max_description_cols, Some(10));
    assert_eq!(
        description_lines(&opts, &config, task.name()),
        Some(vec!["Buy some".to_owned(), "milk and…".to_owned()])
    );
    let opts = DisplayOptions::for_tasks(&config, Some(200), tasks, &at(0));
    assert_eq!(
        description_lines(&opts, &config, task.name()),
        Some(vec!["Buy some milk and".to_owned(), "bread".to_owned()])
    );
    let opts = DisplayOptions::for_tasks(&config, None, tasks, &at(0));
    assert_eq!(description_lines(&opts, &config, task.name()), None);
}
