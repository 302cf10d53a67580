//! Laying out a listing on a terminal: how wide each column must be, where the
//! description starts, and how a description is wrapped or cut to fit.

use crate::config::{Config, MainConfigView};
use crate::metadata::{slice_texts, Priority};
use crate::task::{
    age_of, notes_of, priority_of, project_of, spent_time_of, status_of, tags_of, Status, Task,
    TaskView, UID,
};
use crate::text::{
    columns, columns_of_char, decimal, join, lemma_columns_concat, lemma_decimal_len, signed_decimal,
    signed_decimal_string, split_words, str_columns, texts, words,
};
use crate::time::{
    now, whole_days, whole_hours, whole_minutes, whole_seconds, whole_weeks, Duration, Timestamp,
};
use vstd::prelude::*;
use vstd::string::*;

verus! {

/// How many characters it takes to write `n` in base ten.
pub fn decimal_width(n: u128) -> (w: usize)
    ensures
        w == decimal(n as nat).len(),
        1 <= w <= 39,
{
    let mut val = n;
    let mut w: usize = 1;
    proof {
        lemma_decimal_len(n as nat);
    }
    while val >= 10
        invariant
            decimal(n as nat).len() == decimal(val as nat).len() + w - 1,
            1 <= w,
            w <= 39,
            val as int * pow10((w - 1) as nat) <= n,
        decreases val,
    {
        proof {
            lemma_decimal_len(val as nat);
            lemma_pow10_positive((w - 1) as nat);
            assert(pow10(w as nat) == 10 * pow10((w - 1) as nat));
            assert((val / 10) as int * pow10(w as nat) <= val as int * pow10((w - 1) as nat))
                by (nonlinear_arith)
                requires
                    pow10(w as nat) == 10 * pow10((w - 1) as nat),
                    pow10((w - 1) as nat) >= 0,
                    (val / 10) * 10 <= val,
            ;
            if w == 39 {
                lemma_pow10_39();
                assert((val / 10) as int * pow10(39) >= pow10(39)) by (nonlinear_arith)
                    requires
                        val / 10 >= 1,
                        pow10(39) >= 0,
                ;
            }
        }
        val = val / 10;
        w += 1;
    }
    proof {
        lemma_decimal_len(val as nat);
    }
    w
}

/// Ten to the power `e`.
pub open spec fn pow10(e: nat) -> int
    decreases e,
{
    if e == 0 {
        1
    } else {
        10 * pow10((e - 1) as nat)
    }
}

/// Powers of ten are positive.
proof fn lemma_pow10_positive(e: nat)
    ensures
        pow10(e) >= 1,
    decreases e,
{
    if e > 0 {
        lemma_pow10_positive((e - 1) as nat);
    }
}

/// Ten to the thirty-ninth is more than a `u128` can hold.
proof fn lemma_pow10_39()
    ensures
        pow10(39) > u128::MAX,
{
    reveal_with_fuel(pow10, 40);
}

/// A number written with `w` digits is below ten to the `w`, and, unless it is
/// a single digit, at least ten to the `w - 1`.
pub proof fn lemma_decimal_bounds(n: nat)
    ensures
        n < pow10(decimal(n).len()),
        n >= 10 ==> pow10((decimal(n).len() - 1) as nat) <= n,
    decreases n,
{
    lemma_decimal_len(n);
    reveal_with_fuel(pow10, 3);
    if n >= 10 {
        lemma_decimal_bounds(n / 10);
        lemma_decimal_len(n / 10);
        let w = decimal(n / 10).len();
        assert(pow10(w + 1) == 10 * pow10(w));
        if n / 10 >= 10 {
            assert(pow10(w) == 10 * pow10((w - 1) as nat));
        }
    }
}

/// Guesses the number of characters needed to write `val`.
pub fn guess_number_width(val: usize) -> (w: usize)
    ensures
        w == decimal(val as nat).len(),
{
    decimal_width(val as u128)
}

/// How many characters it takes to write `n` in base ten, the minus sign of a
/// negative number included.
pub fn signed_decimal_width(n: i128) -> (w: usize)
    ensures
        w == signed_decimal(n as int).len(),
        1 <= w <= 40,
{
    if n < 0 {
        let magnitude: u128 = (-(n + 1)) as u128 + 1;
        decimal_width(magnitude) + 1
    } else {
        decimal_width(n as u128)
    }
}

/// The number and the unit a span of `nanos` nanoseconds is shown with:
/// seconds below a minute, minutes below an hour, hours below a day, days below
/// two weeks, weeks below four weeks, and months of four weeks from there on. A
/// negative span is shown in seconds.
pub open spec fn duration_parts(nanos: int) -> (int, Seq<char>) {
    if whole_minutes(nanos) < 1 {
        (whole_seconds(nanos), "s"@)
    } else if whole_hours(nanos) < 1 {
        (whole_minutes(nanos), "min"@)
    } else if whole_days(nanos) < 1 {
        (whole_hours(nanos), "h"@)
    } else if whole_weeks(nanos) < 2 {
        (whole_days(nanos), "d"@)
    } else if whole_weeks(nanos) < 4 {
        (whole_weeks(nanos), "w"@)
    } else {
        (whole_weeks(nanos) / 4, "mth"@)
    }
}

/// A span of `nanos` nanoseconds as shown to the user, such as `5s`, `59min`,
/// `3d` or `4mth`.
pub open spec fn duration_text(nanos: int) -> Seq<char> {
    signed_decimal(duration_parts(nanos).0) + duration_parts(nanos).1
}

/// The number and the unit `dur` is shown with.
fn split_duration(dur: &Duration) -> (r: (i128, &'static str))
    ensures
        r.0 == duration_parts(dur.as_nanos()).0,
        r.1@ == duration_parts(dur.as_nanos()).1,
{
    if dur.num_minutes() < 1 {
        (dur.num_seconds(), "s")
    } else if dur.num_hours() < 1 {
        (dur.num_minutes(), "min")
    } else if dur.num_days() < 1 {
        (dur.num_hours(), "h")
    } else if dur.num_weeks() < 2 {
        (dur.num_days(), "d")
    } else if dur.num_weeks() < 4 {
        (dur.num_weeks(), "w")
    } else {
        (dur.num_weeks() / 4, "mth")
    }
}

/// Writes a span of time the way listings show it.
pub fn friendly_duration(dur: Duration) -> (r: String)
    ensures
        r@ == duration_text(dur.as_nanos()),
{
    let (number, unit) = split_duration(&dur);
    let mut out = signed_decimal_string(number);
    out.append(unit);
    out
}

/// Guesses the width needed to show a span of time, unit included.
pub fn guess_duration_width(dur: &Duration) -> (w: usize)
    ensures
        w == duration_text(dur.as_nanos()).len(),
{
    let (number, unit) = split_duration(dur);
    proof {
        reveal_strlit("s");
        reveal_strlit("min");
        reveal_strlit("h");
        reveal_strlit("d");
        reveal_strlit("w");
        reveal_strlit("mth");
    }
    let unit_len = unit.unicode_len();
    signed_decimal_width(number) + unit_len
}

/// A source of the terminal's size.
pub trait Terminal {
    /// Columns and rows of the terminal, when they can be found out.
    fn dimensions(&self) -> Option<[usize; 2]>;
}

/// The columns whose width depends on the rows.
pub enum Column {
    Uid,
    Age,
    Spent,
    Status,
    Description,
    Project,
    Tags,
    NotesNb,
}

/// The columns that are left out when no row has anything in them.
pub enum OptionalColumn {
    Spent,
    Priority,
    Project,
    Tags,
}

/// What one row asks of each column.
#[derive(Clone, Copy, Debug, PartialEq, Eq, Structural)]
pub struct RowMeasure {
    /// Width of the identifier.
    pub task_uid_width: usize,
    /// Width of the age.
    pub age_width: usize,
    /// Width of the time spent.
    pub spent_width: usize,
    /// Width of the status name, six at least.
    pub status_width: usize,
    /// Width of the description on one line.
    pub description_width: usize,
    /// Width of the project name; zero without a project.
    pub project_width: usize,
    /// Width of the tags, written with `, ` between them.
    pub tags_width: usize,
    /// Whether any time was spent on the task.
    pub has_spent_time: bool,
    /// Whether the task has a priority.
    pub has_priority: bool,
    /// Whether the task has a project.
    pub has_project: bool,
    /// Whether the task has a tag.
    pub has_tags: bool,
    /// Width of the number of notes; zero without notes.
    pub notes_nb_width: usize,
}

impl RowMeasure {
    /// What the row asks of `column`.
    pub open spec fn width(self, column: Column) -> usize {
        match column {
            Column::Uid => self.task_uid_width,
            Column::Age => self.age_width,
            Column::Spent => self.spent_width,
            Column::Status => self.status_width,
            Column::Description => self.description_width,
            Column::Project => self.project_width,
            Column::Tags => self.tags_width,
            Column::NotesNb => self.notes_nb_width,
        }
    }

    /// Whether the row has something to show in `column`.
    pub open spec fn fills(self, column: OptionalColumn) -> bool {
        match column {
            OptionalColumn::Spent => self.has_spent_time,
            OptionalColumn::Priority => self.has_priority,
            OptionalColumn::Project => self.has_project,
            OptionalColumn::Tags => self.has_tags,
        }
    }
}

/// Widths of the column titles.
#[derive(Clone, Copy, Debug, PartialEq, Eq, Structural)]
pub struct HeaderMeasure {
    pub uid: usize,
    pub age: usize,
    pub spent: usize,
    pub prio: usize,
    pub project: usize,
    pub tags: usize,
    pub notes_nb: usize,
    pub status: usize,
    pub description: usize,
}

/// The greatest width that a row of `rows` asks of `column`, and `floor` at least.
pub open spec fn widest(rows: Seq<RowMeasure>, column: Column, floor: usize) -> usize
    decreases rows.len(),
{
    if rows.len() == 0 {
        floor
    } else {
        let rest = widest(rows.drop_last(), column, floor);
        if rows.last().width(column) > rest {
            rows.last().width(column)
        } else {
            rest
        }
    }
}

/// Whether some row of `rows` has something to show in `column`.
pub open spec fn any_fills(rows: Seq<RowMeasure>, column: OptionalColumn) -> bool {
    exists|i: int| 0 <= i < rows.len() && (#[trigger] rows[i]).fills(column)
}

/// What a listing needs to know to print its rows in columns.
#[derive(Clone, Copy, Debug, PartialEq, Eq, Structural)]
pub struct DisplayOptions {
    /// Width of the identifier column.
    pub task_uid_width: usize,
    /// Width of the age column.
    pub age_width: usize,
    /// Width of the spent-time column.
    pub spent_width: usize,
    /// Width of the status column.
    pub status_width: usize,
    /// Width of the description column, were the terminal wide enough.
    pub description_width: usize,
    /// Width of the project column.
    pub project_width: usize,
    /// Width of the tags column.
    pub tags_width: usize,
    /// Whether time was spent on any task.
    pub has_spent_time: bool,
    /// Whether any task has a priority.
    pub has_priorities: bool,
    /// Whether any task has a project.
    pub has_projects: bool,
    /// Whether any task has a tag.
    pub has_tags: bool,
    /// The column at which descriptions start; `usize::MAX` when it lies beyond.
    pub description_offset: usize,
    /// Columns left for the description; `None` when the terminal's width is
    /// unknown or leaves no room.
    pub max_description_cols: Option<usize>,
    /// Width of the widest number of notes; zero when no task has a note.
    pub notes_nb_width: usize,
}

impl DisplayOptions {
    /// The column at which descriptions start: one blank, then every column
    /// before the description with the blank that follows it.
    ///
    /// The spent, priority, project and tags columns count when a task has
    /// something in them; with `display_empty_cols` they count always. The notes
    /// column counts when a task has a note, as wide as its title; with
    /// `display_empty_cols` it counts always, as wide as the widest number.
    pub open spec fn spec_description_col_offset(
        self,
        prio_title: usize,
        notes_title: usize,
        display_empty_cols: bool,
        display_tags: bool,
    ) -> int {
        let spent = if display_empty_cols || self.has_spent_time {
            self.spent_width + 1
        } else {
            0
        };
        let prio = if display_empty_cols || self.has_priorities {
            prio_title + 1
        } else {
            0
        };
        let project = if display_empty_cols || self.has_projects {
            self.project_width + 1
        } else {
            0
        };
        let tags = if display_empty_cols || (display_tags && self.has_tags) {
            self.tags_width + 1
        } else {
            0
        };
        let notes = if display_empty_cols {
            self.notes_nb_width + 1
        } else if self.notes_nb_width != 0 {
            notes_title + 1
        } else {
            0
        };
        1 + self.task_uid_width + 1 + self.age_width + 1 + spent + prio + project + tags + notes
            + self.status_width + 1
    }

    /// The column at which descriptions start, given the widths of the priority
    /// and notes titles; `usize::MAX` when it lies beyond.
    pub fn description_col_offset(
        &self,
        prio_title: usize,
        notes_title: usize,
        display_empty_cols: bool,
        display_tags: bool,
    ) -> (r: usize)
        ensures
            r == clip(
                self.spec_description_col_offset(
                    prio_title,
                    notes_title,
                    display_empty_cols,
                    display_tags,
                ),
            ),
    {
        let exact = self.exact_offset(prio_title, notes_title, display_empty_cols, display_tags);
        if exact > usize::MAX as u128 {
            usize::MAX
        } else {
            exact as usize
        }
    }

    /// The column at which descriptions start, however great.
    fn exact_offset(
        &self,
        prio_title: usize,
        notes_title: usize,
        display_empty_cols: bool,
        display_tags: bool,
    ) -> (r: u128)
        ensures
            r == self.spec_description_col_offset(
                prio_title,
                notes_title,
                display_empty_cols,
                display_tags,
            ),
    {
        let spent: u128 = if display_empty_cols || self.has_spent_time {
            self.spent_width as u128 + 1
        } else {
            0
        };
        let prio: u128 = if display_empty_cols || self.has_priorities {
            prio_title as u128 + 1
        } else {
            0
        };
        let project: u128 = if display_empty_cols || self.has_projects {
            self.project_width as u128 + 1
        } else {
            0
        };
        let tags: u128 = if display_empty_cols || (display_tags && self.has_tags) {
            self.tags_width as u128 + 1
        } else {
            0
        };
        let notes: u128 = if display_empty_cols {
            self.notes_nb_width as u128 + 1
        } else if self.notes_nb_width != 0 {
            notes_title as u128 + 1
        } else {
            0
        };
        1 + self.task_uid_width as u128 + 1 + self.age_width as u128 + 1 + spent + prio + project
            + tags + notes + self.status_width as u128 + 1
    }

    /// The layout for rows with the given measures under titles with the given
    /// widths, on a terminal `term_width` columns wide.
    ///
    /// Each column is as wide as its widest row and its title. What is left of
    /// the terminal after the description's starting column is the room for
    /// descriptions; there is none when nothing is left.
    pub open spec fn laid_out(
        header: HeaderMeasure,
        rows: Seq<RowMeasure>,
        display_empty_cols: bool,
        display_tags: bool,
        term_width: Option<usize>,
    ) -> DisplayOptions {
        let columns = DisplayOptions {
            task_uid_width: widest(rows, Column::Uid, header.uid),
            age_width: widest(rows, Column::Age, header.age),
            spent_width: widest(rows, Column::Spent, header.spent),
            status_width: widest(rows, Column::Status, header.status),
            description_width: widest(rows, Column::Description, header.description),
            project_width: widest(rows, Column::Project, header.project),
            tags_width: widest(rows, Column::Tags, header.tags),
            has_spent_time: any_fills(rows, OptionalColumn::Spent),
            has_priorities: any_fills(rows, OptionalColumn::Priority),
            has_projects: any_fills(rows, OptionalColumn::Project),
            has_tags: any_fills(rows, OptionalColumn::Tags),
            description_offset: 0,
            max_description_cols: None,
            notes_nb_width: widest(rows, Column::NotesNb, 0),
        };
        let offset = columns.spec_description_col_offset(
            header.prio,
            header.notes_nb,
            display_empty_cols,
            display_tags,
        );
        DisplayOptions {
            description_offset: clip(offset),
            max_description_cols: match term_width {
                Some(width) => if offset < width {
                    Some((width - offset) as usize)
                } else {
                    None
                },
                None => None,
            },
            ..columns
        }
    }

    /// Computes the layout from the measures of the titles and of the rows.
    pub fn from_measures(
        header: &HeaderMeasure,
        rows: &[RowMeasure],
        display_empty_cols: bool,
        display_tags: bool,
        term_width: Option<usize>,
    ) -> (r: DisplayOptions)
        ensures
            r == Self::laid_out(*header, rows@, display_empty_cols, display_tags, term_width),
    {
        let mut opts = DisplayOptions {
            task_uid_width: header.uid,
            age_width: header.age,
            spent_width: header.spent,
            status_width: header.status,
            description_width: header.description,
            project_width: header.project,
            tags_width: header.tags,
            has_spent_time: false,
            has_priorities: false,
            has_projects: false,
            has_tags: false,
            description_offset: 0,
            max_description_cols: None,
            notes_nb_width: 0,
        };
        let n = rows.len();
        let mut i: usize = 0;
        while i < n
            invariant
                n == rows@.len(),
                i <= n,
                opts.task_uid_width == widest(rows@.take(i as int), Column::Uid, header.uid),
                opts.age_width == widest(rows@.take(i as int), Column::Age, header.age),
                opts.spent_width == widest(rows@.take(i as int), Column::Spent, header.spent),
                opts.status_width == widest(rows@.take(i as int), Column::Status, header.status),
                opts.description_width == widest(
                    rows@.take(i as int),
                    Column::Description,
                    header.description,
                ),
                opts.project_width == widest(rows@.take(i as int), Column::Project, header.project),
                opts.tags_width == widest(rows@.take(i as int), Column::Tags, header.tags),
                opts.notes_nb_width == widest(rows@.take(i as int), Column::NotesNb, 0),
                opts.has_spent_time == any_fills(rows@.take(i as int), OptionalColumn::Spent),
                opts.has_priorities == any_fills(rows@.take(i as int), OptionalColumn::Priority),
                opts.has_projects == any_fills(rows@.take(i as int), OptionalColumn::Project),
                opts.has_tags == any_fills(rows@.take(i as int), OptionalColumn::Tags),
                opts.description_offset == 0,
                opts.max_description_cols is None,
            decreases n - i,
        {
            let row = &rows[i];
            proof {
                let before = rows@.take(i as int);
                let after = rows@.take(i + 1);
                assert(after.drop_last() == before);
                assert(after.last() == *row);
                lemma_any_fills_push(before, *row, OptionalColumn::Spent);
                lemma_any_fills_push(before, *row, OptionalColumn::Priority);
                lemma_any_fills_push(before, *row, OptionalColumn::Project);
                lemma_any_fills_push(before, *row, OptionalColumn::Tags);
                assert(after == before.push(*row));
            }
            if row.task_uid_width > opts.task_uid_width {
                opts.task_uid_width = row.task_uid_width;
            }
            if row.age_width > opts.age_width {
                opts.age_width = row.age_width;
            }
            if row.spent_width > opts.spent_width {
                opts.spent_width = row.spent_width;
            }
            if row.status_width > opts.status_width {
                opts.status_width = row.status_width;
            }
            if row.description_width > opts.description_width {
                opts.description_width = row.description_width;
            }
            if row.project_width > opts.project_width {
                opts.project_width = row.project_width;
            }
            if row.tags_width > opts.tags_width {
                opts.tags_width = row.tags_width;
            }
            if row.notes_nb_width > opts.notes_nb_width {
                opts.notes_nb_width = row.notes_nb_width;
            }
            opts.has_spent_time = opts.has_spent_time || row.has_spent_time;
            opts.has_priorities = opts.has_priorities || row.has_priority;
            opts.has_projects = opts.has_projects || row.has_project;
            opts.has_tags = opts.has_tags || row.has_tags;
            i += 1;
        }
        assert(rows@.take(n as int) == rows@);
        let exact = opts.exact_offset(header.prio, header.notes_nb, display_empty_cols, display_tags);
        opts.description_offset = if exact > usize::MAX as u128 {
            usize::MAX
        } else {
            exact as usize
        };
        opts.max_description_cols = match term_width {
            Some(width) => if exact < width as u128 {
                Some(width - exact as usize)
            } else {
                None
            },
            None => None,
        };
        opts
    }
}

/// `n` when it fits a `usize`, else the greatest `usize`.
pub open spec fn clip(n: int) -> usize {
    if n > usize::MAX {
        usize::MAX
    } else if n < 0 {
        0
    } else {
        n as usize
    }
}

/// Some row of `rows` with one more row has something in a column when some
/// row of `rows` has, or the new row has.
proof fn lemma_any_fills_push(rows: Seq<RowMeasure>, row: RowMeasure, column: OptionalColumn)
    ensures
        any_fills(rows.push(row), column) == (any_fills(rows, column) || row.fills(column)),
{
    let all = rows.push(row);
    if any_fills(rows, column) {
        let i = choose|i: int| 0 <= i < rows.len() && (#[trigger] rows[i]).fills(column);
        assert(all[i].fills(column));
    }
    if row.fills(column) {
        assert(all[rows.len() as int].fills(column));
    }
    if any_fills(all, column) {
        let i = choose|i: int| 0 <= i < all.len() && (#[trigger] all[i]).fills(column);
        if i < rows.len() {
            assert(rows[i].fills(column));
        }
    }
}

/// The name under which the configuration shows `status`.
pub open spec fn spec_status_alias(config: MainConfigView, status: Status) -> Seq<char> {
    match status {
        Status::Todo => config.todo_alias,
        Status::Ongoing => config.wip_alias,
        Status::Done => config.done_alias,
        Status::Cancelled => config.cancelled_alias,
    }
}

/// The name under which the configuration shows `status`.
pub fn status_alias(config: &Config, status: Status) -> (r: &str)
    ensures
        r@ == spec_status_alias(config.main@, status),
{
    match status {
        Status::Todo => config.main.todo_alias.as_str(),
        Status::Ongoing => config.main.wip_alias.as_str(),
        Status::Done => config.main.done_alias.as_str(),
        Status::Cancelled => config.main.cancelled_alias.as_str(),
    }
}

/// The tags of a task as listings show them: one after the other, `, ` between.
pub open spec fn tags_text(h: Seq<crate::task::EventView>) -> Seq<char> {
    join(tags_of(h), ", "@)
}

/// Width of the number of notes: zero for no notes.
pub open spec fn notes_width(count: nat) -> nat {
    if count == 0 {
        0
    } else {
        decimal(count).len()
    }
}

/// What the row of `task`, registered under `uid`, asks of each column at the
/// moment `now`.
pub open spec fn measured(
    uid: UID,
    task: TaskView,
    config: MainConfigView,
    now: Timestamp,
) -> RowMeasure {
    let h = task.history;
    let status_cols = columns(spec_status_alias(config, status_of(h)));
    RowMeasure {
        task_uid_width: decimal(uid.0 as nat).len() as usize,
        age_width: duration_text(age_of(h, now)).len() as usize,
        spent_width: duration_text(spent_time_of(h, now)).len() as usize,
        status_width: if status_cols > 6 {
            status_cols as usize
        } else {
            6
        },
        description_width: columns(task.name) as usize,
        project_width: match project_of(h) {
            Some(name) => columns(name) as usize,
            None => 0,
        },
        tags_width: columns(tags_text(h)) as usize,
        has_spent_time: spent_time_of(h, now) != 0,
        has_priority: priority_of(h) is Some,
        has_project: project_of(h) is Some,
        has_tags: tags_of(h).len() > 0,
        notes_nb_width: notes_width(notes_of(h).len()) as usize,
    }
}

/// The widths of the titles that `config` gives the columns.
pub open spec fn spec_header(config: MainConfigView) -> HeaderMeasure {
    HeaderMeasure {
        uid: columns(config.uid_col_name) as usize,
        age: columns(config.age_col_name) as usize,
        spent: columns(config.spent_col_name) as usize,
        prio: columns(config.prio_col_name) as usize,
        project: columns(config.project_col_name) as usize,
        tags: columns(config.tags_col_name) as usize,
        notes_nb: columns(config.notes_nb_col_name) as usize,
        status: columns(config.status_col_name) as usize,
        description: columns(config.description_col_name) as usize,
    }
}

/// What the rows of `tasks` ask of each column at the moment `now`.
pub open spec fn measures(
    tasks: Seq<(UID, &Task)>,
    config: MainConfigView,
    now: Timestamp,
) -> Seq<RowMeasure> {
    Seq::new(tasks.len(), |i: int| measured(tasks[i].0, tasks[i].1@, config, now))
}

/// `parts` written one after the other with `sep` between neighbours.
pub fn join_strs(parts: &[&str], sep: &str) -> (r: String)
    ensures
        r@ == join(slice_texts(parts@), sep@),
{
    let mut out = String::new();
    let n = parts.len();
    let mut i: usize = 0;
    while i < n
        invariant
            n == parts@.len(),
            i <= n,
            out@ == join(slice_texts(parts@).take(i as int), sep@),
        decreases n - i,
    {
        let ghost all = slice_texts(parts@);
        proof {
            assert(all.take(i + 1).drop_last() == all.take(i as int));
            assert(all.take(i + 1).last() == parts@[i as int]@);
        }
        if i > 0 {
            out.append(sep);
        }
        out.append(parts[i]);
        proof {
            if i == 0 {
                assert(out@ == parts@[0]@);
            }
        }
        i += 1;
    }
    assert(slice_texts(parts@).take(n as int) == slice_texts(parts@));
    out
}

/// The tags of `task` as listings show them: one after the other, `, ` between.
pub fn friendly_tags(task: &Task) -> (r: String)
    ensures
        r@ == tags_text(task@.history),
{
    let tags = task.tags();
    join_strs(tags.as_slice(), ", ")
}

/// Guesses the width needed to show the identifier `uid`.
pub fn guess_task_uid_width(uid: UID) -> (w: usize)
    ensures
        w == decimal(uid.0 as nat).len(),
{
    decimal_width(uid.0 as u128)
}

/// Guesses the width of the status column for a task in `status`: the width of
/// the status name, and six at least.
pub fn guess_task_status_width(config: &Config, status: Status) -> (w: usize)
    ensures
        w == if columns(spec_status_alias(config.main@, status)) > 6 {
            columns(spec_status_alias(config.main@, status))
        } else {
            6
        },
{
    let width = str_columns(status_alias(config, status));
    if width > 6 {
        width
    } else {
        6
    }
}

/// Guesses the width of the project name of `task`, if it has a project.
pub fn guess_task_project_width(task: &Task) -> (w: Option<usize>)
    ensures
        match project_of(task@.history) {
            Some(name) => w == Some(columns(name) as usize) && columns(name) <= usize::MAX,
            None => w is None,
        },
{
    match task.project() {
        Some(name) => Some(str_columns(name)),
        None => None,
    }
}

/// Guesses the width needed to show the tags of `task`.
pub fn guess_tags_width(task: &Task) -> (w: usize)
    ensures
        w == columns(tags_text(task@.history)),
{
    let text = friendly_tags(task);
    str_columns(text.as_str())
}

/// Guesses the width needed to show how many notes a task has, given their
/// number: nothing when there are none.
pub fn guess_notes_width(count: usize) -> (w: usize)
    ensures
        w == notes_width(count as nat),
{
    if count == 0 {
        0
    } else {
        guess_number_width(count)
    }
}

/// Measures the titles that `config` gives the columns.
pub fn measure_header(config: &Config) -> (r: HeaderMeasure)
    ensures
        r == spec_header(config.main@),
{
    HeaderMeasure {
        uid: str_columns(config.main.uid_col_name.as_str()),
        age: str_columns(config.main.age_col_name.as_str()),
        spent: str_columns(config.main.spent_col_name.as_str()),
        prio: str_columns(config.main.prio_col_name.as_str()),
        project: str_columns(config.main.project_col_name.as_str()),
        tags: str_columns(config.main.tags_col_name.as_str()),
        notes_nb: str_columns(config.main.notes_nb_col_name.as_str()),
        status: str_columns(config.main.status_col_name.as_str()),
        description: str_columns(config.main.description_col_name.as_str()),
    }
}

/// Measures what the row of `task`, registered under `uid`, asks of each column
/// at the moment `now`.
pub fn measure_row(uid: UID, task: &Task, config: &Config, now: &Timestamp) -> (r: RowMeasure)
    ensures
        r == measured(uid, task@, config.main@, *now),
{
    let spent = task.spent_time_at(now);
    let age = task.age_at(now);
    let project = guess_task_project_width(task);
    let tags = task.tags();
    RowMeasure {
        task_uid_width: guess_task_uid_width(uid),
        age_width: guess_duration_width(&age),
        spent_width: guess_duration_width(&spent),
        status_width: guess_task_status_width(config, task.status()),
        description_width: str_columns(task.name()),
        project_width: match project {
            Some(width) => width,
            None => 0,
        },
        tags_width: guess_tags_width(task),
        has_spent_time: !spent.is_zero(),
        has_priority: task.priority().is_some(),
        has_project: project.is_some(),
        has_tags: tags.len() > 0,
        notes_nb_width: guess_notes_width(task.note_count()),
    }
}

impl DisplayOptions {
    /// The layout of a listing of `tasks` at the moment `now`, on a terminal
    /// `term_width` columns wide.
    pub fn for_tasks(
        config: &Config,
        term_width: Option<usize>,
        tasks: &[(UID, &Task)],
        now: &Timestamp,
    ) -> (r: DisplayOptions)
        ensures
            r == Self::laid_out(
                spec_header(config.main@),
                measures(tasks@, config.main@, *now),
                config.main.display_empty_cols,
                config.main.display_tags_listings,
                term_width,
            ),
    {
        let header = measure_header(config);
        let mut rows: Vec<RowMeasure> = Vec::new();
        let n = tasks.len();
        let mut i: usize = 0;
        while i < n
            invariant
                n == tasks@.len(),
                i <= n,
                rows@ == measures(tasks@, config.main@, *now).take(i as int),
            decreases n - i,
        {
            let row = measure_row(tasks[i].0, tasks[i].1, config, now);
            rows.push(row);
            i += 1;
        }
        assert(rows@ == measures(tasks@, config.main@, *now));
        Self::from_measures(
            &header,
            rows.as_slice(),
            config.main.display_empty_cols,
            config.main.display_tags_listings,
            term_width,
        )
    }

    /// The layout of a listing of `tasks` on the terminal `term`, with ages and
    /// spent times read at the moment the system clock shows: `for_tasks` at some
    /// moment, for the width that `term` reports.
    pub fn new<T: Terminal>(config: &Config, term: &T, tasks: &[(UID, &Task)]) -> (r:
        DisplayOptions)
        ensures
            exists|moment: Timestamp, term_width: Option<usize>|
                r == Self::laid_out(
                    spec_header(config.main@),
                    measures(tasks@, config.main@, moment),
                    config.main.display_empty_cols,
                    config.main.display_tags_listings,
                    term_width,
                ),
    {
        let term_width = match term.dimensions() {
            Some(dimensions) => Some(dimensions[0]),
            None => None,
        };
        let moment = now();
        Self::for_tasks(config, term_width, tasks, &moment)
    }

    /// Guesses the column at which descriptions start, for the titles that
    /// `config` gives the columns; `usize::MAX` when it lies beyond.
    pub fn guess_description_col_offset(&self, config: &Config) -> (r: usize)
        ensures
            r == clip(
                self.spec_description_col_offset(
                    spec_header(config.main@).prio,
                    spec_header(config.main@).notes_nb,
                    config.main.display_empty_cols,
                    config.main.display_tags_listings,
                ),
            ),
    {
        self.description_col_offset(
            str_columns(config.main.prio_col_name.as_str()),
            str_columns(config.main.notes_nb_col_name.as_str()),
            config.main.display_empty_cols,
            config.main.display_tags_listings,
        )
    }
}

/// Where the wrapping of a description stands after some of its words.
pub struct WrapState {
    /// The lines that are full.
    pub lines: Seq<Seq<char>>,
    /// The line being filled.
    pub buffer: Seq<char>,
    /// Columns used on the line being filled, counting one blank after each word.
    pub offset: int,
    /// How many lines are full.
    pub line_index: int,
    /// Whether the description was cut short.
    pub stopped: bool,
}

/// The state after one more word, `width` columns wide, on lines of
/// `description_width` columns, `max_lines` of them at most.
///
/// A word that fits goes on the line being filled, after a blank unless it is
/// the first. A word that does not fit starts a new line; when no line may be
/// started, an ellipsis goes on the line being filled and the rest of the
/// description is dropped.
pub open spec fn wrap_step(
    state: WrapState,
    word: Seq<char>,
    width: int,
    description_width: int,
    max_lines: int,
) -> WrapState {
    if state.stopped {
        state
    } else if state.offset + width + 1 > description_width {
        if state.line_index + 1 >= max_lines {
            WrapState {
                buffer: state.buffer.push('…'),
                line_index: state.line_index + 1,
                stopped: true,
                ..state
            }
        } else {
            WrapState {
                lines: state.lines.push(state.buffer),
                buffer: word,
                offset: width + 1,
                line_index: state.line_index + 1,
                stopped: false,
            }
        }
    } else {
        WrapState {
            buffer: if state.offset > 0 {
                state.buffer + seq![' '] + word
            } else {
                state.buffer + word
            },
            offset: state.offset + width + 1,
            ..state
        }
    }
}

/// The state after all of `words`, each given with its width.
pub open spec fn wrap_state(
    words: Seq<(Seq<char>, int)>,
    description_width: int,
    max_lines: int,
) -> WrapState
    decreases words.len(),
{
    if words.len() == 0 {
        WrapState {
            lines: Seq::empty(),
            buffer: Seq::empty(),
            offset: 0,
            line_index: 0,
            stopped: false,
        }
    } else {
        wrap_step(
            wrap_state(words.drop_last(), description_width, max_lines),
            words.last().0,
            words.last().1,
            description_width,
            max_lines,
        )
    }
}

/// The lines that `words`, each given with its width, are laid out on.
pub open spec fn wrapped(
    words: Seq<(Seq<char>, int)>,
    description_width: int,
    max_lines: int,
) -> Seq<Seq<char>> {
    let state = wrap_state(words, description_width, max_lines);
    state.lines.push(state.buffer)
}

/// Words with their widths, as held by a sequence of measured strings.
pub open spec fn measured_words(v: Seq<(String, usize)>) -> Seq<(Seq<char>, int)> {
    Seq::new(v.len(), |i: int| (v[i].0@, v[i].1 as int))
}

/// The words of `description`, each with the columns it takes.
pub open spec fn words_with_columns(description: Seq<char>) -> Seq<(Seq<char>, int)> {
    Seq::new(
        words(description).len(),
        |i: int| (words(description)[i], columns(words(description)[i]) as int),
    )
}

/// Lays out words of known width on lines of `description_width` columns,
/// `max_lines` of them at most.
pub fn wrap_words(words: &[(String, usize)], description_width: usize, max_lines: usize) -> (r:
    Vec<String>)
    ensures
        texts(r@) == wrapped(measured_words(words@), description_width as int, max_lines as int),
{
    let ghost all = measured_words(words@);
    let mut lines: Vec<String> = Vec::new();
    let mut buffer = String::new();
    let mut offset: u128 = 0;
    let mut line_index: usize = 0;
    let mut stopped = false;
    let n = words.len();
    let mut i: usize = 0;
    proof {
        reveal_strlit(" ");
        reveal_strlit("…");
        assert(" "@ == seq![' ']);
        assert("…"@ == seq!['…']);
    }
    while i < n
        invariant
            n == words@.len(),
            i <= n,
            all == measured_words(words@),
            " "@ == seq![' '],
            "…"@ == seq!['…'],
            line_index <= i,
            offset <= description_width || offset <= usize::MAX + 1,
            ({
                let state = wrap_state(
                    all.take(i as int),
                    description_width as int,
                    max_lines as int,
                );
                &&& state.lines == texts(lines@)
                &&& state.buffer == buffer@
                &&& state.offset == offset
                &&& state.line_index == line_index
                &&& state.stopped == stopped
            }),
        decreases n - i,
    {
        proof {
            assert(all.take(i + 1).drop_last() == all.take(i as int));
            assert(all.take(i + 1).last() == (words@[i as int].0@, words@[i as int].1 as int));
        }
        if !stopped {
            let size: u128 = words[i].1 as u128 + 1;
            if offset + size > description_width as u128 {
                line_index += 1;
                if line_index >= max_lines {
                    let ghost line = buffer@;
                    buffer.append("…");
                    stopped = true;
                    assert(buffer@ =~= line.push('…'));
                } else {
                    let ghost before = lines@;
                    lines.push(buffer);
                    assert(texts(lines@) =~= texts(before).push(buffer@));
                    buffer = words[i].0.clone();
                    offset = size;
                }
            } else {
                if offset > 0 {
                    buffer.append(" ");
                }
                buffer.append(words[i].0.as_str());
                offset = offset + size;
            }
        }
        i += 1;
    }
    assert(all.take(n as int) == all);
    let ghost before = lines@;
    lines.push(buffer);
    assert(texts(lines@) =~= texts(before).push(buffer@));
    lines
}

/// Splits `description` into words and measures each.
pub fn measure_words(description: &str) -> (r: Vec<(String, usize)>)
    ensures
        measured_words(r@) == words_with_columns(description@),
{
    let ws = split_words(description);
    let mut out: Vec<(String, usize)> = Vec::new();
    let n = ws.len();
    let mut i: usize = 0;
    while i < n
        invariant
            n == ws@.len(),
            i <= n,
            texts(ws@) == words(description@),
            measured_words(out@) == words_with_columns(description@).take(i as int),
        decreases n - i,
    {
        let width = str_columns(ws[i].as_str());
        let ghost before = out@;
        assert(texts(ws@)[i as int] == ws@[i as int]@);
        out.push((ws[i].clone(), width));
        assert(measured_words(out@) =~= measured_words(before).push(
            (ws@[i as int]@, width as int),
        ));
        assert(words_with_columns(description@).take(i + 1) =~= words_with_columns(
            description@,
        ).take(i as int).push((ws@[i as int]@, width as int)));
        i += 1;
    }
    assert(words_with_columns(description@).take(n as int) == words_with_columns(description@));
    out
}

/// The lines on which a listing shows `description`: lines as wide as the
/// widest description, or as the room the terminal leaves if that is less, and
/// `max_description_lines` of them at most. `None` when the layout leaves no room
/// for descriptions.
pub fn description_lines(opts: &DisplayOptions, config: &Config, description: &str) -> (r: Option<
    Vec<String>,
>)
    ensures
        match r {
            Some(lines) => opts.max_description_cols is Some && texts(lines@) == wrapped(
                words_with_columns(description@),
                spec_line_width(*opts),
                config.main.max_description_lines as int,
            ),
            None => opts.max_description_cols is None,
        },
{
    match opts.max_description_cols {
        Some(max_cols) => {
            let width = if opts.description_width < max_cols {
                opts.description_width
            } else {
                max_cols
            };
            let words = measure_words(description);
            Some(wrap_words(words.as_slice(), width, config.main.max_description_lines))
        },
        None => None,
    }
}

/// The width of the lines that descriptions are wrapped to: the width of the
/// widest description, or the room the terminal leaves if that is less.
pub open spec fn spec_line_width(opts: DisplayOptions) -> int {
    match opts.max_description_cols {
        Some(max_cols) => if opts.description_width < max_cols {
            opts.description_width as int
        } else {
            max_cols as int
        },
        None => 0,
    }
}

/// Whether every word of `ws` comes with the columns it takes and leaves room
/// for a blank on a line of `description_width` columns.
pub open spec fn words_fit(ws: Seq<(Seq<char>, int)>, description_width: int) -> bool {
    forall|i: int|
        0 <= i < ws.len() ==> (#[trigger] ws[i]).1 == columns(ws[i].0) && ws[i].1 + 1
            <= description_width
}

/// What holds of the state of wrapping as long as every word fits.
spec fn wrap_bounded(state: WrapState, description_width: int) -> bool {
    &&& forall|j: int|
        0 <= j < state.lines.len() ==> columns(#[trigger] state.lines[j]) <= description_width
    &&& columns(state.buffer) <= description_width
    &&& !state.stopped ==> {
        ||| state.offset == 0 && state.buffer.len() == 0
        ||| state.offset == columns(state.buffer) + 1 && state.offset <= description_width
    }
}

/// As long as every word fits, no line grows wider than the description column.
proof fn lemma_wrap_state_bounded(
    ws: Seq<(Seq<char>, int)>,
    description_width: int,
    max_lines: int,
)
    requires
        0 <= description_width,
        words_fit(ws, description_width),
    ensures
        wrap_bounded(wrap_state(ws, description_width, max_lines), description_width),
    decreases ws.len(),
{
    if ws.len() == 0 {
        assert(columns(Seq::<char>::empty()) == 0);
    } else {
        let rest = ws.drop_last();
        assert forall|i: int| 0 <= i < rest.len() implies (#[trigger] rest[i]).1 == columns(
            rest[i].0,
        ) && rest[i].1 + 1 <= description_width by {
            assert(rest[i] == ws[i]);
        }
        lemma_wrap_state_bounded(rest, description_width, max_lines);
        let state = wrap_state(rest, description_width, max_lines);
        let (word, width) = ws.last();
        assert(ws[ws.len() - 1].1 == columns(ws[ws.len() - 1].0));
        let next = wrap_step(state, word, width, description_width, max_lines);
        assert(wrap_state(ws, description_width, max_lines) == next);
        if !state.stopped {
            if state.offset + width + 1 > description_width {
                if state.line_index + 1 >= max_lines {
                    assert(state.buffer.push('…').drop_last() == state.buffer);
                    assert(state.buffer.push('…').last() == '…');
                    assert(columns_of_char('…') == 1);
                } else {
                    assert forall|j: int| 0 <= j < next.lines.len() implies columns(
                        #[trigger] next.lines[j],
                    ) <= description_width by {
                        if j < state.lines.len() {
                            assert(next.lines[j] == state.lines[j]);
                        } else {
                            assert(next.lines[j] == state.buffer);
                        }
                    }
                }
            } else {
                if state.offset > 0 {
                    lemma_columns_concat(state.buffer, seq![' ']);
                    lemma_columns_concat(state.buffer + seq![' '], word);
                    assert(seq![' '].drop_last() == Seq::<char>::empty());
                    assert(seq![' '].last() == ' ');
                    assert(columns_of_char(' ') == 1);
                    assert(columns(Seq::<char>::empty()) == 0);
                    assert(columns(seq![' ']) == 1);
                } else {
                    assert(state.buffer + word == word);
                }
            }
        }
    }
}

/// No line of a wrapped description is wider than the description column, as
/// long as every word, with one blank after it, fits the column.
pub proof fn lemma_wrapped_fits(
    ws: Seq<(Seq<char>, int)>,
    description_width: int,
    max_lines: int,
)
    requires
        0 <= description_width,
        words_fit(ws, description_width),
    ensures
        forall|j: int|
            0 <= j < wrapped(ws, description_width, max_lines).len() ==> columns(
                #[trigger] wrapped(ws, description_width, max_lines)[j],
            ) <= description_width,
{
    lemma_wrap_state_bounded(ws, description_width, max_lines);
    let state = wrap_state(ws, description_width, max_lines);
    let lines = wrapped(ws, description_width, max_lines);
    assert forall|j: int| 0 <= j < lines.len() implies columns(#[trigger] lines[j])
        <= description_width by {
        if j < state.lines.len() {
            assert(lines[j] == state.lines[j]);
        }
    }
}

/// The texts of words given with their widths.
pub open spec fn word_texts(ws: Seq<(Seq<char>, int)>) -> Seq<Seq<char>> {
    Seq::new(ws.len(), |i: int| ws[i].0)
}

/// What holds of the state of wrapping as long as every word fits and the
/// description is not cut short: the lines read as the words do.
spec fn wrap_keeps(ws: Seq<(Seq<char>, int)>, state: WrapState) -> bool {
    !state.stopped ==> {
        &&& join(state.lines.push(state.buffer), seq![' ']) == join(word_texts(ws), seq![' '])
        &&& state.offset >= 0
        &&& (state.offset == 0 <==> ws.len() == 0)
        &&& ws.len() == 0 ==> state.lines.len() == 0 && state.buffer.len() == 0
    }
}

proof fn lemma_wrap_state_keeps(ws: Seq<(Seq<char>, int)>, description_width: int, max_lines: int)
    requires
        0 <= description_width,
        words_fit(ws, description_width),
    ensures
        wrap_keeps(ws, wrap_state(ws, description_width, max_lines)),
    decreases ws.len(),
{
    let blank = seq![' '];
    if ws.len() == 0 {
        assert(Seq::<Seq<char>>::empty().push(Seq::<char>::empty()).len() == 1);
        assert(join(seq![Seq::<char>::empty()], blank) == Seq::<char>::empty());
        assert(Seq::<Seq<char>>::empty().push(Seq::<char>::empty()) == seq![Seq::<char>::empty()]);
        assert(word_texts(ws) =~= Seq::<Seq<char>>::empty());
    } else {
        let rest = ws.drop_last();
        assert forall|i: int| 0 <= i < rest.len() implies (#[trigger] rest[i]).1 == columns(
            rest[i].0,
        ) && rest[i].1 + 1 <= description_width by {
            assert(rest[i] == ws[i]);
        }
        lemma_wrap_state_keeps(rest, description_width, max_lines);
        let state = wrap_state(rest, description_width, max_lines);
        let (word, width) = ws.last();
        assert(ws[ws.len() - 1].1 == columns(ws[ws.len() - 1].0));
        let next = wrap_step(state, word, width, description_width, max_lines);
        assert(wrap_state(ws, description_width, max_lines) == next);
        assert(word_texts(ws).drop_last() =~= word_texts(rest));
        assert(word_texts(ws).last() == word);
        if !next.stopped {
            let before = state.lines.push(state.buffer);
            let after = next.lines.push(next.buffer);
            if state.offset + width + 1 > description_width {
                assert(after.drop_last() == before);
                assert(after.last() == word);
            } else if state.offset > 0 {
                assert(after.last() == state.buffer + blank + word);
                assert(after.drop_last() == state.lines);
                assert(before.drop_last() == state.lines);
                if state.lines.len() == 0 {
                    assert(join(before, blank) == state.buffer);
                    assert(join(after, blank) == state.buffer + blank + word);
                } else {
                    assert(join(after, blank) == join(state.lines, blank) + blank + (state.buffer
                        + blank + word));
                    assert(join(before, blank) == join(state.lines, blank) + blank + state.buffer);
                    assert(join(state.lines, blank) + blank + (state.buffer + blank + word)
                        =~= join(state.lines, blank) + blank + state.buffer + blank + word);
                }
            } else {
                assert(state.buffer + word == word);
                assert(after =~= seq![word]);
                assert(word_texts(ws) =~= seq![word]);
            }
        }
    }
}

/// Wrapping changes nothing but the white space between words: as long as
/// every word fits and the description is not cut short, the lines joined by
/// blanks read as the words joined by blanks.
pub proof fn lemma_wrapped_keeps_words(
    ws: Seq<(Seq<char>, int)>,
    description_width: int,
    max_lines: int,
)
    requires
        0 <= description_width,
        words_fit(ws, description_width),
    ensures
        !wrap_state(ws, description_width, max_lines).stopped ==> join(
            wrapped(ws, description_width, max_lines),
            seq![' '],
        ) == join(word_texts(ws), seq![' ']),
{
    lemma_wrap_state_keeps(ws, description_width, max_lines);
}

} // verus!
