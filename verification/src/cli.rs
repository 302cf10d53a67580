//! What the commands decide and compute, apart from printing and storage.

use crate::config::Config;
use crate::display::{
    duration_text, friendly_duration, friendly_tags, spec_status_alias, status_alias, tags_text,
    DisplayOptions,
};
use crate::filter::{distinct_terms, TaskDescriptionFilter};
use crate::metadata::{
    all_words, annotations, metadata_views, plain_words, slice_texts, validation, Metadata,
    MetadataValidationError, MetadataView, Priority,
};
use crate::task::{
    age_of, fresh_history, metadata_events, notes_of, priority_of, project_of, spent_time_of,
    status_of, Error, EventView, Status, Task, TaskManager, TaskView, UID,
};
use crate::text::{
    columns, decimal, decimal_string, find, first_occurrence, is_blank, is_blank_text, join,
    split_words, str_columns, texts, trimmed, words,
};
use crate::time::{date_text, date_time_to_string, now, Duration, Timestamp};
use vstd::prelude::*;
use vstd::string::*;

verus! {

/// The annotations found in the words of `content`.
pub open spec fn content_metadata(content: Seq<Seq<char>>) -> Seq<MetadataView> {
    annotations(all_words(content))
}

/// The words of `content` that are no annotation, joined by single blanks.
pub open spec fn content_name(content: Seq<Seq<char>>) -> Seq<char> {
    join(plain_words(all_words(content)), seq![' '])
}

/// The status change that follows the creation of a task: into `Ongoing` for
/// `start`, else into `Done` for `done`, else none.
pub open spec fn first_status_change(start: bool, done: bool, date: Timestamp) -> Seq<EventView> {
    if start {
        seq![EventView::StatusChanged { event_date: date, status: Status::Ongoing }]
    } else if done {
        seq![EventView::StatusChanged { event_date: date, status: Status::Done }]
    } else {
        Seq::empty()
    }
}

/// The task that `content` describes, created at `date`.
pub open spec fn described_task(
    content: Seq<Seq<char>>,
    start: bool,
    done: bool,
    date: Timestamp,
) -> TaskView {
    TaskView {
        name: content_name(content),
        history: fresh_history(date) + metadata_events(content_metadata(content), date)
            + first_status_change(start, done, date),
    }
}

/// Creates at `date` the task that `content` describes and registers it.
///
/// The annotations among the words of `content` become the task's project,
/// priority and tags; the other words are its name. With `start` the task is
/// `Ongoing` at once, else with `done` it is `Done`. Nothing is registered when
/// the annotations name more than one project or more than one priority.
pub fn add_task_at(
    task_mgr: &mut TaskManager,
    start: bool,
    done: bool,
    content: &[&str],
    date: Timestamp,
) -> (r: Result<UID, MetadataValidationError>)
    requires
        old(task_mgr)@.wf(),
        old(task_mgr)@.next_uid.0 < u32::MAX,
    ensures
        final(task_mgr)@.wf(),
        match r {
            Ok(uid) => {
                &&& validation(content_metadata(slice_texts(content@))) is Ok
                &&& uid == old(task_mgr)@.next_uid
                &&& final(task_mgr)@.next_uid == UID((uid.0 + 1) as u32)
                &&& final(task_mgr)@.tasks == old(task_mgr)@.tasks.push(
                    (uid, described_task(slice_texts(content@), start, done, date)),
                )
            },
            Err(e) => {
                &&& validation(content_metadata(slice_texts(content@))) == Err::<
                    (),
                    MetadataValidationError,
                >(e)
                &&& final(task_mgr)@ == old(task_mgr)@
            },
        },
{
    let (metadata, name) = Metadata::from_words(content);
    match Metadata::validate(metadata.as_slice()) {
        Ok(()) => {},
        Err(e) => {
            return Err(e);
        },
    }
    let mut task = Task::new_at(name.as_str(), date);
    task.apply_metadata_at(metadata.as_slice(), date);
    if start {
        task.change_status_at(Status::Ongoing, date);
    } else if done {
        task.change_status_at(Status::Done, date);
    }
    proof {
        let target = described_task(slice_texts(content@), start, done, date);
        assert(task@.history =~= target.history);
    }
    Ok(task_mgr.register_task(task))
}

/// Creates the task that `content` describes, dated by the system clock, and
/// registers it: `add_task_at` of some moment.
pub fn add_task(task_mgr: &mut TaskManager, start: bool, done: bool, content: &[&str]) -> (r:
    Result<UID, MetadataValidationError>)
    requires
        old(task_mgr)@.wf(),
        old(task_mgr)@.next_uid.0 < u32::MAX,
    ensures
        final(task_mgr)@.wf(),
        match r {
            Ok(uid) => {
                &&& validation(content_metadata(slice_texts(content@))) is Ok
                &&& uid == old(task_mgr)@.next_uid
                &&& final(task_mgr)@.next_uid == UID((uid.0 + 1) as u32)
                &&& exists|moment: Timestamp|
                    final(task_mgr)@.tasks == old(task_mgr)@.tasks.push(
                        (uid, described_task(slice_texts(content@), start, done, moment)),
                    )
            },
            Err(e) => {
                &&& validation(content_metadata(slice_texts(content@))) == Err::<
                    (),
                    MetadataValidationError,
                >(e)
                &&& final(task_mgr)@ == old(task_mgr)@
            },
        },
{
    let moment = now();
    add_task_at(task_mgr, start, done, content, moment)
}

/// Changes `task` at `date` as `content` says: its annotations are recorded,
/// and its other words, if there are any, become the new name. Nothing changes
/// when the annotations name more than one project or more than one priority.
pub fn edit_task_at(task: &mut Task, content: &[&str], date: Timestamp) -> (r: Result<
    (),
    MetadataValidationError,
>)
    ensures
        match r {
            Ok(()) => {
                &&& validation(content_metadata(slice_texts(content@))) is Ok
                &&& final(task)@.history == old(task)@.history + metadata_events(
                    content_metadata(slice_texts(content@)),
                    date,
                )
                &&& final(task)@.name == if content_name(slice_texts(content@)).len() > 0 {
                    content_name(slice_texts(content@))
                } else {
                    old(task)@.name
                }
            },
            Err(e) => {
                &&& validation(content_metadata(slice_texts(content@))) == Err::<
                    (),
                    MetadataValidationError,
                >(e)
                &&& final(task)@ == old(task)@
            },
        },
{
    let (metadata, name) = Metadata::from_words(content);
    match Metadata::validate(metadata.as_slice()) {
        Ok(()) => {},
        Err(e) => {
            return Err(e);
        },
    }
    task.apply_metadata_at(metadata.as_slice(), date);
    if name.as_str().unicode_len() > 0 {
        task.change_name(name.as_str());
    }
    Ok(())
}

/// Changes `task` as `content` says, dated by the system clock: `edit_task_at`
/// of some moment.
pub fn edit_task(task: &mut Task, content: &[&str]) -> (r: Result<(), MetadataValidationError>)
    ensures
        match r {
            Ok(()) => {
                &&& validation(content_metadata(slice_texts(content@))) is Ok
                &&& exists|moment: Timestamp|
                    final(task)@.history == old(task)@.history + metadata_events(
                        content_metadata(slice_texts(content@)),
                        moment,
                    )
                &&& final(task)@.name == if content_name(slice_texts(content@)).len() > 0 {
                    content_name(slice_texts(content@))
                } else {
                    old(task)@.name
                }
            },
            Err(e) => {
                &&& validation(content_metadata(slice_texts(content@))) == Err::<
                    (),
                    MetadataValidationError,
                >(e)
                &&& final(task)@ == old(task)@
            },
        },
{
    let moment = now();
    edit_task_at(task, content, moment)
}

/// Which statuses a listing shows.
#[derive(Clone, Copy, Debug, PartialEq, Eq, Structural)]
pub struct StatusFlags {
    pub todo: bool,
    pub start: bool,
    pub cancelled: bool,
    pub done: bool,
}

/// The statuses to list for the flags a user gave: all four for `all`; the
/// active ones, `Todo` and `Ongoing`, when no flag is set; else the ones whose
/// flag is set.
pub fn active_status_flags(todo: bool, start: bool, cancelled: bool, done: bool, all: bool) -> (r:
    StatusFlags)
    ensures
        r == if all {
            StatusFlags { todo: true, start: true, cancelled: true, done: true }
        } else if !(todo || start || done || cancelled) {
            StatusFlags { todo: true, start: true, cancelled: false, done: false }
        } else {
            StatusFlags { todo, start, cancelled, done }
        },
{
    if all {
        StatusFlags { todo: true, start: true, cancelled: true, done: true }
    } else if !(todo || start || done || cancelled) {
        StatusFlags { todo: true, start: true, cancelled: false, done: false }
    } else {
        StatusFlags { todo, start, cancelled, done }
    }
}

/// Reads what a listing is asked to show from the words a user gave: the
/// annotations are the criteria, the other words are what descriptions must
/// contain. Fails when the annotations name more than one project or more than
/// one priority.
pub fn extract_filters(metadata_filter: &[&str], case_insensitive: bool) -> (r: Result<
    (Vec<Metadata>, TaskDescriptionFilter),
    MetadataValidationError,
>)
    ensures
        match r {
            Ok((metadata, name_filter)) => {
                &&& validation(content_metadata(slice_texts(metadata_filter@))) is Ok
                &&& metadata_views(metadata@) == content_metadata(slice_texts(metadata_filter@))
                &&& name_filter@.case_insensitive == case_insensitive
                &&& name_filter@.terms == distinct_terms(
                    words(content_name(slice_texts(metadata_filter@))),
                    case_insensitive,
                )
            },
            Err(e) => validation(content_metadata(slice_texts(metadata_filter@))) == Err::<
                (),
                MetadataValidationError,
            >(e),
        },
{
    let (metadata, name) = Metadata::from_words(metadata_filter);
    match Metadata::validate(metadata.as_slice()) {
        Ok(()) => {},
        Err(e) => {
            return Err(e);
        },
    }
    let name_words = split_words(name.as_str());
    let mut terms: Vec<&str> = Vec::new();
    let n = name_words.len();
    let mut i: usize = 0;
    while i < n
        invariant
            n == name_words@.len(),
            i <= n,
            slice_texts(terms@) == texts(name_words@).take(i as int),
        decreases n - i,
    {
        let ghost before = terms@;
        terms.push(name_words[i].as_str());
        assert(slice_texts(terms@) =~= slice_texts(before).push(name_words@[i as int]@));
        assert(texts(name_words@).take(i + 1) =~= texts(name_words@).take(i as int).push(
            name_words@[i as int]@,
        ));
        i += 1;
    }
    assert(texts(name_words@).take(n as int) == texts(name_words@));
    let name_filter = TaskDescriptionFilter::new(terms.as_slice(), case_insensitive);
    Ok((metadata, name_filter))
}

/// The name a priority is listed under.
pub open spec fn priority_label(priority: Priority) -> Seq<char> {
    match priority {
        Priority::Low => "LOW"@,
        Priority::Medium => "MED"@,
        Priority::High => "HIGH"@,
        Priority::Critical => "CRIT"@,
    }
}

/// The name a priority is listed under.
pub fn friendly_priority(priority: Priority) -> (r: &'static str)
    ensures
        r@ == priority_label(priority),
{
    match priority {
        Priority::Low => "LOW",
        Priority::Medium => "MED",
        Priority::High => "HIGH",
        Priority::Critical => "CRIT",
    }
}

/// The time spent as listings show it: nothing at all for no time.
pub open spec fn spent_text(nanos: int) -> Seq<char> {
    if nanos == 0 {
        Seq::empty()
    } else {
        duration_text(nanos)
    }
}

/// Writes the time spent as listings show it: nothing at all for no time.
pub fn friendly_spent_time(dur: Duration) -> (r: String)
    ensures
        r@ == spent_text(dur.as_nanos()),
{
    if dur.is_zero() {
        String::new()
    } else {
        friendly_duration(dur)
    }
}

/// The number of notes as listings show it: nothing at all for no note.
pub open spec fn notes_text(count: nat) -> Seq<char> {
    if count == 0 {
        Seq::empty()
    } else {
        decimal(count)
    }
}

/// Writes the number of notes as listings show it: nothing at all for no note.
pub fn friendly_notes_nb(count: usize) -> (r: String)
    ensures
        r@ == notes_text(count as nat),
{
    if count == 0 {
        String::new()
    } else {
        decimal_string(count as u128)
    }
}

/// Writes the age of `task` at the moment `now` as listings show it.
pub fn friendly_task_age(task: &Task, now: &Timestamp) -> (r: String)
    ensures
        r@ == duration_text(age_of(task@.history, *now)),
{
    friendly_duration(task.age_at(now))
}

/// The columns of a listing, in the order they are printed.
#[derive(Clone, Copy, Debug, PartialEq, Eq, Structural)]
pub enum ListingColumn {
    Uid,
    Age,
    Spent,
    Priority,
    Project,
    Tags,
    NotesNb,
    Status,
    Description,
}

/// One cell of a listing: what to print, and how many columns to pad it to.
#[derive(Debug, PartialEq, Eq)]
pub struct Cell {
    pub column: ListingColumn,
    pub text: String,
    pub width: usize,
}

/// What a [`Cell`] holds, with its text as a character sequence.
pub struct CellView {
    pub column: ListingColumn,
    pub text: Seq<char>,
    pub width: usize,
}

impl View for Cell {
    type V = CellView;

    open spec fn view(&self) -> CellView {
        CellView { column: self.column, text: self.text@, width: self.width }
    }
}

/// The cells held by a sequence of [`Cell`]s.
pub open spec fn cell_views(v: Seq<Cell>) -> Seq<CellView> {
    Seq::new(v.len(), |i: int| v[i]@)
}

/// `cell` alone when `shown`, else nothing.
pub open spec fn cell_if(shown: bool, cell: CellView) -> Seq<CellView> {
    if shown {
        seq![cell]
    } else {
        Seq::empty()
    }
}

/// The greater of the two.
pub open spec fn larger(a: usize, b: usize) -> usize {
    if a >= b {
        a
    } else {
        b
    }
}

/// The lesser of the two.
pub open spec fn smaller(a: usize, b: usize) -> usize {
    if a <= b {
        a
    } else {
        b
    }
}

/// Width of the cells of the notes column: the width of the widest number of
/// notes, and the length of the title in bytes at least.
pub open spec fn notes_cell_width(config: crate::config::MainConfigView, opts: DisplayOptions) -> usize {
    larger(opts.notes_nb_width, vstd::utf8::encode_utf8(config.notes_nb_col_name).len() as usize)
}

/// The cells of the title line of a listing.
///
/// The identifier and the age are always there. The spent, priority and project
/// columns are there when a task has something in them or empty columns are
/// asked for; the tags column besides only when tags are listed at all. The
/// notes column is there when a task has a note. The status and description
/// titles are there when the layout leaves room for descriptions.
pub open spec fn header_cells(config: crate::config::MainConfigView, opts: DisplayOptions) -> Seq<
    CellView,
> {
    let always = config.display_empty_cols;
    Seq::<CellView>::empty() + cell_if(
        true,
        CellView { column: ListingColumn::Uid, text: config.uid_col_name, width: opts.task_uid_width },
    ) + cell_if(
        true,
        CellView { column: ListingColumn::Age, text: config.age_col_name, width: opts.age_width },
    ) + cell_if(
        always || opts.has_spent_time,
        CellView {
            column: ListingColumn::Spent,
            text: config.spent_col_name,
            width: opts.spent_width,
        },
    ) + cell_if(
        always || opts.has_priorities,
        CellView {
            column: ListingColumn::Priority,
            text: config.prio_col_name,
            width: columns(config.prio_col_name) as usize,
        },
    ) + cell_if(
        always || opts.has_projects,
        CellView {
            column: ListingColumn::Project,
            text: config.project_col_name,
            width: opts.project_width,
        },
    ) + cell_if(
        config.display_tags_listings && (always || opts.has_tags),
        CellView { column: ListingColumn::Tags, text: config.tags_col_name, width: opts.tags_width },
    ) + cell_if(
        opts.notes_nb_width != 0,
        CellView {
            column: ListingColumn::NotesNb,
            text: config.notes_nb_col_name,
            width: notes_cell_width(config, opts),
        },
    ) + cell_if(
        opts.max_description_cols is Some,
        CellView {
            column: ListingColumn::Status,
            text: config.status_col_name,
            width: opts.status_width,
        },
    ) + cell_if(
        opts.max_description_cols is Some,
        CellView {
            column: ListingColumn::Description,
            text: config.description_col_name,
            width: match opts.max_description_cols {
                Some(max_cols) => smaller(opts.description_width, max_cols),
                None => 0,
            },
        },
    )
}

/// The cells of the line of one task, up to its status; the description follows
/// on lines of its own making.
pub open spec fn row_cells(
    uid: UID,
    task: TaskView,
    config: crate::config::MainConfigView,
    opts: DisplayOptions,
    now: Timestamp,
) -> Seq<CellView> {
    let always = config.display_empty_cols;
    let h = task.history;
    Seq::<CellView>::empty() + cell_if(
        true,
        CellView {
            column: ListingColumn::Uid,
            text: decimal(uid.0 as nat),
            width: opts.task_uid_width,
        },
    ) + cell_if(
        true,
        CellView {
            column: ListingColumn::Age,
            text: duration_text(age_of(h, now)),
            width: opts.age_width,
        },
    ) + cell_if(
        always || opts.has_spent_time,
        CellView {
            column: ListingColumn::Spent,
            text: spent_text(spent_time_of(h, now)),
            width: opts.spent_width,
        },
    ) + cell_if(
        always || opts.has_priorities,
        CellView {
            column: ListingColumn::Priority,
            text: match priority_of(h) {
                Some(priority) => priority_label(priority),
                None => Seq::empty(),
            },
            width: columns(config.prio_col_name) as usize,
        },
    ) + cell_if(
        always || opts.has_projects,
        CellView {
            column: ListingColumn::Project,
            text: match project_of(h) {
                Some(name) => name,
                None => Seq::empty(),
            },
            width: opts.project_width,
        },
    ) + cell_if(
        config.display_tags_listings && (always || opts.has_tags),
        CellView { column: ListingColumn::Tags, text: tags_text(h), width: opts.tags_width },
    ) + cell_if(
        opts.notes_nb_width != 0,
        CellView {
            column: ListingColumn::NotesNb,
            text: notes_text(notes_of(h).len()),
            width: notes_cell_width(config, opts),
        },
    ) + cell_if(
        true,
        CellView {
            column: ListingColumn::Status,
            text: spec_status_alias(config, status_of(h)),
            width: opts.status_width,
        },
    )
}

/// Adds a cell to `cells` when `shown`.
fn push_cell_if(cells: &mut Vec<Cell>, shown: bool, column: ListingColumn, text: String, width: usize)
    ensures
        cell_views(final(cells)@) == cell_views(old(cells)@) + cell_if(
            shown,
            CellView { column, text: text@, width },
        ),
{
    let ghost before = cells@;
    if shown {
        let cell = Cell { column, text, width };
        cells.push(cell);
        assert(cell_views(cells@) =~= cell_views(before) + seq![cell@]);
    } else {
        assert(cell_views(before) + Seq::<CellView>::empty() =~= cell_views(before));
    }
}

/// The cells of the title line of a listing laid out as `opts` says.
pub fn display_task_header(config: &Config, opts: &DisplayOptions) -> (r: Vec<Cell>)
    ensures
        cell_views(r@) == header_cells(config.main@, *opts),
{
    let always = config.main.display_empty_cols;
    let prio_width = str_columns(config.main.prio_col_name.as_str());
    let title_len = config.main.notes_nb_col_name.as_str().len();
    let notes_width = if opts.notes_nb_width >= title_len {
        opts.notes_nb_width
    } else {
        title_len
    };
    let mut cells: Vec<Cell> = Vec::new();
    assert(cell_views(cells@) =~= Seq::<CellView>::empty());
    push_cell_if(&mut cells, true, ListingColumn::Uid, config.main.uid_col_name.clone(), opts.task_uid_width);
    push_cell_if(&mut cells, true, ListingColumn::Age, config.main.age_col_name.clone(), opts.age_width);
    push_cell_if(
        &mut cells,
        always || opts.has_spent_time,
        ListingColumn::Spent,
        config.main.spent_col_name.clone(),
        opts.spent_width,
    );
    push_cell_if(
        &mut cells,
        always || opts.has_priorities,
        ListingColumn::Priority,
        config.main.prio_col_name.clone(),
        prio_width,
    );
    push_cell_if(
        &mut cells,
        always || opts.has_projects,
        ListingColumn::Project,
        config.main.project_col_name.clone(),
        opts.project_width,
    );
    push_cell_if(
        &mut cells,
        config.main.display_tags_listings && (always || opts.has_tags),
        ListingColumn::Tags,
        config.main.tags_col_name.clone(),
        opts.tags_width,
    );
    push_cell_if(
        &mut cells,
        opts.notes_nb_width != 0,
        ListingColumn::NotesNb,
        config.main.notes_nb_col_name.clone(),
        notes_width,
    );
    let (room, width) = match opts.max_description_cols {
        Some(max_cols) => (
            true,
            if opts.description_width <= max_cols {
                opts.description_width
            } else {
                max_cols
            },
        ),
        None => (false, 0),
    };
    push_cell_if(
        &mut cells,
        room,
        ListingColumn::Status,
        config.main.status_col_name.clone(),
        opts.status_width,
    );
    push_cell_if(
        &mut cells,
        room,
        ListingColumn::Description,
        config.main.description_col_name.clone(),
        width,
    );
    cells
}

/// The cells of the line of `task`, registered under `uid`, at the moment
/// `now`, in a listing laid out as `opts` says.
pub fn display_task_inline(
    uid: UID,
    task: &Task,
    config: &Config,
    opts: &DisplayOptions,
    now: &Timestamp,
) -> (r: Vec<Cell>)
    ensures
        cell_views(r@) == row_cells(uid, task@, config.main@, *opts, *now),
{
    let always = config.main.display_empty_cols;
    let prio_width = str_columns(config.main.prio_col_name.as_str());
    let title_len = config.main.notes_nb_col_name.as_str().len();
    let notes_width = if opts.notes_nb_width >= title_len {
        opts.notes_nb_width
    } else {
        title_len
    };
    let priority = match task.priority() {
        Some(priority) => String::from_str(friendly_priority(priority)),
        None => String::new(),
    };
    let project = match task.project() {
        Some(name) => String::from_str(name),
        None => String::new(),
    };
    let mut cells: Vec<Cell> = Vec::new();
    assert(cell_views(cells@) =~= Seq::<CellView>::empty());
    push_cell_if(&mut cells, true, ListingColumn::Uid, decimal_string(uid.0 as u128), opts.task_uid_width);
    push_cell_if(&mut cells, true, ListingColumn::Age, friendly_task_age(task, now), opts.age_width);
    push_cell_if(
        &mut cells,
        always || opts.has_spent_time,
        ListingColumn::Spent,
        friendly_spent_time(task.spent_time_at(now)),
        opts.spent_width,
    );
    push_cell_if(
        &mut cells,
        always || opts.has_priorities,
        ListingColumn::Priority,
        priority,
        prio_width,
    );
    push_cell_if(
        &mut cells,
        always || opts.has_projects,
        ListingColumn::Project,
        project,
        opts.project_width,
    );
    push_cell_if(
        &mut cells,
        config.main.display_tags_listings && (always || opts.has_tags),
        ListingColumn::Tags,
        friendly_tags(task),
        opts.tags_width,
    );
    push_cell_if(
        &mut cells,
        opts.notes_nb_width != 0,
        ListingColumn::NotesNb,
        friendly_notes_nb(task.note_count()),
        notes_width,
    );
    push_cell_if(
        &mut cells,
        true,
        ListingColumn::Status,
        String::from_str(status_alias(config, task.status())),
        opts.status_width,
    );
    cells
}

/// Why a command could not be carried out.
#[derive(Clone, Debug, PartialEq, Eq)]
pub enum SubCmdError {
    /// The annotations given do not go together.
    MetadataValidationError(MetadataValidationError),
    /// The note could not be taken from what the editor left.
    CannotEditNote(String),
    /// The note holds nothing but white space.
    EmptyNote,
    /// A task refused the change.
    ToodouxError(Error),
}

/// What a [`SubCmdError`] holds, with texts as character sequences.
pub enum SubCmdErrorView {
    MetadataValidationError(MetadataValidationError),
    CannotEditNote(Seq<char>),
    EmptyNote,
    ToodouxError(Error),
}

impl View for SubCmdError {
    type V = SubCmdErrorView;

    open spec fn view(&self) -> SubCmdErrorView {
        match self {
            SubCmdError::MetadataValidationError(e) => SubCmdErrorView::MetadataValidationError(*e),
            SubCmdError::CannotEditNote(reason) => SubCmdErrorView::CannotEditNote(reason@),
            SubCmdError::EmptyNote => SubCmdErrorView::EmptyNote,
            SubCmdError::ToodouxError(e) => SubCmdErrorView::ToodouxError(*e),
        }
    }
}

/// The line below which the user writes a note when the earlier notes are shown.
pub open spec fn end_marker() -> Seq<char> {
    "---------------------- >8 ----------------------\n"@
}

/// The two lines that tell the user what the text above the marker is.
pub open spec fn notes_help() -> Seq<char> {
    "> Above are the previously recorded notes. You are free to temper with them if you want.\n"@
        + "> You can add the content of your note under the following line. However, do not remove this line!\n"@
}

/// An earlier note as shown to the user who writes a new one: a line with its
/// number and its dates as written, then its text. The note at position 0 is
/// note number 1.
pub open spec fn note_block_text(
    position: int,
    created: Seq<char>,
    modified: Option<Seq<char>>,
    content: Seq<char>,
) -> Seq<char> {
    "> Note #"@ + decimal((position + 1) as nat) + ", on "@ + created + (match modified {
        Some(date) => ", modified on "@ + date,
        None => Seq::empty(),
    }) + "\n"@ + content
}

/// An earlier note as shown to the user who writes a new one. The date of
/// modification is shown unless it is earlier than the date of creation.
pub open spec fn note_block(position: int, note: crate::task::NoteView) -> Seq<char> {
    note_block_text(
        position,
        date_text(note.creation_date),
        if note.last_modification_date.as_nanos() >= note.creation_date.as_nanos() {
            Some(date_text(note.last_modification_date))
        } else {
            None
        },
        note.content,
    )
}

/// Writes an earlier note as shown to the user who writes a new one, given its
/// position, its dates as written, and its text.
pub fn write_note_block(position: usize, created: &str, modified: Option<&str>, content: &str) -> (r:
    String)
    ensures
        r@ == note_block_text(
            position as int,
            created@,
            match modified {
                Some(date) => Some(date@),
                None => None,
            },
            content@,
        ),
{
    let mut block = String::from_str("> Note #");
    block.append(decimal_string(position as u128 + 1).as_str());
    block.append(", on ");
    block.append(created);
    match modified {
        Some(date) => {
            block.append(", modified on ");
            block.append(date);
        },
        None => {
            assert(block@ + Seq::<char>::empty() == block@);
        },
    }
    block.append("\n");
    block.append(content);
    block
}

/// The earlier notes as shown to the user, one block each.
pub open spec fn note_blocks(notes: Seq<crate::task::NoteView>) -> Seq<Seq<char>> {
    Seq::new(notes.len(), |i: int| note_block(i, notes[i]))
}

/// What the editor opens with: `prefill` alone, or, with `with_history`, the
/// earlier notes with an empty line between them, the help, the marker, and
/// then `prefill`.
pub open spec fn prefill_text(
    notes: Seq<crate::task::NoteView>,
    with_history: bool,
    prefill: Seq<char>,
) -> Seq<char> {
    if with_history {
        join(note_blocks(notes), "\n\n"@) + notes_help() + end_marker() + prefill
    } else {
        prefill
    }
}

/// Writes what the editor opens with when the user writes a note for `task`.
pub fn note_prefill(task: &Task, with_history: bool, prefill: &str) -> (r: String)
    ensures
        r@ == prefill_text(notes_of(task@.history), with_history, prefill@),
{
    if !with_history {
        return String::from_str(prefill);
    }
    let notes = task.notes();
    let ghost all = crate::task::note_views(notes@);
    let mut blocks: Vec<String> = Vec::new();
    let n = notes.len();
    let mut i: usize = 0;
    while i < n
        invariant
            n == notes@.len(),
            i <= n,
            all == crate::task::note_views(notes@),
            texts(blocks@) == note_blocks(all).take(i as int),
        decreases n - i,
    {
        let note = &notes[i];
        assert(all[i as int] == note@);
        let created = date_time_to_string(&note.creation_date);
        let block = if !note.last_modification_date.is_before(&note.creation_date) {
            let modified = date_time_to_string(&note.last_modification_date);
            write_note_block(i, created.as_str(), Some(modified.as_str()), note.content.as_str())
        } else {
            write_note_block(i, created.as_str(), None, note.content.as_str())
        };
        assert(block@ == note_block(i as int, note@));
        let ghost before = blocks@;
        blocks.push(block);
        assert(texts(blocks@) =~= texts(before).push(block@));
        assert(note_blocks(all).take(i + 1) =~= note_blocks(all).take(i as int).push(
            note_block(i as int, all[i as int]),
        ));
        i += 1;
    }
    assert(note_blocks(all).take(n as int) == note_blocks(all));
    let mut out = crate::text::join_words(&blocks, "\n\n");
    out.append(
        "> Above are the previously recorded notes. You are free to temper with them if you want.\n",
    );
    out.append(
        "> You can add the content of your note under the following line. However, do not remove this line!\n",
    );
    out.append("---------------------- >8 ----------------------\n");
    out.append(prefill);
    assert(out@ =~= prefill_text(notes_of(task@.history), with_history, prefill@));
    out
}

/// The message for a note from which the marker is gone.
pub open spec fn marker_missing() -> Seq<char> {
    "I told you not to temper with this line!"@
}

/// The note that the user wrote, taken from what the editor left: with
/// `with_history` what follows the first marker, else everything. A note of
/// nothing but white space is refused, and so is a text without the marker.
pub open spec fn written_note(content: Seq<char>, with_history: bool) -> Result<
    Seq<char>,
    SubCmdErrorView,
> {
    if with_history {
        match first_occurrence(content, end_marker()) {
            Some(at) => {
                let note = content.skip(at + end_marker().len());
                if is_blank(note) {
                    Err(SubCmdErrorView::EmptyNote)
                } else {
                    Ok(note)
                }
            },
            None => Err(SubCmdErrorView::CannotEditNote(marker_missing())),
        }
    } else if is_blank(content) {
        Err(SubCmdErrorView::EmptyNote)
    } else {
        Ok(content)
    }
}

/// Takes the note that the user wrote from what the editor left.
pub fn extract_note(content: &str, with_history: bool) -> (r: Result<String, SubCmdError>)
    ensures
        match r {
            Ok(note) => written_note(content@, with_history) == Ok::<Seq<char>, SubCmdErrorView>(
                note@,
            ),
            Err(e) => written_note(content@, with_history) == Err::<Seq<char>, SubCmdErrorView>(e@),
        },
{
    if with_history {
        let marker = "---------------------- >8 ----------------------\n";
        match find(content, marker) {
            Some(at) => {
                let n = content.unicode_len();
                let m = marker.unicode_len();
                let note = content.substring_char(at + m, n);
                assert(note@ == content@.skip(at + m)) by {
                    assert(content@.subrange(at + m, n as int) =~= content@.skip(at + m));
                }
                let blank = is_blank_text(note);
                if blank {
                    Err(SubCmdError::EmptyNote)
                } else {
                    Ok(String::from_str(note))
                }
            },
            None => Err(
                SubCmdError::CannotEditNote(
                    String::from_str("I told you not to temper with this line!"),
                ),
            ),
        }
    } else if is_blank_text(content) {
        Err(SubCmdError::EmptyNote)
    } else {
        Ok(String::from_str(content))
    }
}

impl SubCmdErrorView {
    /// The error in words.
    pub open spec fn message(self) -> Seq<char> {
        match self {
            SubCmdErrorView::MetadataValidationError(e) => "metadata validation error: "@
                + e.spec_message(),
            SubCmdErrorView::CannotEditNote(reason) => "cannot edit note: "@ + reason,
            SubCmdErrorView::EmptyNote => "the note was empty; nothing added"@,
            SubCmdErrorView::ToodouxError(e) => "toodoux error: "@ + e.spec_message(),
        }
    }
}

impl SubCmdError {
    /// The error in words.
    pub fn message(&self) -> (r: String)
        ensures
            r@ == self@.message(),
    {
        match self {
            SubCmdError::MetadataValidationError(e) => {
                let mut s = String::from_str("metadata validation error: ");
                s.append(e.message().as_str());
                s
            },
            SubCmdError::CannotEditNote(reason) => {
                let mut s = String::from_str("cannot edit note: ");
                s.append(reason.as_str());
                s
            },
            SubCmdError::EmptyNote => String::from_str("the note was empty; nothing added"),
            SubCmdError::ToodouxError(e) => {
                let mut s = String::from_str("toodoux error: ");
                s.append(e.message().as_str());
                s
            },
        }
    }
}

/// A note as shown among the details of a task.
#[derive(Clone, Debug, PartialEq, Eq)]
pub struct NoteDetails {
    /// Number of the note, from one.
    pub number: usize,
    /// When the note was added, as written.
    pub created: String,
    /// When the note was last changed, as written, if it ever was.
    pub edited: Option<String>,
    /// The text, without the white space around it.
    pub content: String,
}

/// What a [`NoteDetails`] holds, with texts as character sequences.
pub struct NoteDetailsView {
    pub number: usize,
    pub created: Seq<char>,
    pub edited: Option<Seq<char>>,
    pub content: Seq<char>,
}

impl View for NoteDetails {
    type V = NoteDetailsView;

    open spec fn view(&self) -> NoteDetailsView {
        NoteDetailsView {
            number: self.number,
            created: self.created@,
            edited: match self.edited {
                Some(date) => Some(date@),
                None => None,
            },
            content: self.content@,
        }
    }
}

/// The notes held by a sequence of [`NoteDetails`].
pub open spec fn note_detail_views(v: Seq<NoteDetails>) -> Seq<NoteDetailsView> {
    Seq::new(v.len(), |i: int| v[i]@)
}

/// Everything that is shown of a single task.
#[derive(Clone, Debug, PartialEq, Eq)]
pub struct TaskDetails {
    pub name: String,
    /// The identifier, written in base ten.
    pub uid: String,
    /// The age, as listings show it.
    pub age: String,
    /// The time spent, as listings show it; `None` when no time was spent.
    pub spent: Option<String>,
    pub priority: Option<Priority>,
    pub project: Option<String>,
    pub tags: Vec<String>,
    pub status: Status,
    pub notes: Vec<NoteDetails>,
}

/// What a [`TaskDetails`] holds, with texts as character sequences.
pub struct TaskDetailsView {
    pub name: Seq<char>,
    pub uid: Seq<char>,
    pub age: Seq<char>,
    pub spent: Option<Seq<char>>,
    pub priority: Option<Priority>,
    pub project: Option<Seq<char>>,
    pub tags: Seq<Seq<char>>,
    pub status: Status,
    pub notes: Seq<NoteDetailsView>,
}

impl View for TaskDetails {
    type V = TaskDetailsView;

    open spec fn view(&self) -> TaskDetailsView {
        TaskDetailsView {
            name: self.name@,
            uid: self.uid@,
            age: self.age@,
            spent: match self.spent {
                Some(text) => Some(text@),
                None => None,
            },
            priority: self.priority,
            project: match self.project {
                Some(name) => Some(name@),
                None => None,
            },
            tags: texts(self.tags@),
            status: self.status,
            notes: note_detail_views(self.notes@),
        }
    }
}

/// The note at position `position` as shown among the details of a task: the
/// date of the last change is shown when it differs from the date of creation.
pub open spec fn shown_note(position: int, note: crate::task::NoteView) -> NoteDetailsView {
    NoteDetailsView {
        number: (position + 1) as usize,
        created: date_text(note.creation_date),
        edited: if note.last_modification_date != note.creation_date {
            Some(date_text(note.last_modification_date))
        } else {
            None
        },
        content: trimmed(note.content),
    }
}

/// What is shown of the task `task`, registered under `uid`, at the moment `now`.
pub open spec fn shown_task(uid: UID, task: TaskView, now: Timestamp) -> TaskDetailsView {
    let h = task.history;
    TaskDetailsView {
        name: task.name,
        uid: decimal(uid.0 as nat),
        age: duration_text(age_of(h, now)),
        spent: if spent_time_of(h, now) == 0 {
            None
        } else {
            Some(duration_text(spent_time_of(h, now)))
        },
        priority: priority_of(h),
        project: project_of(h),
        tags: crate::task::tags_of(h),
        status: status_of(h),
        notes: Seq::new(notes_of(h).len(), |i: int| shown_note(i, notes_of(h)[i])),
    }
}

/// Gathers what is shown of the task `task`, registered under `uid`, at the
/// moment `now`.
pub fn show_task(uid: UID, task: &Task, now: &Timestamp) -> (r: TaskDetails)
    ensures
        r@ == shown_task(uid, task@, *now),
{
    let ghost h = task@.history;
    let spent = task.spent_time_at(now);
    let tag_slices = task.tags();
    let mut tags: Vec<String> = Vec::new();
    let m = tag_slices.len();
    let mut j: usize = 0;
    while j < m
        invariant
            m == tag_slices@.len(),
            j <= m,
            texts(tags@) == slice_texts(tag_slices@).take(j as int),
        decreases m - j,
    {
        let ghost before = tags@;
        tags.push(String::from_str(tag_slices[j]));
        assert(texts(tags@) =~= texts(before).push(tag_slices@[j as int]@));
        assert(slice_texts(tag_slices@).take(j + 1) =~= slice_texts(tag_slices@).take(
            j as int,
        ).push(tag_slices@[j as int]@));
        j += 1;
    }
    assert(slice_texts(tag_slices@).take(m as int) == slice_texts(tag_slices@));
    let all = task.notes();
    let ghost views = crate::task::note_views(all@);
    let mut notes: Vec<NoteDetails> = Vec::new();
    let n = all.len();
    let mut i: usize = 0;
    while i < n
        invariant
            n == all@.len(),
            i <= n,
            views == crate::task::note_views(all@),
            notes@.len() == i,
            forall|k: int| 0 <= k < i ==> (#[trigger] notes@[k])@ == shown_note(k, views[k]),
        decreases n - i,
    {
        let note = &all[i];
        assert(views[i as int] == note@);
        let details = NoteDetails {
            number: i + 1,
            created: date_time_to_string(&note.creation_date),
            edited: if note.last_modification_date != note.creation_date {
                Some(date_time_to_string(&note.last_modification_date))
            } else {
                None
            },
            content: String::from_str(crate::text::trim(note.content.as_str())),
        };
        notes.push(details);
        i += 1;
    }
    let details = TaskDetails {
        name: String::from_str(task.name()),
        uid: uid.to_text(),
        age: friendly_task_age(task, now),
        spent: if spent.is_zero() {
            None
        } else {
            Some(friendly_duration(spent))
        },
        priority: task.priority(),
        project: match task.project() {
            Some(name) => Some(String::from_str(name)),
            None => None,
        },
        tags,
        status: task.status(),
        notes,
    };
    proof {
        let expected = shown_task(uid, task@, *now);
        assert(details@.notes =~= expected.notes);
        assert(details@.tags =~= expected.tags);
    }
    details
}

} // verus!
