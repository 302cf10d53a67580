//! Commands: what a user can ask for, and what each one does to the registry.
//!
//! Carrying out a command never prints, saves or opens an editor. It changes
//! the registry where the command says so and tells the caller what is left to
//! do: show a listing, show a task, save, ask the user for a note.

use crate::cli::{
    active_status_flags, add_task_at, content_metadata, content_name, described_task,
    edit_task_at, extract_note, written_note, StatusFlags, SubCmdError, SubCmdErrorView,
};
use crate::metadata::{slice_texts, validation, MetadataValidationError};
use crate::registry::{
    is_registered, lemma_position_of, position_of, renamed_entry, uids_in_project, ManagerView,
    TaskManager,
};
use crate::task::{metadata_events, notes_of, Error, EventView, Status, Task, TaskView, UID};
use crate::text::{decimal, str_slices, texts};
use crate::time::{now, Timestamp};
use vstd::prelude::*;
use vstd::string::*;

verus! {

/// What to do with the notes of a task.
#[derive(Clone, Copy, Debug, PartialEq, Eq, Structural)]
pub enum NoteCommand {
    /// Add a note. With `no_history` the earlier notes are not shown.
    Add { no_history: bool },
    /// Edit a note. With `no_history` the earlier notes are not shown.
    Edit { no_history: bool },
}

/// What to do with projects.
#[derive(Clone, Debug, PartialEq, Eq)]
pub enum ProjectCommand {
    /// Move every task of one project to another.
    Rename { current_project: String, new_project: String },
}

/// What a user can ask for.
#[derive(Clone, Debug, PartialEq, Eq)]
pub enum SubCommand {
    /// Add a task, `Ongoing` with `start`, else `Done` with `done`, and ask for
    /// a note with `note`.
    Add { start: bool, done: bool, note: bool, content: Vec<String> },
    /// Change the name or the annotations of a task.
    Edit { content: Vec<String> },
    /// Show the details of a task.
    Show,
    /// Mark a task as todo.
    Todo,
    /// Mark a task as started.
    Start,
    /// Mark a task as done.
    Done,
    /// Mark a task as cancelled.
    Cancel,
    /// Remove a task. Nothing is removed as yet.
    Remove { all: bool },
    /// List tasks.
    List {
        todo: bool,
        start: bool,
        done: bool,
        cancelled: bool,
        all: bool,
        case_insensitive: bool,
        metadata_filter: Vec<String>,
    },
    /// Add or edit a note; notes are numbered from one.
    Note { note_uid: Option<UID>, subcmd: NoteCommand },
    /// Show everything that happened to a task.
    History,
    /// Work on projects.
    Project(ProjectCommand),
}

/// A command line: the task to work on, what to do, and where the
/// configuration is.
#[derive(Clone, Debug, PartialEq, Eq)]
pub struct Command {
    /// Identifier of the task to work on.
    pub task_uid: Option<UID>,
    /// What to do; list the active tasks when `None`.
    pub subcmd: Option<SubCommand>,
    /// Folder to read the configuration from, instead of the usual one.
    pub config: Option<String>,
}

/// What a [`SubCommand`] holds, with texts as character sequences.
pub enum SubCommandView {
    Add { start: bool, done: bool, note: bool, content: Seq<Seq<char>> },
    Edit { content: Seq<Seq<char>> },
    Show,
    Todo,
    Start,
    Done,
    Cancel,
    Remove { all: bool },
    List {
        todo: bool,
        start: bool,
        done: bool,
        cancelled: bool,
        all: bool,
        case_insensitive: bool,
        metadata_filter: Seq<Seq<char>>,
    },
    Note { note_uid: Option<UID>, subcmd: NoteCommand },
    History,
    RenameProject { current_project: Seq<char>, new_project: Seq<char> },
}

impl View for SubCommand {
    type V = SubCommandView;

    open spec fn view(&self) -> SubCommandView {
        match self {
            SubCommand::Add { start, done, note, content } => SubCommandView::Add {
                start: *start,
                done: *done,
                note: *note,
                content: texts(content@),
            },
            SubCommand::Edit { content } => SubCommandView::Edit { content: texts(content@) },
            SubCommand::Show => SubCommandView::Show,
            SubCommand::Todo => SubCommandView::Todo,
            SubCommand::Start => SubCommandView::Start,
            SubCommand::Done => SubCommandView::Done,
            SubCommand::Cancel => SubCommandView::Cancel,
            SubCommand::Remove { all } => SubCommandView::Remove { all: *all },
            SubCommand::List {
                todo,
                start,
                done,
                cancelled,
                all,
                case_insensitive,
                metadata_filter,
            } => SubCommandView::List {
                todo: *todo,
                start: *start,
                done: *done,
                cancelled: *cancelled,
                all: *all,
                case_insensitive: *case_insensitive,
                metadata_filter: texts(metadata_filter@),
            },
            SubCommand::Note { note_uid, subcmd } => SubCommandView::Note {
                note_uid: *note_uid,
                subcmd: *subcmd,
            },
            SubCommand::History => SubCommandView::History,
            SubCommand::Project(ProjectCommand::Rename { current_project, new_project }) => {
                SubCommandView::RenameProject {
                    current_project: current_project@,
                    new_project: new_project@,
                }
            },
        }
    }
}

/// Why a command was not carried out, as told to the user.
#[derive(Clone, Copy, Debug, PartialEq, Eq, Structural)]
pub enum Refusal {
    CannotAddToTask,
    MissingTaskToEdit,
    MissingTaskToShow,
    MissingTask,
    MissingTaskToStart,
    MissingTaskToFinish,
    MissingTaskToCancel,
    MissingTaskForNotes,
    MissingTaskForHistory,
    /// No note was named for the task with this identifier.
    NoNoteUid(UID),
}

impl Refusal {
    /// The refusal in words.
    pub open spec fn spec_message(self) -> Seq<char> {
        match self {
            Refusal::CannotAddToTask => "cannot add a task to another one; maybe you were looking for dependencies instead?"@,
            Refusal::MissingTaskToEdit => "missing or unknown task to edit"@,
            Refusal::MissingTaskToShow => "missing or unknown task to show"@,
            Refusal::MissingTask => "missing or unknown task"@,
            Refusal::MissingTaskToStart => "missing or unknown task to start"@,
            Refusal::MissingTaskToFinish => "missing or unknown task to finish"@,
            Refusal::MissingTaskToCancel => "missing or unknown task to cancel"@,
            Refusal::MissingTaskForNotes => "missing or unknown task to add, edit or list notes about"@,
            Refusal::MissingTaskForHistory => "missing or unknown task to display history"@,
            Refusal::NoNoteUid(uid) => "cannot edit task "@ + decimal(uid.0 as nat)
                + "’s note: no note UID provided"@,
        }
    }

    /// The refusal in words.
    pub fn message(&self) -> (r: String)
        ensures
            r@ == self.spec_message(),
    {
        match self {
            Refusal::CannotAddToTask => String::from_str(
                "cannot add a task to another one; maybe you were looking for dependencies instead?",
            ),
            Refusal::MissingTaskToEdit => String::from_str("missing or unknown task to edit"),
            Refusal::MissingTaskToShow => String::from_str("missing or unknown task to show"),
            Refusal::MissingTask => String::from_str("missing or unknown task"),
            Refusal::MissingTaskToStart => String::from_str("missing or unknown task to start"),
            Refusal::MissingTaskToFinish => String::from_str("missing or unknown task to finish"),
            Refusal::MissingTaskToCancel => String::from_str("missing or unknown task to cancel"),
            Refusal::MissingTaskForNotes => String::from_str(
                "missing or unknown task to add, edit or list notes about",
            ),
            Refusal::MissingTaskForHistory => String::from_str(
                "missing or unknown task to display history",
            ),
            Refusal::NoNoteUid(uid) => {
                let mut s = String::from_str("cannot edit task ");
                s.append(uid.to_text().as_str());
                s.append("’s note: no note UID provided");
                s
            },
        }
    }
}

/// What is left to do after a command was carried out on the registry.
#[derive(Clone, Debug, PartialEq, Eq)]
pub enum Outcome {
    /// Show the tasks with these statuses that pass this filter.
    List { flags: StatusFlags, case_insensitive: bool, metadata_filter: Vec<String> },
    /// A task was added under `uid`: save and show it, and with `with_note` ask
    /// for a first note, without showing earlier ones.
    Added { uid: UID, with_note: bool },
    /// A task was changed: save.
    Saved,
    /// Show the details of the task.
    Show(UID),
    /// Show everything that happened to the task.
    History(UID),
    /// Ask the user for a note for the task `uid`, the editor opening on
    /// `prefill`, with the earlier notes above it for `with_history`. The note
    /// replaces the one at position `replace`, or is added when that is `None`.
    EditNote { uid: UID, replace: Option<UID>, with_history: bool, prefill: String },
    /// This many tasks changed project: save and say so.
    Renamed(usize),
    /// Tell the user why nothing was done.
    Refused(Refusal),
    /// Nothing.
    Nothing,
}

/// What an [`Outcome`] holds, with texts as character sequences.
pub enum OutcomeView {
    List { flags: StatusFlags, case_insensitive: bool, metadata_filter: Seq<Seq<char>> },
    Added { uid: UID, with_note: bool },
    Saved,
    Show(UID),
    History(UID),
    EditNote { uid: UID, replace: Option<UID>, with_history: bool, prefill: Seq<char> },
    Renamed(usize),
    Refused(Refusal),
    Nothing,
}

impl View for Outcome {
    type V = OutcomeView;

    open spec fn view(&self) -> OutcomeView {
        match self {
            Outcome::List { flags, case_insensitive, metadata_filter } => OutcomeView::List {
                flags: *flags,
                case_insensitive: *case_insensitive,
                metadata_filter: texts(metadata_filter@),
            },
            Outcome::Added { uid, with_note } => OutcomeView::Added {
                uid: *uid,
                with_note: *with_note,
            },
            Outcome::Saved => OutcomeView::Saved,
            Outcome::Show(uid) => OutcomeView::Show(*uid),
            Outcome::History(uid) => OutcomeView::History(*uid),
            Outcome::EditNote { uid, replace, with_history, prefill } => OutcomeView::EditNote {
                uid: *uid,
                replace: *replace,
                with_history: *with_history,
                prefill: prefill@,
            },
            Outcome::Renamed(count) => OutcomeView::Renamed(*count),
            Outcome::Refused(refusal) => OutcomeView::Refused(*refusal),
            Outcome::Nothing => OutcomeView::Nothing,
        }
    }
}

/// The statuses that a bare command line lists: the active ones.
pub open spec fn active_flags() -> StatusFlags {
    StatusFlags { todo: true, start: true, cancelled: false, done: false }
}

/// The statuses to list for the flags a user gave.
pub open spec fn listed_flags(todo: bool, start: bool, cancelled: bool, done: bool, all: bool) -> StatusFlags {
    if all {
        StatusFlags { todo: true, start: true, cancelled: true, done: true }
    } else if !(todo || start || done || cancelled) {
        active_flags()
    } else {
        StatusFlags { todo, start, cancelled, done }
    }
}

/// Where in `registry` the task to work on stands, if one is named and
/// registered.
pub open spec fn target(registry: ManagerView, task_uid: Option<UID>) -> Option<int> {
    match task_uid {
        Some(uid) => if position_of(registry.tasks, uid) < registry.tasks.len() {
            Some(position_of(registry.tasks, uid))
        } else {
            None
        },
        None => None,
    }
}

/// `registry` with the task at position `at` replaced by `task`.
pub open spec fn with_task(registry: ManagerView, at: int, task: TaskView) -> ManagerView {
    ManagerView {
        next_uid: registry.next_uid,
        tasks: registry.tasks.update(at, (registry.tasks[at].0, task)),
    }
}

/// `task` after the edit that `content` describes, recorded at `date`.
pub open spec fn edited_task(task: TaskView, content: Seq<Seq<char>>, date: Timestamp) -> TaskView {
    TaskView {
        name: if content_name(content).len() > 0 {
            content_name(content)
        } else {
            task.name
        },
        history: task.history + metadata_events(content_metadata(content), date),
    }
}

/// The text of the note at position `at` of a task with history `h`; empty
/// when there is no such note.
pub open spec fn note_text(h: Seq<EventView>, at: UID) -> Seq<char> {
    if at.0 < notes_of(h).len() {
        notes_of(h)[at.0 as int].content
    } else {
        Seq::empty()
    }
}

/// The identifier before `uid`; zero stays zero.
pub open spec fn before_uid(uid: UID) -> UID {
    if uid.0 == 0 {
        UID(0)
    } else {
        UID((uid.0 - 1) as u32)
    }
}

/// What a status command does: it records the status for the task named, or
/// refuses with `missing` when none is named or registered.
pub open spec fn status_changed(
    registry: ManagerView,
    task_uid: Option<UID>,
    status: Status,
    date: Timestamp,
    missing: Refusal,
) -> (Result<OutcomeView, SubCmdErrorView>, ManagerView) {
    match target(registry, task_uid) {
        Some(at) => (
            Ok(OutcomeView::Saved),
            with_task(
                registry,
                at,
                registry.tasks[at].1.with_event(
                    EventView::StatusChanged { event_date: date, status },
                ),
            ),
        ),
        None => (Ok(OutcomeView::Refused(missing)), registry),
    }
}

/// What carrying out `subcmd` at `date` gives: what is left to do, or the
/// error, and the registry afterwards.
///
/// `previous_notes_help` says whether the configuration wants the earlier notes
/// shown to a user who writes a note.
pub open spec fn carried_out(
    registry: ManagerView,
    previous_notes_help: bool,
    subcmd: Option<SubCommandView>,
    task_uid: Option<UID>,
    date: Timestamp,
) -> (Result<OutcomeView, SubCmdErrorView>, ManagerView) {
    match subcmd {
        None => (
            Ok(
                OutcomeView::List {
                    flags: active_flags(),
                    case_insensitive: false,
                    metadata_filter: Seq::empty(),
                },
            ),
            registry,
        ),
        Some(SubCommandView::Add { start, done, note, content }) => match task_uid {
            Some(_) => (Ok(OutcomeView::Refused(Refusal::CannotAddToTask)), registry),
            None => match validation(content_metadata(content)) {
                Ok(()) => (
                    Ok(OutcomeView::Added { uid: registry.next_uid, with_note: note }),
                    ManagerView {
                        next_uid: UID((registry.next_uid.0 + 1) as u32),
                        tasks: registry.tasks.push(
                            (registry.next_uid, described_task(content, start, done, date)),
                        ),
                    },
                ),
                Err(e) => (Err(SubCmdErrorView::MetadataValidationError(e)), registry),
            },
        },
        Some(SubCommandView::Edit { content }) => match target(registry, task_uid) {
            Some(at) => match validation(content_metadata(content)) {
                Ok(()) => (
                    Ok(OutcomeView::Saved),
                    with_task(registry, at, edited_task(registry.tasks[at].1, content, date)),
                ),
                Err(e) => (Err(SubCmdErrorView::MetadataValidationError(e)), registry),
            },
            None => (Ok(OutcomeView::Refused(Refusal::MissingTaskToEdit)), registry),
        },
        Some(SubCommandView::Show) => match target(registry, task_uid) {
            Some(at) => (Ok(OutcomeView::Show(registry.tasks[at].0)), registry),
            None => (Ok(OutcomeView::Refused(Refusal::MissingTaskToShow)), registry),
        },
        Some(SubCommandView::Todo) => status_changed(
            registry,
            task_uid,
            Status::Todo,
            date,
            Refusal::MissingTask,
        ),
        Some(SubCommandView::Start) => status_changed(
            registry,
            task_uid,
            Status::Ongoing,
            date,
            Refusal::MissingTaskToStart,
        ),
        Some(SubCommandView::Done) => status_changed(
            registry,
            task_uid,
            Status::Done,
            date,
            Refusal::MissingTaskToFinish,
        ),
        Some(SubCommandView::Cancel) => status_changed(
            registry,
            task_uid,
            Status::Cancelled,
            date,
            Refusal::MissingTaskToCancel,
        ),
        Some(SubCommandView::Remove { .. }) => (Ok(OutcomeView::Nothing), registry),
        Some(
            SubCommandView::List {
                todo,
                start,
                done,
                cancelled,
                all,
                case_insensitive,
                metadata_filter,
            },
        ) => (
            Ok(
                OutcomeView::List {
                    flags: listed_flags(todo, start, cancelled, done, all),
                    case_insensitive,
                    metadata_filter,
                },
            ),
            registry,
        ),
        Some(SubCommandView::Note { note_uid, subcmd }) => match target(registry, task_uid) {
            Some(at) => (
                Ok(
                    match subcmd {
                        NoteCommand::Add { no_history } => OutcomeView::EditNote {
                            uid: registry.tasks[at].0,
                            replace: None,
                            with_history: !no_history && previous_notes_help,
                            prefill: seq!['\n'],
                        },
                        NoteCommand::Edit { no_history } => match note_uid {
                            Some(number) => OutcomeView::EditNote {
                                uid: registry.tasks[at].0,
                                replace: Some(before_uid(number)),
                                with_history: !no_history && previous_notes_help,
                                prefill: note_text(registry.tasks[at].1.history, before_uid(number)),
                            },
                            None => OutcomeView::Refused(Refusal::NoNoteUid(registry.tasks[at].0)),
                        },
                    },
                ),
                registry,
            ),
            None => (Ok(OutcomeView::Refused(Refusal::MissingTaskForNotes)), registry),
        },
        Some(SubCommandView::History) => match target(registry, task_uid) {
            Some(at) => (Ok(OutcomeView::History(registry.tasks[at].0)), registry),
            None => (Ok(OutcomeView::Refused(Refusal::MissingTaskForHistory)), registry),
        },
        Some(SubCommandView::RenameProject { current_project, new_project }) => (
            Ok(
                OutcomeView::Renamed(
                    uids_in_project(registry.tasks, current_project).len() as usize,
                ),
            ),
            ManagerView {
                next_uid: registry.next_uid,
                tasks: Seq::new(
                    registry.tasks.len(),
                    |i: int| renamed_entry(registry.tasks[i], current_project, new_project, date),
                ),
            },
        ),
    }
}

/// The result of a command with texts as character sequences.
pub open spec fn result_view(r: Result<Outcome, SubCmdError>) -> Result<
    OutcomeView,
    SubCmdErrorView,
> {
    match r {
        Ok(outcome) => Ok(outcome@),
        Err(e) => Err(e@),
    }
}

/// What a command holds, if there is one, with texts as character sequences.
pub open spec fn subcommand_view(subcmd: Option<SubCommand>) -> Option<SubCommandView> {
    match subcmd {
        Some(command) => Some(command@),
        None => None,
    }
}

/// Records at `date` the status `status` for the task named, or refuses with
/// `missing` when none is named or registered.
fn change_status_of(
    task_mgr: &mut TaskManager,
    task_uid: Option<UID>,
    status: Status,
    date: Timestamp,
    missing: Refusal,
) -> (r: Outcome)
    ensures
        old(task_mgr)@.wf() ==> final(task_mgr)@.wf(),
        status_changed(old(task_mgr)@, task_uid, status, date, missing).0 == Ok::<
            OutcomeView,
            SubCmdErrorView,
        >(r@),
        status_changed(old(task_mgr)@, task_uid, status, date, missing).1 == final(task_mgr)@,
{
    match task_uid {
        Some(uid) => {
            proof {
                lemma_position_of(task_mgr@.tasks, uid);
            }
            match task_mgr.get_mut(uid) {
                Some(task) => {
                    task.change_status_at(status, date);
                    Outcome::Saved
                },
                None => Outcome::Refused(missing),
            }
        },
        None => Outcome::Refused(missing),
    }
}

/// The task named, for reading, if one is named and registered.
fn find_target(task_mgr: &TaskManager, task_uid: Option<UID>) -> (r: Option<(UID, &Task)>)
    ensures
        match r {
            Some((uid, task)) => {
                &&& task_uid == Some(uid)
                &&& target(task_mgr@, task_uid) is Some
                &&& task_mgr@.tasks[target(task_mgr@, task_uid)->0] == (uid, task@)
            },
            None => target(task_mgr@, task_uid) is None,
        },
{
    match task_uid {
        Some(uid) => {
            proof {
                lemma_position_of(task_mgr@.tasks, uid);
            }
            match task_mgr.get(uid) {
                Some(task) => Some((uid, task)),
                None => None,
            }
        },
        None => None,
    }
}

/// Carries out `subcmd` on the registry at `date` and tells what is left to
/// do: nothing is printed, saved or asked here.
///
/// Without a command the active tasks are to be listed. A command that needs a
/// task is refused when `task_uid` names none that is registered; adding a task
/// is refused when `task_uid` names any.
pub fn run_at(
    task_mgr: &mut TaskManager,
    previous_notes_help: bool,
    subcmd: Option<SubCommand>,
    task_uid: Option<UID>,
    date: Timestamp,
) -> (r: Result<Outcome, SubCmdError>)
    requires
        old(task_mgr)@.wf(),
        subcmd matches Some(SubCommand::Add { .. }) && task_uid is None ==> old(
            task_mgr,
        )@.next_uid.0 < u32::MAX,
    ensures
        final(task_mgr)@.wf(),
        result_view(r) == carried_out(
            old(task_mgr)@,
            previous_notes_help,
            subcommand_view(subcmd),
            task_uid,
            date,
        ).0,
        final(task_mgr)@ == carried_out(
            old(task_mgr)@,
            previous_notes_help,
            subcommand_view(subcmd),
            task_uid,
            date,
        ).1,
{
    let ghost before = task_mgr@;
    let ghost view = subcommand_view(subcmd);
    let r = match subcmd {
        None => Ok(
            Outcome::List {
                flags: active_status_flags(true, true, false, false, false),
                case_insensitive: false,
                metadata_filter: {
                    let empty: Vec<String> = Vec::new();
                    assert(texts(empty@) =~= Seq::<Seq<char>>::empty());
                    empty
                },
            },
        ),
        Some(SubCommand::Add { start, done, note, content }) => {
            if task_uid.is_some() {
                return Ok(Outcome::Refused(Refusal::CannotAddToTask));
            }
            let words = str_slices(&content);
            assert(slice_texts(words@) =~= texts(content@));
            match add_task_at(task_mgr, start, done, words.as_slice(), date) {
                Ok(uid) => Ok(Outcome::Added { uid, with_note: note }),
                Err(e) => Err(SubCmdError::MetadataValidationError(e)),
            }
        },
        Some(SubCommand::Edit { content }) => {
            let words = str_slices(&content);
            assert(slice_texts(words@) =~= texts(content@));
            match task_uid {
                Some(uid) => {
                    proof {
                        lemma_position_of(task_mgr@.tasks, uid);
                    }
                    match task_mgr.get_mut(uid) {
                        Some(task) => {
                            match edit_task_at(task, words.as_slice(), date) {
                                Ok(()) => Ok(Outcome::Saved),
                                Err(e) => Err(SubCmdError::MetadataValidationError(e)),
                            }
                        },
                        None => Ok(Outcome::Refused(Refusal::MissingTaskToEdit)),
                    }
                },
                None => Ok(Outcome::Refused(Refusal::MissingTaskToEdit)),
            }
        },
        Some(SubCommand::Show) => match find_target(task_mgr, task_uid) {
            Some((uid, _)) => Ok(Outcome::Show(uid)),
            None => Ok(Outcome::Refused(Refusal::MissingTaskToShow)),
        },
        Some(SubCommand::Todo) => Ok(
            change_status_of(task_mgr, task_uid, Status::Todo, date, Refusal::MissingTask),
        ),
        Some(SubCommand::Start) => Ok(
            change_status_of(
                task_mgr,
                task_uid,
                Status::Ongoing,
                date,
                Refusal::MissingTaskToStart,
            ),
        ),
        Some(SubCommand::Done) => Ok(
            change_status_of(
                task_mgr,
                task_uid,
                Status::Done,
                date,
                Refusal::MissingTaskToFinish,
            ),
        ),
        Some(SubCommand::Cancel) => Ok(
            change_status_of(
                task_mgr,
                task_uid,
                Status::Cancelled,
                date,
                Refusal::MissingTaskToCancel,
            ),
        ),
        Some(SubCommand::Remove { .. }) => Ok(Outcome::Nothing),
        Some(
            SubCommand::List {
                todo,
                start,
                done,
                cancelled,
                all,
                case_insensitive,
                metadata_filter,
            },
        ) => Ok(
            Outcome::List {
                flags: active_status_flags(todo, start, cancelled, done, all),
                case_insensitive,
                metadata_filter,
            },
        ),
        Some(SubCommand::Note { note_uid, subcmd }) => match find_target(task_mgr, task_uid) {
            Some((uid, task)) => match subcmd {
                NoteCommand::Add { no_history } => {
                    proof {
                        reveal_strlit("\n");
                        assert("\n"@ =~= seq!['\n']);
                    }
                    Ok(
                        Outcome::EditNote {
                            uid,
                            replace: None,
                            with_history: !no_history && previous_notes_help,
                            prefill: String::from_str("\n"),
                        },
                    )
                },
                NoteCommand::Edit { no_history } => match note_uid {
                    Some(number) => {
                        let at = number.dec();
                        let notes = task.notes();
                        let prefill = if (at.0 as usize) < notes.len() {
                            assert(crate::task::note_views(notes@)[at.0 as int]
                                == notes@[at.0 as int]@);
                            notes[at.0 as usize].content.clone()
                        } else {
                            String::new()
                        };
                        Ok(
                            Outcome::EditNote {
                                uid,
                                replace: Some(at),
                                with_history: !no_history && previous_notes_help,
                                prefill,
                            },
                        )
                    },
                    None => Ok(Outcome::Refused(Refusal::NoNoteUid(uid))),
                },
            },
            None => Ok(Outcome::Refused(Refusal::MissingTaskForNotes)),
        },
        Some(SubCommand::History) => match find_target(task_mgr, task_uid) {
            Some((uid, _)) => Ok(Outcome::History(uid)),
            None => Ok(Outcome::Refused(Refusal::MissingTaskForHistory)),
        },
        Some(SubCommand::Project(ProjectCommand::Rename { current_project, new_project })) => {
            let renamed = task_mgr.rename_project_at(
                current_project.as_str(),
                new_project.as_str(),
                date,
            );
            assert(task_mgr@.tasks =~= Seq::new(
                before.tasks.len(),
                |i: int| renamed_entry(before.tasks[i], current_project@, new_project@, date),
            ));
            Ok(Outcome::Renamed(renamed.len()))
        },
    };
    proof {
        let expected = carried_out(before, previous_notes_help, view, task_uid, date).1;
        assert(task_mgr@.tasks =~= expected.tasks);
    }
    r
}

/// Carries out `subcmd` on the registry, dating what it records by the system
/// clock: `run_at` of some moment.
pub fn run(
    task_mgr: &mut TaskManager,
    previous_notes_help: bool,
    subcmd: Option<SubCommand>,
    task_uid: Option<UID>,
) -> (r: Result<Outcome, SubCmdError>)
    requires
        old(task_mgr)@.wf(),
        subcmd matches Some(SubCommand::Add { .. }) && task_uid is None ==> old(
            task_mgr,
        )@.next_uid.0 < u32::MAX,
    ensures
        final(task_mgr)@.wf(),
        exists|moment: Timestamp|
            {
                &&& result_view(r) == carried_out(
                    old(task_mgr)@,
                    previous_notes_help,
                    subcommand_view(subcmd),
                    task_uid,
                    moment,
                ).0
                &&& final(task_mgr)@ == carried_out(
                    old(task_mgr)@,
                    previous_notes_help,
                    subcommand_view(subcmd),
                    task_uid,
                    moment,
                ).1
            },
{
    let moment = now();
    run_at(task_mgr, previous_notes_help, subcmd, task_uid, moment)
}

/// What taking in the text that an editor left gives for the task `uid`: the
/// note written in it is added, or replaces the note at position `replace`.
///
/// Nothing happens when the task is not registered. A text that holds no note
/// is an error, and so is a position without a note; then nothing is recorded.
pub open spec fn note_recorded(
    registry: ManagerView,
    uid: UID,
    replace: Option<UID>,
    with_history: bool,
    content: Seq<char>,
    date: Timestamp,
) -> (Result<(), SubCmdErrorView>, ManagerView) {
    match target(registry, Some(uid)) {
        None => (Ok(()), registry),
        Some(at) => {
            let task = registry.tasks[at].1;
            match written_note(content, with_history) {
                Err(e) => (Err(e), registry),
                Ok(note) => match replace {
                    None => (
                        Ok(()),
                        with_task(
                            registry,
                            at,
                            task.with_event(
                                EventView::NoteAdded { event_date: date, content: note },
                            ),
                        ),
                    ),
                    Some(position) => if position.0 < notes_of(task.history).len() {
                        (
                            Ok(()),
                            with_task(
                                registry,
                                at,
                                task.with_event(
                                    EventView::NoteReplaced {
                                        event_date: date,
                                        note_uid: position,
                                        content: note,
                                    },
                                ),
                            ),
                        )
                    } else {
                        (
                            Err(SubCmdErrorView::ToodouxError(Error::UnknownNote(position))),
                            registry,
                        )
                    },
                },
            }
        },
    }
}

/// Takes in at `date` the text that an editor left for the task `uid`.
pub fn record_note_at(
    task_mgr: &mut TaskManager,
    uid: UID,
    replace: Option<UID>,
    with_history: bool,
    content: &str,
    date: Timestamp,
) -> (r: Result<(), SubCmdError>)
    ensures
        old(task_mgr)@.wf() ==> final(task_mgr)@.wf(),
        match r {
            Ok(()) => note_recorded(
                old(task_mgr)@,
                uid,
                replace,
                with_history,
                content@,
                date,
            ).0 is Ok,
            Err(e) => note_recorded(old(task_mgr)@, uid, replace, with_history, content@, date).0
                == Err::<(), SubCmdErrorView>(e@),
        },
        final(task_mgr)@ == note_recorded(
            old(task_mgr)@,
            uid,
            replace,
            with_history,
            content@,
            date,
        ).1,
{
    let ghost before = task_mgr@;
    proof {
        lemma_position_of(task_mgr@.tasks, uid);
    }
    let r = match task_mgr.get_mut(uid) {
        None => Ok(()),
        Some(task) => match extract_note(content, with_history) {
            Err(e) => Err(e),
            Ok(note) => match replace {
                None => {
                    task.add_note_at(note.as_str(), date);
                    Ok(())
                },
                Some(position) => match task.replace_note_at(position, note.as_str(), date) {
                    Ok(()) => Ok(()),
                    Err(e) => Err(SubCmdError::ToodouxError(e)),
                },
            },
        },
    };
    proof {
        let expected = note_recorded(before, uid, replace, with_history, content@, date).1;
        assert(task_mgr@.tasks =~= expected.tasks);
    }
    r
}

/// Takes in the text that an editor left for the task `uid`, dating the note
/// by the system clock: `record_note_at` of some moment.
pub fn record_note(
    task_mgr: &mut TaskManager,
    uid: UID,
    replace: Option<UID>,
    with_history: bool,
    content: &str,
) -> (r: Result<(), SubCmdError>)
    ensures
        old(task_mgr)@.wf() ==> final(task_mgr)@.wf(),
        exists|moment: Timestamp|
            {
                &&& match r {
                    Ok(()) => note_recorded(
                        old(task_mgr)@,
                        uid,
                        replace,
                        with_history,
                        content@,
                        moment,
                    ).0 is Ok,
                    Err(e) => note_recorded(
                        old(task_mgr)@,
                        uid,
                        replace,
                        with_history,
                        content@,
                        moment,
                    ).0 == Err::<(), SubCmdErrorView>(e@),
                }
                &&& final(task_mgr)@ == note_recorded(
                    old(task_mgr)@,
                    uid,
                    replace,
                    with_history,
                    content@,
                    moment,
                ).1
            },
{
    let moment = now();
    record_note_at(task_mgr, uid, replace, with_history, content, moment)
}

} // verus!
