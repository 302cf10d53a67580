//! Tasks as append-only event logs.
//!
//! A task stores its name and the list of events that happened to it. Status,
//! project, priority, tags, notes and the time spent are never stored: each is
//! computed from the events, oldest first, every time it is asked for. The name
//! is the one exception; renaming a task overwrites it and leaves no event.

use crate::metadata::{metadata_views, slice_texts, Metadata, MetadataView, Priority};
use crate::text::{text_matches, texts_match};
use crate::time::{now, Duration, Timestamp};
use vstd::prelude::*;
use vstd::string::*;

pub use crate::registry::TaskManager;

verus! {

/// Identifier of a task in its registry, and position of a note among the notes
/// of a task.
#[derive(Clone, Copy, Debug, Hash, PartialEq, Eq, PartialOrd, Ord, Structural)]
pub struct UID(pub u32);

impl UID {
    /// The identifier with the given number.
    pub fn new(val: u32) -> (r: UID)
        ensures
            r == UID(val),
    {
        UID(val)
    }

    /// The identifier's number.
    pub fn val(self) -> (r: u32)
        ensures
            r == self.0,
    {
        self.0
    }

    /// The identifier before this one; zero stays zero.
    pub fn dec(self) -> (r: UID)
        ensures
            r.0 == if self.0 == 0 {
                0
            } else {
                self.0 - 1
            },
    {
        if self.0 == 0 {
            UID(0)
        } else {
            UID(self.0 - 1)
        }
    }
}

impl Default for UID {
    fn default() -> (r: UID)
        ensures
            r == UID(0),
    {
        UID(0)
    }
}

/// Where a task stands. In sorted listings a later variant counts as greater.
#[derive(Clone, Copy, Debug, PartialEq, Eq, PartialOrd, Ord, Structural)]
pub enum Status {
    /// Not started yet.
    Todo,
    /// Being worked on.
    Ongoing,
    /// Finished.
    Done,
    /// Given up.
    Cancelled,
}

impl Status {
    /// Position in the enumeration, from 0 for `Todo` to 3 for `Cancelled`.
    pub open spec fn spec_rank(self) -> int {
        match self {
            Status::Todo => 0,
            Status::Ongoing => 1,
            Status::Done => 2,
            Status::Cancelled => 3,
        }
    }

    /// Position in the enumeration, from 0 for `Todo` to 3 for `Cancelled`.
    pub fn rank(self) -> (r: u8)
        ensures
            r == self.spec_rank(),
    {
        match self {
            Status::Todo => 0,
            Status::Ongoing => 1,
            Status::Done => 2,
            Status::Cancelled => 3,
        }
    }
}

/// What can go wrong when a task is changed.
#[derive(Clone, Copy, Debug, PartialEq, Eq, Structural)]
pub enum Error {
    /// The task has no note at this position.
    UnknownNote(UID),
}

/// One fact about a task, with the moment it was recorded.
#[derive(Clone, Debug, PartialEq, Eq)]
pub enum Event {
    /// The task was created.
    Created(Timestamp),
    /// The status was set.
    StatusChanged { event_date: Timestamp, status: Status },
    /// A note was added after the existing ones.
    NoteAdded { event_date: Timestamp, content: String },
    /// The note at position `note_uid`, counting added notes from zero, got a new text.
    NoteReplaced { event_date: Timestamp, note_uid: UID, content: String },
    /// The project was set; an empty name means no project.
    SetProject { event_date: Timestamp, project: String },
    /// The priority was set.
    SetPriority { event_date: Timestamp, priority: Priority },
    /// A tag was added.
    AddTag { event_date: Timestamp, tag: String },
}

/// What an [`Event`] holds, with texts as character sequences.
pub enum EventView {
    Created(Timestamp),
    StatusChanged { event_date: Timestamp, status: Status },
    NoteAdded { event_date: Timestamp, content: Seq<char> },
    NoteReplaced { event_date: Timestamp, note_uid: UID, content: Seq<char> },
    SetProject { event_date: Timestamp, project: Seq<char> },
    SetPriority { event_date: Timestamp, priority: Priority },
    AddTag { event_date: Timestamp, tag: Seq<char> },
}

impl View for Event {
    type V = EventView;

    open spec fn view(&self) -> EventView {
        match self {
            Event::Created(date) => EventView::Created(*date),
            Event::StatusChanged { event_date, status } => EventView::StatusChanged {
                event_date: *event_date,
                status: *status,
            },
            Event::NoteAdded { event_date, content } => EventView::NoteAdded {
                event_date: *event_date,
                content: content@,
            },
            Event::NoteReplaced { event_date, note_uid, content } => EventView::NoteReplaced {
                event_date: *event_date,
                note_uid: *note_uid,
                content: content@,
            },
            Event::SetProject { event_date, project } => EventView::SetProject {
                event_date: *event_date,
                project: project@,
            },
            Event::SetPriority { event_date, priority } => EventView::SetPriority {
                event_date: *event_date,
                priority: *priority,
            },
            Event::AddTag { event_date, tag } => EventView::AddTag {
                event_date: *event_date,
                tag: tag@,
            },
        }
    }
}

impl EventView {
    /// The moment the event was recorded.
    pub open spec fn date(self) -> Timestamp {
        match self {
            EventView::Created(date) => date,
            EventView::StatusChanged { event_date, .. } => event_date,
            EventView::NoteAdded { event_date, .. } => event_date,
            EventView::NoteReplaced { event_date, .. } => event_date,
            EventView::SetProject { event_date, .. } => event_date,
            EventView::SetPriority { event_date, .. } => event_date,
            EventView::AddTag { event_date, .. } => event_date,
        }
    }
}

impl Event {
    /// The moment the event was recorded.
    pub fn date(&self) -> (r: Timestamp)
        ensures
            r == self@.date(),
    {
        match self {
            Event::Created(date) => *date,
            Event::StatusChanged { event_date, .. } => *event_date,
            Event::NoteAdded { event_date, .. } => *event_date,
            Event::NoteReplaced { event_date, .. } => *event_date,
            Event::SetProject { event_date, .. } => *event_date,
            Event::SetPriority { event_date, .. } => *event_date,
            Event::AddTag { event_date, .. } => *event_date,
        }
    }

    /// A copy of the event.
    pub fn duplicate(&self) -> (r: Event)
        ensures
            r@ == self@,
    {
        match self {
            Event::Created(date) => Event::Created(*date),
            Event::StatusChanged { event_date, status } => Event::StatusChanged {
                event_date: *event_date,
                status: *status,
            },
            Event::NoteAdded { event_date, content } => Event::NoteAdded {
                event_date: *event_date,
                content: content.clone(),
            },
            Event::NoteReplaced { event_date, note_uid, content } => Event::NoteReplaced {
                event_date: *event_date,
                note_uid: *note_uid,
                content: content.clone(),
            },
            Event::SetProject { event_date, project } => Event::SetProject {
                event_date: *event_date,
                project: project.clone(),
            },
            Event::SetPriority { event_date, priority } => Event::SetPriority {
                event_date: *event_date,
                priority: *priority,
            },
            Event::AddTag { event_date, tag } => Event::AddTag {
                event_date: *event_date,
                tag: tag.clone(),
            },
        }
    }
}

/// The events held by a sequence of [`Event`]s.
pub open spec fn event_views(v: Seq<Event>) -> Seq<EventView> {
    Seq::new(v.len(), |i: int| v[i]@)
}

/// A note attached to a task.
#[derive(Clone, Debug, PartialEq, Eq)]
pub struct Note {
    /// When the note was added.
    pub creation_date: Timestamp,
    /// When its text was last set.
    pub last_modification_date: Timestamp,
    /// The text.
    pub content: String,
}

/// What a [`Note`] holds, with its text as a character sequence.
pub struct NoteView {
    pub creation_date: Timestamp,
    pub last_modification_date: Timestamp,
    pub content: Seq<char>,
}

impl View for Note {
    type V = NoteView;

    open spec fn view(&self) -> NoteView {
        NoteView {
            creation_date: self.creation_date,
            last_modification_date: self.last_modification_date,
            content: self.content@,
        }
    }
}

/// The notes held by a sequence of [`Note`]s.
pub open spec fn note_views(v: Seq<Note>) -> Seq<NoteView> {
    Seq::new(v.len(), |i: int| v[i]@)
}

/// The status set by the latest `StatusChanged` event of `h`; `Todo` when there
/// is none.
pub open spec fn status_of(h: Seq<EventView>) -> Status
    decreases h.len(),
{
    if h.len() == 0 {
        Status::Todo
    } else {
        match h.last() {
            EventView::StatusChanged { status, .. } => status,
            _ => status_of(h.drop_last()),
        }
    }
}

/// The date of the earliest `Created` event of `h`, if there is one.
pub open spec fn creation_date_of(h: Seq<EventView>) -> Option<Timestamp>
    decreases h.len(),
{
    if h.len() == 0 {
        None
    } else {
        match h.first() {
            EventView::Created(date) => Some(date),
            _ => creation_date_of(h.drop_first()),
        }
    }
}

/// The name set by the latest `SetProject` event of `h`, if there is one.
pub open spec fn project_of(h: Seq<EventView>) -> Option<Seq<char>>
    decreases h.len(),
{
    if h.len() == 0 {
        None
    } else {
        match h.last() {
            EventView::SetProject { project, .. } => Some(project),
            _ => project_of(h.drop_last()),
        }
    }
}

/// The priority set by the latest `SetPriority` event of `h`, if there is one.
pub open spec fn priority_of(h: Seq<EventView>) -> Option<Priority>
    decreases h.len(),
{
    if h.len() == 0 {
        None
    } else {
        match h.last() {
            EventView::SetPriority { priority, .. } => Some(priority),
            _ => priority_of(h.drop_last()),
        }
    }
}

/// The tags added by the `AddTag` events of `h`, oldest first, repeats included.
pub open spec fn tags_of(h: Seq<EventView>) -> Seq<Seq<char>>
    decreases h.len(),
{
    if h.len() == 0 {
        Seq::empty()
    } else {
        match h.last() {
            EventView::AddTag { tag, .. } => tags_of(h.drop_last()).push(tag),
            _ => tags_of(h.drop_last()),
        }
    }
}

/// The notes after every event of `h` has been applied, oldest event first.
///
/// `NoteAdded` appends a note. `NoteReplaced` sets the text and the modification
/// date of the note at its position, and does nothing when there is no such note.
pub open spec fn notes_of(h: Seq<EventView>) -> Seq<NoteView>
    decreases h.len(),
{
    if h.len() == 0 {
        Seq::empty()
    } else {
        let notes = notes_of(h.drop_last());
        match h.last() {
            EventView::NoteAdded { event_date, content } => notes.push(
                NoteView { creation_date: event_date, last_modification_date: event_date, content },
            ),
            EventView::NoteReplaced { event_date, note_uid, content } => {
                if note_uid.0 < notes.len() {
                    notes.update(
                        note_uid.0 as int,
                        NoteView {
                            creation_date: notes[note_uid.0 as int].creation_date,
                            last_modification_date: event_date,
                            content,
                        },
                    )
                } else {
                    notes
                }
            },
            _ => notes,
        }
    }
}

/// The time credited so far, in nanoseconds, and the start of the interval that
/// is still open, after the events of `h`.
///
/// Entering `Ongoing` opens an interval, discarding one that was already open.
/// Any other status closes the open interval, if there is one, and credits its
/// length. Events that do not change the status leave both untouched.
pub open spec fn spent_state(h: Seq<EventView>) -> (int, Option<Timestamp>)
    decreases h.len(),
{
    if h.len() == 0 {
        (0, None)
    } else {
        let (spent, since) = spent_state(h.drop_last());
        match h.last() {
            EventView::StatusChanged { event_date, status } => {
                if status == Status::Ongoing {
                    (spent, Some(event_date))
                } else {
                    match since {
                        Some(start) => (spent + event_date.as_nanos() - start.as_nanos(), None),
                        None => (spent, None),
                    }
                }
            },
            _ => (spent, since),
        }
    }
}

/// Nanoseconds spent in `Ongoing` according to `h`, read at the moment `now`:
/// the credited time plus, if an interval is still open, its length up to `now`.
pub open spec fn spent_time_of(h: Seq<EventView>, now: Timestamp) -> int {
    let (spent, since) = spent_state(h);
    match since {
        Some(start) => spent + now.as_nanos() - start.as_nanos(),
        None => spent,
    }
}

/// Nanoseconds from the creation of the task to `now`; zero when `h` records no
/// creation.
pub open spec fn age_of(h: Seq<EventView>, now: Timestamp) -> int {
    match creation_date_of(h) {
        Some(created) => now.as_nanos() - created.as_nanos(),
        None => 0,
    }
}

/// The history of a task created at `date`.
pub open spec fn fresh_history(date: Timestamp) -> Seq<EventView> {
    seq![
        EventView::Created(date),
        EventView::StatusChanged { event_date: date, status: Status::Todo },
    ]
}

/// The event that records the annotation `m` at `date`.
pub open spec fn metadata_event(m: MetadataView, date: Timestamp) -> EventView {
    match m {
        MetadataView::Project(project) => EventView::SetProject { event_date: date, project },
        MetadataView::Priority(priority) => EventView::SetPriority { event_date: date, priority },
        MetadataView::Tag(tag) => EventView::AddTag { event_date: date, tag },
    }
}

/// The events that record the annotations `ms` at `date`, in order.
pub open spec fn metadata_events(ms: Seq<MetadataView>, date: Timestamp) -> Seq<EventView> {
    Seq::new(ms.len(), |i: int| metadata_event(ms[i], date))
}

/// Whether a task with history `h` meets `criterion`.
pub open spec fn meets(h: Seq<EventView>, criterion: MetadataView, case_insensitive: bool) -> bool {
    match criterion {
        MetadataView::Project(wanted) => match project_of(h) {
            Some(own) => text_matches(own, wanted, case_insensitive),
            None => false,
        },
        MetadataView::Priority(wanted) => priority_of(h) == Some(wanted),
        MetadataView::Tag(wanted) => exists|t: int|
            0 <= t < tags_of(h).len() && text_matches(
                #[trigger] tags_of(h)[t],
                wanted,
                case_insensitive,
            ),
    }
}

/// Whether a task with history `h` meets every criterion of `criteria`.
pub open spec fn meets_all(
    h: Seq<EventView>,
    criteria: Seq<MetadataView>,
    case_insensitive: bool,
) -> bool {
    forall|k: int| 0 <= k < criteria.len() ==> meets(h, #[trigger] criteria[k], case_insensitive)
}

/// A task: its name and everything that happened to it, oldest event first.
#[derive(Clone, Debug)]
pub struct Task {
    name: String,
    history: Vec<Event>,
}

/// What a [`Task`] holds.
pub struct TaskView {
    pub name: Seq<char>,
    pub history: Seq<EventView>,
}

impl TaskView {
    /// The task after `event` has been recorded.
    pub open spec fn with_event(self, event: EventView) -> TaskView {
        TaskView { name: self.name, history: self.history.push(event) }
    }
}

impl View for Task {
    type V = TaskView;

    closed spec fn view(&self) -> TaskView {
        TaskView { name: self.name@, history: event_views(self.history@) }
    }
}

impl Task {
    /// A task named `name`, created at `date` with status `Todo`.
    pub fn new_at(name: &str, date: Timestamp) -> (r: Task)
        ensures
            r@.name == name@,
            r@.history == fresh_history(date),
    {
        let mut history: Vec<Event> = Vec::new();
        history.push(Event::Created(date));
        history.push(Event::StatusChanged { event_date: date, status: Status::Todo });
        let task = Task { name: String::from_str(name), history };
        assert(task@.history =~= fresh_history(date));
        task
    }

    /// A task named `name`, created at the moment the system clock shows, with
    /// status `Todo`.
    pub fn new(name: &str) -> (r: Task)
        ensures
            r@.name == name@,
            r@.history.len() == 2,
            r@.history == fresh_history(r@.history[0].date()),
    {
        let date = now();
        Task::new_at(name, date)
    }

    /// A task with the given name and events, as read back from storage.
    pub fn from_parts(name: String, history: Vec<Event>) -> (r: Task)
        ensures
            r@.name == name@,
            r@.history == event_views(history@),
    {
        Task { name, history }
    }

    /// The name.
    pub fn name(&self) -> (r: &str)
        ensures
            r@ == self@.name,
    {
        self.name.as_str()
    }

    /// Every event, oldest first.
    pub fn history(&self) -> (r: &[Event])
        ensures
            event_views(r@) == self@.history,
    {
        self.history.as_slice()
    }

    /// Sets the name. This is the one change that leaves no event.
    pub fn change_name(&mut self, name: &str)
        ensures
            final(self)@.name == name@,
            final(self)@.history == old(self)@.history,
    {
        self.name = String::from_str(name);
    }

    /// The current status.
    pub fn status(&self) -> (r: Status)
        ensures
            r == status_of(self@.history),
    {
        let ghost h = self@.history;
        let mut i: usize = self.history.len();
        assert(h.take(i as int) == h);
        while i > 0
            invariant
                i <= self.history@.len(),
                h == event_views(self.history@),
                status_of(h) == status_of(h.take(i as int)),
            decreases i,
        {
            proof {
                assert(h.take(i as int).drop_last() == h.take(i - 1));
                assert(h.take(i as int).last() == self.history@[i - 1]@);
            }
            match &self.history[i - 1] {
                Event::StatusChanged { status, .. } => {
                    return *status;
                },
                _ => {},
            }
            i -= 1;
        }
        Status::Todo
    }

    /// When the task was created, if its history says so.
    pub fn creation_date(&self) -> (r: Option<Timestamp>)
        ensures
            r == creation_date_of(self@.history),
    {
        let ghost h = self@.history;
        let n = self.history.len();
        let mut i: usize = 0;
        assert(h.skip(0) == h);
        while i < n
            invariant
                n == self.history@.len(),
                i <= n,
                h == event_views(self.history@),
                creation_date_of(h) == creation_date_of(h.skip(i as int)),
            decreases n - i,
        {
            proof {
                assert(h.skip(i as int).drop_first() == h.skip(i + 1));
                assert(h.skip(i as int).first() == self.history@[i as int]@);
            }
            match &self.history[i] {
                Event::Created(date) => {
                    return Some(*date);
                },
                _ => {},
            }
            i += 1;
        }
        None
    }

    /// The time from the creation of the task to `now`.
    pub fn age_at(&self, now: &Timestamp) -> (r: Duration)
        ensures
            r.as_nanos() == age_of(self@.history, *now),
    {
        match self.creation_date() {
            Some(created) => now.signed_duration_since(&created),
            None => Duration::zero(),
        }
    }

    /// The time from the creation of the task to the moment the system clock
    /// shows: `age_at` of some moment.
    pub fn age(&self) -> (r: Duration)
        ensures
            exists|moment: Timestamp| r.as_nanos() == age_of(self@.history, moment),
    {
        let moment = now();
        self.age_at(&moment)
    }

    /// Appends `event` to the history.
    fn record(&mut self, event: Event)
        ensures
            final(self)@ == old(self)@.with_event(event@),
    {
        self.history.push(event);
        assert(final(self)@.history =~= old(self)@.history.push(event@));
    }

    /// Records at `date` that the status is now `status`, whatever it was before.
    pub fn change_status_at(&mut self, status: Status, date: Timestamp)
        ensures
            final(self)@ == old(self)@.with_event(
                EventView::StatusChanged { event_date: date, status },
            ),
    {
        self.record(Event::StatusChanged { event_date: date, status });
    }

    /// Records that the status is now `status`, dated by the system clock.
    pub fn change_status(&mut self, status: Status)
        ensures
            final(self)@ == old(self)@.with_event(
                EventView::StatusChanged {
                    event_date: final(self)@.history.last().date(),
                    status,
                },
            ),
    {
        let date = now();
        self.change_status_at(status, date);
    }

    /// Records at `date` a new note with the text `content`.
    pub fn add_note_at(&mut self, content: &str, date: Timestamp)
        ensures
            final(self)@ == old(self)@.with_event(
                EventView::NoteAdded { event_date: date, content: content@ },
            ),
    {
        self.record(Event::NoteAdded { event_date: date, content: String::from_str(content) });
    }

    /// Records a new note with the text `content`, dated by the system clock.
    pub fn add_note(&mut self, content: &str)
        ensures
            final(self)@ == old(self)@.with_event(
                EventView::NoteAdded {
                    event_date: final(self)@.history.last().date(),
                    content: content@,
                },
            ),
    {
        let date = now();
        self.add_note_at(content, date);
    }

    /// How many notes the task has.
    pub fn note_count(&self) -> (r: usize)
        ensures
            r == notes_of(self@.history).len(),
    {
        let ghost h = self@.history;
        let n = self.history.len();
        let mut count: usize = 0;
        let mut i: usize = 0;
        while i < n
            invariant
                n == self.history@.len(),
                i <= n,
                h == event_views(self.history@),
                count == notes_of(h.take(i as int)).len(),
                count <= i,
            decreases n - i,
        {
            proof {
                assert(h.take(i + 1).drop_last() == h.take(i as int));
                assert(h.take(i + 1).last() == self.history@[i as int]@);
            }
            match &self.history[i] {
                Event::NoteAdded { .. } => {
                    count += 1;
                },
                _ => {},
            }
            i += 1;
        }
        assert(h.take(n as int) == h);
        count
    }

    /// Records at `date` that the note at position `note_uid` now reads `content`.
    /// Fails, and records nothing, when the task has no note at that position.
    pub fn replace_note_at(&mut self, note_uid: UID, content: &str, date: Timestamp) -> (r: Result<
        (),
        Error,
    >)
        ensures
            match r {
                Ok(()) => {
                    &&& note_uid.0 < notes_of(old(self)@.history).len()
                    &&& final(self)@ == old(self)@.with_event(
                        EventView::NoteReplaced { event_date: date, note_uid, content: content@ },
                    )
                },
                Err(e) => {
                    &&& note_uid.0 >= notes_of(old(self)@.history).len()
                    &&& e == Error::UnknownNote(note_uid)
                    &&& final(self)@ == old(self)@
                },
            },
    {
        let count = self.note_count();
        if (note_uid.0 as usize) < count {
            self.record(
                Event::NoteReplaced {
                    event_date: date,
                    note_uid,
                    content: String::from_str(content),
                },
            );
            Ok(())
        } else {
            Err(Error::UnknownNote(note_uid))
        }
    }

    /// Records that the note at position `note_uid` now reads `content`, dated by
    /// the system clock. Fails, and records nothing, when the task has no note at
    /// that position.
    pub fn replace_note(&mut self, note_uid: UID, content: &str) -> (r: Result<(), Error>)
        ensures
            match r {
                Ok(()) => {
                    &&& note_uid.0 < notes_of(old(self)@.history).len()
                    &&& final(self)@ == old(self)@.with_event(
                        EventView::NoteReplaced {
                            event_date: final(self)@.history.last().date(),
                            note_uid,
                            content: content@,
                        },
                    )
                },
                Err(e) => {
                    &&& note_uid.0 >= notes_of(old(self)@.history).len()
                    &&& e == Error::UnknownNote(note_uid)
                    &&& final(self)@ == old(self)@
                },
            },
    {
        let date = now();
        self.replace_note_at(note_uid, content, date)
    }

    /// The notes, oldest first, each with its latest text.
    pub fn notes(&self) -> (r: Vec<Note>)
        ensures
            note_views(r@) == notes_of(self@.history),
    {
        let ghost h = self@.history;
        let mut notes: Vec<Note> = Vec::new();
        let n = self.history.len();
        let mut i: usize = 0;
        while i < n
            invariant
                n == self.history@.len(),
                i <= n,
                h == event_views(self.history@),
                note_views(notes@) == notes_of(h.take(i as int)),
            decreases n - i,
        {
            proof {
                assert(h.take(i + 1).drop_last() == h.take(i as int));
                assert(h.take(i + 1).last() == self.history@[i as int]@);
            }
            let ghost before = notes@;
            match &self.history[i] {
                Event::NoteAdded { event_date, content } => {
                    let note = Note {
                        creation_date: *event_date,
                        last_modification_date: *event_date,
                        content: content.clone(),
                    };
                    notes.push(note);
                    assert(note_views(notes@) =~= note_views(before).push(note@));
                },
                Event::NoteReplaced { event_date, note_uid, content } => {
                    let k = note_uid.0 as usize;
                    if k < notes.len() {
                        let note = Note {
                            creation_date: notes[k].creation_date,
                            last_modification_date: *event_date,
                            content: content.clone(),
                        };
                        notes.set(k, note);
                        assert(note_views(notes@) =~= note_views(before).update(k as int, note@));
                    }
                },
                _ => {},
            }
            i += 1;
        }
        assert(h.take(n as int) == h);
        notes
    }

    /// The time spent in `Ongoing`, read at the moment `now`.
    pub fn spent_time_at(&self, now: &Timestamp) -> (r: Duration)
        ensures
            r.as_nanos() == spent_time_of(self@.history, *now),
    {
        let ghost h = self@.history;
        let mut spent = Duration::zero();
        let mut since: Option<Timestamp> = None;
        let n = self.history.len();
        let mut i: usize = 0;
        while i < n
            invariant
                n == self.history@.len(),
                i <= n,
                h == event_views(self.history@),
                (spent.as_nanos(), since) == spent_state(h.take(i as int)),
                -i * 16_544_868_105_600_000_000_000 <= spent.as_nanos() <= i
                    * 16_544_868_105_600_000_000_000,
            decreases n - i,
        {
            proof {
                assert(h.take(i + 1).drop_last() == h.take(i as int));
                assert(h.take(i + 1).last() == self.history@[i as int]@);
            }
            match &self.history[i] {
                Event::StatusChanged { event_date, status } => {
                    if *status == Status::Ongoing {
                        since = Some(*event_date);
                    } else {
                        match since {
                            Some(start) => {
                                let interval = event_date.signed_duration_since(&start);
                                spent = spent.checked_add(&interval).unwrap();
                                since = None;
                            },
                            None => {},
                        }
                    }
                },
                _ => {},
            }
            i += 1;
        }
        proof {
            assert(h.take(n as int) == h);
        }
        match since {
            Some(start) => {
                let interval = now.signed_duration_since(&start);
                spent.checked_add(&interval).unwrap()
            },
            None => spent,
        }
    }

    /// The time spent in `Ongoing`, read at the moment the system clock shows:
    /// `spent_time_at` of some moment.
    pub fn spent_time(&self) -> (r: Duration)
        ensures
            exists|moment: Timestamp| r.as_nanos() == spent_time_of(self@.history, moment),
    {
        let moment = now();
        self.spent_time_at(&moment)
    }

    /// Records at `date` that the task belongs to `project`. An empty name takes
    /// the task out of its project.
    pub fn set_project_at(&mut self, project: &str, date: Timestamp)
        ensures
            final(self)@ == old(self)@.with_event(
                EventView::SetProject { event_date: date, project: project@ },
            ),
    {
        self.record(Event::SetProject { event_date: date, project: String::from_str(project) });
    }

    /// Records that the task belongs to `project`, dated by the system clock.
    pub fn set_project(&mut self, project: &str)
        ensures
            final(self)@ == old(self)@.with_event(
                EventView::SetProject {
                    event_date: final(self)@.history.last().date(),
                    project: project@,
                },
            ),
    {
        let date = now();
        self.set_project_at(project, date);
    }

    /// Records at `date` that the priority is `priority`.
    pub fn set_priority_at(&mut self, priority: Priority, date: Timestamp)
        ensures
            final(self)@ == old(self)@.with_event(
                EventView::SetPriority { event_date: date, priority },
            ),
    {
        self.record(Event::SetPriority { event_date: date, priority });
    }

    /// Records that the priority is `priority`, dated by the system clock.
    pub fn set_priority(&mut self, priority: Priority)
        ensures
            final(self)@ == old(self)@.with_event(
                EventView::SetPriority {
                    event_date: final(self)@.history.last().date(),
                    priority,
                },
            ),
    {
        let date = now();
        self.set_priority_at(priority, date);
    }

    /// Records at `date` that the task carries `tag`; a tag it already carries is
    /// added once more.
    pub fn add_tag_at(&mut self, tag: &str, date: Timestamp)
        ensures
            final(self)@ == old(self)@.with_event(EventView::AddTag { event_date: date, tag: tag@ }),
    {
        self.record(Event::AddTag { event_date: date, tag: String::from_str(tag) });
    }

    /// Records that the task carries `tag`, dated by the system clock.
    pub fn add_tag(&mut self, tag: &str)
        ensures
            final(self)@ == old(self)@.with_event(
                EventView::AddTag { event_date: final(self)@.history.last().date(), tag: tag@ },
            ),
    {
        let date = now();
        self.add_tag_at(tag, date);
    }

    /// Records every annotation of `metadata` at `date`, in the order given.
    pub fn apply_metadata_at(&mut self, metadata: &[Metadata], date: Timestamp)
        ensures
            final(self)@.name == old(self)@.name,
            final(self)@.history == old(self)@.history + metadata_events(
                metadata_views(metadata@),
                date,
            ),
    {
        let ghost ms = metadata_views(metadata@);
        let n = metadata.len();
        let mut i: usize = 0;
        assert(self@.history == old(self)@.history + metadata_events(ms.take(0), date));
        while i < n
            invariant
                n == metadata@.len(),
                i <= n,
                ms == metadata_views(metadata@),
                self@.name == old(self)@.name,
                self@.history == old(self)@.history + metadata_events(ms.take(i as int), date),
            decreases n - i,
        {
            let ghost before = self@.history;
            match &metadata[i] {
                Metadata::Project(name) => self.set_project_at(name.as_str(), date),
                Metadata::Priority(priority) => self.set_priority_at(*priority, date),
                Metadata::Tag(name) => self.add_tag_at(name.as_str(), date),
            }
            proof {
                assert(self@.history == before.push(metadata_event(ms[i as int], date)));
                assert(metadata_events(ms.take(i + 1), date) == metadata_events(
                    ms.take(i as int),
                    date,
                ).push(metadata_event(ms[i as int], date)));
            }
            i += 1;
        }
        assert(ms.take(n as int) == ms);
    }

    /// Records every annotation of `metadata`, in the order given, each dated by
    /// the system clock at the moment it is recorded.
    pub fn apply_metadata(&mut self, metadata: &[Metadata])
        ensures
            final(self)@.name == old(self)@.name,
            final(self)@.history.len() == old(self)@.history.len() + metadata@.len(),
            final(self)@.history.take(old(self)@.history.len() as int) == old(self)@.history,
            forall|i: int|
                0 <= i < metadata@.len() ==> #[trigger] final(self)@.history[old(
                    self,
                )@.history.len() + i] == metadata_event(
                    metadata@[i]@,
                    final(self)@.history[old(self)@.history.len() + i].date(),
                ),
    {
        let ghost h0 = self@.history;
        let n = metadata.len();
        let mut i: usize = 0;
        while i < n
            invariant
                n == metadata@.len(),
                i <= n,
                h0 == old(self)@.history,
                self@.name == old(self)@.name,
                self@.history.len() == h0.len() + i,
                self@.history.take(h0.len() as int) == h0,
                forall|k: int|
                    0 <= k < i ==> #[trigger] self@.history[h0.len() + k] == metadata_event(
                        metadata@[k]@,
                        self@.history[h0.len() + k].date(),
                    ),
            decreases n - i,
        {
            let ghost before = self@.history;
            match &metadata[i] {
                Metadata::Project(name) => self.set_project(name.as_str()),
                Metadata::Priority(priority) => self.set_priority(*priority),
                Metadata::Tag(name) => self.add_tag(name.as_str()),
            }
            proof {
                assert(self@.history.drop_last() == before);
                assert(self@.history.take(h0.len() as int) == before.take(h0.len() as int));
                assert forall|k: int| 0 <= k < i + 1 implies #[trigger] self@.history[h0.len() + k]
                    == metadata_event(metadata@[k]@, self@.history[h0.len() + k].date()) by {
                    if k < i {
                        assert(self@.history[h0.len() + k] == before[h0.len() + k]);
                    }
                }
            }
            i += 1;
        }
    }

    /// The project the task belongs to, if one was ever set. A project that was
    /// set and later cleared reads as the empty name.
    pub fn project(&self) -> (r: Option<&str>)
        ensures
            match r {
                Some(name) => project_of(self@.history) == Some(name@),
                None => project_of(self@.history) is None,
            },
    {
        let ghost h = self@.history;
        let mut i: usize = self.history.len();
        assert(h.take(i as int) == h);
        while i > 0
            invariant
                i <= self.history@.len(),
                h == event_views(self.history@),
                project_of(h) == project_of(h.take(i as int)),
            decreases i,
        {
            proof {
                assert(h.take(i as int).drop_last() == h.take(i - 1));
                assert(h.take(i as int).last() == self.history@[i - 1]@);
            }
            match &self.history[i - 1] {
                Event::SetProject { project, .. } => {
                    return Some(project.as_str());
                },
                _ => {},
            }
            i -= 1;
        }
        None
    }

    /// The priority, if one was ever set.
    pub fn priority(&self) -> (r: Option<Priority>)
        ensures
            r == priority_of(self@.history),
    {
        let ghost h = self@.history;
        let mut i: usize = self.history.len();
        assert(h.take(i as int) == h);
        while i > 0
            invariant
                i <= self.history@.len(),
                h == event_views(self.history@),
                priority_of(h) == priority_of(h.take(i as int)),
            decreases i,
        {
            proof {
                assert(h.take(i as int).drop_last() == h.take(i - 1));
                assert(h.take(i as int).last() == self.history@[i - 1]@);
            }
            match &self.history[i - 1] {
                Event::SetPriority { priority, .. } => {
                    return Some(*priority);
                },
                _ => {},
            }
            i -= 1;
        }
        None
    }

    /// The tags, in the order they were added, repeats included.
    pub fn tags(&self) -> (r: Vec<&str>)
        ensures
            slice_texts(r@) == tags_of(self@.history),
    {
        let ghost h = self@.history;
        let mut tags: Vec<&str> = Vec::new();
        let n = self.history.len();
        let mut i: usize = 0;
        while i < n
            invariant
                n == self.history@.len(),
                i <= n,
                h == event_views(self.history@),
                slice_texts(tags@) == tags_of(h.take(i as int)),
            decreases n - i,
        {
            proof {
                assert(h.take(i + 1).drop_last() == h.take(i as int));
                assert(h.take(i + 1).last() == self.history@[i as int]@);
            }
            let ghost before = tags@;
            match &self.history[i] {
                Event::AddTag { tag, .. } => {
                    tags.push(tag.as_str());
                    assert(slice_texts(tags@) =~= slice_texts(before).push(tag@));
                },
                _ => {},
            }
            i += 1;
        }
        assert(h.take(n as int) == h);
        tags
    }

    /// Whether the task meets every criterion of `criteria`: it belongs to each
    /// project named, has each priority named, and carries each tag named. Names
    /// are compared with case folded when `case_insensitive` is set.
    pub fn check_metadata(&self, criteria: &[Metadata], case_insensitive: bool) -> (r: bool)
        ensures
            r == meets_all(self@.history, metadata_views(criteria@), case_insensitive),
    {
        let ghost h = self@.history;
        let ghost cs = metadata_views(criteria@);
        let project = self.project();
        let priority = self.priority();
        let tags = self.tags();
        let n = criteria.len();
        let mut i: usize = 0;
        while i < n
            invariant
                n == criteria@.len(),
                i <= n,
                h == self@.history,
                cs == metadata_views(criteria@),
                match project {
                    Some(name) => project_of(h) == Some(name@),
                    None => project_of(h) is None,
                },
                priority == priority_of(h),
                slice_texts(tags@) == tags_of(h),
                forall|k: int| 0 <= k < i ==> meets(h, #[trigger] cs[k], case_insensitive),
            decreases n - i,
        {
            let met = match &criteria[i] {
                Metadata::Project(wanted) => match project {
                    Some(own) => texts_match(own, wanted.as_str(), case_insensitive),
                    None => false,
                },
                Metadata::Priority(wanted) => match priority {
                    Some(own) => own == *wanted,
                    None => false,
                },
                Metadata::Tag(wanted) => {
                    let m = tags.len();
                    let mut found = false;
                    let mut j: usize = 0;
                    while j < m && !found
                        invariant
                            m == tags@.len(),
                            j <= m,
                            slice_texts(tags@) == tags_of(h),
                            found ==> exists|t: int|
                                0 <= t < tags_of(h).len() && text_matches(
                                    #[trigger] tags_of(h)[t],
                                    wanted@,
                                    case_insensitive,
                                ),
                            !found ==> forall|t: int|
                                0 <= t < j ==> !text_matches(
                                    #[trigger] tags_of(h)[t],
                                    wanted@,
                                    case_insensitive,
                                ),
                        decreases m - j + if found { 0int } else { 1int },
                    {
                        assert(slice_texts(tags@)[j as int] == tags@[j as int]@);
                        if texts_match(tags[j], wanted.as_str(), case_insensitive) {
                            found = true;
                        } else {
                            j += 1;
                        }
                    }
                    found
                },
            };
            assert(met == meets(h, cs[i as int], case_insensitive));
            if !met {
                return false;
            }
            i += 1;
        }
        true
    }

//MORE
}

/// What is derived from a task depends on its history alone: two tasks with the
/// same events have the same status, creation date, project, priority, tags and
/// notes, and at any one moment the same age and the same time spent, whatever
/// their names.
pub proof fn lemma_derived_from_history(a: TaskView, b: TaskView, now: Timestamp)
    requires
        a.history == b.history,
    ensures
        status_of(a.history) == status_of(b.history),
        creation_date_of(a.history) == creation_date_of(b.history),
        project_of(a.history) == project_of(b.history),
        priority_of(a.history) == priority_of(b.history),
        tags_of(a.history) == tags_of(b.history),
        notes_of(a.history) == notes_of(b.history),
        age_of(a.history, now) == age_of(b.history, now),
        spent_time_of(a.history, now) == spent_time_of(b.history, now),
{
}

/// A history that never set a status reads as `Todo`.
pub proof fn lemma_status_default(h: Seq<EventView>)
    requires
        forall|i: int| 0 <= i < h.len() ==> !(#[trigger] h[i] is StatusChanged),
    ensures
        status_of(h) == Status::Todo,
    decreases h.len(),
{
    if h.len() > 0 {
        assert(!(h[h.len() - 1] is StatusChanged));
        lemma_status_default(h.drop_last());
    }
}

/// Whether the status changes of `h` are dated in the order in which they were
/// recorded, none of them later than `now`.
pub open spec fn status_changes_in_order(h: Seq<EventView>, now: Timestamp) -> bool {
    &&& forall|i: int, j: int|
        0 <= i < j < h.len() && #[trigger] h[i] is StatusChanged && #[trigger] h[j]
            is StatusChanged ==> h[i].date().as_nanos() <= h[j].date().as_nanos()
    &&& forall|i: int|
        0 <= i < h.len() && #[trigger] h[i] is StatusChanged ==> h[i].date().as_nanos()
            <= now.as_nanos()
}

/// The time credited by `h` is never negative, and an interval still open was
/// opened by a status change of `h`, when the status changes are in order.
proof fn lemma_spent_state_nonnegative(h: Seq<EventView>, now: Timestamp)
    requires
        status_changes_in_order(h, now),
    ensures
        spent_state(h).0 >= 0,
        spent_state(h).1 matches Some(start) ==> exists|i: int|
            0 <= i < h.len() && #[trigger] h[i] is StatusChanged && h[i].date() == start,
    decreases h.len(),
{
    if h.len() > 0 {
        let rest = h.drop_last();
        assert forall|i: int| 0 <= i < rest.len() implies rest[i] == h[i] by {}
        assert(status_changes_in_order(rest, now));
        lemma_spent_state_nonnegative(rest, now);
        let last = h.len() - 1;
        match spent_state(rest).1 {
            Some(start) => {
                let i = choose|i: int|
                    0 <= i < rest.len() && #[trigger] rest[i] is StatusChanged && rest[i].date()
                        == start;
                assert(h[i] is StatusChanged && h[i].date() == start);
                if h[last] is StatusChanged {
                    assert(h[i].date().as_nanos() <= h[last].date().as_nanos());
                }
            },
            None => {},
        }
        if h[last] is StatusChanged {
            assert(h[last].date() == h.last().date());
        }
    }
}

/// The time spent on a task is never negative, as long as its status changes
/// are dated in the order in which they were recorded and none is later than the
/// moment of reading.
pub proof fn lemma_spent_time_nonnegative(h: Seq<EventView>, now: Timestamp)
    requires
        status_changes_in_order(h, now),
    ensures
        spent_time_of(h, now) >= 0,
{
    lemma_spent_state_nonnegative(h, now);
    match spent_state(h).1 {
        Some(start) => {
            let i = choose|i: int|
                0 <= i < h.len() && #[trigger] h[i] is StatusChanged && h[i].date() == start;
            assert(h[i].date().as_nanos() <= now.as_nanos());
        },
        None => {},
    }
}

/// Recording an event never makes the time spent go down, unless the event
/// enters `Ongoing`: read at `earlier` before the event and at `later` after
/// it, the event dated in between, the second reading is at least the first.
pub proof fn lemma_spent_time_monotonic(
    h: Seq<EventView>,
    event: EventView,
    earlier: Timestamp,
    later: Timestamp,
)
    requires
        !(event matches EventView::StatusChanged { status, .. } && status == Status::Ongoing),
        earlier.as_nanos() <= event.date().as_nanos() <= later.as_nanos(),
    ensures
        spent_time_of(h, earlier) <= spent_time_of(h.push(event), later),
{
    assert(h.push(event).drop_last() == h);
    assert(h.push(event).last() == event);
}

/// A task has as many notes as its history has `NoteAdded` events: adding a
/// note makes one more, and no other event changes their number.
pub proof fn lemma_note_count(h: Seq<EventView>, event: EventView)
    ensures
        notes_of(h.push(event)).len() == notes_of(h).len() + if event is NoteAdded {
            1int
        } else {
            0int
        },
{
    assert(h.push(event).drop_last() == h);
    assert(h.push(event).last() == event);
}

/// Replacing the note at a position that exists sets its text and its
/// modification date, keeps its creation date, and leaves every other note as
/// it is.
pub proof fn lemma_note_replaced(h: Seq<EventView>, date: Timestamp, at: UID, text: Seq<char>)
    requires
        at.0 < notes_of(h).len(),
    ensures
        ({
            let before = notes_of(h);
            let after = notes_of(
                h.push(EventView::NoteReplaced { event_date: date, note_uid: at, content: text }),
            );
            &&& after.len() == before.len()
            &&& after[at.0 as int].content == text
            &&& after[at.0 as int].last_modification_date == date
            &&& after[at.0 as int].creation_date == before[at.0 as int].creation_date
            &&& forall|k: int| 0 <= k < before.len() && k != at.0 ==> after[k] == before[k]
        }),
{
    let event = EventView::NoteReplaced { event_date: date, note_uid: at, content: text };
    assert(h.push(event).drop_last() == h);
    assert(h.push(event).last() == event);
}

/// Replacing the note at a position that does not exist changes no note.
pub proof fn lemma_note_replaced_out_of_range(
    h: Seq<EventView>,
    date: Timestamp,
    at: UID,
    text: Seq<char>,
)
    requires
        at.0 >= notes_of(h).len(),
    ensures
        notes_of(
            h.push(EventView::NoteReplaced { event_date: date, note_uid: at, content: text }),
        ) == notes_of(h),
{
    let event = EventView::NoteReplaced { event_date: date, note_uid: at, content: text };
    assert(h.push(event).drop_last() == h);
    assert(h.push(event).last() == event);
}

impl UID {
    /// The identifier written in base ten.
    pub fn to_text(self) -> (r: String)
        ensures
            r@ == crate::text::decimal(self.0 as nat),
    {
        crate::text::decimal_string(self.0 as u128)
    }
}

impl Error {
    /// The error in words.
    pub open spec fn spec_message(self) -> Seq<char> {
        match self {
            Error::UnknownNote(uid) => "note "@ + crate::text::decimal(uid.0 as nat)
                + " doesn’t exist"@,
        }
    }

    /// The error in words.
    pub fn message(&self) -> (r: String)
        ensures
            r@ == self.spec_message(),
    {
        match self {
            Error::UnknownNote(uid) => {
                let mut s = String::from_str("note ");
                s.append(uid.to_text().as_str());
                s.append(" doesn’t exist");
                s
            },
        }
    }
}

impl From<UID> for u32 {
    fn from(uid: UID) -> (r: u32) {
        uid.0
    }
}

impl vstd::std_specs::convert::FromSpecImpl<UID> for u32 {
    open spec fn obeys_from_spec() -> bool {
        true
    }

    open spec fn from_spec(uid: UID) -> u32 {
        uid.0
    }
}

impl From<UID> for usize {
    fn from(uid: UID) -> (r: usize) {
        uid.0 as usize
    }
}

impl vstd::std_specs::convert::FromSpecImpl<UID> for usize {
    open spec fn obeys_from_spec() -> bool {
        true
    }

    open spec fn from_spec(uid: UID) -> usize {
        uid.0 as usize
    }
}

} // verus!
