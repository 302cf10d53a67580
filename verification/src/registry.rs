//! The registry of tasks: it hands out identifiers, looks tasks up, renames
//! projects, and lists the tasks a user asks for in the order they are shown.

use crate::filter::{passes, FilterView, TaskDescriptionFilter};
use crate::metadata::{metadata_views, Metadata, MetadataView, Priority};
use crate::task::{
    age_of, meets_all, priority_of, project_of, status_of, EventView, Status, Task, TaskView, UID,
};
use crate::time::{now, Duration, Timestamp};
use vstd::prelude::*;

verus! {

/// The tasks held by a sequence of registry entries, each with its identifier.
pub open spec fn entry_views(v: Seq<(UID, Task)>) -> Seq<(UID, TaskView)> {
    Seq::new(v.len(), |i: int| (v[i].0, v[i].1@))
}

/// Position of the first entry of `tasks` registered under `uid`; the length of
/// `tasks` when there is none.
pub open spec fn position_of(tasks: Seq<(UID, TaskView)>, uid: UID) -> int
    decreases tasks.len(),
{
    if tasks.len() == 0 {
        0
    } else if tasks.first().0 == uid {
        0
    } else {
        1 + position_of(tasks.drop_first(), uid)
    }
}

/// Whether some entry of `tasks` is registered under `uid`.
pub open spec fn is_registered(tasks: Seq<(UID, TaskView)>, uid: UID) -> bool {
    exists|i: int| 0 <= i < tasks.len() && (#[trigger] tasks[i]).0 == uid
}

/// `position_of` finds an entry under `uid` exactly when there is one.
pub proof fn lemma_position_of(tasks: Seq<(UID, TaskView)>, uid: UID)
    ensures
        0 <= position_of(tasks, uid) <= tasks.len(),
        position_of(tasks, uid) < tasks.len() <==> is_registered(tasks, uid),
        position_of(tasks, uid) < tasks.len() ==> tasks[position_of(tasks, uid)].0 == uid,
    decreases tasks.len(),
{
    if tasks.len() > 0 && tasks.first().0 != uid {
        let rest = tasks.drop_first();
        lemma_position_of(rest, uid);
        let at = position_of(rest, uid);
        if at < rest.len() {
            assert(tasks[at + 1].0 == uid);
        }
        if is_registered(tasks, uid) {
            let i = choose|i: int| 0 <= i < tasks.len() && (#[trigger] tasks[i]).0 == uid;
            assert(rest[i - 1].0 == uid);
        }
    }
}

/// Whether a task with history `h` belongs to exactly the project `name`.
pub open spec fn in_project(h: Seq<EventView>, name: Seq<char>) -> bool {
    project_of(h) == Some(name)
}

/// The entry after a renaming of project `current` to `new` at `date`: a task of
/// project `current` gets one more event, any other entry stays as it is.
pub open spec fn renamed_entry(
    entry: (UID, TaskView),
    current: Seq<char>,
    new: Seq<char>,
    date: Timestamp,
) -> (UID, TaskView) {
    if in_project(entry.1.history, current) {
        (entry.0, entry.1.with_event(EventView::SetProject { event_date: date, project: new }))
    } else {
        entry
    }
}

/// The identifiers of the entries of `tasks` whose task belongs to project
/// `name`, in the order of the entries.
pub open spec fn uids_in_project(tasks: Seq<(UID, TaskView)>, name: Seq<char>) -> Seq<UID>
    decreases tasks.len(),
{
    if tasks.len() == 0 {
        Seq::empty()
    } else if in_project(tasks.last().1.history, name) {
        uids_in_project(tasks.drop_last(), name).push(tasks.last().0)
    } else {
        uids_in_project(tasks.drop_last(), name)
    }
}

/// What a listing is sorted on.
pub struct ListingKey {
    pub priority: Option<Priority>,
    /// Age in nanoseconds.
    pub age: int,
    pub status: Status,
    pub uid: UID,
}

/// Rank of an optional priority: no priority ranks below every priority.
pub open spec fn priority_rank(priority: Option<Priority>) -> int {
    match priority {
        None => 0,
        Some(p) => p.spec_rank() + 1,
    }
}

/// The sort key of the task `task`, registered under `uid`, at the moment `now`.
pub open spec fn listing_key(uid: UID, task: TaskView, now: Timestamp) -> ListingKey {
    ListingKey {
        priority: priority_of(task.history),
        age: age_of(task.history, now),
        status: status_of(task.history),
        uid,
    }
}

/// Whether a task with key `a` is listed above a task with key `b`: higher
/// priority first, then older first, then greater status first, then greater
/// identifier first.
pub open spec fn listed_before(a: ListingKey, b: ListingKey) -> bool {
    if priority_rank(a.priority) != priority_rank(b.priority) {
        priority_rank(a.priority) > priority_rank(b.priority)
    } else if a.age != b.age {
        a.age > b.age
    } else if a.status.spec_rank() != b.status.spec_rank() {
        a.status.spec_rank() > b.status.spec_rank()
    } else {
        a.uid.0 > b.uid.0
    }
}

/// Whether a status is wanted, given one flag per status.
pub open spec fn status_selected(
    status: Status,
    todo: bool,
    start: bool,
    done: bool,
    cancelled: bool,
) -> bool {
    match status {
        Status::Todo => todo,
        Status::Ongoing => start,
        Status::Done => done,
        Status::Cancelled => cancelled,
    }
}

/// What a listing is asked to show.
pub struct Selection {
    /// Annotations that a task must meet, all of them.
    pub criteria: Seq<MetadataView>,
    /// Whether annotation names are compared with case folded.
    pub case_insensitive: bool,
    /// Words that the description must contain.
    pub name_filter: FilterView,
    pub todo: bool,
    pub start: bool,
    pub done: bool,
    pub cancelled: bool,
}

impl Selection {
    /// Whether `task` is to be shown: its status is wanted, it meets every
    /// criterion, and its name passes the filter.
    pub open spec fn selects(self, task: TaskView) -> bool {
        &&& status_selected(
            status_of(task.history),
            self.todo,
            self.start,
            self.done,
            self.cancelled,
        )
        &&& meets_all(task.history, self.criteria, self.case_insensitive)
        &&& passes(self.name_filter.terms, task.name, self.name_filter.case_insensitive)
    }
}

/// The rows of a listing as identifier and task.
pub open spec fn row_views(rows: Seq<(UID, &Task)>) -> Seq<(UID, TaskView)> {
    Seq::new(rows.len(), |j: int| (rows[j].0, rows[j].1@))
}

/// Whether each row of `rows` is listed above the rows after it.
pub open spec fn in_listing_order(rows: Seq<(UID, TaskView)>, now: Timestamp) -> bool {
    forall|j: int, k: int|
        0 <= j < k < rows.len() ==> listed_before(
            listing_key((#[trigger] rows[j]).0, rows[j].1, now),
            listing_key((#[trigger] rows[k]).0, rows[k].1, now),
        )
}

/// Whether `rows` is the listing of `tasks` under `selection` at `now`: it shows
/// registered tasks only, each of them selected; it shows every selected task;
/// and each row is listed above the rows after it.
pub open spec fn is_listing(
    rows: Seq<(UID, TaskView)>,
    tasks: Seq<(UID, TaskView)>,
    selection: Selection,
    now: Timestamp,
) -> bool {
    &&& forall|j: int|
        0 <= j < rows.len() ==> tasks.contains(#[trigger] rows[j]) && selection.selects(rows[j].1)
    &&& forall|i: int|
        0 <= i < tasks.len() && selection.selects((#[trigger] tasks[i]).1) ==> rows.contains(
            tasks[i],
        )
    &&& in_listing_order(rows, now)
}

/// Whether `row` is one of the first `upto` entries of `tasks`.
pub open spec fn among(tasks: Seq<(UID, TaskView)>, upto: int, row: (UID, TaskView)) -> bool {
    exists|k: int| 0 <= k < upto && #[trigger] tasks[k] == row
}

/// Whether `rows` is the listing of the first `upto` entries of `tasks`.
pub open spec fn is_listing_of_first(
    rows: Seq<(UID, TaskView)>,
    tasks: Seq<(UID, TaskView)>,
    upto: int,
    selection: Selection,
    now: Timestamp,
) -> bool {
    &&& forall|j: int|
        0 <= j < rows.len() ==> among(tasks, upto, #[trigger] rows[j]) && selection.selects(
            rows[j].1,
        )
    &&& forall|i: int|
        0 <= i < upto && selection.selects((#[trigger] tasks[i]).1) ==> rows.contains(tasks[i])
    &&& forall|j: int, k: int|
        0 <= j < k < rows.len() ==> listed_before(
            listing_key((#[trigger] rows[j]).0, rows[j].1, now),
            listing_key((#[trigger] rows[k]).0, rows[k].1, now),
        )
}

/// An entry that is not selected leaves the listing as it is.
proof fn lemma_listing_skip(
    rows: Seq<(UID, TaskView)>,
    tasks: Seq<(UID, TaskView)>,
    upto: int,
    selection: Selection,
    now: Timestamp,
)
    requires
        0 <= upto < tasks.len(),
        is_listing_of_first(rows, tasks, upto, selection, now),
        !selection.selects(tasks[upto].1),
    ensures
        is_listing_of_first(rows, tasks, upto + 1, selection, now),
{
    assert forall|j: int| 0 <= j < rows.len() implies among(tasks, upto + 1, #[trigger] rows[j]) by {
        assert(among(tasks, upto, rows[j]));
    }
}

/// A selected entry enters the listing below the rows it is not listed above.
proof fn lemma_listing_insert(
    rows: Seq<(UID, TaskView)>,
    tasks: Seq<(UID, TaskView)>,
    upto: int,
    selection: Selection,
    now: Timestamp,
    at: int,
)
    requires
        0 <= upto < tasks.len(),
        forall|i: int, j: int|
            0 <= i < j < tasks.len() ==> (#[trigger] tasks[i]).0.0 < (#[trigger] tasks[j]).0.0,
        is_listing_of_first(rows, tasks, upto, selection, now),
        selection.selects(tasks[upto].1),
        0 <= at <= rows.len(),
        forall|j: int|
            0 <= j < at ==> !listed_before(
                listing_key(tasks[upto].0, tasks[upto].1, now),
                listing_key((#[trigger] rows[j]).0, rows[j].1, now),
            ),
        at < rows.len() ==> listed_before(
            listing_key(tasks[upto].0, tasks[upto].1, now),
            listing_key(rows[at].0, rows[at].1, now),
        ),
    ensures
        is_listing_of_first(rows.insert(at, tasks[upto]), tasks, upto + 1, selection, now),
{
    let entry = tasks[upto];
    let key = listing_key(entry.0, entry.1, now);
    let shown = rows.insert(at, entry);
    assert forall|j: int| 0 <= j < shown.len() implies among(tasks, upto + 1, #[trigger] shown[j])
        && selection.selects(shown[j].1) by {
        if j < at {
            assert(among(tasks, upto, rows[j]));
        } else if j > at {
            assert(among(tasks, upto, rows[j - 1]));
        }
    }
    assert forall|i: int|
        0 <= i < upto + 1 && selection.selects((#[trigger] tasks[i]).1) implies shown.contains(
        tasks[i],
    ) by {
        if i == upto {
            assert(shown[at] == tasks[i]);
        } else {
            assert(rows.contains(tasks[i]));
            let j0 = choose|j: int| 0 <= j < rows.len() && rows[j] == tasks[i];
            if j0 < at {
                assert(shown[j0] == tasks[i]);
            } else {
                assert(shown[j0 + 1] == tasks[i]);
            }
        }
    }
    assert forall|j: int| 0 <= j < at implies listed_before(
        listing_key((#[trigger] rows[j]).0, rows[j].1, now),
        key,
    ) by {
        assert(among(tasks, upto, rows[j]));
        let k = choose|k: int| 0 <= k < upto && #[trigger] tasks[k] == rows[j];
        assert(tasks[k].0.0 < tasks[upto].0.0);
    }
    assert forall|j: int| at <= j < rows.len() implies listed_before(
        key,
        listing_key((#[trigger] rows[j]).0, rows[j].1, now),
    ) by {
        if j > at {
            assert(listed_before(
                listing_key(rows[at].0, rows[at].1, now),
                listing_key(rows[j].0, rows[j].1, now),
            ));
        }
    }
    assert forall|j: int, k: int| 0 <= j < k < shown.len() implies listed_before(
        listing_key((#[trigger] shown[j]).0, shown[j].1, now),
        listing_key((#[trigger] shown[k]).0, shown[k].1, now),
    ) by {
        let a = if j < at { j } else { j - 1 };
        let b = if k < at { k } else { k - 1 };
        if j != at {
            assert(shown[j] == rows[a]);
        }
        if k != at {
            assert(shown[k] == rows[b]);
        }
        if j != at && k != at {
            assert(listed_before(
                listing_key(rows[a].0, rows[a].1, now),
                listing_key(rows[b].0, rows[b].1, now),
            ));
        }
    }
}

/// The listing of all entries is the listing.
proof fn lemma_listing_complete(
    rows: Seq<(UID, TaskView)>,
    tasks: Seq<(UID, TaskView)>,
    selection: Selection,
    now: Timestamp,
)
    requires
        is_listing_of_first(rows, tasks, tasks.len() as int, selection, now),
    ensures
        is_listing(rows, tasks, selection, now),
{
    assert forall|j: int| 0 <= j < rows.len() implies tasks.contains(#[trigger] rows[j]) by {
        assert(among(tasks, tasks.len() as int, rows[j]));
    }
}

/// The sort key of one row, as computed.
struct RowKey {
    priority: Option<Priority>,
    age: Duration,
    status: Status,
    uid: UID,
}

impl View for RowKey {
    type V = ListingKey;

    closed spec fn view(&self) -> ListingKey {
        ListingKey {
            priority: self.priority,
            age: self.age.as_nanos(),
            status: self.status,
            uid: self.uid,
        }
    }
}

impl RowKey {
    /// Whether a row with this key is listed above a row with key `other`.
    fn is_before(&self, other: &RowKey) -> (r: bool)
        ensures
            r == listed_before(self@, other@),
    {
        let mine: u8 = match self.priority {
            None => 0,
            Some(p) => p.rank() + 1,
        };
        let theirs: u8 = match other.priority {
            None => 0,
            Some(p) => p.rank() + 1,
        };
        if mine != theirs {
            mine > theirs
        } else if other.age.is_less_than(&self.age) {
            true
        } else if self.age.is_less_than(&other.age) {
            false
        } else if self.status.rank() != other.status.rank() {
            self.status.rank() > other.status.rank()
        } else {
            self.uid.0 > other.uid.0
        }
    }
}

/// The registry of tasks: every task under its identifier, and the identifier
/// that the next task will get.
#[derive(Debug)]
pub struct TaskManager {
    next_uid: UID,
    tasks: Vec<(UID, Task)>,
}

/// What a [`TaskManager`] holds: the next identifier and the entries, in the
/// order of their identifiers.
pub struct ManagerView {
    pub next_uid: UID,
    pub tasks: Seq<(UID, TaskView)>,
}

impl ManagerView {
    /// Identifiers grow strictly from one entry to the next, and all are below
    /// the next identifier: no identifier is used twice, now or later.
    pub open spec fn wf(self) -> bool {
        &&& forall|i: int, j: int|
            0 <= i < j < self.tasks.len() ==> (#[trigger] self.tasks[i]).0.0 < (
            #[trigger] self.tasks[j]).0.0
        &&& forall|i: int|
            0 <= i < self.tasks.len() ==> (#[trigger] self.tasks[i]).0.0 < self.next_uid.0
    }
}

impl View for TaskManager {
    type V = ManagerView;

    closed spec fn view(&self) -> ManagerView {
        ManagerView { next_uid: self.next_uid, tasks: entry_views(self.tasks@) }
    }
}

impl TaskManager {
    /// An empty registry whose first task will get identifier 0.
    pub fn new() -> (r: TaskManager)
        ensures
            r@.next_uid == UID(0),
            r@.tasks.len() == 0,
            r@.wf(),
    {
        TaskManager { next_uid: UID(0), tasks: Vec::new() }
    }

    /// A registry with the given entries, as read back from storage. Returns
    /// `None` unless the identifiers grow strictly and stay below `next_uid`.
    pub fn from_parts(next_uid: UID, tasks: Vec<(UID, Task)>) -> (r: Option<TaskManager>)
        ensures
            r.is_some() <==> (ManagerView { next_uid, tasks: entry_views(tasks@) }).wf(),
            r matches Some(m) ==> m@ == (ManagerView { next_uid, tasks: entry_views(tasks@) }),
    {
        let ghost view = ManagerView { next_uid, tasks: entry_views(tasks@) };
        let n = tasks.len();
        let mut i: usize = 0;
        while i < n
            invariant
                n == tasks@.len(),
                i <= n,
                view == (ManagerView { next_uid, tasks: entry_views(tasks@) }),
                forall|a: int, b: int|
                    0 <= a < b < i ==> (#[trigger] view.tasks[a]).0.0 < (#[trigger] view.tasks[b]).0.0,
                forall|a: int| 0 <= a < i ==> (#[trigger] view.tasks[a]).0.0 < next_uid.0,
            decreases n - i,
        {
            if tasks[i].0.0 >= next_uid.0 {
                assert(view.tasks[i as int].0.0 >= next_uid.0);
                return None;
            }
            if i > 0 && tasks[i - 1].0.0 >= tasks[i].0.0 {
                assert(view.tasks[i - 1].0.0 >= view.tasks[i as int].0.0);
                return None;
            }
            assert forall|a: int, b: int| 0 <= a < b < i + 1 implies (#[trigger] view.tasks[a]).0.0
                < (#[trigger] view.tasks[b]).0.0 by {
                if b == i && a < i - 1 {
                    assert(view.tasks[a].0.0 < view.tasks[i - 1].0.0);
                }
            }
            i += 1;
        }
        Some(TaskManager { next_uid, tasks })
    }

    /// The identifier that the next registered task will get.
    pub fn next_uid(&self) -> (r: UID)
        ensures
            r == self@.next_uid,
    {
        self.next_uid
    }

    /// Every entry, in the order of the identifiers.
    pub fn tasks(&self) -> (r: &[(UID, Task)])
        ensures
            entry_views(r@) == self@.tasks,
    {
        self.tasks.as_slice()
    }

    /// Position of the entry registered under `uid`, if any.
    fn find(&self, uid: UID) -> (r: usize)
        ensures
            r == position_of(self@.tasks, uid),
            r <= self.tasks@.len(),
    {
        let ghost ts = self@.tasks;
        let n = self.tasks.len();
        let mut i: usize = 0;
        assert(ts.skip(0) == ts);
        while i < n
            invariant
                n == self.tasks@.len(),
                i <= n,
                ts == entry_views(self.tasks@),
                position_of(ts, uid) == i + position_of(ts.skip(i as int), uid),
            decreases n - i,
        {
            proof {
                assert(ts.skip(i as int).drop_first() == ts.skip(i + 1));
                assert(ts.skip(i as int).first() == (self.tasks@[i as int].0, self.tasks@[i as int].1@));
            }
            if self.tasks[i].0.0 == uid.0 {
                return i;
            }
            i += 1;
        }
        n
    }

    /// Allocates the next identifier, stores `task` under it and returns it.
    pub fn register_task(&mut self, task: Task) -> (uid: UID)
        requires
            old(self)@.wf(),
            old(self)@.next_uid.0 < u32::MAX,
        ensures
            uid == old(self)@.next_uid,
            final(self)@.next_uid == UID((uid.0 + 1) as u32),
            final(self)@.tasks == old(self)@.tasks.push((uid, task@)),
            final(self)@.wf(),
    {
        let uid = self.next_uid;
        self.next_uid = UID(uid.0 + 1);
        self.tasks.push((uid, task));
        assert(final(self)@.tasks =~= old(self)@.tasks.push((uid, task@)));
        uid
    }

    /// The task registered under `uid`, if there is one.
    pub fn get(&self, uid: UID) -> (r: Option<&Task>)
        ensures
            match r {
                Some(task) => {
                    &&& position_of(self@.tasks, uid) < self@.tasks.len()
                    &&& self@.tasks[position_of(self@.tasks, uid)] == (uid, task@)
                },
                None => !is_registered(self@.tasks, uid),
            },
    {
        proof {
            lemma_position_of(self@.tasks, uid);
        }
        let at = self.find(uid);
        if at < self.tasks.len() {
            Some(&self.tasks[at].1)
        } else {
            None
        }
    }

    /// The task registered under `uid`, if there is one, for changing in place.
    /// Whatever is done to the task, the rest of the registry stays as it is.
    pub fn get_mut(&mut self, uid: UID) -> (r: Option<&mut Task>)
        ensures
            match r {
                Some(task) => {
                    let at = position_of(old(self)@.tasks, uid);
                    &&& at < old(self)@.tasks.len()
                    &&& old(self)@.tasks[at] == (uid, task@)
                    &&& final(self)@.next_uid == old(self)@.next_uid
                    &&& final(self)@.tasks == old(self)@.tasks.update(at, (uid, final(task)@))
                },
                None => !is_registered(old(self)@.tasks, uid) && final(self)@ == old(self)@,
            },
            old(self)@.wf() ==> final(self)@.wf(),
    {
        proof {
            lemma_position_of(self@.tasks, uid);
        }
        let at = self.find(uid);
        if at < self.tasks.len() {
            proof {
                let entries = self.tasks@;
                assert forall|t: Task| #[trigger]
                    entry_views(entries.update(at as int, (uid, t))) == entry_views(
                        entries,
                    ).update(at as int, (uid, t@)) by {
                    assert(entry_views(entries.update(at as int, (uid, t))) =~= entry_views(
                        entries,
                    ).update(at as int, (uid, t@)));
                }
            }
            Some(&mut self.tasks[at].1)
        } else {
            None
        }
    }

    /// Moves every task of project `current` to project `new`, recording the
    /// change at `date`. Returns the identifiers of the tasks that were moved.
    ///
    /// Only tasks whose present project is exactly `current` are touched; each
    /// gets one `SetProject` event of its own.
    pub fn rename_project_at(&mut self, current: &str, new: &str, date: Timestamp) -> (r: Vec<UID>)
        ensures
            final(self)@.next_uid == old(self)@.next_uid,
            final(self)@.tasks.len() == old(self)@.tasks.len(),
            forall|i: int|
                0 <= i < old(self)@.tasks.len() ==> #[trigger] final(self)@.tasks[i]
                    == renamed_entry(old(self)@.tasks[i], current@, new@, date),
            r@ == uids_in_project(old(self)@.tasks, current@),
            old(self)@.wf() ==> final(self)@.wf(),
    {
        let ghost before = self@.tasks;
        let mut renamed: Vec<UID> = Vec::new();
        let n = self.tasks.len();
        let mut i: usize = 0;
        while i < n
            invariant
                n == self.tasks@.len(),
                i <= n,
                before == old(self)@.tasks,
                before.len() == n,
                self@.next_uid == old(self)@.next_uid,
                self@.tasks.len() == n,
                forall|k: int|
                    0 <= k < i ==> #[trigger] self@.tasks[k] == renamed_entry(
                        before[k],
                        current@,
                        new@,
                        date,
                    ),
                forall|k: int| i <= k < n ==> #[trigger] self@.tasks[k] == before[k],
                renamed@ == uids_in_project(before.take(i as int), current@),
            decreases n - i,
        {
            proof {
                assert(before.take(i + 1).drop_last() == before.take(i as int));
                assert(before.take(i + 1).last() == before[i as int]);
                assert(self@.tasks[i as int] == before[i as int]);
            }
            let uid = self.tasks[i].0;
            let in_project = match self.tasks[i].1.project() {
                Some(name) => *name == *current,
                None => false,
            };
            if in_project {
                let ghost entries = self.tasks@;
                proof {
                    assert forall|t: Task| #[trigger]
                        entry_views(entries.update(i as int, (uid, t))) == entry_views(
                            entries,
                        ).update(i as int, (uid, t@)) by {
                        assert(entry_views(entries.update(i as int, (uid, t))) =~= entry_views(
                            entries,
                        ).update(i as int, (uid, t@)));
                    }
                }
                let task = &mut self.tasks[i].1;
                task.set_project_at(new, date);
                renamed.push(uid);
            }
            i += 1;
        }
        proof {
            assert(before.take(n as int) == before);
        }
        renamed
    }

    /// Moves every task of project `current` to project `new`, each change dated
    /// by the system clock. Returns the identifiers of the tasks that were moved.
    pub fn rename_project(&mut self, current: &str, new: &str) -> (r: Vec<UID>)
        ensures
            final(self)@.next_uid == old(self)@.next_uid,
            final(self)@.tasks.len() == old(self)@.tasks.len(),
            forall|i: int|
                0 <= i < old(self)@.tasks.len() ==> #[trigger] final(self)@.tasks[i]
                    == renamed_entry(
                    old(self)@.tasks[i],
                    current@,
                    new@,
                    final(self)@.tasks[i].1.history.last().date(),
                ),
            r@ == uids_in_project(old(self)@.tasks, current@),
            old(self)@.wf() ==> final(self)@.wf(),
    {
        let ghost before = self@.tasks;
        let mut renamed: Vec<UID> = Vec::new();
        let n = self.tasks.len();
        let mut i: usize = 0;
        while i < n
            invariant
                n == self.tasks@.len(),
                i <= n,
                before == old(self)@.tasks,
                before.len() == n,
                self@.next_uid == old(self)@.next_uid,
                self@.tasks.len() == n,
                forall|k: int|
                    0 <= k < i ==> #[trigger] self@.tasks[k] == renamed_entry(
                        before[k],
                        current@,
                        new@,
                        self@.tasks[k].1.history.last().date(),
                    ),
                forall|k: int| i <= k < n ==> #[trigger] self@.tasks[k] == before[k],
                renamed@ == uids_in_project(before.take(i as int), current@),
            decreases n - i,
        {
            proof {
                assert(before.take(i + 1).drop_last() == before.take(i as int));
                assert(before.take(i + 1).last() == before[i as int]);
                assert(self@.tasks[i as int] == before[i as int]);
            }
            let uid = self.tasks[i].0;
            let in_project = match self.tasks[i].1.project() {
                Some(name) => *name == *current,
                None => false,
            };
            if in_project {
                let ghost entries = self.tasks@;
                proof {
                    assert forall|t: Task| #[trigger]
                        entry_views(entries.update(i as int, (uid, t))) == entry_views(
                            entries,
                        ).update(i as int, (uid, t@)) by {
                        assert(entry_views(entries.update(i as int, (uid, t))) =~= entry_views(
                            entries,
                        ).update(i as int, (uid, t@)));
                    }
                }
                let task = &mut self.tasks[i].1;
                task.set_project(new);
                renamed.push(uid);
            }
            i += 1;
        }
        proof {
            assert(before.take(n as int) == before);
        }
        renamed
    }

    /// The tasks to show, sorted for display, with ages taken at `now`.
    ///
    /// A task is shown when the flag of its status is set, it meets every
    /// criterion of `metadata`, and its name passes `name_filter`. Rows are sorted
    /// by priority, age, status and identifier, greatest first; a task without
    /// priority ranks below every priority.
    pub fn filtered_task_listing_at(
        &self,
        metadata: &[Metadata],
        name_filter: &TaskDescriptionFilter,
        todo: bool,
        start: bool,
        done: bool,
        cancelled: bool,
        case_insensitive: bool,
        now: &Timestamp,
    ) -> (r: Vec<(UID, &Task)>)
        requires
            self@.wf(),
        ensures
            is_listing(
                row_views(r@),
                self@.tasks,
                Selection {
                    criteria: metadata_views(metadata@),
                    case_insensitive,
                    name_filter: name_filter@,
                    todo,
                    start,
                    done,
                    cancelled,
                },
                *now,
            ),
    {
        let ghost tasks = self@.tasks;
        let ghost selection = Selection {
            criteria: metadata_views(metadata@),
            case_insensitive,
            name_filter: name_filter@,
            todo,
            start,
            done,
            cancelled,
        };
        let mut rows: Vec<(UID, &Task)> = Vec::new();
        let mut keys: Vec<RowKey> = Vec::new();
        let n = self.tasks.len();
        let mut i: usize = 0;
        while i < n
            invariant
                n == self.tasks@.len(),
                i <= n,
                tasks == entry_views(self.tasks@),
                tasks == self@.tasks,
                self@.wf(),
                selection == (Selection {
                    criteria: metadata_views(metadata@),
                    case_insensitive,
                    name_filter: name_filter@,
                    todo,
                    start,
                    done,
                    cancelled,
                }),
                keys@.len() == rows@.len(),
                forall|j: int|
                    0 <= j < rows@.len() ==> (#[trigger] keys@[j])@ == listing_key(
                        row_views(rows@)[j].0,
                        row_views(rows@)[j].1,
                        *now,
                    ),
                is_listing_of_first(row_views(rows@), tasks, i as int, selection, *now),
            decreases n - i,
        {
            let uid = self.tasks[i].0;
            let task = &self.tasks[i].1;
            assert(tasks[i as int] == (uid, task@));
            let status = task.status();
            let wanted = match status {
                Status::Todo => todo,
                Status::Ongoing => start,
                Status::Done => done,
                Status::Cancelled => cancelled,
            };
            let ghost old_rows = row_views(rows@);
            let ghost old_keys = keys@;
            if wanted && task.check_metadata(metadata, case_insensitive) && name_filter.accepts(
                task.name(),
            ) {
                let key = RowKey {
                    priority: task.priority(),
                    age: task.age_at(now),
                    status,
                    uid,
                };
                assert(key@ == listing_key(uid, task@, *now));
                let m = keys.len();
                let mut at: usize = 0;
                while at < m && !key.is_before(&keys[at])
                    invariant
                        m == keys@.len(),
                        at <= m,
                        forall|j: int| 0 <= j < at ==> !listed_before(key@, (#[trigger] keys@[j])@),
                    decreases m - at,
                {
                    at += 1;
                }
                proof {
                    assert forall|j: int| 0 <= j < at implies !listed_before(
                        listing_key(uid, task@, *now),
                        listing_key((#[trigger] old_rows[j]).0, old_rows[j].1, *now),
                    ) by {
                        assert(!listed_before(key@, old_keys[j]@));
                    }
                    if at < m {
                        assert(listed_before(key@, old_keys[at as int]@));
                    }
                    lemma_listing_insert(old_rows, tasks, i as int, selection, *now, at as int);
                }
                rows.insert(at, (uid, task));
                keys.insert(at, key);
                proof {
                    let shown = row_views(rows@);
                    assert(shown =~= old_rows.insert(at as int, (uid, task@)));
                    assert forall|j: int| 0 <= j < shown.len() implies (#[trigger] keys@[j])@
                        == listing_key(shown[j].0, shown[j].1, *now) by {
                        if j < at {
                            assert(shown[j] == old_rows[j] && keys@[j] == old_keys[j]);
                        } else if j > at {
                            assert(shown[j] == old_rows[j - 1] && keys@[j] == old_keys[j - 1]);
                        }
                    }
                }
            } else {
                proof {
                    lemma_listing_skip(old_rows, tasks, i as int, selection, *now);
                }
            }
            i += 1;
        }
        proof {
            lemma_listing_complete(row_views(rows@), tasks, selection, *now);
        }
        rows
    }

    /// The tasks to show, sorted for display, with ages taken at the moment the
    /// system clock shows: the listing at some moment.
    pub fn filtered_task_listing(
        &self,
        metadata: &[Metadata],
        name_filter: &TaskDescriptionFilter,
        todo: bool,
        start: bool,
        done: bool,
        cancelled: bool,
        case_insensitive: bool,
    ) -> (r: Vec<(UID, &Task)>)
        requires
            self@.wf(),
        ensures
            exists|moment: Timestamp|
                is_listing(
                    row_views(r@),
                    self@.tasks,
                    Selection {
                        criteria: metadata_views(metadata@),
                        case_insensitive,
                        name_filter: name_filter@,
                        todo,
                        start,
                        done,
                        cancelled,
                    },
                    moment,
                ),
    {
        let moment = now();
        self.filtered_task_listing_at(
            metadata,
            name_filter,
            todo,
            start,
            done,
            cancelled,
            case_insensitive,
            &moment,
        )
    }
}

/// Of two tasks with different identifiers, exactly one is listed above the
/// other: the order of a listing leaves no tie.
pub proof fn lemma_listing_order_total(a: ListingKey, b: ListingKey)
    requires
        a.uid != b.uid,
    ensures
        listed_before(a, b) != listed_before(b, a),
{
}

/// The order of a listing is transitive, and no task is listed above itself.
pub proof fn lemma_listing_order_strict(a: ListingKey, b: ListingKey, c: ListingKey)
    ensures
        !listed_before(a, a),
        listed_before(a, b) && listed_before(b, c) ==> listed_before(a, c),
{
}

/// Two sequences of rows in listing order that show the same rows are the
/// same sequence.
pub proof fn lemma_listing_order_unique(
    a: Seq<(UID, TaskView)>,
    b: Seq<(UID, TaskView)>,
    now: Timestamp,
)
    requires
        in_listing_order(a, now),
        in_listing_order(b, now),
        forall|row: (UID, TaskView)| a.contains(row) <==> b.contains(row),
    ensures
        a == b,
    decreases a.len(),
{
    if a.len() == 0 {
        if b.len() > 0 {
            assert(b.contains(b[0]));
        }
        assert(a =~= b);
    } else {
        assert(a.contains(a[0]));
        assert(b.contains(a[0]));
        let j = choose|j: int| 0 <= j < b.len() && b[j] == a[0];
        assert(b.contains(b[0]));
        assert(a.contains(b[0]));
        let i = choose|i: int| 0 <= i < a.len() && a[i] == b[0];
        if j > 0 {
            assert(listed_before(
                listing_key(b[0].0, b[0].1, now),
                listing_key(b[j].0, b[j].1, now),
            ));
            if i > 0 {
                assert(listed_before(
                    listing_key(a[0].0, a[0].1, now),
                    listing_key(a[i].0, a[i].1, now),
                ));
            }
        }
        assert(b[0] == a[0]);
        let rest_a = a.skip(1);
        let rest_b = b.skip(1);
        assert forall|row: (UID, TaskView)| rest_a.contains(row) <==> rest_b.contains(row) by {
            if rest_a.contains(row) {
                let k = choose|k: int| 0 <= k < rest_a.len() && rest_a[k] == row;
                assert(a[k + 1] == row);
                assert(listed_before(
                    listing_key(a[0].0, a[0].1, now),
                    listing_key(a[k + 1].0, a[k + 1].1, now),
                ));
                assert(a.contains(row));
                assert(b.contains(row));
                let m = choose|m: int| 0 <= m < b.len() && b[m] == row;
                assert(m > 0);
                assert(rest_b[m - 1] == row);
            }
            if rest_b.contains(row) {
                let k = choose|k: int| 0 <= k < rest_b.len() && rest_b[k] == row;
                assert(b[k + 1] == row);
                assert(listed_before(
                    listing_key(b[0].0, b[0].1, now),
                    listing_key(b[k + 1].0, b[k + 1].1, now),
                ));
                assert(b.contains(row));
                assert(a.contains(row));
                let m = choose|m: int| 0 <= m < a.len() && a[m] == row;
                assert(m > 0);
                assert(rest_a[m - 1] == row);
            }
        }
        assert(in_listing_order(rest_a, now)) by {
            assert forall|j: int, k: int| 0 <= j < k < rest_a.len() implies listed_before(
                listing_key((#[trigger] rest_a[j]).0, rest_a[j].1, now),
                listing_key((#[trigger] rest_a[k]).0, rest_a[k].1, now),
            ) by {
                assert(listed_before(
                    listing_key(a[j + 1].0, a[j + 1].1, now),
                    listing_key(a[k + 1].0, a[k + 1].1, now),
                ));
            }
        }
        assert(in_listing_order(rest_b, now)) by {
            assert forall|j: int, k: int| 0 <= j < k < rest_b.len() implies listed_before(
                listing_key((#[trigger] rest_b[j]).0, rest_b[j].1, now),
                listing_key((#[trigger] rest_b[k]).0, rest_b[k].1, now),
            ) by {
                assert(listed_before(
                    listing_key(b[j + 1].0, b[j + 1].1, now),
                    listing_key(b[k + 1].0, b[k + 1].1, now),
                ));
            }
        }
        lemma_listing_order_unique(rest_a, rest_b, now);
        assert(a =~= seq![a[0]] + rest_a);
        assert(b =~= seq![b[0]] + rest_b);
    }
}

/// A registry has one listing for a selection at a moment: whatever is a listing
/// of its tasks is the listing.
pub proof fn lemma_listing_unique(
    first: Seq<(UID, TaskView)>,
    second: Seq<(UID, TaskView)>,
    tasks: Seq<(UID, TaskView)>,
    selection: Selection,
    now: Timestamp,
)
    requires
        is_listing(first, tasks, selection, now),
        is_listing(second, tasks, selection, now),
    ensures
        first == second,
{
    assert forall|row: (UID, TaskView)| first.contains(row) <==> second.contains(row) by {
        if first.contains(row) {
            let j = choose|j: int| 0 <= j < first.len() && first[j] == row;
            assert(tasks.contains(first[j]) && selection.selects(first[j].1));
            let i = choose|i: int| 0 <= i < tasks.len() && tasks[i] == row;
            assert(selection.selects(tasks[i].1));
        }
        if second.contains(row) {
            let j = choose|j: int| 0 <= j < second.len() && second[j] == row;
            assert(tasks.contains(second[j]) && selection.selects(second[j].1));
            let i = choose|i: int| 0 <= i < tasks.len() && tasks[i] == row;
            assert(selection.selects(tasks[i].1));
        }
    }
    lemma_listing_order_unique(first, second, now);
}

} // verus!
