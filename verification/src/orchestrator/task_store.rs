//! Task snapshots kept across sessions: the document a file-backed store
//! reads and writes, and an in-memory store.
//!
//! Both offer the same operations: record (insert or replace by id), list
//! (newest first), get, cancel (pending tasks only) and retry (failed,
//! cancelled or timed-out tasks only).

use vstd::prelude::*;
use dashmap::DashMap;
use crate::error::{SwarmError, SwarmResult};
use crate::identity::TaskId;
use crate::task::{can_retry_spec, same_task, status_label, Task, TaskStatus};
use crate::recency::{by_recency, lemma_by_recency, newest_first, sort_newest_first, Dated};
use crate::text::owned;
use crate::types::Timestamp;

verus! {

impl Dated for Task {
    open spec fn date(&self) -> Timestamp {
        self.created_at
    }

    fn date_of(&self) -> (r: Timestamp) {
        self.created_at
    }
}

/// Whether `i` is the first position of `s` holding task `id`.
pub open spec fn first_match(s: Seq<Task>, id: TaskId, i: int) -> bool {
    &&& 0 <= i < s.len()
    &&& s[i].id == id
    &&& forall|j: int| 0 <= j < i ==> s[j].id != id
}

/// Whether some element of `s` holds task `id`.
pub open spec fn holds_task(s: Seq<Task>, id: TaskId) -> bool {
    exists|i: int| 0 <= i < s.len() && #[trigger] s[i].id == id
}

/// The first position of a task in `v`, if it is there.
fn find_task(v: &Vec<Task>, id: &TaskId) -> (r: Option<usize>)
    ensures
        r matches Some(i) ==> first_match(v@, *id, i as int),
        r is None ==> !holds_task(v@, *id),
{
    let n = v.len();
    let mut i: usize = 0;
    while i < n
        invariant
            i <= n == v@.len(),
            forall|j: int| 0 <= j < i ==> v@[j].id != *id,
        decreases n - i,
    {
        if v[i].id == *id {
            return Some(i);
        }
        i = i + 1;
    }
    None
}

/// What a successful cancel makes of a task: `Cancelled` at `at` for
/// `reason`, updated at `at`, all else kept.
pub open spec fn cancelled(t: Task, at: Timestamp, reason: Option<String>) -> Task {
    Task { status: TaskStatus::Cancelled { cancelled_at: at, reason }, updated_at: at, ..t }
}

/// What a successful retry makes of a task: `Pending` again, updated at
/// `at`, all else kept.
pub open spec fn retried(t: Task, at: Timestamp) -> Task {
    Task { status: TaskStatus::Pending, updated_at: at, ..t }
}

/// The stored snapshots of a file-backed task store, in recording order.
#[derive(Debug)]
pub struct TaskStoreDocument {
    /// The snapshots.
    pub tasks: Vec<Task>,
}

impl TaskStoreDocument {
    /// An empty document.
    pub fn new() -> (r: Self)
        ensures
            r.tasks@ == Seq::<Task>::empty(),
    {
        TaskStoreDocument { tasks: Vec::new() }
    }

    /// Record a snapshot: it replaces the first snapshot of the same task,
    /// or is appended when the task is new.
    pub fn record(&mut self, task: Task)
        ensures
            holds_task(old(self).tasks@, task.id) ==> exists|i: int|
                first_match(old(self).tasks@, task.id, i) && final(self).tasks@ == old(self).tasks@.update(
                    i,
                    task,
                ),
            !holds_task(old(self).tasks@, task.id) ==> final(self).tasks@ == old(self).tasks@.push(task),
    {
        match find_task(&self.tasks, &task.id) {
            Some(i) => {
                self.tasks.set(i, task);
            },
            None => {
                self.tasks.push(task);
            },
        }
    }

    /// Copies of all snapshots, newest first.
    pub fn list(&self) -> (r: Vec<Task>)
        ensures
            r@.len() == self.tasks@.len(),
            exists|copies: Seq<Task>|
                copies.len() == self.tasks@.len() && (forall|i: int|
                    0 <= i < copies.len() ==> same_task(#[trigger] copies[i], self.tasks@[i]))
                    && r@ == by_recency(copies),
    {
        let copies = copy_tasks(&self.tasks);
        proof {
            lemma_by_recency(copies@);
        }
        sort_newest_first(copies)
    }

    /// A copy of the first snapshot of a task, if there is one.
    pub fn get(&self, id: &TaskId) -> (r: Option<Task>)
        ensures
            !holds_task(self.tasks@, *id) ==> r is None,
            holds_task(self.tasks@, *id) ==> exists|i: int|
                first_match(self.tasks@, *id, i) && r is Some && same_task(r->Some_0, self.tasks@[i]),
    {
        match find_task(&self.tasks, id) {
            Some(i) => Some(self.tasks[i].duplicate()),
            None => None,
        }
    }

    /// Cancel a pending task. An unknown task is `TaskNotFound`; a task that
    /// is not `Pending` is `InvalidTaskSpec`; in both cases nothing changes.
    /// Otherwise the snapshot becomes `Cancelled` and a copy is returned.
    pub fn cancel(&mut self, id: &TaskId, reason: Option<String>) -> (r: SwarmResult<Task>)
        ensures
            !holds_task(old(self).tasks@, *id) ==> (r matches Err(SwarmError::TaskNotFound { id: e })
                && e == *id) && final(self).tasks@ == old(self).tasks@,
            holds_task(old(self).tasks@, *id) ==> exists|i: int|
                first_match(old(self).tasks@, *id, i) && {
                    let t = old(self).tasks@[i];
                    &&& !(t.status is Pending) ==> (r matches Err(SwarmError::InvalidTaskSpec { reason: why })
                        && why@ == cancel_refused_reason(t.status)) && final(self).tasks@ == old(self).tasks@
                    &&& t.status is Pending ==> exists|at: Timestamp|
                        final(self).tasks@ == old(self).tasks@.update(i, cancelled(t, at, reason))
                            && r is Ok && same_task(r->Ok_0, cancelled(t, at, reason))
                },
    {
        match find_task(&self.tasks, id) {
            None => Err(SwarmError::TaskNotFound { id: *id }),
            Some(i) => {
                if !matches!(self.tasks[i].status, TaskStatus::Pending) {
                    return Err(SwarmError::InvalidTaskSpec { reason: cancel_refusal(&self.tasks[i].status) });
                }
                let ghost prev = self.tasks@;
                let mut tasks: Vec<Task> = Vec::new();
                core::mem::swap(&mut tasks, &mut self.tasks);
                let mut t = tasks.remove(i);
                let ghost before = t;
                t.cancel(reason);
                let snapshot = t.duplicate();
                proof {
                    assert(t == cancelled(before, t.updated_at, reason));
                }
                tasks.insert(i, t);
                proof {
                    assert(tasks@ =~= prev.update(i as int, t));
                }
                self.tasks = tasks;
                Ok(snapshot)
            },
        }
    }

    /// Return a failed, cancelled or timed-out task to `Pending`. An unknown
    /// task is `TaskNotFound`; a task in another state is `InvalidTaskSpec`;
    /// in both cases nothing changes. A copy of the result is returned.
    pub fn retry(&mut self, id: &TaskId) -> (r: SwarmResult<Task>)
        ensures
            !holds_task(old(self).tasks@, *id) ==> (r matches Err(SwarmError::TaskNotFound { id: e })
                && e == *id) && final(self).tasks@ == old(self).tasks@,
            holds_task(old(self).tasks@, *id) ==> exists|i: int|
                first_match(old(self).tasks@, *id, i) && {
                    let t = old(self).tasks@[i];
                    &&& !can_retry_spec(t.status) ==> (r matches Err(
                        SwarmError::InvalidTaskSpec { reason: why },
                    ) && why@ == retry_refused_reason(t.status)) && final(self).tasks@ == old(self).tasks@
                    &&& can_retry_spec(t.status) ==> exists|at: Timestamp|
                        final(self).tasks@ == old(self).tasks@.update(i, retried(t, at)) && r is Ok
                            && same_task(r->Ok_0, retried(t, at))
                },
    {
        match find_task(&self.tasks, id) {
            None => Err(SwarmError::TaskNotFound { id: *id }),
            Some(i) => {
                if !self.tasks[i].status.can_retry() {
                    return Err(SwarmError::InvalidTaskSpec { reason: retry_refusal(&self.tasks[i].status) });
                }
                let ghost prev = self.tasks@;
                let mut tasks: Vec<Task> = Vec::new();
                core::mem::swap(&mut tasks, &mut self.tasks);
                let mut t = tasks.remove(i);
                let ghost before = t;
                let _ = t.retry();
                let snapshot = t.duplicate();
                proof {
                    assert(t == retried(before, t.updated_at));
                }
                tasks.insert(i, t);
                proof {
                    assert(tasks@ =~= prev.update(i as int, t));
                }
                self.tasks = tasks;
                Ok(snapshot)
            },
        }
    }
}

/// Copies of all tasks of `v`, in order.
fn copy_tasks(v: &Vec<Task>) -> (r: Vec<Task>)
    ensures
        r@.len() == v@.len(),
        forall|i: int| 0 <= i < v@.len() ==> same_task(#[trigger] r@[i], v@[i]),
{
    let mut out: Vec<Task> = Vec::new();
    let n = v.len();
    let mut i: usize = 0;
    while i < n
        invariant
            i <= n == v@.len(),
            out@.len() == i,
            forall|k: int| 0 <= k < i ==> same_task(#[trigger] out@[k], v@[k]),
        decreases n - i,
    {
        out.push(v[i].duplicate());
        i = i + 1;
    }
    out
}

/// The concurrent table of task snapshots, keyed by task identifier value.
pub type TaskTable = DashMap<u128, Task>;

/// The entries of a task table, keyed by the task identifier's value.
pub uninterp spec fn task_table(m: TaskTable) -> Map<u128, Task>;

/// `DashMap::new`: an empty table.
#[verifier::external_body]
pub(crate) fn tasks_new() -> (r: TaskTable)
    ensures
        task_table(r).dom() == Set::<u128>::empty(),
{
    DashMap::new()
}

/// `DashMap::insert`: the entry for `key` becomes `value`, all others stay.
#[verifier::external_body]
pub(crate) fn tasks_insert(m: &mut TaskTable, key: u128, value: Task)
    ensures
        task_table(*final(m)) == task_table(*old(m)).insert(key, value),
{
    m.insert(key, value);
}

/// `DashMap::remove`: the entry for `key` leaves the table and its value is
/// handed back; all other entries stay.
#[verifier::external_body]
pub(crate) fn tasks_remove(m: &mut TaskTable, key: u128) -> (r: Option<Task>)
    ensures
        task_table(*final(m)) == task_table(*old(m)).remove(key),
        task_table(*old(m)).dom().contains(key) ==> r == Some(task_table(*old(m))[key]),
        !task_table(*old(m)).dom().contains(key) ==> r.is_none(),
{
    m.remove(&key).map(|(_, v)| v)
}

/// `DashMap::get`: a copy of the entry for `key`, if there is one.
#[verifier::external_body]
pub(crate) fn tasks_get(m: &TaskTable, key: u128) -> (r: Option<Task>)
    ensures
        task_table(*m).dom().contains(key) <==> r.is_some(),
        r matches Some(t) ==> same_task(t, task_table(*m)[key]),
{
    m.get(&key).map(|e| e.value().duplicate())
}

/// `DashMap::iter`: every entry's key with a copy of its value, each entry
/// once, in the map's own order (which the contract leaves open).
#[verifier::external_body]
pub(crate) fn tasks_entries(m: &TaskTable) -> (r: Vec<(u128, Task)>)
    ensures
        r@.len() == task_table(*m).dom().len(),
        forall|i: int| 0 <= i < r@.len() ==> #[trigger] task_table(*m).dom().contains(r@[i].0)
            && same_task(r@[i].1, task_table(*m)[r@[i].0]),
        forall|k: u128| task_table(*m).dom().contains(k) ==> exists|i: int|
            0 <= i < r@.len() && #[trigger] r@[i].0 == k,
        forall|i: int, j: int| 0 <= i < j < r@.len() ==> r@[i].0 != r@[j].0,
{
    m.iter().map(|e| (*e.key(), e.value().duplicate())).collect()
}

/// Copies of the snapshots of a table that files each under its own task
/// identifier, each once, in the table's own order.
fn tasks_values(m: &TaskTable) -> (r: Vec<Task>)
    requires
        tasks_keyed_by_id(task_table(*m)),
    ensures
        r@.len() == task_table(*m).dom().len(),
        forall|i: int| 0 <= i < r@.len() ==> #[trigger] task_table(*m).dom().contains(r@[i].id@)
            && same_task(r@[i], task_table(*m)[r@[i].id@]),
        forall|k: u128| task_table(*m).dom().contains(k) ==> exists|i: int|
            0 <= i < r@.len() && #[trigger] r@[i].id@ == k,
        forall|i: int, j: int| 0 <= i < j < r@.len() ==> r@[i].id != r@[j].id,
{
    let entries = tasks_entries(m);
    let ghost t = task_table(*m);
    let n = entries.len();
    let mut out: Vec<Task> = Vec::new();
    let mut i: usize = 0;
    while i < n
        invariant
            i <= n == entries@.len(),
            t == task_table(*m),
            tasks_keyed_by_id(t),
            entries@.len() == t.dom().len(),
            forall|j: int| #![trigger entries@[j]] 0 <= j < entries@.len() ==> t.dom().contains(entries@[j].0)
                && same_task(entries@[j].1, t[entries@[j].0]),
            forall|a: int, b: int| 0 <= a < b < entries@.len() ==> entries@[a].0 != entries@[b].0,
            out@.len() == i,
            forall|j: int| 0 <= j < i ==> #[trigger] same_task(out@[j], entries@[j].1),
        decreases n - i,
    {
        out.push(entries[i].1.duplicate());
        i = i + 1;
    }
    proof {
        assert forall|j: int| 0 <= j < out@.len() implies out@[j].id@ == entries@[j].0
            && same_task(out@[j], t[entries@[j].0]) by {
            assert(same_task(out@[j], entries@[j].1));
            assert(t.dom().contains(entries@[j].0));
            assert(same_task(entries@[j].1, t[entries@[j].0]));
        }
        assert forall|k: u128| t.dom().contains(k) implies exists|j: int|
            0 <= j < out@.len() && #[trigger] out@[j].id@ == k by {
            let j = choose|j: int| 0 <= j < entries@.len() && #[trigger] entries@[j].0 == k;
            assert(out@[j].id@ == entries@[j].0);
        }
        assert forall|a: int, b: int| 0 <= a < b < out@.len() implies out@[a].id != out@[b].id by {
            assert(out@[a].id@ == entries@[a].0);
            assert(out@[b].id@ == entries@[b].0);
        }
    }
    out
}

/// Why a task store refuses to cancel a task in state `s`.
pub open spec fn cancel_refused_reason(s: TaskStatus) -> Seq<char> {
    "only pending tasks can be cancelled from the task store; got "@ + status_label(s)
}

/// Why a task store refuses to retry a task in state `s`.
pub open spec fn retry_refused_reason(s: TaskStatus) -> Seq<char> {
    "only failed, cancelled, or timed out tasks can be retried from the task store; got "@ + status_label(s)
}

/// The reason text of a refused cancellation.
fn cancel_refusal(s: &TaskStatus) -> (r: String)
    ensures
        r@ == cancel_refused_reason(*s),
{
    let mut r = owned("only pending tasks can be cancelled from the task store; got ");
    r.append(s.label());
    proof {
        reveal_strlit("only pending tasks can be cancelled from the task store; got ");
    }
    r
}

/// The reason text of a refused retry.
fn retry_refusal(s: &TaskStatus) -> (r: String)
    ensures
        r@ == retry_refused_reason(*s),
{
    let mut r = owned("only failed, cancelled, or timed out tasks can be retried from the task store; got ");
    r.append(s.label());
    proof {
        reveal_strlit("only failed, cancelled, or timed out tasks can be retried from the task store; got ");
    }
    r
}

/// Whether every snapshot is filed under its own task identifier and the
/// table is finite.
pub open spec fn tasks_keyed_by_id(t: Map<u128, Task>) -> bool {
    &&& t.dom().finite()
    &&& forall|k: u128| #[trigger] t.dom().contains(k) ==> t[k].id@ == k
}

/// An in-memory task store keyed by task identifier.
pub struct InMemoryTaskStore {
    tasks: TaskTable,
}

impl InMemoryTaskStore {
    /// The stored snapshots, keyed by the task identifier's value.
    pub closed spec fn snapshots(&self) -> Map<u128, Task> {
        task_table(self.tasks)
    }

    #[verifier::type_invariant]
    closed spec fn wf(&self) -> bool {
        tasks_keyed_by_id(task_table(self.tasks))
    }

    /// Create an empty store.
    pub fn new() -> (r: Self)
        ensures
            r.snapshots().dom() == Set::<u128>::empty(),
    {
        let tasks = tasks_new();
        proof {
            assert(task_table(tasks) =~= Map::<u128, Task>::empty());
        }
        InMemoryTaskStore { tasks }
    }

    /// Record or replace a task snapshot.
    pub fn record(&mut self, task: Task) -> (r: SwarmResult<()>)
        ensures
            r is Ok,
            final(self).snapshots() == old(self).snapshots().insert(task.id@, task),
    {
        proof {
            use_type_invariant(&*self);
        }
        let mut tasks = tasks_new();
        core::mem::swap(&mut tasks, &mut self.tasks);
        tasks_insert(&mut tasks, task.id.as_uuid(), task);
        *self = InMemoryTaskStore { tasks };
        Ok(())
    }

    /// Copies of all snapshots, each once, newest first.
    pub fn list(&self) -> (r: SwarmResult<Vec<Task>>)
        ensures
            r is Ok,
            r->Ok_0@.len() == self.snapshots().dom().len(),
            forall|i: int| 0 <= i < r->Ok_0@.len() ==> #[trigger] self.snapshots().dom().contains(
                r->Ok_0@[i].id@,
            ) && same_task(r->Ok_0@[i], self.snapshots()[r->Ok_0@[i].id@]),
            forall|k: u128| self.snapshots().dom().contains(k) ==> exists|i: int|
                0 <= i < r->Ok_0@.len() && #[trigger] r->Ok_0@[i].id@ == k,
            newest_first(r->Ok_0@),
    {
        proof {
            use_type_invariant(self);
        }
        let all = tasks_values(&self.tasks);
        let ghost copies = all@;
        let sorted = sort_newest_first(all);
        proof {
            lemma_by_recency(copies);
            let s = sorted@;
            assert(s.to_multiset() == copies.to_multiset());
            assert forall|i: int| 0 <= i < s.len() implies #[trigger] self.snapshots().dom().contains(
                s[i].id@,
            ) && same_task(s[i], self.snapshots()[s[i].id@]) by {
                vstd::seq_lib::to_multiset_contains(s, s[i]);
                vstd::seq_lib::to_multiset_contains(copies, s[i]);
                assert(s.contains(s[i]));
                assert(copies.to_multiset().contains(s[i]));
                let j = choose|j: int| 0 <= j < copies.len() && copies[j] == s[i];
                assert(self.snapshots().dom().contains(copies[j].id@));
            }
            assert forall|k: u128| self.snapshots().dom().contains(k) implies exists|i: int|
                0 <= i < s.len() && #[trigger] s[i].id@ == k by {
                let j = choose|j: int| 0 <= j < copies.len() && #[trigger] copies[j].id@ == k;
                vstd::seq_lib::to_multiset_contains(s, copies[j]);
                vstd::seq_lib::to_multiset_contains(copies, copies[j]);
                assert(copies.contains(copies[j]));
                let i = choose|i: int| 0 <= i < s.len() && s[i] == copies[j];
                assert(s[i].id@ == k);
            }
        }
        Ok(sorted)
    }

    /// A copy of a task's snapshot, if it is stored.
    pub fn get(&self, id: &TaskId) -> (r: SwarmResult<Option<Task>>)
        ensures
            r is Ok,
            self.snapshots().dom().contains(id@) <==> r->Ok_0 is Some,
            r->Ok_0 matches Some(t) ==> same_task(t, self.snapshots()[id@]),
    {
        Ok(tasks_get(&self.tasks, id.as_uuid()))
    }

    /// Cancel a pending task. An unknown task is `TaskNotFound`; a task that
    /// is not `Pending` is `InvalidTaskSpec`; in both cases nothing changes.
    /// Otherwise the snapshot becomes `Cancelled` and a copy is returned.
    pub fn cancel(&mut self, id: &TaskId, reason: Option<String>) -> (r: SwarmResult<Task>)
        ensures
            !old(self).snapshots().dom().contains(id@) ==> (r matches Err(
                SwarmError::TaskNotFound { id: e },
            ) && e == *id) && final(self).snapshots() == old(self).snapshots(),
            old(self).snapshots().dom().contains(id@) ==> {
                let t = old(self).snapshots()[id@];
                &&& !(t.status is Pending) ==> (r matches Err(SwarmError::InvalidTaskSpec { reason: why })
                    && why@ == cancel_refused_reason(t.status)) && final(self).snapshots() == old(self).snapshots()
                &&& t.status is Pending ==> exists|at: Timestamp|
                    final(self).snapshots() == old(self).snapshots().insert(id@, cancelled(t, at, reason))
                        && r is Ok && same_task(r->Ok_0, cancelled(t, at, reason))
            },
    {
        proof {
            use_type_invariant(&*self);
        }
        let mut tasks = tasks_new();
        core::mem::swap(&mut tasks, &mut self.tasks);
        let ghost before = task_table(tasks);
        match tasks_remove(&mut tasks, id.as_uuid()) {
            None => {
                proof {
                    assert(task_table(tasks) =~= before);
                }
                *self = InMemoryTaskStore { tasks };
                Err(SwarmError::TaskNotFound { id: *id })
            },
            Some(mut t) => {
                if !matches!(t.status, TaskStatus::Pending) {
                    let why = cancel_refusal(&t.status);
                    tasks_insert(&mut tasks, id.as_uuid(), t);
                    proof {
                        assert(task_table(tasks) =~= before);
                    }
                    *self = InMemoryTaskStore { tasks };
                    return Err(SwarmError::InvalidTaskSpec { reason: why });
                }
                let ghost old_t = t;
                t.cancel(reason);
                let snapshot = t.duplicate();
                proof {
                    assert(t == cancelled(old_t, t.updated_at, reason));
                }
                tasks_insert(&mut tasks, id.as_uuid(), t);
                proof {
                    assert(task_table(tasks) =~= before.insert(id@, t));
                }
                *self = InMemoryTaskStore { tasks };
                Ok(snapshot)
            },
        }
    }

    /// Return a failed, cancelled or timed-out task to `Pending`. An unknown
    /// task is `TaskNotFound`; a task in another state is `InvalidTaskSpec`;
    /// in both cases nothing changes. A copy of the result is returned.
    pub fn retry(&mut self, id: &TaskId) -> (r: SwarmResult<Task>)
        ensures
            !old(self).snapshots().dom().contains(id@) ==> (r matches Err(
                SwarmError::TaskNotFound { id: e },
            ) && e == *id) && final(self).snapshots() == old(self).snapshots(),
            old(self).snapshots().dom().contains(id@) ==> {
                let t = old(self).snapshots()[id@];
                &&& !can_retry_spec(t.status) ==> (r matches Err(SwarmError::InvalidTaskSpec { reason: why })
                    && why@ == retry_refused_reason(t.status)) && final(self).snapshots() == old(self).snapshots()
                &&& can_retry_spec(t.status) ==> exists|at: Timestamp|
                    final(self).snapshots() == old(self).snapshots().insert(id@, retried(t, at))
                        && r is Ok && same_task(r->Ok_0, retried(t, at))
            },
    {
        proof {
            use_type_invariant(&*self);
        }
        let mut tasks = tasks_new();
        core::mem::swap(&mut tasks, &mut self.tasks);
        let ghost before = task_table(tasks);
        match tasks_remove(&mut tasks, id.as_uuid()) {
            None => {
                proof {
                    assert(task_table(tasks) =~= before);
                }
                *self = InMemoryTaskStore { tasks };
                Err(SwarmError::TaskNotFound { id: *id })
            },
            Some(mut t) => {
                if !t.status.can_retry() {
                    let why = retry_refusal(&t.status);
                    tasks_insert(&mut tasks, id.as_uuid(), t);
                    proof {
                        assert(task_table(tasks) =~= before);
                    }
                    *self = InMemoryTaskStore { tasks };
                    return Err(SwarmError::InvalidTaskSpec { reason: why });
                }
                let ghost old_t = t;
                let _ = t.retry();
                let snapshot = t.duplicate();
                proof {
                    assert(t == retried(old_t, t.updated_at));
                }
                tasks_insert(&mut tasks, id.as_uuid(), t);
                proof {
                    assert(task_table(tasks) =~= before.insert(id@, t));
                }
                *self = InMemoryTaskStore { tasks };
                Ok(snapshot)
            },
        }
    }
}

} // verus!
