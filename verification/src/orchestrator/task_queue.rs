//! Priority-ordered task queue.
//!
//! Pending tasks wait here to be scheduled. Each entry carries a key
//! `(negated priority, enqueued_at, sequence)`: higher priorities sort first,
//! entries of one priority keep the order of their timestamps, and the
//! sequence number makes every key unique. Entries are kept sorted by key.

use vstd::prelude::*;
use crate::error::{SwarmError, SwarmResult};
use crate::identity::{uuid_hyphenated, TaskId};
use crate::task::{same_task, status_label, Task, TaskPriority, TaskStatus};
use crate::text::owned;
use crate::types::{now, Timestamp};

verus! {

/// The ordering key of a queue entry: negated priority level, enqueue time,
/// insertion sequence number.
pub type QueueKey = (i32, Timestamp, u64);

/// The strict lexicographic order of queue keys.
pub open spec fn key_lt(a: QueueKey, b: QueueKey) -> bool {
    ||| a.0 < b.0
    ||| a.0 == b.0 && a.1 < b.1
    ||| a.0 == b.0 && a.1 == b.1 && a.2 < b.2
}

/// Whether `a` sorts before `b`.
pub fn key_before(a: &QueueKey, b: &QueueKey) -> (r: bool)
    ensures
        r == key_lt(*a, *b),
{
    a.0 < b.0 || (a.0 == b.0 && a.1 < b.1) || (a.0 == b.0 && a.1 == b.1 && a.2 < b.2)
}

/// Whether the keys of `s` are strictly increasing.
pub open spec fn sorted_by_key(s: Seq<(QueueKey, Task)>) -> bool {
    forall|i: int, j: int| 0 <= i < j < s.len() ==> key_lt(s[i].0, s[j].0)
}

/// Whether the first part of every entry's key is its task's priority
/// level, negated.
pub open spec fn keyed_by_priority(s: Seq<(QueueKey, Task)>) -> bool {
    forall|i: int| 0 <= i < s.len() ==> (#[trigger] s[i]).0.0 == -s[i].1.spec.priority.rank()
}

/// Whether a task of priority `a` goes ahead of one of priority `b`:
/// `Critical` ahead of every other, `High` ahead of `Normal` and `Low`,
/// `Normal` ahead of `Low`.
pub open spec fn outranks(a: TaskPriority, b: TaskPriority) -> bool {
    match (a, b) {
        (TaskPriority::Critical, TaskPriority::High) => true,
        (TaskPriority::Critical, TaskPriority::Normal) => true,
        (TaskPriority::Critical, TaskPriority::Low) => true,
        (TaskPriority::High, TaskPriority::Normal) => true,
        (TaskPriority::High, TaskPriority::Low) => true,
        (TaskPriority::Normal, TaskPriority::Low) => true,
        _ => false,
    }
}

/// Whether no two entries of `s` hold the same task identifier.
pub open spec fn distinct_tasks(s: Seq<(QueueKey, Task)>) -> bool {
    forall|i: int, j: int| 0 <= i < j < s.len() ==> s[i].1.id != s[j].1.id
}

/// Whether some entry of `s` holds task `id`.
pub open spec fn queued(s: Seq<(QueueKey, Task)>, id: TaskId) -> bool {
    exists|i: int| 0 <= i < s.len() && #[trigger] s[i].1.id == id
}

/// The key an entry receives when a task of priority level `level` is
/// enqueued at time `at` as the `seq`-th insertion.
pub open spec fn entry_key(level: int, at: Timestamp, seq: u64) -> QueueKey {
    ((-level) as i32, at, seq)
}

/// The reason a task that is not pending cannot be enqueued.
pub open spec fn not_pending_reason(s: TaskStatus) -> Seq<char> {
    "only Pending tasks can be enqueued; got "@ + status_label(s)
}

/// The reason a task that is already queued cannot be enqueued again.
pub open spec fn already_queued_reason(id: u128) -> Seq<char> {
    "task "@ + uuid_hyphenated(id) + " is already enqueued"@
}

/// A priority-ordered queue of pending tasks.
#[derive(Debug)]
pub struct TaskQueue {
    entries: Vec<(QueueKey, Task)>,
    next_sequence: u64,
}

impl TaskQueue {
    /// The entries, sorted by key.
    pub closed spec fn entries(&self) -> Seq<(QueueKey, Task)> {
        self.entries@
    }

    /// The sequence number the next enqueued task will receive.
    pub closed spec fn next_seq(&self) -> u64 {
        self.next_sequence
    }

    #[verifier::type_invariant]
    closed spec fn wf(&self) -> bool {
        &&& sorted_by_key(self.entries@)
        &&& distinct_tasks(self.entries@)
        &&& forall|i: int| 0 <= i < self.entries@.len() ==> #[trigger] self.entries@[i].0.2
            < self.next_sequence
        &&& keyed_by_priority(self.entries@)
    }

    /// Create an empty task queue.
    pub fn new() -> (r: Self)
        ensures
            r.entries() == Seq::<(QueueKey, Task)>::empty(),
            r.next_seq() == 0,
    {
        TaskQueue { entries: Vec::new(), next_sequence: 0 }
    }

    /// The position of a queued task, if it is queued.
    fn position(&self, id: &TaskId) -> (r: Option<usize>)
        ensures
            r matches Some(i) ==> i < self.entries().len() && self.entries()[i as int].1.id == *id,
            r is None ==> !queued(self.entries(), *id),
    {
        let n = self.entries.len();
        let mut i: usize = 0;
        while i < n
            invariant
                i <= n == self.entries@.len(),
                forall|k: int| 0 <= k < i ==> self.entries@[k].1.id != *id,
            decreases n - i,
        {
            if self.entries[i].1.id == *id {
                return Some(i);
            }
            i = i + 1;
        }
        None
    }

    /// Enqueue a task, reading the clock for its enqueue time. Only a
    /// `Pending` task that is not queued yet is accepted; otherwise the queue
    /// is unchanged and the error is `InvalidTaskSpec`. An accepted task is
    /// placed by its key, whose sequence number is the queue's next one.
    pub fn enqueue(&mut self, task: Task) -> (r: SwarmResult<()>)
        requires
            old(self).next_seq() < u64::MAX,
        ensures
            !(task.status is Pending) || queued(old(self).entries(), task.id) ==> (r matches Err(
                SwarmError::InvalidTaskSpec { .. },
            )) && final(self).entries() == old(self).entries() && final(self).next_seq()
                == old(self).next_seq(),
            !(task.status is Pending) ==> (r matches Err(SwarmError::InvalidTaskSpec { reason })
                && reason@ == not_pending_reason(task.status)),
            task.status is Pending && queued(old(self).entries(), task.id) ==> (r matches Err(
                SwarmError::InvalidTaskSpec { reason },
            ) && reason@ == already_queued_reason(task.id@)),
            task.status is Pending && !queued(old(self).entries(), task.id) ==> r is Ok
                && final(self).next_seq() == old(self).next_seq() + 1 && exists|pos: int, at: Timestamp|
                0 <= pos <= old(self).entries().len() && final(self).entries()
                    == old(self).entries().insert(
                    pos,
                    (entry_key(task.spec.priority.rank(), at, old(self).next_seq()), task),
                ),
            sorted_by_key(final(self).entries()),
            distinct_tasks(final(self).entries()),
    {
        let enqueued_at = now();
        self.enqueue_at(task, enqueued_at)
    }

    /// Enqueue a task at the given enqueue time, as `enqueue` does with the
    /// clock's reading: the key is the task's negated priority level, that
    /// time and the queue's next sequence number, and the entry goes where
    /// that key keeps the queue sorted.
    pub fn enqueue_at(&mut self, task: Task, enqueued_at: Timestamp) -> (r: SwarmResult<()>)
        requires
            old(self).next_seq() < u64::MAX,
        ensures
            !(task.status is Pending) || queued(old(self).entries(), task.id) ==> (r matches Err(
                SwarmError::InvalidTaskSpec { .. },
            )) && final(self).entries() == old(self).entries() && final(self).next_seq()
                == old(self).next_seq(),
            !(task.status is Pending) ==> (r matches Err(SwarmError::InvalidTaskSpec { reason })
                && reason@ == not_pending_reason(task.status)),
            task.status is Pending && queued(old(self).entries(), task.id) ==> (r matches Err(
                SwarmError::InvalidTaskSpec { reason },
            ) && reason@ == already_queued_reason(task.id@)),
            task.status is Pending && !queued(old(self).entries(), task.id) ==> r is Ok
                && final(self).next_seq() == old(self).next_seq() + 1 && exists|pos: int|
                0 <= pos <= old(self).entries().len() && final(self).entries()
                    == old(self).entries().insert(
                    pos,
                    (entry_key(task.spec.priority.rank(), enqueued_at, old(self).next_seq()), task),
                ),
            sorted_by_key(final(self).entries()),
            distinct_tasks(final(self).entries()),
    {
        proof {
            use_type_invariant(&*self);
        }
        if !matches!(task.status, TaskStatus::Pending) {
            let mut reason = owned("only Pending tasks can be enqueued; got ");
            reason.append(task.status.label());
            proof {
                reveal_strlit("only Pending tasks can be enqueued; got ");
            }
            return Err(SwarmError::InvalidTaskSpec { reason });
        }
        let level: u8 = task.spec.priority.level();
        let priority_key: i32 = 0i32 - (level as i32);
        if self.position(&task.id).is_some() {
            let mut reason = owned("task ");
            reason.append(task.id.to_text().as_str());
            reason.append(" is already enqueued");
            proof {
                reveal_strlit("task ");
                reveal_strlit(" is already enqueued");
            }
            return Err(SwarmError::InvalidTaskSpec { reason });
        }
        let sequence = self.next_sequence;
        let key: QueueKey = (priority_key, enqueued_at, sequence);
        let ghost prev = self.entries@;
        // The first position whose key sorts after the new one.
        let n = self.entries.len();
        let mut pos: usize = 0;
        while pos < n && key_before(&self.entries[pos].0, &key)
            invariant
                pos <= n == self.entries@.len(),
                self.entries@ == prev,
                forall|k: int| 0 <= k < pos ==> key_lt(#[trigger] prev[k].0, key),
            decreases n - pos,
        {
            pos = pos + 1;
        }
        proof {
            assert forall|k: int| pos <= k < n implies key_lt(key, #[trigger] prev[k].0) by {
                assert(prev[k].0.2 < sequence);
                assert(!key_lt(prev[pos as int].0, key));
                if k > pos {
                    assert(key_lt(prev[pos as int].0, prev[k].0));
                }
            }
        }
        let mut entries: Vec<(QueueKey, Task)> = Vec::new();
        core::mem::swap(&mut entries, &mut self.entries);
        let ghost t = task;
        entries.insert(pos, (key, task));
        proof {
            let e = entries@;
            assert(e == prev.insert(pos as int, (key, t)));
            assert forall|i: int, j: int| 0 <= i < j < e.len() implies key_lt(e[i].0, e[j].0) by {
                if j < pos {
                    assert(e[i] == prev[i] && e[j] == prev[j]);
                } else if j == pos {
                    assert(e[i] == prev[i]);
                } else if i == pos {
                    assert(e[j] == prev[j - 1]);
                } else if i < pos {
                    assert(e[i] == prev[i] && e[j] == prev[j - 1]);
                } else {
                    assert(e[i] == prev[i - 1] && e[j] == prev[j - 1]);
                }
            }
            assert forall|i: int, j: int| 0 <= i < j < e.len() implies e[i].1.id != e[j].1.id by {
                if j < pos {
                    assert(e[i] == prev[i] && e[j] == prev[j]);
                } else if j == pos {
                    assert(e[i] == prev[i]);
                } else if i == pos {
                    assert(e[j] == prev[j - 1]);
                } else if i < pos {
                    assert(e[i] == prev[i] && e[j] == prev[j - 1]);
                } else {
                    assert(e[i] == prev[i - 1] && e[j] == prev[j - 1]);
                }
            }
            assert forall|i: int| 0 <= i < e.len() implies #[trigger] e[i].0.2 < sequence + 1 by {
                if i < pos {
                    assert(e[i] == prev[i]);
                } else if i > pos {
                    assert(e[i] == prev[i - 1]);
                }
            }
            assert(key == entry_key(t.spec.priority.rank(), enqueued_at, sequence));
            assert forall|i: int| 0 <= i < e.len() implies (#[trigger] e[i]).0.0 == -e[i].1.spec.priority.rank() by {
                if i < pos {
                    assert(e[i] == prev[i]);
                } else if i > pos {
                    assert(e[i] == prev[i - 1]);
                }
            }
        }
        *self = TaskQueue { entries, next_sequence: sequence + 1 };
        Ok(())
    }

    /// A copy of the first task in queue order, without removing it.
    pub fn peek(&self) -> (r: Option<Task>)
        ensures
            self.entries().len() == 0 ==> r is None,
            self.entries().len() > 0 ==> r is Some && same_task(r->Some_0, self.entries()[0].1),
            self.entries().len() > 0 ==> forall|j: int| 0 < j < self.entries().len() ==> key_lt(
                self.entries()[0].0,
                #[trigger] self.entries()[j].0,
            ),
    {
        proof {
            use_type_invariant(self);
        }
        if self.entries.len() == 0 {
            None
        } else {
            Some(self.entries[0].1.duplicate())
        }
    }

    /// Remove and return the first task in queue order: the one with the
    /// highest priority, and among those the earliest enqueued.
    pub fn dequeue(&mut self) -> (r: Option<Task>)
        ensures
            old(self).entries().len() == 0 ==> r is None && final(self).entries() == old(self).entries(),
            old(self).entries().len() > 0 ==> r == Some(old(self).entries()[0].1) && final(self).entries() == old(self).entries().drop_first(),
            old(self).entries().len() > 0 ==> forall|j: int| 0 < j < old(self).entries().len()
                ==> key_lt(old(self).entries()[0].0, #[trigger] old(self).entries()[j].0),
            r matches Some(t) ==> forall|j: int| 0 <= j < old(self).entries().len() ==> !outranks(
                (#[trigger] old(self).entries()[j]).1.spec.priority,
                t.spec.priority,
            ),
            final(self).next_seq() == old(self).next_seq(),
            sorted_by_key(final(self).entries()),
            distinct_tasks(final(self).entries()),
    {
        proof {
            use_type_invariant(&*self);
        }
        proof {
            let q = self.entries@;
            if q.len() > 0 {
                assert forall|j: int| 0 <= j < q.len() implies !outranks((#[trigger] q[j]).1.spec.priority, q[0].1.spec.priority) by {
                    lemma_priority_levels_rise(q[j].1.spec.priority, q[0].1.spec.priority);
                    if j > 0 {
                        assert(key_lt(q[0].0, q[j].0));
                    }
                }
            }
        }
        if self.entries.len() == 0 {
            return None;
        }
        let ghost prev = self.entries@;
        let mut entries: Vec<(QueueKey, Task)> = Vec::new();
        core::mem::swap(&mut entries, &mut self.entries);
        let (_, task) = entries.remove(0);
        proof {
            assert(entries@ =~= prev.drop_first());
            assert forall|i: int| 0 <= i < entries@.len() implies #[trigger] entries@[i].0.2
                < self.next_sequence by {
                assert(entries@[i] == prev[i + 1]);
            }
            assert forall|i: int| 0 <= i < entries@.len() implies (#[trigger] entries@[i]).0.0
                == -entries@[i].1.spec.priority.rank() by {
                assert(entries@[i] == prev[i + 1]);
            }
        }
        let next_sequence = self.next_sequence;
        *self = TaskQueue { entries, next_sequence };
        Some(task)
    }

    /// Remove a queued task by identifier; an unknown task is `TaskNotFound`
    /// and leaves the queue unchanged.
    pub fn remove(&mut self, task_id: &TaskId) -> (r: SwarmResult<Task>)
        ensures
            !queued(old(self).entries(), *task_id) ==> (r matches Err(SwarmError::TaskNotFound { id })
                && id == *task_id) && final(self).entries() == old(self).entries(),
            queued(old(self).entries(), *task_id) ==> exists|i: int|
                0 <= i < old(self).entries().len() && old(self).entries()[i].1.id == *task_id && r
                    == Ok::<Task, SwarmError>(old(self).entries()[i].1) && final(self).entries()
                    == old(self).entries().remove(i),
            !queued(final(self).entries(), *task_id),
            final(self).next_seq() == old(self).next_seq(),
            sorted_by_key(final(self).entries()),
            distinct_tasks(final(self).entries()),
    {
        proof {
            use_type_invariant(&*self);
        }
        match self.position(task_id) {
            None => Err(SwarmError::TaskNotFound { id: *task_id }),
            Some(i) => {
                let ghost prev = self.entries@;
                let mut entries: Vec<(QueueKey, Task)> = Vec::new();
                core::mem::swap(&mut entries, &mut self.entries);
                let (_, task) = entries.remove(i);
                proof {
                    assert(entries@ =~= prev.remove(i as int));
                    assert forall|a: int, b: int| 0 <= a < b < entries@.len() implies key_lt(
                        entries@[a].0,
                        entries@[b].0,
                    ) && entries@[a].1.id != entries@[b].1.id by {
                        let pa = if a < i { a } else { a + 1 };
                        let pb = if b < i { b } else { b + 1 };
                        assert(entries@[a] == prev[pa] && entries@[b] == prev[pb]);
                    }
                    assert forall|a: int| 0 <= a < entries@.len() implies #[trigger] entries@[a].0.2
                        < self.next_sequence by {
                        let pa = if a < i { a } else { a + 1 };
                        assert(entries@[a] == prev[pa]);
                    }
                    assert forall|a: int| 0 <= a < entries@.len() implies (#[trigger] entries@[a]).0.0
                        == -entries@[a].1.spec.priority.rank() by {
                        let pa = if a < i { a } else { a + 1 };
                        assert(entries@[a] == prev[pa]);
                    }
                }
                proof {
                    if queued(entries@, *task_id) {
                        let j = choose|j: int| 0 <= j < entries@.len() && #[trigger] entries@[j].1.id == *task_id;
                        let pj = if j < i { j } else { j + 1 };
                        assert(entries@[j] == prev[pj]);
                    }
                }
                let next_sequence = self.next_sequence;
                *self = TaskQueue { entries, next_sequence };
                Ok(task)
            },
        }
    }

    /// The number of queued tasks.
    pub fn len(&self) -> (r: usize)
        ensures
            r == self.entries().len(),
    {
        self.entries.len()
    }

    /// The sequence number the next enqueued task will receive.
    pub fn next_sequence(&self) -> (r: u64)
        ensures
            r == self.next_seq(),
    {
        self.next_sequence
    }

    /// Returns `true` if no task is queued.
    pub fn is_empty(&self) -> (r: bool)
        ensures
            r == (self.entries().len() == 0),
    {
        self.entries.len() == 0
    }
}

/// Within one priority level, an entry enqueued later (a larger sequence
/// number) at a time no earlier than another sorts after it: the queue is
/// first-in first-out among tasks of equal priority.
pub proof fn lemma_fifo_within_priority(level: int, at1: Timestamp, seq1: u64, at2: Timestamp, seq2: u64)
    requires
        0 <= level <= 3,
        at1 <= at2,
        seq1 < seq2,
    ensures
        key_lt(entry_key(level, at1, seq1), entry_key(level, at2, seq2)),
{
}

/// In a sorted queue, of two entries of one priority level, the one with the
/// earlier-or-equal enqueue time and the smaller sequence number comes first:
/// tasks of equal priority leave the queue in the order they were enqueued.
pub proof fn lemma_queue_fifo(s: Seq<(QueueKey, Task)>, i: int, j: int)
    requires
        sorted_by_key(s),
        0 <= i < s.len(),
        0 <= j < s.len(),
        s[i].0.0 == s[j].0.0,
        s[i].0.1 <= s[j].0.1,
        s[i].0.2 < s[j].0.2,
    ensures
        i < j,
{
    if j < i {
        assert(key_lt(s[j].0, s[i].0));
    }
}

/// First in, first out across enqueues: when a task is enqueued at a time no
/// earlier than a queued task of its priority, it lands behind that task.
/// With `dequeue` taking the head and keeping the order of the rest, tasks
/// of one priority leave the queue in the order they were enqueued.
pub proof fn lemma_enqueue_lands_behind_earlier(q: Seq<(QueueKey, Task)>, pos: int, e: (QueueKey, Task), i: int)
    requires
        0 <= pos <= q.len(),
        sorted_by_key(q.insert(pos, e)),
        0 <= i < q.len(),
        forall|k: int| 0 <= k < q.len() ==> (#[trigger] q[k]).0.2 < e.0.2,
        q[i].0.0 == e.0.0,
        q[i].0.1 <= e.0.1,
    ensures
        i < pos,
        q.insert(pos, e)[i] == q[i],
{
    let s = q.insert(pos, e);
    if i >= pos {
        assert(s[i + 1] == q[i]);
        assert(s[pos] == e);
        assert(key_lt(s[pos].0, s[i + 1].0));
        assert(q[i].0.2 < e.0.2);
    }
}

/// Priority levels rise in the declared order `Low`, `Normal`, `High`,
/// `Critical`: one priority goes ahead of another exactly when its level is
/// higher.
pub proof fn lemma_priority_levels_rise(a: TaskPriority, b: TaskPriority)
    ensures
        outranks(a, b) <==> a.rank() > b.rank(),
        TaskPriority::Low.rank() < TaskPriority::Normal.rank(),
        TaskPriority::Normal.rank() < TaskPriority::High.rank(),
        TaskPriority::High.rank() < TaskPriority::Critical.rank(),
{
}

/// A task of a higher priority level sorts before one of a lower level,
/// whenever either was enqueued.
pub proof fn lemma_higher_priority_first(high: int, low: int, at1: Timestamp, seq1: u64, at2: Timestamp, seq2: u64)
    requires
        0 <= low < high <= 3,
    ensures
        key_lt(entry_key(high, at1, seq1), entry_key(low, at2, seq2)),
{
}

} // verus!
