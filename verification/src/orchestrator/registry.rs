//! The agent registry: every registered agent with its live runtime state.

use vstd::prelude::*;
use dashmap::DashMap;
use crate::agent::{same_descriptor, AgentDescriptor, AgentStatus};
use crate::error::{SwarmError, SwarmResult};
use crate::identity::AgentId;
use crate::text::owned;
use crate::types::{now, Timestamp};

verus! {

/// An agent's static descriptor combined with its live runtime state.
#[derive(Debug)]
pub struct AgentRecord {
    /// The static descriptor registered by the agent implementation.
    pub descriptor: AgentDescriptor,
    /// Current operational status.
    pub status: AgentStatus,
    /// Timestamp of the last status update.
    pub last_seen_at: Timestamp,
    /// Total number of tasks completed since registration.
    pub tasks_completed: u64,
    /// Total number of tasks failed since registration.
    pub tasks_failed: u64,
}

/// Whether two records hold the same values.
pub open spec fn same_record(a: AgentRecord, b: AgentRecord) -> bool {
    &&& same_descriptor(a.descriptor, b.descriptor)
    &&& a.status == b.status
    &&& a.last_seen_at == b.last_seen_at
    &&& a.tasks_completed == b.tasks_completed
    &&& a.tasks_failed == b.tasks_failed
}

impl AgentRecord {
    /// A record for a freshly registered agent: `Inactive`, with no tasks.
    pub fn new(descriptor: AgentDescriptor) -> (r: Self)
        ensures
            r.descriptor == descriptor,
            r.status == AgentStatus::Inactive,
            r.tasks_completed == 0,
            r.tasks_failed == 0,
    {
        AgentRecord {
            last_seen_at: now(),
            descriptor,
            status: AgentStatus::Inactive,
            tasks_completed: 0,
            tasks_failed: 0,
        }
    }

    /// Update the status and refresh the `last_seen_at` timestamp.
    pub fn update_status(&mut self, status: AgentStatus)
        ensures
            final(self).status == status,
            final(self).descriptor == old(self).descriptor,
            final(self).tasks_completed == old(self).tasks_completed,
            final(self).tasks_failed == old(self).tasks_failed,
    {
        self.status = status;
        self.last_seen_at = now();
    }

    /// A copy of this record.
    pub fn duplicate(&self) -> (r: AgentRecord)
        ensures
            same_record(r, *self),
    {
        AgentRecord {
            descriptor: self.descriptor.duplicate(),
            status: self.status.duplicate(),
            last_seen_at: self.last_seen_at,
            tasks_completed: self.tasks_completed,
            tasks_failed: self.tasks_failed,
        }
    }
}

/// The outside concurrent map type that holds the registry's records.
#[verifier::external_type_specification]
#[verifier::external_body]
#[verifier::reject_recursive_types(K)]
#[verifier::reject_recursive_types(V)]
#[verifier::reject_recursive_types(S)]
pub struct ExDashMap<K, V, S>(DashMap<K, V, S>);

/// The concurrent table of agent records, keyed by agent identifier value.
pub type AgentTable = DashMap<u128, AgentRecord>;

/// The entries of an agent table, keyed by the agent identifier's value.
pub uninterp spec fn agent_table(m: AgentTable) -> Map<u128, AgentRecord>;

/// `DashMap::new`: an empty table.
#[verifier::external_body]
fn table_new() -> (r: AgentTable)
    ensures
        agent_table(r).dom() == Set::<u128>::empty(),
{
    DashMap::new()
}

/// `DashMap::contains_key`: whether the key has an entry.
#[verifier::external_body]
fn table_contains(m: &AgentTable, key: u128) -> (r: bool)
    ensures
        r == agent_table(*m).dom().contains(key),
{
    m.contains_key(&key)
}

/// `DashMap::insert`: the entry for `key` becomes `value`, all others stay.
#[verifier::external_body]
fn table_insert(m: &mut AgentTable, key: u128, value: AgentRecord)
    ensures
        agent_table(*final(m)) == agent_table(*old(m)).insert(key, value),
{
    m.insert(key, value);
}

/// `DashMap::remove`: the entry for `key` leaves the table and its value is
/// handed back; all other entries stay.
#[verifier::external_body]
fn table_remove(m: &mut AgentTable, key: u128) -> (r: Option<AgentRecord>)
    ensures
        agent_table(*final(m)) == agent_table(*old(m)).remove(key),
        agent_table(*old(m)).dom().contains(key) ==> r == Some(agent_table(*old(m))[key]),
        !agent_table(*old(m)).dom().contains(key) ==> r.is_none(),
{
    m.remove(&key).map(|(_, v)| v)
}

/// `DashMap::iter`: a copy of every entry's value, each entry once, in the
/// map's own order (which the contract leaves open). On a table whose every
/// record is filed under its own agent's identifier, the values listed are
/// thus told apart, and found again, by that identifier.
#[verifier::external_body]
fn table_values(m: &AgentTable) -> (r: Vec<AgentRecord>)
    requires
        keyed_by_id(agent_table(*m)),
    ensures
        r@.len() == agent_table(*m).dom().len(),
        forall|i: int| 0 <= i < r@.len() ==> #[trigger] agent_table(*m).dom().contains(r@[i].descriptor.id@)
            && same_record(r@[i], agent_table(*m)[r@[i].descriptor.id@]),
        forall|k: u128| agent_table(*m).dom().contains(k) ==> exists|i: int|
            0 <= i < r@.len() && #[trigger] r@[i].descriptor.id@ == k,
        forall|i: int, j: int| 0 <= i < j < r@.len() ==> r@[i].descriptor.id != r@[j].descriptor.id,
{
    m.iter().map(|e| e.value().duplicate()).collect()
}

/// Whether every entry is filed under its own agent's identifier, and the
/// table is finite.
pub open spec fn keyed_by_id(t: Map<u128, AgentRecord>) -> bool {
    &&& t.dom().finite()
    &&& forall|k: u128| #[trigger] t.dom().contains(k) ==> t[k].descriptor.id@ == k
}

/// The identifiers of the `Ready` records of `s`, in order.
pub open spec fn ready_ids(s: Seq<AgentRecord>) -> Seq<AgentId>
    decreases s.len(),
{
    if s.len() == 0 {
        Seq::empty()
    } else {
        let rest = ready_ids(s.drop_last());
        if s.last().status is Ready {
            rest.push(s.last().descriptor.id)
        } else {
            rest
        }
    }
}

/// `ready_ids` holds exactly the identifiers of the `Ready` records, and
/// holds each once when the records' identifiers are distinct.
pub proof fn lemma_ready_ids(s: Seq<AgentRecord>)
    ensures
        forall|id: AgentId| #[trigger] ready_ids(s).contains(id) <==> exists|k: int|
            0 <= k < s.len() && s[k].descriptor.id == id && s[k].status is Ready,
        (forall|a: int, b: int| 0 <= a < b < s.len() ==> s[a].descriptor.id != s[b].descriptor.id)
            ==> ready_ids(s).no_duplicates(),
    decreases s.len(),
{
    if s.len() > 0 {
        let p = s.drop_last();
        lemma_ready_ids(p);
        let r = ready_ids(s);
        let rp = ready_ids(p);
        assert forall|id: AgentId| #[trigger] r.contains(id) <==> exists|k: int|
            0 <= k < s.len() && s[k].descriptor.id == id && s[k].status is Ready by {
            if r.contains(id) {
                let j = choose|j: int| 0 <= j < r.len() && r[j] == id;
                if j < rp.len() {
                    assert(rp[j] == id);
                    assert(rp.contains(id));
                    let k = choose|k: int| 0 <= k < p.len() && p[k].descriptor.id == id && p[k].status is Ready;
                    assert(s[k] == p[k]);
                }
            }
            if exists|k: int| 0 <= k < s.len() && s[k].descriptor.id == id && s[k].status is Ready {
                let k = choose|k: int| 0 <= k < s.len() && s[k].descriptor.id == id && s[k].status is Ready;
                if k < p.len() {
                    assert(p[k] == s[k]);
                    assert(rp.contains(id));
                    let j = choose|j: int| 0 <= j < rp.len() && rp[j] == id;
                    assert(r[j] == id);
                } else {
                    assert(r[r.len() - 1] == id);
                }
            }
        }
        if forall|a: int, b: int| 0 <= a < b < s.len() ==> s[a].descriptor.id != s[b].descriptor.id {
            assert(forall|a: int, b: int| 0 <= a < b < p.len() ==> p[a].descriptor.id != p[b].descriptor.id) by {
                assert forall|a: int, b: int| 0 <= a < b < p.len() implies p[a].descriptor.id != p[b].descriptor.id by {
                    assert(p[a] == s[a] && p[b] == s[b]);
                }
            }
            if s.last().status is Ready {
                assert forall|x: int, y: int| 0 <= x < r.len() && 0 <= y < r.len() && x != y implies r[x] != r[y] by {
                    if x == rp.len() || y == rp.len() {
                        let other = if x == rp.len() { y } else { x };
                        assert(r[other] == rp[other]);
                        assert(rp.contains(rp[other]));
                        let k = choose|k: int| 0 <= k < p.len() && p[k].descriptor.id == rp[other] && p[k].status is Ready;
                        assert(s[k] == p[k]);
                    } else {
                        assert(r[x] == rp[x] && r[y] == rp[y]);
                    }
                }
            }
        }
    }
}

/// Whether agent `id` is registered in table `t`.
pub open spec fn has_agent(t: Map<u128, AgentRecord>, id: AgentId) -> bool {
    t.dom().contains(id@)
}

/// All registered agents with their runtime state, keyed by agent identifier.
#[derive(Debug)]
pub struct AgentRegistry {
    agents: AgentTable,
}

impl AgentRegistry {
    /// The registered records, keyed by the agent identifier's value.
    pub closed spec fn records(&self) -> Map<u128, AgentRecord> {
        agent_table(self.agents)
    }

    #[verifier::type_invariant]
    closed spec fn wf(&self) -> bool {
        keyed_by_id(agent_table(self.agents))
    }

    /// Create an empty registry.
    pub fn new() -> (r: Self)
        ensures
            r.records() == Map::<u128, AgentRecord>::empty(),
    {
        let agents = table_new();
        proof {
            assert(agent_table(agents) =~= Map::<u128, AgentRecord>::empty());
        }
        AgentRegistry { agents }
    }

    /// Register an agent; an agent whose identifier is already registered is
    /// refused and the registry is left unchanged.
    pub fn register(&mut self, descriptor: AgentDescriptor) -> (r: SwarmResult<AgentId>)
        ensures
            keyed_by_id(final(self).records()),
            has_agent(old(self).records(), descriptor.id) ==> r is Err && r->Err_0 is Internal
                && final(self).records() == old(self).records(),
            !has_agent(old(self).records(), descriptor.id) ==> r == Ok::<AgentId, SwarmError>(
                descriptor.id,
            ) && final(self).records().dom() == old(self).records().dom().insert(descriptor.id@)
                && (forall|k: u128| #[trigger] old(self).records().dom().contains(k)
                    ==> final(self).records()[k] == old(self).records()[k])
                && final(self).records()[descriptor.id@].descriptor == descriptor
                && final(self).records()[descriptor.id@].status == AgentStatus::Inactive
                && final(self).records()[descriptor.id@].tasks_completed == 0
                && final(self).records()[descriptor.id@].tasks_failed == 0,
    {
        proof {
            use_type_invariant(&*self);
        }
        let id = descriptor.id;
        if table_contains(&self.agents, id.as_uuid()) {
            return Err(SwarmError::Internal { reason: owned("agent is already registered") });
        }
        let mut agents = table_new();
        core::mem::swap(&mut agents, &mut self.agents);
        table_insert(&mut agents, id.as_uuid(), AgentRecord::new(descriptor));
        *self = AgentRegistry { agents };
        Ok(id)
    }

    /// Deregister an agent, returning its record.
    pub fn deregister(&mut self, id: &AgentId) -> (r: SwarmResult<AgentRecord>)
        ensures
            keyed_by_id(final(self).records()),
            !has_agent(old(self).records(), *id) ==> r is Err && r->Err_0 is AgentNotFound
                && r->Err_0->AgentNotFound_id == *id && final(self).records() == old(self).records(),
            has_agent(old(self).records(), *id) ==> r == Ok::<AgentRecord, SwarmError>(
                old(self).records()[id@],
            ) && final(self).records() == old(self).records().remove(id@),
    {
        proof {
            use_type_invariant(&*self);
        }
        let mut agents = table_new();
        core::mem::swap(&mut agents, &mut self.agents);
        let removed = table_remove(&mut agents, id.as_uuid());
        *self = AgentRegistry { agents };
        match removed {
            Some(rec) => Ok(rec),
            None => Err(SwarmError::AgentNotFound { id: *id }),
        }
    }

    /// Update an agent's status and refresh its `last_seen_at`; an unknown
    /// agent is an error and nothing changes.
    pub fn update_status(&mut self, id: &AgentId, status: AgentStatus) -> (r: SwarmResult<()>)
        ensures
            keyed_by_id(final(self).records()),
            !has_agent(old(self).records(), *id) ==> r is Err && r->Err_0 is AgentNotFound
                && r->Err_0->AgentNotFound_id == *id && final(self).records() == old(self).records(),
            has_agent(old(self).records(), *id) ==> r is Ok
                && final(self).records().dom() == old(self).records().dom()
                && final(self).records()[id@].status == status
                && final(self).records()[id@].descriptor == old(self).records()[id@].descriptor
                && final(self).records()[id@].tasks_completed == old(self).records()[id@].tasks_completed
                && final(self).records()[id@].tasks_failed == old(self).records()[id@].tasks_failed
                && (forall|k: u128| #[trigger] old(self).records().dom().contains(k) && k != id@
                    ==> final(self).records()[k] == old(self).records()[k]),
    {
        proof {
            use_type_invariant(&*self);
        }
        let mut agents = table_new();
        core::mem::swap(&mut agents, &mut self.agents);
        let ghost before = agent_table(agents);
        let removed = table_remove(&mut agents, id.as_uuid());
        match removed {
            Some(mut rec) => {
                rec.update_status(status);
                table_insert(&mut agents, id.as_uuid(), rec);
                proof {
                    assert(agent_table(agents).dom() =~= before.dom());
                }
                *self = AgentRegistry { agents };
                Ok(())
            },
            None => {
                proof {
                    assert(agent_table(agents) =~= before);
                }
                *self = AgentRegistry { agents };
                Err(SwarmError::AgentNotFound { id: *id })
            },
        }
    }

    /// A copy of an agent's record.
    pub fn get(&self, id: &AgentId) -> (r: SwarmResult<AgentRecord>)
        ensures
            !has_agent(self.records(), *id) ==> r is Err && r->Err_0 is AgentNotFound
                && r->Err_0->AgentNotFound_id == *id,
            has_agent(self.records(), *id) ==> r is Ok && same_record(r->Ok_0, self.records()[id@]),
    {
        proof {
            use_type_invariant(self);
        }
        let all = table_values(&self.agents);
        let n = all.len();
        let mut i: usize = 0;
        while i < n
            invariant
                i <= n == all@.len(),
                forall|k: int| 0 <= k < all@.len() ==> #[trigger] agent_table(self.agents).dom().contains(
                    all@[k].descriptor.id@,
                ) && same_record(all@[k], agent_table(self.agents)[all@[k].descriptor.id@]),
                forall|k: int| 0 <= k < i ==> all@[k].descriptor.id != *id,
            decreases n - i,
        {
            if all[i].descriptor.id == *id {
                proof {
                    assert(agent_table(self.agents).dom().contains(all@[i as int].descriptor.id@));
                }
                return Ok(all[i].duplicate());
            }
            i = i + 1;
        }
        proof {
            if has_agent(self.records(), *id) {
                let j = choose|j: int| 0 <= j < all@.len() && #[trigger] all@[j].descriptor.id@ == id@;
                assert(all@[j].descriptor.id@ == id@);
                AgentId::lemma_view_injective(all@[j].descriptor.id, *id);
            }
        }
        Err(SwarmError::AgentNotFound { id: *id })
    }

    /// A copy of every record, each registered agent once, in the table's own
    /// order.
    pub fn all_agents(&self) -> (r: Vec<AgentRecord>)
        ensures
            keyed_by_id(self.records()),
            r@.len() == self.records().dom().len(),
            forall|i: int| 0 <= i < r@.len() ==> #[trigger] has_agent(self.records(), r@[i].descriptor.id)
                && same_record(r@[i], self.records()[r@[i].descriptor.id@]),
            forall|id: AgentId| has_agent(self.records(), id) ==> exists|i: int|
                0 <= i < r@.len() && #[trigger] r@[i].descriptor.id == id,
            forall|i: int, j: int| 0 <= i < j < r@.len() ==> r@[i].descriptor.id != r@[j].descriptor.id,
    {
        proof {
            use_type_invariant(self);
        }
        let r = table_values(&self.agents);
        proof {
            assert forall|id: AgentId| has_agent(self.records(), id) implies exists|i: int|
                0 <= i < r@.len() && #[trigger] r@[i].descriptor.id == id by {
                let i = choose|i: int| 0 <= i < r@.len() && #[trigger] r@[i].descriptor.id@ == id@;
                assert(r@[i].descriptor.id@ == id@);
                AgentId::lemma_view_injective(r@[i].descriptor.id, id);
            }
        }
        r
    }

    /// The identifiers of all agents currently `Ready`, each once.
    pub fn available_agents(&self) -> (r: Vec<AgentId>)
        ensures
            forall|id: AgentId| #[trigger] r@.contains(id) <==> has_agent(self.records(), id)
                && self.records()[id@].status is Ready,
            r@.no_duplicates(),
    {
        let all = self.all_agents();
        let mut out: Vec<AgentId> = Vec::new();
        let n = all.len();
        let mut i: usize = 0;
        while i < n
            invariant
                i <= n == all@.len(),
                out@ == ready_ids(all@.take(i as int)),
            decreases n - i,
        {
            proof {
                assert(all@.take(i + 1).drop_last() =~= all@.take(i as int));
            }
            if all[i].status.is_available() {
                out.push(all[i].descriptor.id);
            }
            i = i + 1;
        }
        proof {
            assert(all@.take(n as int) =~= all@);
            lemma_ready_ids(all@);
            assert forall|id: AgentId| #[trigger] out@.contains(id) <==> has_agent(self.records(), id)
                && self.records()[id@].status is Ready by {
                if has_agent(self.records(), id) {
                    let k = choose|k: int| 0 <= k < all@.len() && #[trigger] all@[k].descriptor.id == id;
                    assert(has_agent(self.records(), all@[k].descriptor.id));
                }
                if out@.contains(id) {
                    let k = choose|k: int| 0 <= k < all@.len() && all@[k].descriptor.id == id
                        && all@[k].status is Ready;
                    assert(has_agent(self.records(), all@[k].descriptor.id));
                }
            }
        }
        out
    }

    /// The number of registered agents.
    pub fn len(&self) -> (r: usize)
        ensures
            r == self.records().dom().len(),
    {
        proof {
            use_type_invariant(self);
        }
        table_values(&self.agents).len()
    }

    /// Returns `true` if no agents are registered.
    pub fn is_empty(&self) -> (r: bool)
        ensures
            r == (self.records().dom().len() == 0),
    {
        proof {
            use_type_invariant(self);
        }
        table_values(&self.agents).len() == 0
    }

    /// Count one more completed task for an agent; an unknown agent is ignored.
    pub fn record_task_completed(&mut self, id: &AgentId)
        requires
            has_agent(old(self).records(), *id) ==> old(self).records()[id@].tasks_completed < u64::MAX,
        ensures
            keyed_by_id(final(self).records()),
            !has_agent(old(self).records(), *id) ==> final(self).records() == old(self).records(),
            has_agent(old(self).records(), *id) ==> final(self).records() == old(self).records().insert(
                id@,
                AgentRecord {
                    tasks_completed: (old(self).records()[id@].tasks_completed + 1) as u64,
                    ..old(self).records()[id@]
                },
            ),
    {
        self.bump(id, true);
    }

    /// Count one more failed task for an agent; an unknown agent is ignored.
    pub fn record_task_failed(&mut self, id: &AgentId)
        requires
            has_agent(old(self).records(), *id) ==> old(self).records()[id@].tasks_failed < u64::MAX,
        ensures
            keyed_by_id(final(self).records()),
            !has_agent(old(self).records(), *id) ==> final(self).records() == old(self).records(),
            has_agent(old(self).records(), *id) ==> final(self).records() == old(self).records().insert(
                id@,
                AgentRecord {
                    tasks_failed: (old(self).records()[id@].tasks_failed + 1) as u64,
                    ..old(self).records()[id@]
                },
            ),
    {
        self.bump(id, false);
    }

    fn bump(&mut self, id: &AgentId, completed: bool)
        requires
            has_agent(old(self).records(), *id) ==> (completed ==> old(self).records()[id@].tasks_completed
                < u64::MAX) && (!completed ==> old(self).records()[id@].tasks_failed < u64::MAX),
        ensures
            keyed_by_id(final(self).records()),
            !has_agent(old(self).records(), *id) ==> final(self).records() == old(self).records(),
            has_agent(old(self).records(), *id) && completed ==> final(self).records()
                == old(self).records().insert(
                id@,
                AgentRecord {
                    tasks_completed: (old(self).records()[id@].tasks_completed + 1) as u64,
                    ..old(self).records()[id@]
                },
            ),
            has_agent(old(self).records(), *id) && !completed ==> final(self).records()
                == old(self).records().insert(
                id@,
                AgentRecord {
                    tasks_failed: (old(self).records()[id@].tasks_failed + 1) as u64,
                    ..old(self).records()[id@]
                },
            ),
    {
        proof {
            use_type_invariant(&*self);
        }
        let mut agents = table_new();
        core::mem::swap(&mut agents, &mut self.agents);
        let ghost before = agent_table(agents);
        let removed = table_remove(&mut agents, id.as_uuid());
        match removed {
            Some(mut rec) => {
                if completed {
                    rec.tasks_completed = rec.tasks_completed + 1;
                } else {
                    rec.tasks_failed = rec.tasks_failed + 1;
                }
                table_insert(&mut agents, id.as_uuid(), rec);
                proof {
                    assert(agent_table(agents) =~= before.insert(id@, rec));
                }
                *self = AgentRegistry { agents };
            },
            None => {
                proof {
                    assert(agent_table(agents) =~= before);
                }
                *self = AgentRegistry { agents };
            },
        }
    }
}

} // verus!
