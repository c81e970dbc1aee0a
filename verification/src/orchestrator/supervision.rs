//! Agent supervision tree management and fault escalation.
//!
//! Each agent has a node recording its supervisor and its subordinates. When
//! an agent fails, the failure is escalated to its supervisor; the chain of
//! supervisors up to a root is the agent's ancestry.

use vstd::prelude::*;
use dashmap::DashMap;
use crate::agent::{without, SupervisionTree};
use crate::error::{SwarmError, SwarmResult};
use crate::identity::AgentId;

verus! {

/// The concurrent table of supervision nodes, keyed by agent identifier value.
pub type SupervisionTable = DashMap<u128, SupervisionTree>;

/// The entries of a supervision table, keyed by the agent identifier's value.
pub uninterp spec fn supervision_table(m: SupervisionTable) -> Map<u128, SupervisionTree>;

/// Whether two nodes hold the same values.
pub open spec fn same_node(a: SupervisionTree, b: SupervisionTree) -> bool {
    &&& a.agent_id == b.agent_id
    &&& a.supervisor == b.supervisor
    &&& a.subordinates@ == b.subordinates@
}

/// A copy of a node.
pub fn copy_node(n: &SupervisionTree) -> (r: SupervisionTree)
    ensures
        same_node(r, *n),
{
    let mut subs: Vec<AgentId> = Vec::new();
    let len = n.subordinates.len();
    let mut i: usize = 0;
    while i < len
        invariant
            i <= len == n.subordinates@.len(),
            subs@ == n.subordinates@.take(i as int),
        decreases len - i,
    {
        subs.push(n.subordinates[i]);
        proof {
            assert(subs@ =~= n.subordinates@.take(i + 1));
        }
        i = i + 1;
    }
    proof {
        assert(n.subordinates@.take(len as int) =~= n.subordinates@);
    }
    SupervisionTree { agent_id: n.agent_id, supervisor: n.supervisor, subordinates: subs }
}

/// `DashMap::new`: an empty table.
#[verifier::external_body]
fn nodes_new() -> (r: SupervisionTable)
    ensures
        supervision_table(r).dom() == Set::<u128>::empty(),
{
    DashMap::new()
}

/// `DashMap::insert`: the entry for `key` becomes `value`, all others stay.
#[verifier::external_body]
fn nodes_insert(m: &mut SupervisionTable, key: u128, value: SupervisionTree)
    ensures
        supervision_table(*final(m)) == supervision_table(*old(m)).insert(key, value),
{
    m.insert(key, value);
}

/// `DashMap::remove`: the entry for `key` leaves the table and its value is
/// handed back; all other entries stay.
#[verifier::external_body]
fn nodes_remove(m: &mut SupervisionTable, key: u128) -> (r: Option<SupervisionTree>)
    ensures
        supervision_table(*final(m)) == supervision_table(*old(m)).remove(key),
        supervision_table(*old(m)).dom().contains(key) ==> r == Some(supervision_table(*old(m))[key]),
        !supervision_table(*old(m)).dom().contains(key) ==> r.is_none(),
{
    m.remove(&key).map(|(_, v)| v)
}

/// `DashMap::get`: a copy of the entry for `key`, if there is one.
#[verifier::external_body]
fn nodes_get(m: &SupervisionTable, key: u128) -> (r: Option<SupervisionTree>)
    ensures
        supervision_table(*m).dom().contains(key) <==> r.is_some(),
        r matches Some(n) ==> same_node(n, supervision_table(*m)[key]),
{
    m.get(&key).map(|e| copy_node(e.value()))
}

/// The supervisor recorded for agent `a` in table `t` (none for an unknown
/// agent).
pub open spec fn sup(t: Map<u128, SupervisionTree>, a: AgentId) -> Option<AgentId> {
    if t.dom().contains(a@) {
        t[a@].supervisor
    } else {
        None
    }
}

/// The subordinates recorded for agent `a` in table `t` (none for an unknown
/// agent).
pub open spec fn subs(t: Map<u128, SupervisionTree>, a: AgentId) -> Seq<AgentId> {
    if t.dom().contains(a@) {
        t[a@].subordinates@
    } else {
        Seq::empty()
    }
}

/// Whether walking up from `a` reaches an agent without a supervisor within
/// `n` steps.
pub open spec fn root_within(t: Map<u128, SupervisionTree>, a: AgentId, n: nat) -> bool
    decreases n,
{
    match sup(t, a) {
        None => true,
        Some(p) => n > 0 && root_within(t, p, (n - 1) as nat),
    }
}

/// Whether the walk up from `a` ends at a root (the supervisor links from
/// `a` hold no cycle).
pub open spec fn reaches_root(t: Map<u128, SupervisionTree>, a: AgentId) -> bool {
    exists|n: nat| root_within(t, a, n)
}

/// Whether `chain` is the walk up from `a` to a root: each element is the
/// supervisor of the one before it (of `a` for the first), and the last one
/// (or `a`, for an empty chain) has no supervisor.
pub open spec fn is_ancestry(t: Map<u128, SupervisionTree>, a: AgentId, chain: Seq<AgentId>) -> bool {
    &&& chain.len() > 0 ==> sup(t, a) == Some(chain[0])
    &&& forall|i: int| 0 < i < chain.len() ==> sup(t, #[trigger] chain[i - 1]) == Some(chain[i])
    &&& sup(t, if chain.len() == 0 { a } else { chain.last() }) is None
}

/// Manages the supervision hierarchy of all registered agents.
pub struct SupervisionManager {
    nodes: SupervisionTable,
}

impl SupervisionManager {
    /// The nodes, keyed by agent identifier value.
    pub closed spec fn nodes(&self) -> Map<u128, SupervisionTree> {
        supervision_table(self.nodes)
    }

    /// Create an empty supervision manager.
    pub fn new() -> (r: Self)
        ensures
            r.nodes().dom() == Set::<u128>::empty(),
    {
        SupervisionManager { nodes: nodes_new() }
    }

    /// Register an agent as a root node (no supervisor, no subordinates);
    /// an existing node for the agent is replaced.
    pub fn register_root(&mut self, agent_id: AgentId)
        ensures
            final(self).nodes().dom() == old(self).nodes().dom().insert(agent_id@),
            final(self).nodes()[agent_id@].agent_id == agent_id,
            final(self).nodes()[agent_id@].supervisor is None,
            final(self).nodes()[agent_id@].subordinates@ == Seq::<AgentId>::empty(),
            forall|k: u128| #[trigger] old(self).nodes().dom().contains(k) && k != agent_id@
                ==> final(self).nodes()[k] == old(self).nodes()[k],
    {
        nodes_insert(&mut self.nodes, agent_id.as_uuid(), SupervisionTree::root(agent_id));
    }

    /// Register an agent under a supervisor, which must be registered: the
    /// agent is listed among the supervisor's subordinates (once) and gets a
    /// fresh node pointing at the supervisor.
    pub fn register_under(&mut self, agent_id: AgentId, supervisor_id: AgentId) -> (r: SwarmResult<()>)
        ensures
            !old(self).nodes().dom().contains(supervisor_id@) ==> (r matches Err(
                SwarmError::AgentNotFound { id },
            ) && id == supervisor_id) && final(self).nodes() == old(self).nodes(),
            old(self).nodes().dom().contains(supervisor_id@) ==> r is Ok && {
                let t0 = old(self).nodes();
                let t1 = final(self).nodes();
                &&& t1.dom() == t0.dom().insert(agent_id@)
                &&& t1[agent_id@].agent_id == agent_id
                &&& t1[agent_id@].supervisor == Some(supervisor_id)
                &&& t1[agent_id@].subordinates@ == Seq::<AgentId>::empty()
                &&& supervisor_id != agent_id ==> {
                    &&& t1[supervisor_id@].agent_id == t0[supervisor_id@].agent_id
                    &&& t1[supervisor_id@].supervisor == t0[supervisor_id@].supervisor
                    &&& t1[supervisor_id@].subordinates@ == if t0[supervisor_id@].subordinates@.contains(
                        agent_id,
                    ) {
                        t0[supervisor_id@].subordinates@
                    } else {
                        t0[supervisor_id@].subordinates@.push(agent_id)
                    }
                }
                &&& forall|k: u128| #[trigger] t0.dom().contains(k) && k != agent_id@ && k
                    != supervisor_id@ ==> t1[k] == t0[k]
            },
    {
        let removed = nodes_remove(&mut self.nodes, supervisor_id.as_uuid());
        match removed {
            None => Err(SwarmError::AgentNotFound { id: supervisor_id }),
            Some(mut node) => {
                node.add_subordinate(agent_id);
                nodes_insert(&mut self.nodes, supervisor_id.as_uuid(), node);
                nodes_insert(
                    &mut self.nodes,
                    agent_id.as_uuid(),
                    SupervisionTree::with_supervisor(agent_id, supervisor_id),
                );
                proof {
                    AgentId::lemma_view_injective(agent_id, supervisor_id);
                    assert(self.nodes().dom() =~= old(self).nodes().dom().insert(agent_id@));
                }
                Ok(())
            },
        }
    }

    /// Remove an agent's node; the agent also leaves its supervisor's
    /// subordinate list. An unknown agent is ignored.
    pub fn deregister(&mut self, agent_id: &AgentId)
        ensures
            !old(self).nodes().dom().contains(agent_id@) ==> final(self).nodes() == old(self).nodes(),
            old(self).nodes().dom().contains(agent_id@) ==> {
                let t0 = old(self).nodes();
                let t1 = final(self).nodes();
                let rest = t0.remove(agent_id@);
                match t0[agent_id@].supervisor {
                    Some(s) if rest.dom().contains(s@) => {
                        &&& t1.dom() == rest.dom()
                        &&& t1[s@].agent_id == rest[s@].agent_id
                        &&& t1[s@].supervisor == rest[s@].supervisor
                        &&& t1[s@].subordinates@ == without(rest[s@].subordinates@, *agent_id)
                        &&& forall|k: u128| #[trigger] rest.dom().contains(k) && k != s@ ==> t1[k]
                            == rest[k]
                    },
                    _ => t1 == rest,
                }
            },
    {
        let removed = nodes_remove(&mut self.nodes, agent_id.as_uuid());
        if let Some(node) = removed {
            if let Some(supervisor_id) = node.supervisor {
                let ghost rest = supervision_table(self.nodes);
                let sup_node = nodes_remove(&mut self.nodes, supervisor_id.as_uuid());
                if let Some(mut sn) = sup_node {
                    sn.remove_subordinate(*agent_id);
                    nodes_insert(&mut self.nodes, supervisor_id.as_uuid(), sn);
                    proof {
                        assert(self.nodes().dom() =~= rest.dom());
                    }
                } else {
                    proof {
                        assert(self.nodes() =~= rest);
                    }
                }
            }
        }
    }

    /// The supervisor of `agent_id`, if it has one.
    pub fn supervisor_of(&self, agent_id: &AgentId) -> (r: Option<AgentId>)
        ensures
            r == sup(self.nodes(), *agent_id),
    {
        match nodes_get(&self.nodes, agent_id.as_uuid()) {
            Some(n) => n.supervisor,
            None => None,
        }
    }

    /// The subordinates of `agent_id` (none for an unknown agent).
    pub fn subordinates_of(&self, agent_id: &AgentId) -> (r: Vec<AgentId>)
        ensures
            r@ == subs(self.nodes(), *agent_id),
    {
        match nodes_get(&self.nodes, agent_id.as_uuid()) {
            Some(n) => n.subordinates,
            None => Vec::new(),
        }
    }

    /// The agent a failure of `agent_id` escalates to: its supervisor, or
    /// `None` for a root.
    pub fn escalation_target(&self, agent_id: &AgentId) -> (r: Option<AgentId>)
        ensures
            r == sup(self.nodes(), *agent_id),
    {
        self.supervisor_of(agent_id)
    }

    /// The chain of supervisors from `agent_id` up to a root, not including
    /// the agent itself. The supervisor links from the agent must end at a
    /// root; on a cycle the walk would never end.
    pub fn ancestry(&self, agent_id: &AgentId) -> (r: Vec<AgentId>)
        requires
            reaches_root(self.nodes(), *agent_id),
        ensures
            is_ancestry(self.nodes(), *agent_id, r@),
    {
        let ghost t = self.nodes();
        let ghost mut fuel: nat = choose|n: nat| root_within(t, *agent_id, n);
        let mut chain: Vec<AgentId> = Vec::new();
        let mut current = *agent_id;
        loop
            invariant
                t == self.nodes(),
                root_within(t, current, fuel),
                chain@.len() > 0 ==> sup(t, *agent_id) == Some(chain@[0]),
                forall|i: int| 0 < i < chain@.len() ==> sup(t, #[trigger] chain@[i - 1]) == Some(chain@[i]),
                current == if chain@.len() == 0 { *agent_id } else { chain@.last() },
            ensures
                is_ancestry(t, *agent_id, chain@),
            decreases fuel,
        {
            match self.supervisor_of(&current) {
                Some(parent) => {
                    let ghost before = chain@;
                    chain.push(parent);
                    proof {
                        assert forall|i: int| 0 < i < chain@.len() implies sup(t, #[trigger] chain@[i - 1])
                            == Some(chain@[i]) by {
                            if i < before.len() {
                                assert(chain@[i - 1] == before[i - 1] && chain@[i] == before[i]);
                            } else {
                                assert(chain@[i - 1] == current);
                            }
                        }
                        fuel = (fuel - 1) as nat;
                    }
                    current = parent;
                },
                None => {
                    break;
                },
            }
        }
        chain
    }
}

} // verus!
