//! Where learning outputs are kept, with their approval lifecycle: the
//! document a file-backed store reads and writes, and an in-memory store.
//!
//! Both offer the same operations: record (insert or replace by id), list
//! the outputs pending approval in a scope, approve, reject, roll back, get
//! and count.

use vstd::prelude::*;
use dashmap::DashMap;
use crate::error::{SwarmError, SwarmResult};
use crate::identity::{uuid_hyphenated, LearningRuleId};
use crate::learning::output::{category_key, same_output, LearningCategory, LearningOutput, LearningStatus};
use crate::learning::scope::{scope_key, LearningScope};
use crate::recency::{by_recency, lemma_by_recency, sort_newest_first, Dated};
use crate::text::{opt_view, owned, str_eq};
use crate::types::{now, Timestamp};

verus! {

impl Dated for LearningOutput {
    open spec fn date(&self) -> Timestamp {
        self.created_at
    }

    fn date_of(&self) -> (r: Timestamp) {
        self.created_at
    }
}

/// Whether an output falls under a scope. Every output falls under the
/// global scope; otherwise the output's primary scope must be that scope,
/// or, for an output whose primary scope is still global, an agent or tenant
/// scope must name the output's agent or tenant.
pub open spec fn in_learning_scope(o: LearningOutput, s: LearningScope) -> bool {
    match s {
        LearningScope::Global => true,
        LearningScope::Agent { agent_id } => scope_key(o.scope) == scope_key(s) || (o.scope is Global && opt_view(
            o.agent_id,
        ) == Some(agent_id@)),
        LearningScope::Tenant { tenant_id } => scope_key(o.scope) == scope_key(s) || (o.scope is Global
            && opt_view(o.tenant_id) == Some(tenant_id@)),
        _ => scope_key(o.scope) == scope_key(s),
    }
}

/// Whether an optional text is present and equal to `text`.
fn opt_is(o: &Option<String>, text: &str) -> (r: bool)
    ensures
        r == (opt_view(*o) == Some(text@)),
{
    match o {
        Some(v) => str_eq(v.as_str(), text),
        None => false,
    }
}

/// Whether an output falls under a scope.
pub fn scope_matches(output: &LearningOutput, scope: &LearningScope) -> (r: bool)
    ensures
        r == in_learning_scope(*output, *scope),
{
    if matches!(scope, LearningScope::Global) {
        return true;
    }
    if output.scope.same_as(scope) {
        return true;
    }
    match scope {
        LearningScope::Agent { agent_id } => matches!(output.scope, LearningScope::Global) && opt_is(
            &output.agent_id,
            agent_id.as_str(),
        ),
        LearningScope::Tenant { tenant_id } => matches!(output.scope, LearningScope::Global) && opt_is(
            &output.tenant_id,
            tenant_id.as_str(),
        ),
        _ => false,
    }
}

/// Whether an output awaits approval within a scope.
pub open spec fn pending_in(o: LearningOutput, s: LearningScope) -> bool {
    o.status == LearningStatus::PendingApproval && in_learning_scope(o, s)
}

/// The outputs of `s` that await approval within scope `scope`, in order.
pub open spec fn pending_outputs(s: Seq<LearningOutput>, scope: LearningScope) -> Seq<LearningOutput>
    decreases s.len(),
{
    if s.len() == 0 {
        s
    } else {
        let rest = pending_outputs(s.drop_last(), scope);
        if pending_in(s.last(), scope) {
            rest.push(s.last())
        } else {
            rest
        }
    }
}

/// The number of outputs of `s` within scope `scope`.
pub open spec fn scoped_count(s: Seq<LearningOutput>, scope: LearningScope) -> nat
    decreases s.len(),
{
    if s.len() == 0 {
        0
    } else {
        scoped_count(s.drop_last(), scope) + if in_learning_scope(s.last(), scope) {
            1nat
        } else {
            0nat
        }
    }
}

/// Whether `i` is the first position of `s` holding output `id`.
pub open spec fn first_output(s: Seq<LearningOutput>, id: LearningRuleId, i: int) -> bool {
    &&& 0 <= i < s.len()
    &&& s[i].id == id
    &&& forall|j: int| 0 <= j < i ==> s[j].id != id
}

/// Whether some element of `s` holds output `id`.
pub open spec fn holds_output(s: Seq<LearningOutput>, id: LearningRuleId) -> bool {
    exists|i: int| 0 <= i < s.len() && #[trigger] s[i].id == id
}

/// An output with a new status and, when `stamp` gives one, a new
/// application time; all else kept.
pub open spec fn with_status(o: LearningOutput, status: LearningStatus, stamp: Option<Timestamp>) -> LearningOutput {
    LearningOutput {
        status,
        applied_at: if stamp is Some {
            stamp
        } else {
            o.applied_at
        },
        ..o
    }
}

/// The reason given when an output is not stored.
pub open spec fn output_missing_reason(id: u128) -> Seq<char> {
    "Learning output "@ + uuid_hyphenated(id) + " not found"@
}

/// The reason given when an output is not stored.
fn missing_output(id: &LearningRuleId) -> (r: SwarmError)
    ensures
        r matches SwarmError::Internal { reason } && reason@ == output_missing_reason(id@),
{
    let mut reason = owned("Learning output ");
    reason.append(id.to_text().as_str());
    reason.append(" not found");
    proof {
        reveal_strlit("Learning output ");
        reveal_strlit(" not found");
    }
    SwarmError::Internal { reason }
}

/// The first position of an output in `v`, if it is there.
fn find_output(v: &Vec<LearningOutput>, id: &LearningRuleId) -> (r: Option<usize>)
    ensures
        r matches Some(i) ==> first_output(v@, *id, i as int),
        r is None ==> !holds_output(v@, *id),
{
    let n = v.len();
    let mut i: usize = 0;
    while i < n
        invariant
            i <= n == v@.len(),
            forall|j: int| 0 <= j < i ==> v@[j].id != *id,
        decreases n - i,
    {
        if v[i].id == *id {
            return Some(i);
        }
        i = i + 1;
    }
    None
}

/// Copies of the outputs of `v` that await approval within `scope`, in order.
fn copy_pending(v: &Vec<LearningOutput>, scope: &LearningScope) -> (r: Vec<LearningOutput>)
    ensures
        r@.len() == pending_outputs(v@, *scope).len(),
        forall|i: int| 0 <= i < r@.len() ==> same_output(#[trigger] r@[i], pending_outputs(v@, *scope)[i]),
{
    let mut out: Vec<LearningOutput> = Vec::new();
    let n = v.len();
    let mut i: usize = 0;
    proof {
        assert(v@.take(0) =~= Seq::<LearningOutput>::empty());
    }
    while i < n
        invariant
            i <= n == v@.len(),
            out@.len() == pending_outputs(v@.take(i as int), *scope).len(),
            forall|k: int| 0 <= k < out@.len() ==> same_output(#[trigger] out@[k], pending_outputs(v@.take(i as int), *scope)[k]),
        decreases n - i,
    {
        let ghost before = out@;
        let ghost pre = pending_outputs(v@.take(i as int), *scope);
        proof {
            assert(v@.take(i + 1).drop_last() =~= v@.take(i as int));
            assert(v@.take(i + 1).last() == v@[i as int]);
        }
        if v[i].status == LearningStatus::PendingApproval && scope_matches(&v[i], scope) {
            out.push(v[i].duplicate());
            proof {
                assert forall|k: int| 0 <= k < out@.len() implies same_output(#[trigger] out@[k], pending_outputs(v@.take(i + 1), *scope)[k]) by {
                    if k < before.len() {
                        assert(out@[k] == before[k]);
                    }
                }
            }
        }
        i = i + 1;
    }
    proof {
        assert(v@.take(n as int) =~= v@);
    }
    out
}

/// The stored outputs of a file-backed learning store, in recording order.
#[derive(Debug)]
pub struct LearningStoreDocument {
    /// The outputs.
    pub outputs: Vec<LearningOutput>,
}

impl LearningStoreDocument {
    /// An empty document.
    pub fn new() -> (r: Self)
        ensures
            r.outputs@ == Seq::<LearningOutput>::empty(),
    {
        LearningStoreDocument { outputs: Vec::new() }
    }

    /// Record an output: it replaces the first output with the same id, or
    /// is appended when the id is new.
    pub fn record(&mut self, output: LearningOutput)
        ensures
            holds_output(old(self).outputs@, output.id) ==> exists|i: int|
                first_output(old(self).outputs@, output.id, i) && final(self).outputs@ == old(
                    self,
                ).outputs@.update(i, output),
            !holds_output(old(self).outputs@, output.id) ==> final(self).outputs@ == old(self).outputs@.push(output),
    {
        match find_output(&self.outputs, &output.id) {
            Some(i) => {
                self.outputs.set(i, output);
            },
            None => {
                self.outputs.push(output);
            },
        }
    }

    /// Copies of the outputs awaiting approval within a scope, newest
    /// first; outputs created at the same time keep their recording order.
    pub fn list_pending_approvals(&self, scope: &LearningScope) -> (r: Vec<LearningOutput>)
        ensures
            r@.len() == pending_outputs(self.outputs@, *scope).len(),
            exists|copies: Seq<LearningOutput>|
                copies.len() == pending_outputs(self.outputs@, *scope).len() && (forall|i: int|
                    0 <= i < copies.len() ==> same_output(#[trigger] copies[i], pending_outputs(self.outputs@, *scope)[i]))
                    && r@ == by_recency(copies),
    {
        let copies = copy_pending(&self.outputs, scope);
        proof {
            lemma_by_recency(copies@);
        }
        sort_newest_first(copies)
    }

    /// Set the status of the first output with `id`, and its application
    /// time when `stamp` gives one; an unknown id is `Internal` and nothing
    /// changes.
    fn set_status(&mut self, id: &LearningRuleId, status: LearningStatus, stamp: Option<Timestamp>) -> (r: SwarmResult<()>)
        ensures
            !holds_output(old(self).outputs@, *id) ==> (r matches Err(SwarmError::Internal { reason })
                && reason@ == output_missing_reason(id@)) && final(self).outputs@ == old(self).outputs@,
            holds_output(old(self).outputs@, *id) ==> exists|i: int|
                first_output(old(self).outputs@, *id, i) && r is Ok && final(self).outputs@ == old(
                    self,
                ).outputs@.update(i, with_status(old(self).outputs@[i], status, stamp)),
    {
        match find_output(&self.outputs, id) {
            None => Err(missing_output(id)),
            Some(i) => {
                let ghost prev = self.outputs@;
                let mut outputs: Vec<LearningOutput> = Vec::new();
                core::mem::swap(&mut outputs, &mut self.outputs);
                let mut o = outputs.remove(i);
                o.status = status;
                if stamp.is_some() {
                    o.applied_at = stamp;
                }
                outputs.insert(i, o);
                proof {
                    assert(outputs@ =~= prev.update(i as int, o));
                }
                self.outputs = outputs;
                Ok(())
            },
        }
    }

    /// Approve an output: it becomes `Applied`, applied now. An unknown id
    /// is `Internal` and nothing changes.
    pub fn approve(&mut self, id: &LearningRuleId) -> (r: SwarmResult<()>)
        ensures
            !holds_output(old(self).outputs@, *id) ==> (r matches Err(SwarmError::Internal { reason })
                && reason@ == output_missing_reason(id@)) && final(self).outputs@ == old(self).outputs@,
            holds_output(old(self).outputs@, *id) ==> exists|i: int, at: Timestamp|
                first_output(old(self).outputs@, *id, i) && r is Ok && final(self).outputs@ == old(
                    self,
                ).outputs@.update(i, with_status(old(self).outputs@[i], LearningStatus::Applied, Some(at))),
    {
        let at = now();
        self.set_status(id, LearningStatus::Applied, Some(at))
    }

    /// Reject an output: it becomes `Rejected`. An unknown id is `Internal`
    /// and nothing changes.
    pub fn reject(&mut self, id: &LearningRuleId) -> (r: SwarmResult<()>)
        ensures
            !holds_output(old(self).outputs@, *id) ==> (r matches Err(SwarmError::Internal { reason })
                && reason@ == output_missing_reason(id@)) && final(self).outputs@ == old(self).outputs@,
            holds_output(old(self).outputs@, *id) ==> exists|i: int|
                first_output(old(self).outputs@, *id, i) && r is Ok && final(self).outputs@ == old(
                    self,
                ).outputs@.update(i, with_status(old(self).outputs@[i], LearningStatus::Rejected, None)),
    {
        self.set_status(id, LearningStatus::Rejected, None)
    }

    /// Roll back an output: it becomes `RolledBack`. An unknown id is
    /// `Internal` and nothing changes.
    pub fn rollback(&mut self, id: &LearningRuleId) -> (r: SwarmResult<()>)
        ensures
            !holds_output(old(self).outputs@, *id) ==> (r matches Err(SwarmError::Internal { reason })
                && reason@ == output_missing_reason(id@)) && final(self).outputs@ == old(self).outputs@,
            holds_output(old(self).outputs@, *id) ==> exists|i: int|
                first_output(old(self).outputs@, *id, i) && r is Ok && final(self).outputs@ == old(
                    self,
                ).outputs@.update(i, with_status(old(self).outputs@[i], LearningStatus::RolledBack, None)),
    {
        self.set_status(id, LearningStatus::RolledBack, None)
    }

    /// A copy of the first output with `id`, if there is one.
    pub fn get(&self, id: &LearningRuleId) -> (r: Option<LearningOutput>)
        ensures
            !holds_output(self.outputs@, *id) ==> r is None,
            holds_output(self.outputs@, *id) ==> exists|i: int|
                first_output(self.outputs@, *id, i) && r is Some && same_output(r->Some_0, self.outputs@[i]),
    {
        match find_output(&self.outputs, id) {
            Some(i) => Some(self.outputs[i].duplicate()),
            None => None,
        }
    }

    /// The number of outputs within a scope.
    pub fn count(&self, scope: &LearningScope) -> (r: u64)
        ensures
            r == scoped_count(self.outputs@, *scope),
    {
        count_in_scope(&self.outputs, scope)
    }
}

/// The number of outputs of `v` within `scope`.
fn count_in_scope(v: &Vec<LearningOutput>, scope: &LearningScope) -> (r: u64)
    ensures
        r == scoped_count(v@, *scope),
{
    let n = v.len();
    let mut c: u64 = 0;
    let mut i: usize = 0;
    proof {
        assert(v@.take(0) =~= Seq::<LearningOutput>::empty());
    }
    while i < n
        invariant
            i <= n == v@.len(),
            c == scoped_count(v@.take(i as int), *scope),
            c <= i,
        decreases n - i,
    {
        proof {
            assert(v@.take(i + 1).drop_last() =~= v@.take(i as int));
            assert(v@.take(i + 1).last() == v@[i as int]);
        }
        if scope_matches(&v[i], scope) {
            c = c + 1;
        }
        i = i + 1;
    }
    proof {
        assert(v@.take(n as int) =~= v@);
    }
    c
}


/// Outputs holding the same values fall under the same scopes.
pub proof fn lemma_same_output_scope(a: LearningOutput, b: LearningOutput, s: LearningScope)
    requires
        same_output(a, b),
    ensures
        in_learning_scope(a, s) == in_learning_scope(b, s),
        pending_in(a, s) == pending_in(b, s),
{
    assert((a.scope is Global) == (b.scope is Global));
}

/// The concurrent table of learning outputs, keyed by identifier value.
pub type OutputTable = DashMap<u128, LearningOutput>;

/// The entries of an output table, keyed by the identifier's value.
pub uninterp spec fn output_table(m: OutputTable) -> Map<u128, LearningOutput>;

/// `DashMap::new`: an empty table.
#[verifier::external_body]
fn outputs_new() -> (r: OutputTable)
    ensures
        output_table(r).dom() == Set::<u128>::empty(),
{
    DashMap::new()
}

/// `DashMap::insert`: the entry for `key` becomes `value`, all others stay.
#[verifier::external_body]
fn outputs_insert(m: &mut OutputTable, key: u128, value: LearningOutput)
    ensures
        output_table(*final(m)) == output_table(*old(m)).insert(key, value),
{
    m.insert(key, value);
}

/// `DashMap::remove`: the entry for `key` leaves the table and its value is
/// handed back; all other entries stay.
#[verifier::external_body]
fn outputs_remove(m: &mut OutputTable, key: u128) -> (r: Option<LearningOutput>)
    ensures
        output_table(*final(m)) == output_table(*old(m)).remove(key),
        output_table(*old(m)).dom().contains(key) ==> r == Some(output_table(*old(m))[key]),
        !output_table(*old(m)).dom().contains(key) ==> r.is_none(),
{
    m.remove(&key).map(|(_, v)| v)
}

/// `DashMap::get`: a copy of the entry for `key`, if there is one.
#[verifier::external_body]
fn outputs_get(m: &OutputTable, key: u128) -> (r: Option<LearningOutput>)
    ensures
        output_table(*m).dom().contains(key) <==> r is Some,
        r matches Some(o) ==> same_output(o, output_table(*m)[key]),
{
    m.get(&key).map(|e| e.value().duplicate())
}

/// Whether every output is filed under its own identifier, and the table is
/// finite.
pub open spec fn outputs_keyed_by_id(t: Map<u128, LearningOutput>) -> bool {
    &&& t.dom().finite()
    &&& forall|k: u128| #[trigger] t.dom().contains(k) ==> t[k].id@ == k
}

/// `DashMap::iter`: a copy of every entry's value, each entry once, in the
/// map's own order (which the contract leaves open). On a table whose every
/// value is filed under its own identifier, the values listed are thus told
/// apart, and found again, by that identifier.
#[verifier::external_body]
fn outputs_values(m: &OutputTable) -> (r: Vec<LearningOutput>)
    requires
        outputs_keyed_by_id(output_table(*m)),
    ensures
        lists_outputs(r@, output_table(*m)),
{
    m.iter().map(|e| e.value().duplicate()).collect()
}

/// Whether `s` holds a copy of each output of `t`, each once, and nothing
/// else.
pub open spec fn lists_outputs(s: Seq<LearningOutput>, t: Map<u128, LearningOutput>) -> bool {
    &&& forall|i: int| 0 <= i < s.len() ==> #[trigger] t.dom().contains(s[i].id@) && same_output(s[i], t[s[i].id@])
    &&& forall|k: u128| t.dom().contains(k) ==> exists|i: int| 0 <= i < s.len() && #[trigger] s[i].id@ == k
    &&& forall|i: int, j: int| 0 <= i < j < s.len() ==> s[i].id != s[j].id
}

/// The keys of the stored outputs within a scope.
pub open spec fn keys_in_scope(t: Map<u128, LearningOutput>, s: LearningScope) -> Set<u128> {
    t.dom().filter(|k: u128| in_learning_scope(t[k], s))
}

/// An in-memory learning store keyed by output identifier.
pub struct InMemoryLearningStore {
    outputs: OutputTable,
}

impl InMemoryLearningStore {
    /// The stored outputs, keyed by the identifier's value.
    pub closed spec fn stored(&self) -> Map<u128, LearningOutput> {
        output_table(self.outputs)
    }

    #[verifier::type_invariant]
    closed spec fn wf(&self) -> bool {
        outputs_keyed_by_id(output_table(self.outputs))
    }

    /// An empty store.
    pub fn new() -> (r: Self)
        ensures
            r.stored() == Map::<u128, LearningOutput>::empty(),
    {
        let outputs = outputs_new();
        proof {
            assert(output_table(outputs) =~= Map::<u128, LearningOutput>::empty());
        }
        InMemoryLearningStore { outputs }
    }

    /// Record or replace an output.
    pub fn record(&mut self, output: LearningOutput) -> (r: SwarmResult<()>)
        ensures
            r is Ok,
            final(self).stored() == old(self).stored().insert(output.id@, output),
    {
        proof {
            use_type_invariant(&*self);
        }
        let mut outputs = outputs_new();
        core::mem::swap(&mut outputs, &mut self.outputs);
        outputs_insert(&mut outputs, output.id.as_uuid(), output);
        *self = InMemoryLearningStore { outputs };
        Ok(())
    }

    /// Copies of the outputs awaiting approval within a scope, each once, in
    /// no particular order.
    pub fn list_pending_approvals(&self, scope: &LearningScope) -> (r: SwarmResult<Vec<LearningOutput>>)
        ensures
            r is Ok,
            forall|i: int| 0 <= i < r->Ok_0@.len() ==> #[trigger] self.stored().dom().contains(r->Ok_0@[i].id@)
                && same_output(r->Ok_0@[i], self.stored()[r->Ok_0@[i].id@]) && pending_in(
                self.stored()[r->Ok_0@[i].id@],
                *scope,
            ),
            forall|k: u128| #[trigger] self.stored().dom().contains(k) && pending_in(self.stored()[k], *scope)
                ==> exists|i: int| 0 <= i < r->Ok_0@.len() && r->Ok_0@[i].id@ == k,
            forall|i: int, j: int| 0 <= i < j < r->Ok_0@.len() ==> r->Ok_0@[i].id != r->Ok_0@[j].id,
    {
        proof {
            use_type_invariant(self);
        }
        let ghost t = output_table(self.outputs);
        let all = outputs_values(&self.outputs);
        let mut out: Vec<LearningOutput> = Vec::new();
        let ghost mut idx: Seq<int> = Seq::empty();
        let n = all.len();
        let mut i: usize = 0;
        while i < n
            invariant
                i <= n == all@.len(),
                t == output_table(self.outputs),
                lists_outputs(all@, t),
                idx.len() == out@.len(),
                forall|q: int| #![trigger idx[q]] 0 <= q < out@.len() ==> 0 <= idx[q] < i && same_output(
                    out@[q],
                    all@[idx[q]],
                ) && pending_in(all@[idx[q]], *scope),
                forall|a: int, b: int| 0 <= a < b < out@.len() ==> #[trigger] idx[a] < #[trigger] idx[b],
                forall|p: int| 0 <= p < i && pending_in(#[trigger] all@[p], *scope) ==> exists|q: int|
                    0 <= q < idx.len() && idx[q] == p,
            decreases n - i,
        {
            if all[i].status == LearningStatus::PendingApproval && scope_matches(&all[i], scope) {
                let ghost before = idx;
                let ghost before_out = out@;
                out.push(all[i].duplicate());
                proof {
                    idx = idx.push(i as int);
                    assert forall|q: int| #![trigger idx[q]] 0 <= q < out@.len() implies 0 <= idx[q] < i + 1
                        && same_output(out@[q], all@[idx[q]]) && pending_in(all@[idx[q]], *scope) by {
                        if q < before.len() {
                            assert(out@[q] == before_out[q]);
                            assert(idx[q] == before[q]);
                        }
                    }
                    assert forall|a: int, b: int| 0 <= a < b < out@.len() implies #[trigger] idx[a] < #[trigger] idx[b] by {
                        if b == before.len() {
                            assert(out@[a] == before_out[a]);
                            assert(idx[a] == before[a]);
                        } else {
                            assert(idx[a] == before[a] && idx[b] == before[b]);
                        }
                    }
                    assert forall|p: int| 0 <= p < i + 1 && pending_in(#[trigger] all@[p], *scope) implies exists|q: int|
                        0 <= q < idx.len() && idx[q] == p by {
                        if p < i {
                            let q = choose|q: int| 0 <= q < before.len() && before[q] == p;
                            assert(idx[q] == p);
                        } else {
                            assert(idx[before.len() as int] == p);
                        }
                    }
                }
            } else {
                proof {
                    assert forall|p: int| 0 <= p < i + 1 && pending_in(#[trigger] all@[p], *scope) implies exists|q: int|
                        0 <= q < idx.len() && idx[q] == p by {
                        if p == i {
                            assert(!pending_in(all@[p], *scope));
                        }
                    }
                }
            }
            i = i + 1;
        }
        proof {
            assert forall|q: int| 0 <= q < out@.len() implies #[trigger] t.dom().contains(out@[q].id@) && same_output(
                out@[q],
                t[out@[q].id@],
            ) && pending_in(t[out@[q].id@], *scope) by {
                let p = idx[q];
                assert(t.dom().contains(all@[p].id@));
                lemma_same_output_scope(all@[p], t[all@[p].id@], *scope);
            }
            assert forall|k: u128| #[trigger] t.dom().contains(k) && pending_in(t[k], *scope) implies exists|q: int|
                0 <= q < out@.len() && out@[q].id@ == k by {
                let p = choose|p: int| 0 <= p < all@.len() && #[trigger] all@[p].id@ == k;
                lemma_same_output_scope(all@[p], t[k], *scope);
                assert(pending_in(all@[p], *scope));
                let q = choose|q: int| 0 <= q < idx.len() && idx[q] == p;
                assert(out@[q].id@ == k);
            }
            assert forall|a: int, b: int| 0 <= a < b < out@.len() implies out@[a].id != out@[b].id by {
                assert(idx[a] < idx[b]);
                assert(all@[idx[a]].id != all@[idx[b]].id);
            }
        }
        Ok(out)
    }

    /// Set the status of a stored output, and its application time when
    /// `stamp` gives one; an unknown id is `Internal` and nothing changes.
    fn set_status(&mut self, id: &LearningRuleId, status: LearningStatus, stamp: Option<Timestamp>) -> (r: SwarmResult<()>)
        ensures
            !old(self).stored().dom().contains(id@) ==> (r matches Err(SwarmError::Internal { reason })
                && reason@ == output_missing_reason(id@)) && final(self).stored() == old(self).stored(),
            old(self).stored().dom().contains(id@) ==> r is Ok && final(self).stored() == old(
                self,
            ).stored().insert(id@, with_status(old(self).stored()[id@], status, stamp)),
    {
        proof {
            use_type_invariant(&*self);
        }
        let mut outputs = outputs_new();
        core::mem::swap(&mut outputs, &mut self.outputs);
        let ghost before = output_table(outputs);
        match outputs_remove(&mut outputs, id.as_uuid()) {
            None => {
                proof {
                    assert(output_table(outputs) =~= before);
                }
                *self = InMemoryLearningStore { outputs };
                Err(missing_output(id))
            },
            Some(mut o) => {
                o.status = status;
                if stamp.is_some() {
                    o.applied_at = stamp;
                }
                outputs_insert(&mut outputs, id.as_uuid(), o);
                proof {
                    assert(output_table(outputs) =~= before.insert(id@, o));
                }
                *self = InMemoryLearningStore { outputs };
                Ok(())
            },
        }
    }

    /// Approve an output: it becomes `Applied`, applied now. An unknown id
    /// is `Internal` and nothing changes.
    pub fn approve(&mut self, id: &LearningRuleId) -> (r: SwarmResult<()>)
        ensures
            !old(self).stored().dom().contains(id@) ==> (r matches Err(SwarmError::Internal { reason })
                && reason@ == output_missing_reason(id@)) && final(self).stored() == old(self).stored(),
            old(self).stored().dom().contains(id@) ==> r is Ok && exists|at: Timestamp|
                final(self).stored() == old(self).stored().insert(
                    id@,
                    with_status(old(self).stored()[id@], LearningStatus::Applied, Some(at)),
                ),
    {
        let at = now();
        self.set_status(id, LearningStatus::Applied, Some(at))
    }

    /// Reject an output: it becomes `Rejected`. An unknown id is `Internal`
    /// and nothing changes.
    pub fn reject(&mut self, id: &LearningRuleId) -> (r: SwarmResult<()>)
        ensures
            !old(self).stored().dom().contains(id@) ==> (r matches Err(SwarmError::Internal { reason })
                && reason@ == output_missing_reason(id@)) && final(self).stored() == old(self).stored(),
            old(self).stored().dom().contains(id@) ==> r is Ok && final(self).stored() == old(self).stored().insert(
                id@,
                with_status(old(self).stored()[id@], LearningStatus::Rejected, None),
            ),
    {
        self.set_status(id, LearningStatus::Rejected, None)
    }

    /// Roll back an output: it becomes `RolledBack`. An unknown id is
    /// `Internal` and nothing changes.
    pub fn rollback(&mut self, id: &LearningRuleId) -> (r: SwarmResult<()>)
        ensures
            !old(self).stored().dom().contains(id@) ==> (r matches Err(SwarmError::Internal { reason })
                && reason@ == output_missing_reason(id@)) && final(self).stored() == old(self).stored(),
            old(self).stored().dom().contains(id@) ==> r is Ok && final(self).stored() == old(self).stored().insert(
                id@,
                with_status(old(self).stored()[id@], LearningStatus::RolledBack, None),
            ),
    {
        self.set_status(id, LearningStatus::RolledBack, None)
    }

    /// A copy of a stored output, if there is one.
    pub fn get(&self, id: &LearningRuleId) -> (r: SwarmResult<Option<LearningOutput>>)
        ensures
            r is Ok,
            self.stored().dom().contains(id@) <==> r->Ok_0 is Some,
            r->Ok_0 matches Some(o) ==> same_output(o, self.stored()[id@]),
    {
        Ok(outputs_get(&self.outputs, id.as_uuid()))
    }

    /// The number of stored outputs within a scope.
    pub fn count(&self, scope: &LearningScope) -> (r: SwarmResult<u64>)
        ensures
            r is Ok,
            r->Ok_0 == keys_in_scope(self.stored(), *scope).len(),
    {
        proof {
            use_type_invariant(self);
        }
        let ghost t = output_table(self.outputs);
        let all = outputs_values(&self.outputs);
        let n = all.len();
        let mut c: u64 = 0;
        let ghost mut counted: Set<u128> = Set::empty();
        let mut i: usize = 0;
        while i < n
            invariant
                i <= n == all@.len(),
                t == output_table(self.outputs),
                lists_outputs(all@, t),
                counted.finite(),
                c == counted.len(),
                c <= i,
                forall|k: u128| #[trigger] counted.contains(k) <==> exists|p: int|
                    0 <= p < i && all@[p].id@ == k && in_learning_scope(all@[p], *scope),
            decreases n - i,
        {
            if scope_matches(&all[i], scope) {
                proof {
                    let key = all@[i as int].id@;
                    assert(!counted.contains(key)) by {
                        if counted.contains(key) {
                            let p = choose|p: int| 0 <= p < i && all@[p].id@ == key && in_learning_scope(all@[p], *scope);
                            crate::identity::LearningRuleId::lemma_view_injective(all@[p].id, all@[i as int].id);
                            assert(all@[p].id != all@[i as int].id);
                        }
                    }
                    let grown = counted.insert(key);
                    assert forall|k: u128| #[trigger] grown.contains(k) <==> exists|p: int|
                        0 <= p < i + 1 && all@[p].id@ == k && in_learning_scope(all@[p], *scope) by {
                        if exists|p: int| 0 <= p < i + 1 && all@[p].id@ == k && in_learning_scope(all@[p], *scope) {
                            let p = choose|p: int| 0 <= p < i + 1 && all@[p].id@ == k && in_learning_scope(all@[p], *scope);
                            if p < i {
                                assert(counted.contains(k));
                            }
                        }
                    }
                    counted = grown;
                }
                c = c + 1;
            } else {
                proof {
                    assert forall|k: u128| #[trigger] counted.contains(k) <==> exists|p: int|
                        0 <= p < i + 1 && all@[p].id@ == k && in_learning_scope(all@[p], *scope) by {
                        if exists|p: int| 0 <= p < i + 1 && all@[p].id@ == k && in_learning_scope(all@[p], *scope) {
                            let p = choose|p: int| 0 <= p < i + 1 && all@[p].id@ == k && in_learning_scope(all@[p], *scope);
                            assert(p != i);
                        }
                    }
                }
            }
            i = i + 1;
        }
        proof {
            assert(counted =~= keys_in_scope(t, *scope)) by {
                assert forall|k: u128| counted.contains(k) <==> keys_in_scope(t, *scope).contains(k) by {
                    if counted.contains(k) {
                        let p = choose|p: int| 0 <= p < n && all@[p].id@ == k && in_learning_scope(all@[p], *scope);
                        assert(t.dom().contains(all@[p].id@));
                        lemma_same_output_scope(all@[p], t[k], *scope);
                    }
                    if keys_in_scope(t, *scope).contains(k) {
                        let p = choose|p: int| 0 <= p < all@.len() && #[trigger] all@[p].id@ == k;
                        lemma_same_output_scope(all@[p], t[k], *scope);
                        assert(counted.contains(k));
                    }
                }
            }
        }
        Ok(c)
    }
}


/// Filters on learning outputs: a category and a status, each optional.
#[derive(Debug, Clone, PartialEq, Eq)]
pub struct LearningOutputFilter {
    /// Only outputs of this category, when set.
    pub category: Option<LearningCategory>,
    /// Only outputs in this status, when set.
    pub status: Option<LearningStatus>,
}

/// Whether an output passes a filter.
pub open spec fn filter_accepts(f: LearningOutputFilter, o: LearningOutput) -> bool {
    &&& (f.category matches Some(c) ==> category_key(o.category) == category_key(c))
    &&& (f.status matches Some(s) ==> o.status == s)
}

impl LearningOutputFilter {
    /// Whether an output passes this filter.
    pub fn matches(&self, output: &LearningOutput) -> (r: bool)
        ensures
            r == filter_accepts(*self, *output),
    {
        let category_ok = match &self.category {
            Some(c) => output.category.same_as(c),
            None => true,
        };
        let status_ok = match self.status {
            Some(s) => output.status == s,
            None => true,
        };
        category_ok && status_ok
    }
}

/// The lifecycle actions taken on learning outputs at review.
#[derive(Debug, Clone, Copy, PartialEq, Eq, Structural)]
pub enum LearningLifecycleAction {
    /// Approve: the output becomes `Applied`.
    Approve,
    /// Reject: the output becomes `Rejected`.
    Reject,
    /// Roll back: the output becomes `RolledBack`.
    Rollback,
}

/// The status an action leaves an output in.
pub open spec fn action_status(a: LearningLifecycleAction) -> LearningStatus {
    match a {
        LearningLifecycleAction::Approve => LearningStatus::Applied,
        LearningLifecycleAction::Reject => LearningStatus::Rejected,
        LearningLifecycleAction::Rollback => LearningStatus::RolledBack,
    }
}

/// An output after an action taken at time `at`: approval also records the
/// application time.
pub open spec fn acted(o: LearningOutput, a: LearningLifecycleAction, at: Timestamp) -> LearningOutput {
    with_status(
        o,
        action_status(a),
        if a == LearningLifecycleAction::Approve {
            Some(at)
        } else {
            None
        },
    )
}

impl LearningLifecycleAction {
    /// A short label: `approve`, `reject` or `rollback`.
    pub fn label(&self) -> (r: &'static str)
        ensures
            *self == LearningLifecycleAction::Approve ==> r@ == "approve"@,
            *self == LearningLifecycleAction::Reject ==> r@ == "reject"@,
            *self == LearningLifecycleAction::Rollback ==> r@ == "rollback"@,
    {
        proof {
            reveal_strlit("approve");
            reveal_strlit("reject");
            reveal_strlit("rollback");
        }
        match self {
            LearningLifecycleAction::Approve => "approve",
            LearningLifecycleAction::Reject => "reject",
            LearningLifecycleAction::Rollback => "rollback",
        }
    }
}

/// Whether an output falls under a scope and passes a filter.
pub open spec fn selected_by(o: LearningOutput, scope: LearningScope, f: LearningOutputFilter) -> bool {
    in_learning_scope(o, scope) && filter_accepts(f, o)
}

/// The outputs of `s` under `scope` that pass filter `f`, in order.
pub open spec fn filtered_outputs(s: Seq<LearningOutput>, scope: LearningScope, f: LearningOutputFilter) -> Seq<LearningOutput>
    decreases s.len(),
{
    if s.len() == 0 {
        s
    } else {
        let rest = filtered_outputs(s.drop_last(), scope, f);
        if selected_by(s.last(), scope, f) {
            rest.push(s.last())
        } else {
            rest
        }
    }
}

/// The outputs of `s` after an action at `at` on those under `scope` that
/// pass filter `f`.
pub open spec fn act_on(s: Seq<LearningOutput>, scope: LearningScope, f: LearningOutputFilter, a: LearningLifecycleAction, at: Timestamp) -> Seq<LearningOutput> {
    Seq::new(s.len(), |i: int| if selected_by(s[i], scope, f) { acted(s[i], a, at) } else { s[i] })
}

/// Copies of the outputs of `v` under `scope` that pass `f`, in order.
fn copy_filtered(v: &Vec<LearningOutput>, scope: &LearningScope, f: &LearningOutputFilter) -> (r: Vec<LearningOutput>)
    ensures
        r@.len() == filtered_outputs(v@, *scope, *f).len(),
        forall|i: int| 0 <= i < r@.len() ==> same_output(#[trigger] r@[i], filtered_outputs(v@, *scope, *f)[i]),
{
    let mut out: Vec<LearningOutput> = Vec::new();
    let n = v.len();
    let mut i: usize = 0;
    proof {
        assert(v@.take(0) =~= Seq::<LearningOutput>::empty());
    }
    while i < n
        invariant
            i <= n == v@.len(),
            out@.len() == filtered_outputs(v@.take(i as int), *scope, *f).len(),
            forall|k: int| 0 <= k < out@.len() ==> same_output(#[trigger] out@[k], filtered_outputs(v@.take(i as int), *scope, *f)[k]),
        decreases n - i,
    {
        let ghost before = out@;
        proof {
            assert(v@.take(i + 1).drop_last() =~= v@.take(i as int));
            assert(v@.take(i + 1).last() == v@[i as int]);
        }
        if scope_matches(&v[i], scope) && f.matches(&v[i]) {
            out.push(v[i].duplicate());
            proof {
                assert forall|k: int| 0 <= k < out@.len() implies same_output(#[trigger] out@[k], filtered_outputs(v@.take(i + 1), *scope, *f)[k]) by {
                    if k < before.len() {
                        assert(out@[k] == before[k]);
                    }
                }
            }
        }
        i = i + 1;
    }
    proof {
        assert(v@.take(n as int) =~= v@);
    }
    out
}

impl LearningStoreDocument {
    /// Copies of the outputs under a scope that pass a filter, newest first;
    /// outputs created at the same time keep their recording order.
    pub fn list_filtered(&self, scope: &LearningScope, filter: &LearningOutputFilter) -> (r: Vec<LearningOutput>)
        ensures
            r@.len() == filtered_outputs(self.outputs@, *scope, *filter).len(),
            exists|copies: Seq<LearningOutput>|
                copies.len() == filtered_outputs(self.outputs@, *scope, *filter).len() && (forall|i: int|
                    0 <= i < copies.len() ==> same_output(#[trigger] copies[i], filtered_outputs(self.outputs@, *scope, *filter)[i]))
                    && r@ == by_recency(copies),
    {
        let copies = copy_filtered(&self.outputs, scope, filter);
        proof {
            lemma_by_recency(copies@);
        }
        sort_newest_first(copies)
    }

    /// Take an action on every output under a scope that passes a filter
    /// (approval stamped now); copies of the changed outputs are returned in
    /// recording order.
    pub fn update_matching(
        &mut self,
        scope: &LearningScope,
        filter: &LearningOutputFilter,
        action: LearningLifecycleAction,
    ) -> (r: Vec<LearningOutput>)
        ensures
            exists|at: Timestamp|
                final(self).outputs@ == act_on(old(self).outputs@, *scope, *filter, action, at) && r@.len()
                    == filtered_outputs(old(self).outputs@, *scope, *filter).len() && forall|i: int|
                    0 <= i < r@.len() ==> same_output(
                        #[trigger] r@[i],
                        acted(filtered_outputs(old(self).outputs@, *scope, *filter)[i], action, at),
                    ),
    {
        let ghost orig = self.outputs@;
        let at = now();
        let mut changed: Vec<LearningOutput> = Vec::new();
        let n = self.outputs.len();
        let mut i: usize = 0;
        proof {
            assert(orig.take(0) =~= Seq::<LearningOutput>::empty());
        }
        while i < n
            invariant
                i <= n == orig.len(),
                self.outputs@.len() == n,
                forall|j: int| 0 <= j < i ==> #[trigger] self.outputs@[j] == act_on(orig, *scope, *filter, action, at)[j],
                forall|j: int| i <= j < n ==> #[trigger] self.outputs@[j] == orig[j],
                changed@.len() == filtered_outputs(orig.take(i as int), *scope, *filter).len(),
                forall|k: int| 0 <= k < changed@.len() ==> same_output(
                    #[trigger] changed@[k],
                    acted(filtered_outputs(orig.take(i as int), *scope, *filter)[k], action, at),
                ),
            decreases n - i,
        {
            let ghost before = changed@;
            proof {
                assert(orig.take(i + 1).drop_last() =~= orig.take(i as int));
                assert(orig.take(i + 1).last() == orig[i as int]);
                assert(self.outputs@[i as int] == orig[i as int]);
            }
            if scope_matches(&self.outputs[i], scope) && filter.matches(&self.outputs[i]) {
                let ghost o0 = orig[i as int];
                let ghost prev = self.outputs@;
                let mut outputs: Vec<LearningOutput> = Vec::new();
                core::mem::swap(&mut outputs, &mut self.outputs);
                let mut o = outputs.remove(i);
                let status = match action {
                    LearningLifecycleAction::Approve => LearningStatus::Applied,
                    LearningLifecycleAction::Reject => LearningStatus::Rejected,
                    LearningLifecycleAction::Rollback => LearningStatus::RolledBack,
                };
                o.status = status;
                if action == LearningLifecycleAction::Approve {
                    o.applied_at = Some(at);
                }
                let copy = o.duplicate();
                outputs.insert(i, o);
                self.outputs = outputs;
                changed.push(copy);
                proof {
                    assert(self.outputs@ =~= prev.update(i as int, o));
                    assert(o == acted(o0, action, at));
                    assert forall|k: int| 0 <= k < changed@.len() implies same_output(
                        #[trigger] changed@[k],
                        acted(filtered_outputs(orig.take(i + 1), *scope, *filter)[k], action, at),
                    ) by {
                        if k < before.len() {
                            assert(changed@[k] == before[k]);
                        }
                    }
                }
            }
            i = i + 1;
        }
        proof {
            assert(orig.take(n as int) =~= orig);
            assert(self.outputs@ =~= act_on(orig, *scope, *filter, action, at));
        }
        changed
    }
}

} // verus!
