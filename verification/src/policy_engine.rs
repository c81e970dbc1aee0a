//! The priority-ordered policy evaluation engine.
//!
//! Policies are kept in descending priority order; among equal priorities
//! the one registered first comes first. Evaluation asks each policy in turn
//! and stops at the first explicit `Allow` or `Deny`; when every policy
//! abstains, the engine's default decision applies.
//!
//! Policies are evaluated by the runtime, one at a time: after each outcome
//! the runtime asks [`PolicyEngine::step`] whether evaluation is decided,
//! and after the last policy it takes [`PolicyEngine::fallback`].

use vstd::prelude::*;
use crate::error::{SwarmError, SwarmResult};
use crate::identity::PolicyId;
use crate::policy::{PolicyDecision, PolicyOutcome};
use crate::text::owned;

verus! {

/// Default decision when all registered policies abstain.
#[derive(Debug, Clone, Copy, PartialEq, Eq, Structural)]
pub enum DefaultDecision {
    /// Allow the action unless a policy explicitly denies it.
    Allow,
    /// Deny the action unless a policy explicitly allows it.
    Deny,
}

/// The identifier value of the fixed default-deny policy,
/// `00000000-0000-0000-0000-00000000d3f1`.
pub const DEFAULT_DENY_POLICY_UUID: u128 = 0xd3f1u128;

/// The reason given when every policy abstains under deny-by-default.
pub open spec fn default_deny_reason() -> Seq<char> {
    "no policy explicitly allowed this action (deny-by-default)"@
}

/// What an evaluation does next: ask the policy at `index` in evaluation
/// order, or stop with a decision.
#[derive(Debug)]
pub enum EvaluationStep {
    /// Evaluate the policy at this position next.
    Ask {
        /// The position in evaluation order.
        index: usize,
        /// The policy's identifier.
        policy_id: PolicyId,
    },
    /// Evaluation is over with this decision.
    Decided(PolicyDecision),
}

/// A registered policy with the identifier and priority it was registered
/// with.
pub struct PolicySlot<P> {
    /// The policy's identifier.
    pub id: PolicyId,
    /// The policy's priority; higher values are evaluated first.
    pub priority: i32,
    /// The policy itself.
    pub policy: P,
}

/// The identifiers and priorities of `s`, in order.
pub open spec fn slot_order<P>(s: Seq<PolicySlot<P>>) -> Seq<(PolicyId, i32)> {
    s.map_values(|x: PolicySlot<P>| (x.id, x.priority))
}

/// Whether priorities never increase along `s`.
pub open spec fn descending(s: Seq<(PolicyId, i32)>) -> bool {
    forall|i: int, j: int| 0 <= i < j < s.len() ==> s[i].1 >= s[j].1
}

/// The number of leading entries of `s` whose priority is at least `p`.
pub open spec fn count_at_least(s: Seq<(PolicyId, i32)>, p: i32) -> nat
    decreases s.len(),
{
    if s.len() == 0 || s[0].1 < p {
        0
    } else {
        1 + count_at_least(s.drop_first(), p)
    }
}

/// `s` without the entries of identifier `id`, the rest in order.
pub open spec fn without_policy(s: Seq<(PolicyId, i32)>, id: PolicyId) -> Seq<(PolicyId, i32)>
    decreases s.len(),
{
    if s.len() == 0 {
        s
    } else if s.last().0 == id {
        without_policy(s.drop_last(), id)
    } else {
        without_policy(s.drop_last(), id).push(s.last())
    }
}

/// The value of a decision: `None` when allowed, the denying policy and the
/// reason's text when denied.
pub open spec fn decision_view(d: PolicyDecision) -> Option<(PolicyId, Seq<char>)> {
    match d {
        PolicyDecision::Allowed => None,
        PolicyDecision::Denied { policy_id, reason } => Some((policy_id, reason@)),
    }
}

/// The decision of evaluating policies whose outcomes are, in order,
/// `outcomes`: the first that allows or denies decides; when all abstain,
/// `fallback` applies.
pub open spec fn first_decision(
    outcomes: Seq<(PolicyId, PolicyOutcome)>,
    fallback: Option<(PolicyId, Seq<char>)>,
) -> Option<(PolicyId, Seq<char>)>
    decreases outcomes.len(),
{
    if outcomes.len() == 0 {
        fallback
    } else {
        match outcomes[0].1 {
            PolicyOutcome::Allow => None,
            PolicyOutcome::Deny { reason } => Some((outcomes[0].0, reason@)),
            PolicyOutcome::Abstain => first_decision(outcomes.drop_first(), fallback),
        }
    }
}

/// The priority-ordered policy engine over policies of type `P`.
pub struct PolicyEngine<P> {
    policies: Vec<PolicySlot<P>>,
    default_decision: DefaultDecision,
    default_deny_policy_id: PolicyId,
}

impl<P> PolicyEngine<P> {
    /// The identifiers and priorities of the registered policies, in
    /// evaluation order.
    pub closed spec fn order(&self) -> Seq<(PolicyId, i32)> {
        slot_order(self.policies@)
    }

    /// The default decision.
    pub closed spec fn default_spec(&self) -> DefaultDecision {
        self.default_decision
    }

    /// The identifier reported when the default denies.
    pub closed spec fn deny_id(&self) -> PolicyId {
        self.default_deny_policy_id
    }

    #[verifier::type_invariant]
    closed spec fn wf(&self) -> bool {
        descending(slot_order(self.policies@))
    }

    /// The value of what the engine decides when every policy abstains.
    pub open spec fn fallback_spec(&self) -> Option<(PolicyId, Seq<char>)> {
        match self.default_spec() {
            DefaultDecision::Allow => None,
            DefaultDecision::Deny => Some((self.deny_id(), default_deny_reason())),
        }
    }

    /// The fixed identifier of the default-deny policy, the same in every
    /// engine and every process.
    pub fn default_deny_policy_id() -> (r: PolicyId)
        ensures
            r@ == DEFAULT_DENY_POLICY_UUID,
    {
        PolicyId::from_uuid(DEFAULT_DENY_POLICY_UUID)
    }

    /// An engine with no policies and the given default decision.
    pub fn new(default_decision: DefaultDecision) -> (r: Self)
        ensures
            r.order() == Seq::<(PolicyId, i32)>::empty(),
            r.default_spec() == default_decision,
            r.deny_id()@ == DEFAULT_DENY_POLICY_UUID,
    {
        let r = PolicyEngine {
            policies: Vec::new(),
            default_decision,
            default_deny_policy_id: Self::default_deny_policy_id(),
        };
        proof {
            assert(slot_order(r.policies@) =~= Seq::<(PolicyId, i32)>::empty());
        }
        r
    }

    /// An engine that denies unless a policy allows (recommended).
    pub fn deny_by_default() -> (r: Self)
        ensures
            r.order() == Seq::<(PolicyId, i32)>::empty(),
            r.default_spec() == DefaultDecision::Deny,
            r.deny_id()@ == DEFAULT_DENY_POLICY_UUID,
    {
        Self::new(DefaultDecision::Deny)
    }

    /// An engine that allows unless a policy denies.
    pub fn allow_by_default() -> (r: Self)
        ensures
            r.order() == Seq::<(PolicyId, i32)>::empty(),
            r.default_spec() == DefaultDecision::Allow,
            r.deny_id()@ == DEFAULT_DENY_POLICY_UUID,
    {
        Self::new(DefaultDecision::Allow)
    }

    /// Register a policy: it goes after every policy of higher or equal
    /// priority and before every policy of lower priority.
    pub fn register(&mut self, id: PolicyId, priority: i32, policy: P)
        ensures
            final(self).order() == old(self).order().insert(
                count_at_least(old(self).order(), priority) as int,
                (id, priority),
            ),
            descending(final(self).order()),
            final(self).default_spec() == old(self).default_spec(),
            final(self).deny_id() == old(self).deny_id(),
    {
        proof {
            use_type_invariant(&*self);
        }
        let ghost prev = slot_order(self.policies@);
        let n = self.policies.len();
        let mut pos: usize = 0;
        proof {
            assert(prev.skip(0) =~= prev);
        }
        while pos < n && self.policies[pos].priority >= priority
            invariant
                pos <= n == self.policies@.len() == prev.len(),
                prev == slot_order(self.policies@),
                descending(prev),
                count_at_least(prev, priority) == pos + count_at_least(prev.skip(pos as int), priority),
                forall|k: int| 0 <= k < pos ==> prev[k].1 >= priority,
            decreases n - pos,
        {
            proof {
                assert(prev.skip(pos as int)[0] == prev[pos as int]);
                assert(prev.skip(pos as int).drop_first() =~= prev.skip(pos + 1));
            }
            pos = pos + 1;
        }
        proof {
            if pos < n {
                assert(prev.skip(pos as int)[0] == prev[pos as int]);
            }
            assert(count_at_least(prev, priority) == pos);
        }
        let mut policies: Vec<PolicySlot<P>> = Vec::new();
        core::mem::swap(&mut policies, &mut self.policies);
        let ghost before = policies@;
        policies.insert(pos, PolicySlot { id, priority, policy });
        proof {
            let r = slot_order(policies@);
            assert(r =~= prev.insert(pos as int, (id, priority)));
            assert forall|i: int, j: int| 0 <= i < j < r.len() implies r[i].1 >= r[j].1 by {
                if j < pos {
                    assert(r[i] == prev[i] && r[j] == prev[j]);
                } else if j == pos {
                    assert(r[i] == prev[i]);
                } else if i == pos {
                    assert(r[j] == prev[j - 1]);
                    assert(prev[pos as int].1 < priority);
                    if j - 1 > pos {
                        assert(prev[pos as int].1 >= prev[j - 1].1);
                    }
                } else if i < pos {
                    assert(r[i] == prev[i] && r[j] == prev[j - 1]);
                } else {
                    assert(r[i] == prev[i - 1] && r[j] == prev[j - 1]);
                }
            }
        }
        let default_decision = self.default_decision;
        let default_deny_policy_id = self.default_deny_policy_id;
        *self = PolicyEngine { policies, default_decision, default_deny_policy_id };
    }

    /// Remove every policy registered with identifier `id`.
    pub fn unregister(&mut self, id: &PolicyId)
        ensures
            final(self).order() == without_policy(old(self).order(), *id),
            final(self).default_spec() == old(self).default_spec(),
            final(self).deny_id() == old(self).deny_id(),
    {
        proof {
            use_type_invariant(&*self);
        }
        let ghost prev = slot_order(self.policies@);
        let mut rest: Vec<PolicySlot<P>> = Vec::new();
        core::mem::swap(&mut rest, &mut self.policies);
        let ghost orig = rest@;
        let mut kept: Vec<PolicySlot<P>> = Vec::new();
        let n = rest.len();
        let mut k: usize = 0;
        while k < n
            invariant
                k <= n == orig.len(),
                prev == slot_order(orig),
                descending(prev),
                rest@ == orig.skip(k as int),
                slot_order(kept@) == without_policy(prev.take(k as int), *id),
                forall|a: int, b: int| 0 <= a < b < kept@.len() ==> kept@[a].priority >= kept@[b].priority,
                forall|a: int, b: int| 0 <= a < kept@.len() && k <= b < prev.len() ==> #[trigger] kept@[a].priority >= #[trigger] prev[b].1,
            decreases n - k,
        {
            let slot = rest.remove(0);
            proof {
                assert(prev.take(k + 1).drop_last() =~= prev.take(k as int));
                assert(prev.take(k + 1).last() == prev[k as int]);
                assert(slot == orig[k as int]);
                assert(rest@ =~= orig.skip(k + 1));
            }
            if slot.id != *id {
                let ghost before = kept@;
                kept.push(slot);
                proof {
                    assert(slot_order(kept@) =~= slot_order(before).push(prev[k as int]));
                    assert forall|a: int, b: int| 0 <= a < b < kept@.len() implies kept@[a].priority
                        >= kept@[b].priority by {
                        if b == before.len() {
                            assert(kept@[a] == before[a]);
                        } else {
                            assert(kept@[a] == before[a] && kept@[b] == before[b]);
                        }
                    }
                    assert forall|a: int, b: int| 0 <= a < kept@.len() && k + 1 <= b < prev.len()
                        implies #[trigger] kept@[a].priority >= #[trigger] prev[b].1 by {
                        if a < before.len() {
                            assert(kept@[a] == before[a]);
                        }
                    }
                }
            }
            k = k + 1;
        }
        proof {
            assert(prev.take(n as int) =~= prev);
            assert(descending(slot_order(kept@))) by {
                assert forall|a: int, b: int| 0 <= a < b < slot_order(kept@).len() implies slot_order(kept@)[a].1
                    >= slot_order(kept@)[b].1 by {
                    assert(kept@[a].priority >= kept@[b].priority);
                }
            }
        }
        let default_decision = self.default_decision;
        let default_deny_policy_id = self.default_deny_policy_id;
        *self = PolicyEngine { policies: kept, default_decision, default_deny_policy_id };
    }

    /// The number of registered policies.
    pub fn len(&self) -> (r: usize)
        ensures
            r == self.order().len(),
    {
        self.policies.len()
    }

    /// The `i`-th registered policy in evaluation order.
    pub fn slot(&self, i: usize) -> (r: &PolicySlot<P>)
        requires
            i < self.order().len(),
        ensures
            (r.id, r.priority) == self.order()[i as int],
    {
        &self.policies[i]
    }

    /// One evaluation step: the outcome of the policy `policy_id` decides
    /// when it allows or denies, and evaluation continues when it abstains.
    pub fn step(&self, policy_id: PolicyId, outcome: PolicyOutcome) -> (r: Option<PolicyDecision>)
        ensures
            outcome is Abstain ==> r is None,
            outcome is Allow ==> r == Some(PolicyDecision::Allowed),
            outcome matches PolicyOutcome::Deny { reason } ==> r == Some(
                PolicyDecision::Denied { policy_id, reason },
            ),
    {
        match outcome {
            PolicyOutcome::Allow => Some(PolicyDecision::Allowed),
            PolicyOutcome::Deny { reason } => Some(PolicyDecision::Denied { policy_id, reason }),
            PolicyOutcome::Abstain => None,
        }
    }

    /// The decision when every policy abstained: allow under
    /// allow-by-default; under deny-by-default a denial by the fixed
    /// default-deny identifier.
    pub fn fallback(&self) -> (r: PolicyDecision)
        ensures
            decision_view(r) == self.fallback_spec(),
    {
        match self.default_decision {
            DefaultDecision::Allow => PolicyDecision::Allowed,
            DefaultDecision::Deny => {
                let reason = owned("no policy explicitly allowed this action (deny-by-default)");
                proof {
                    reveal_strlit("no policy explicitly allowed this action (deny-by-default)");
                }
                PolicyDecision::Denied { policy_id: self.default_deny_policy_id, reason }
            },
        }
    }

    /// Drive an evaluation: given the outcomes gathered so far from the
    /// policies in evaluation order, either ask the next policy or give the
    /// decision. A policy is asked only while every earlier one abstained,
    /// so no policy after the first that allows or denies is ever asked;
    /// the decision is that of the first explicit outcome, or the default
    /// when every policy abstained.
    pub fn next_step(&self, outcomes: &Vec<(PolicyId, PolicyOutcome)>) -> (r: EvaluationStep)
        requires
            outcomes@.len() <= self.order().len(),
        ensures
            r matches EvaluationStep::Ask { index, policy_id } ==> index == outcomes@.len() && index
                < self.order().len() && policy_id == self.order()[index as int].0 && forall|j: int|
                0 <= j < outcomes@.len() ==> (#[trigger] outcomes@[j]).1 is Abstain,
            r matches EvaluationStep::Decided(d) ==> decision_view(d) == first_decision(
                outcomes@,
                self.fallback_spec(),
            ),
            (exists|j: int| 0 <= j < outcomes@.len() && !((#[trigger] outcomes@[j]).1 is Abstain)) ==> r is Decided,
            outcomes@.len() == self.order().len() ==> r is Decided,
    {
        let n = outcomes.len();
        let mut k: usize = 0;
        while k < n
            invariant
                k <= n == outcomes@.len(),
                forall|j: int| 0 <= j < k ==> (#[trigger] outcomes@[j]).1 is Abstain,
            decreases n - k,
        {
            if !matches!(outcomes[k].1, PolicyOutcome::Abstain) {
                proof {
                    lemma_first_decision_skips_abstains(outcomes@, k as int, self.fallback_spec());
                    assert(outcomes@.skip(k as int)[0] == outcomes@[k as int]);
                }
                let d = match &outcomes[k].1 {
                    PolicyOutcome::Deny { reason } => PolicyDecision::Denied {
                        policy_id: outcomes[k].0,
                        reason: reason.clone(),
                    },
                    _ => PolicyDecision::Allowed,
                };
                return EvaluationStep::Decided(d);
            }
            k = k + 1;
        }
        proof {
            lemma_first_decision_skips_abstains(outcomes@, n as int, self.fallback_spec());
            assert(outcomes@.skip(n as int).len() == 0);
        }
        if n < self.policies.len() {
            EvaluationStep::Ask { index: n, policy_id: self.policies[n].id }
        } else {
            EvaluationStep::Decided(self.fallback())
        }
    }

    /// Evaluate outcomes gathered in evaluation order: the first outcome
    /// that allows or denies decides, else the fallback applies.
    pub fn decide(&self, outcomes: Vec<(PolicyId, PolicyOutcome)>) -> (r: PolicyDecision)
        ensures
            decision_view(r) == first_decision(outcomes@, self.fallback_spec()),
    {
        let ghost orig = outcomes@;
        let mut rest = outcomes;
        let n = rest.len();
        let mut k: usize = 0;
        while k < n
            invariant
                k <= n == orig.len(),
                orig == outcomes@,
                rest@ == orig.skip(k as int),
                forall|j: int| 0 <= j < k ==> orig[j].1 is Abstain,
            decreases n - k,
        {
            let (id, outcome) = rest.remove(0);
            proof {
                assert(orig.skip(k as int)[0] == orig[k as int]);
                assert(id == orig[k as int].0 && outcome == orig[k as int].1);
                assert(rest@ =~= orig.skip(k + 1));
            }
            match self.step(id, outcome) {
                Some(d) => {
                    proof {
                        lemma_first_decision_skips_abstains(orig, k as int, self.fallback_spec());
                        let sk = orig.skip(k as int);
                        assert(sk[0] == orig[k as int]);
                        assert(sk.len() > 0);
                    }
                    return d;
                },
                None => {},
            }
            k = k + 1;
        }
        let d = self.fallback();
        proof {
            lemma_first_decision_skips_abstains(orig, n as int, self.fallback_spec());
            assert(orig.skip(n as int).len() == 0);
        }
        d
    }

}

/// Skipping abstaining outcomes does not change the decision.
pub proof fn lemma_first_decision_skips_abstains(outcomes: Seq<(PolicyId, PolicyOutcome)>, k: int, fallback: Option<(PolicyId, Seq<char>)>)
    requires
        0 <= k <= outcomes.len(),
        forall|j: int| 0 <= j < k ==> outcomes[j].1 is Abstain,
    ensures
        first_decision(outcomes, fallback) == first_decision(outcomes.skip(k), fallback),
    decreases k,
{
    if k > 0 {
        assert(outcomes.skip(1) =~= outcomes.drop_first());
        lemma_first_decision_skips_abstains(outcomes.drop_first(), k - 1, fallback);
        assert(outcomes.drop_first().skip(k - 1) =~= outcomes.skip(k));
    } else {
        assert(outcomes.skip(0) =~= outcomes);
    }
}

/// Turn a decision into an enforcement result: `Ok` when allowed, else a
/// `PolicyViolation` naming the denying policy, the action and the reason.
pub fn enforce_decision(decision: PolicyDecision, action: &str) -> (r: SwarmResult<()>)
    ensures
        decision is Allowed ==> r is Ok,
        decision matches PolicyDecision::Denied { policy_id, reason } ==> r matches Err(
            SwarmError::PolicyViolation { policy_id: p, action: a, reason: why },
        ) && p == policy_id && a@ == action@ && why == reason,
{
    match decision {
        PolicyDecision::Allowed => Ok(()),
        PolicyDecision::Denied { policy_id, reason } => Err(
            SwarmError::PolicyViolation { policy_id, action: owned(action), reason },
        ),
    }
}

/// An engine with no policies decides by its default alone: allow-by-default
/// allows, deny-by-default denies with the fixed default-deny identifier.
pub proof fn lemma_empty_engine_uses_default(fallback: Option<(PolicyId, Seq<char>)>)
    ensures
        first_decision(Seq::<(PolicyId, PolicyOutcome)>::empty(), fallback) == fallback,
{
}

/// A policy that allows wins over every later one, and an explicit denial
/// wins likewise: the decision is that of the first non-abstaining policy.
pub proof fn lemma_first_explicit_outcome_decides(outcomes: Seq<(PolicyId, PolicyOutcome)>, k: int, fallback: Option<(PolicyId, Seq<char>)>)
    requires
        0 <= k < outcomes.len(),
        forall|j: int| 0 <= j < k ==> outcomes[j].1 is Abstain,
        !(outcomes[k].1 is Abstain),
    ensures
        outcomes[k].1 is Allow ==> first_decision(outcomes, fallback) is None,
        outcomes[k].1 matches PolicyOutcome::Deny { reason } ==> first_decision(outcomes, fallback)
            == Some((outcomes[k].0, reason@)),
{
    lemma_first_decision_skips_abstains(outcomes, k, fallback);
    assert(outcomes.skip(k)[0] == outcomes[k]);
}

} // verus!
