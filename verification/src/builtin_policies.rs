//! Built-in policies: allow everything, deny everything, or allow only a
//! listed set of actions.

use vstd::prelude::*;
use crate::error::SwarmResult;
use crate::identity::PolicyId;
use crate::policy::{PolicyContext, PolicyOutcome};
use crate::text::{owned, position_of};

verus! {

/// A policy that allows every action.
pub struct AllowAllPolicy {
    /// The policy's identifier.
    pub id: PolicyId,
    /// The policy's name.
    pub name: String,
}

impl AllowAllPolicy {
    /// An allow-all policy with a fresh identifier.
    pub fn new(name: &str) -> (r: Self)
        ensures
            r.name@ == name@,
    {
        AllowAllPolicy { id: PolicyId::new(), name: owned(name) }
    }

    /// Allow, whatever the context.
    pub fn evaluate(&self, context: &PolicyContext) -> (r: SwarmResult<PolicyOutcome>)
        ensures
            r == Ok::<PolicyOutcome, crate::error::SwarmError>(PolicyOutcome::Allow),
    {
        Ok(PolicyOutcome::Allow)
    }
}

/// A policy that denies every action with a fixed reason.
pub struct DenyAllPolicy {
    /// The policy's identifier.
    pub id: PolicyId,
    /// The policy's name.
    pub name: String,
    /// The reason given for every denial.
    pub reason: String,
}

impl DenyAllPolicy {
    /// A deny-all policy with a fresh identifier.
    pub fn new(name: &str, reason: &str) -> (r: Self)
        ensures
            r.name@ == name@,
            r.reason@ == reason@,
    {
        DenyAllPolicy { id: PolicyId::new(), name: owned(name), reason: owned(reason) }
    }

    /// Deny with the policy's reason, whatever the context.
    pub fn evaluate(&self, context: &PolicyContext) -> (r: SwarmResult<PolicyOutcome>)
        ensures
            r matches Ok(PolicyOutcome::Deny { reason }) && reason@ == self.reason@,
    {
        Ok(PolicyOutcome::Deny { reason: self.reason.clone() })
    }
}

/// Whether no two strings of `s` are equal.
pub open spec fn distinct_strings(s: Seq<String>) -> bool {
    forall|i: int, j: int| 0 <= i < j < s.len() ==> s[i]@ != s[j]@
}

/// Whether some string of `s` equals `t`.
pub open spec fn lists(s: Seq<String>, t: Seq<char>) -> bool {
    exists|i: int| 0 <= i < s.len() && #[trigger] s[i]@ == t
}

/// The reason an allowlist gives for an action it does not list.
pub open spec fn not_listed_reason(action: Seq<char>, policy: Seq<char>) -> Seq<char> {
    "action '"@ + action + "' is not in the allowlist for policy '"@ + policy + "'"@
}

/// A policy that allows only the actions it lists and denies every other.
pub struct ActionAllowlistPolicy {
    id: PolicyId,
    name: String,
    allowed_actions: Vec<String>,
}

impl ActionAllowlistPolicy {
    /// The policy's identifier.
    pub closed spec fn id_spec(&self) -> PolicyId {
        self.id
    }

    /// The policy's name.
    pub closed spec fn name_spec(&self) -> Seq<char> {
        self.name@
    }

    /// The allowed actions, each once.
    pub closed spec fn actions(&self) -> Seq<String> {
        self.allowed_actions@
    }

    #[verifier::type_invariant]
    closed spec fn wf(&self) -> bool {
        distinct_strings(self.allowed_actions@)
    }

    /// A policy allowing the given actions (a repeated action counts once),
    /// with a fresh identifier.
    pub fn new(name: &str, actions: &[&str]) -> (r: Self)
        ensures
            r.name_spec() == name@,
            forall|t: Seq<char>| lists(r.actions(), t) <==> exists|i: int|
                0 <= i < actions@.len() && #[trigger] actions@[i]@ == t,
    {
        let mut allowed: Vec<String> = Vec::new();
        let n = actions.len();
        let mut i: usize = 0;
        while i < n
            invariant
                i <= n == actions@.len(),
                distinct_strings(allowed@),
                forall|t: Seq<char>| lists(allowed@, t) <==> exists|j: int|
                    0 <= j < i && #[trigger] actions@[j]@ == t,
            decreases n - i,
        {
            let a = actions[i];
            let ghost before = allowed@;
            if position_of(allowed.as_slice(), a).is_none() {
                allowed.push(owned(a));
                proof {
                    assert forall|x: int, y: int| 0 <= x < y < allowed@.len() implies allowed@[x]@
                        != allowed@[y]@ by {
                        if y == before.len() {
                            assert(allowed@[x] == before[x]);
                        } else {
                            assert(allowed@[x] == before[x] && allowed@[y] == before[y]);
                        }
                    }
                    assert forall|t: Seq<char>| lists(allowed@, t) <==> exists|j: int|
                        0 <= j < i + 1 && #[trigger] actions@[j]@ == t by {
                        if lists(allowed@, t) {
                            let k = choose|k: int| 0 <= k < allowed@.len() && #[trigger] allowed@[k]@ == t;
                            if k < before.len() {
                                assert(before[k]@ == t);
                                assert(lists(before, t));
                            } else {
                                assert(actions@[i as int]@ == t);
                            }
                        }
                        if exists|j: int| 0 <= j < i + 1 && #[trigger] actions@[j]@ == t {
                            let j = choose|j: int| 0 <= j < i + 1 && #[trigger] actions@[j]@ == t;
                            if j < i {
                                assert(lists(before, t));
                                let k = choose|k: int| 0 <= k < before.len() && #[trigger] before[k]@ == t;
                                assert(allowed@[k] == before[k]);
                            } else {
                                assert(allowed@[before.len() as int]@ == t);
                            }
                        }
                    }
                }
            } else {
                proof {
                    assert forall|t: Seq<char>| lists(allowed@, t) <==> exists|j: int|
                        0 <= j < i + 1 && #[trigger] actions@[j]@ == t by {
                        if exists|j: int| 0 <= j < i + 1 && #[trigger] actions@[j]@ == t {
                            let j = choose|j: int| 0 <= j < i + 1 && #[trigger] actions@[j]@ == t;
                            if j == i {
                                let k = choose|k: int| 0 <= k < allowed@.len() && allowed@[k]@ == a@;
                                assert(allowed@[k]@ == t);
                            }
                        }
                    }
                }
            }
            i = i + 1;
        }
        ActionAllowlistPolicy { id: PolicyId::new(), name: owned(name), allowed_actions: allowed }
    }

    /// The policy's identifier.
    pub fn id(&self) -> (r: PolicyId)
        ensures
            r == self.id_spec(),
    {
        self.id
    }

    /// The policy's name.
    pub fn name(&self) -> (r: &str)
        ensures
            r@ == self.name_spec(),
    {
        self.name.as_str()
    }

    /// Allow a listed action; deny any other, naming the action and the
    /// policy in the reason.
    pub fn evaluate(&self, context: &PolicyContext) -> (r: SwarmResult<PolicyOutcome>)
        ensures
            lists(self.actions(), context.action@) ==> r == Ok::<PolicyOutcome, crate::error::SwarmError>(
                PolicyOutcome::Allow,
            ),
            !lists(self.actions(), context.action@) ==> (r matches Ok(PolicyOutcome::Deny { reason })
                && reason@ == not_listed_reason(context.action@, self.name_spec())),
    {
        match position_of(self.allowed_actions.as_slice(), context.action.as_str()) {
            Some(_) => Ok(PolicyOutcome::Allow),
            None => {
                let mut reason = owned("action '");
                reason.append(context.action.as_str());
                reason.append("' is not in the allowlist for policy '");
                reason.append(self.name.as_str());
                reason.append("'");
                proof {
                    reveal_strlit("action '");
                    reveal_strlit("' is not in the allowlist for policy '");
                    reveal_strlit("'");
                    assert(reason@ =~= not_listed_reason(context.action@, self.name@));
                }
                Ok(PolicyOutcome::Deny { reason })
            },
        }
    }
}

} // verus!
