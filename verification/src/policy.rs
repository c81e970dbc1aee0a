//! Policy contracts: outcomes of single policies, aggregated decisions and the
//! context a policy evaluates.

use vstd::prelude::*;
use crate::identity::PolicyId;
use crate::text::owned;

verus! {

/// The outcome of a single policy evaluation.
#[derive(Debug, Clone, PartialEq, Eq)]
pub enum PolicyOutcome {
    /// The policy explicitly permits the action.
    Allow,
    /// The policy explicitly denies the action.
    Deny {
        /// Human-readable explanation.
        reason: String,
    },
    /// The policy does not have an opinion; evaluation should continue.
    Abstain,
}

/// The aggregated decision after evaluating all applicable policies.
#[derive(Debug, Clone, PartialEq, Eq)]
pub enum PolicyDecision {
    /// The action is allowed.
    Allowed,
    /// A policy denied the action.
    Denied {
        /// The policy that triggered the denial.
        policy_id: PolicyId,
        /// The denial reason.
        reason: String,
    },
}

impl PolicyDecision {
    /// Returns `true` if the decision is [`PolicyDecision::Allowed`].
    pub fn is_allowed(&self) -> (r: bool)
        ensures
            r == (self is Allowed),
    {
        match self {
            PolicyDecision::Allowed => true,
            _ => false,
        }
    }

    /// Returns `true` if the decision is [`PolicyDecision::Denied`].
    pub fn is_denied(&self) -> (r: bool)
        ensures
            r == (self is Denied),
    {
        match self {
            PolicyDecision::Denied { .. } => true,
            _ => false,
        }
    }
}

/// Every decision is either allowed or denied, never both.
pub proof fn lemma_decision_exclusive(d: PolicyDecision)
    ensures
        (d is Allowed) != (d is Denied),
{
}

/// The evaluation context provided to a policy.
#[derive(Debug, Clone)]
pub struct PolicyContext {
    /// The action being requested (e.g., `"schedule_task"`).
    pub action: String,
    /// Identifier of the subject requesting the action.
    pub subject: String,
    /// The resource being acted upon.
    pub resource: String,
    /// Additional context attributes (free-form JSON).
    pub attributes: serde_json::Value,
}

impl PolicyContext {
    /// Create a minimal policy context with `null` attributes.
    pub fn new(action: &str, subject: &str, resource: &str) -> (r: Self)
        ensures
            r.action@ == action@,
            r.subject@ == subject@,
            r.resource@ == resource@,
    {
        PolicyContext {
            action: owned(action),
            subject: owned(subject),
            resource: owned(resource),
            attributes: crate::json::json_null(),
        }
    }
}

} // verus!
