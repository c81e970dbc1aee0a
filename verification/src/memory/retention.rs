//! Retention policies: how long memory is kept and how much of it.

use vstd::prelude::*;
use crate::memory::entry::MemoryScope;

verus! {

/// How long memory entries are kept and how many, optionally limited to
/// one scope. Durations are in milliseconds.
#[derive(Debug, Clone)]
pub struct RetentionPolicy {
    /// The scope the policy applies to; every scope when absent.
    pub scope: Option<MemoryScope>,
    /// Entries older than this are removed.
    pub max_age: Option<u64>,
    /// At most this many entries are kept; the oldest go first.
    pub max_entries: Option<u64>,
    /// Whether entries are summarized before removal.
    pub auto_summarize: bool,
    /// Age after which entries are summarized.
    pub summarize_after: Option<u64>,
    /// Whether removals must be audited.
    pub require_audit_on_delete: bool,
}

impl Default for RetentionPolicy {
    fn default() -> (r: Self)
        ensures
            r.scope is None,
            r.max_age is None,
            r.max_entries is None,
            !r.auto_summarize,
            r.summarize_after is None,
            r.require_audit_on_delete,
    {
        RetentionPolicy {
            scope: None,
            max_age: None,
            max_entries: None,
            auto_summarize: false,
            summarize_after: None,
            require_audit_on_delete: true,
        }
    }
}

impl RetentionPolicy {
    /// A policy that removes entries older than `duration` milliseconds,
    /// the rest as in the default policy.
    pub fn max_age(duration: u64) -> (r: Self)
        ensures
            r.max_age == Some(duration),
            r.scope is None,
            r.max_entries is None,
            !r.auto_summarize,
            r.summarize_after is None,
            r.require_audit_on_delete,
    {
        RetentionPolicy { max_age: Some(duration), ..Self::default() }
    }

    /// A policy that keeps at most `count` entries, the rest as in the
    /// default policy.
    pub fn max_entries(count: u64) -> (r: Self)
        ensures
            r.max_entries == Some(count),
            r.scope is None,
            r.max_age is None,
            !r.auto_summarize,
            r.summarize_after is None,
            r.require_audit_on_delete,
    {
        RetentionPolicy { max_entries: Some(count), ..Self::default() }
    }
}

} // verus!
