//! Shared primitive types: timestamps, metadata, resource limits and retry
//! policies.

use vstd::prelude::*;
use crate::text::{owned, str_eq};

verus! {

/// A UTC timestamp: microseconds since the Unix epoch.
pub type Timestamp = i64;

/// Returns the current UTC timestamp (`chrono::Utc::now`), in microseconds
/// since the Unix epoch. The clock is read at each call; nothing is claimed
/// of the value.
#[verifier::external_body]
pub fn now() -> (r: Timestamp) {
    chrono::Utc::now().timestamp_micros()
}

// ── Metadata ─────────────────────────────────────────────────────────────────

/// The key/value map denoted by a sequence of entries; a later entry for a key
/// overrides an earlier one.
pub open spec fn entries_map(s: Seq<(String, String)>) -> Map<Seq<char>, Seq<char>>
    decreases s.len(),
{
    if s.len() == 0 {
        Map::empty()
    } else {
        entries_map(s.drop_last()).insert(s.last().0@, s.last().1@)
    }
}

/// Whether no two entries share a key.
pub open spec fn distinct_keys(s: Seq<(String, String)>) -> bool {
    forall|i: int, j: int| 0 <= i < j < s.len() ==> s[i].0@ != s[j].0@
}

proof fn lemma_entries_map_lookup(s: Seq<(String, String)>)
    requires
        distinct_keys(s),
    ensures
        forall|i: int|
            0 <= i < s.len() ==> #[trigger] entries_map(s).contains_key(s[i].0@)
                && entries_map(s)[s[i].0@] == s[i].1@,
        forall|k: Seq<char>|
            #[trigger] entries_map(s).contains_key(k) ==> exists|i: int|
                0 <= i < s.len() && s[i].0@ == k,
    decreases s.len(),
{
    if s.len() > 0 {
        let p = s.drop_last();
        assert(distinct_keys(p));
        lemma_entries_map_lookup(p);
        assert forall|i: int| 0 <= i < s.len() implies #[trigger] entries_map(s).contains_key(
            s[i].0@,
        ) && entries_map(s)[s[i].0@] == s[i].1@ by {
            if i < s.len() - 1 {
                assert(s[i] == p[i]);
                assert(entries_map(p).contains_key(p[i].0@));
                assert(s[i].0@ != s.last().0@);
            } else {
                assert(s[i] == s.last());
            }
        }
        assert forall|k: Seq<char>| #[trigger] entries_map(s).contains_key(k) implies exists|i: int|
            0 <= i < s.len() && s[i].0@ == k by {
            if k != s.last().0@ {
                assert(entries_map(p).contains_key(k));
                let i = choose|i: int| 0 <= i < p.len() && p[i].0@ == k;
                assert(s[i] == p[i]);
            } else {
                assert(s[s.len() - 1].0@ == k);
            }
        }
    }
}

proof fn lemma_entries_map_update(s: Seq<(String, String)>, i: int, e: (String, String))
    requires
        distinct_keys(s),
        0 <= i < s.len(),
        e.0@ == s[i].0@,
    ensures
        entries_map(s.update(i, e)) == entries_map(s).insert(e.0@, e.1@),
        distinct_keys(s.update(i, e)),
    decreases s.len(),
{
    let t = s.update(i, e);
    if i == s.len() - 1 {
        assert(t.drop_last() =~= s.drop_last());
    } else {
        let p = s.drop_last();
        assert(distinct_keys(p));
        lemma_entries_map_update(p, i, e);
        assert(t.drop_last() =~= p.update(i, e));
        assert(s.last().0@ != e.0@);
        assert(entries_map(t) =~= entries_map(s).insert(e.0@, e.1@));
    }
}

/// Arbitrary key-value metadata attached to domain objects.
#[derive(Debug)]
pub struct Metadata {
    entries: Vec<(String, String)>,
}

impl View for Metadata {
    type V = Map<Seq<char>, Seq<char>>;

    closed spec fn view(&self) -> Map<Seq<char>, Seq<char>> {
        entries_map(self.entries@)
    }
}

impl Metadata {
    #[verifier::type_invariant]
    closed spec fn wf(&self) -> bool {
        distinct_keys(self.entries@)
    }

    /// Create empty metadata.
    pub fn new() -> (r: Self)
        ensures
            r@ == Map::<Seq<char>, Seq<char>>::empty(),
    {
        Metadata { entries: Vec::new() }
    }

    fn find(&self, key: &str) -> (r: Option<usize>)
        ensures
            match r {
                Some(i) => i < self.entries@.len() && self.entries@[i as int].0@ == key@,
                None => forall|i: int| 0 <= i < self.entries@.len() ==> self.entries@[i].0@ != key@,
            },
    {
        let n = self.entries.len();
        let mut i: usize = 0;
        while i < n
            invariant
                i <= n == self.entries@.len(),
                forall|k: int| 0 <= k < i ==> self.entries@[k].0@ != key@,
            decreases n - i,
        {
            if str_eq(self.entries[i].0.as_str(), key) {
                return Some(i);
            }
            i = i + 1;
        }
        None
    }

    /// Insert or update a key-value pair.
    pub fn insert(&mut self, key: &str, value: &str)
        ensures
            final(self)@ == old(self)@.insert(key@, value@),
    {
        proof {
            use_type_invariant(&*self);
        }
        let e = (owned(key), owned(value));
        let ghost s = self.entries@;
        let mut entries: Vec<(String, String)> = Vec::new();
        core::mem::swap(&mut entries, &mut self.entries);
        match self.find_in(&entries, key) {
            Some(i) => {
                proof {
                    lemma_entries_map_update(s, i as int, e);
                }
                entries.set(i, e);
            },
            None => {
                entries.push(e);
                proof {
                    assert(entries@.drop_last() =~= s);
                    assert forall|a: int, b: int| 0 <= a < b < entries@.len() implies entries@[a].0@
                        != entries@[b].0@ by {
                        if b == s.len() {
                            assert(entries@[a] == s[a]);
                        } else {
                            assert(entries@[a] == s[a] && entries@[b] == s[b]);
                        }
                    }
                }
            },
        }
        *self = Metadata { entries };
    }

    fn find_in(&self, entries: &Vec<(String, String)>, key: &str) -> (r: Option<usize>)
        ensures
            match r {
                Some(i) => i < entries@.len() && entries@[i as int].0@ == key@,
                None => forall|i: int| 0 <= i < entries@.len() ==> entries@[i].0@ != key@,
            },
    {
        let n = entries.len();
        let mut i: usize = 0;
        while i < n
            invariant
                i <= n == entries@.len(),
                forall|k: int| 0 <= k < i ==> entries@[k].0@ != key@,
            decreases n - i,
        {
            if str_eq(entries[i].0.as_str(), key) {
                return Some(i);
            }
            i = i + 1;
        }
        None
    }

    /// Retrieve a metadata value by key.
    pub fn get(&self, key: &str) -> (r: Option<&str>)
        ensures
            r.is_some() == self@.contains_key(key@),
            r.is_some() ==> r.unwrap()@ == self@[key@],
    {
        proof {
            use_type_invariant(self);
            lemma_entries_map_lookup(self.entries@);
        }
        match self.find(key) {
            Some(i) => {
                proof {
                    assert(entries_map(self.entries@).contains_key(self.entries@[i as int].0@));
                }
                Some(self.entries[i].1.as_str())
            },
            None => None,
        }
    }

    /// Returns `true` if no metadata entries are present.
    pub fn is_empty(&self) -> (r: bool)
        ensures
            r == (self@.dom().len() == 0),
    {
        proof {
            use_type_invariant(self);
            lemma_entries_map_lookup(self.entries@);
            lemma_entries_map_finite(self.entries@);
            if self.entries@.len() > 0 {
                assert(self@.contains_key(self.entries@[0].0@));
            } else {
                assert(self@ =~= Map::<Seq<char>, Seq<char>>::empty());
            }
        }
        self.entries.len() == 0
    }

    /// The entries in the order the keys were first inserted.
    pub closed spec fn entry_list(self) -> Seq<(String, String)> {
        self.entries@
    }

    /// The entries, each key once, in the order the keys were first inserted.
    pub fn entries(&self) -> (r: &[(String, String)])
        ensures
            entries_map(r@) == self@,
            distinct_keys(r@),
            r@ == self.entry_list(),
    {
        proof {
            use_type_invariant(self);
        }
        self.entries.as_slice()
    }

    /// A copy of this metadata.
    pub fn duplicate(&self) -> (r: Metadata)
        ensures
            r@ == self@,
    {
        proof {
            use_type_invariant(self);
        }
        let mut out = Metadata::new();
        let n = self.entries.len();
        let mut i: usize = 0;
        while i < n
            invariant
                i <= n == self.entries@.len(),
                distinct_keys(self.entries@),
                out@ == entries_map(self.entries@.take(i as int)),
            decreases n - i,
        {
            out.insert(self.entries[i].0.as_str(), self.entries[i].1.as_str());
            proof {
                assert(self.entries@.take(i + 1).drop_last() =~= self.entries@.take(i as int));
            }
            i = i + 1;
        }
        assert(self.entries@.take(n as int) =~= self.entries@);
        out
    }
}

proof fn lemma_entries_map_finite(s: Seq<(String, String)>)
    ensures
        entries_map(s).dom().finite(),
    decreases s.len(),
{
    if s.len() > 0 {
        lemma_entries_map_finite(s.drop_last());
    }
}

// ── Resource limits ─────────────────────────────────────────────────────────

/// Resource usage limits for an agent or task.
#[derive(Debug, Clone, PartialEq, Eq)]
pub struct ResourceLimits {
    /// Maximum wall-clock time for a single task execution, in milliseconds.
    pub max_execution_time: Option<u64>,
    /// Maximum number of concurrent sub-tasks an agent may spawn.
    pub max_concurrency: Option<usize>,
    /// Maximum memory (in bytes) the agent process may use (advisory).
    pub max_memory_bytes: Option<u64>,
}

impl ResourceLimits {
    /// The default limits value.
    pub open spec fn spec_default() -> ResourceLimits {
        ResourceLimits {
            max_execution_time: Some(300_000u64),
            max_concurrency: Some(10usize),
            max_memory_bytes: None,
        }
    }

    /// The default limits: five minutes per execution and ten concurrent
    /// sub-tasks, with no memory limit.
    pub fn default_limits() -> (r: Self)
        ensures
            r == Self::spec_default(),
    {
        ResourceLimits {
            max_execution_time: Some(300_000),
            max_concurrency: Some(10),
            max_memory_bytes: None,
        }
    }

    /// Create permissive (effectively unlimited) resource limits.
    pub fn unlimited() -> (r: Self)
        ensures
            r.max_execution_time.is_none(),
            r.max_concurrency.is_none(),
            r.max_memory_bytes.is_none(),
    {
        ResourceLimits { max_execution_time: None, max_concurrency: None, max_memory_bytes: None }
    }
}

impl Default for ResourceLimits {
    fn default() -> (r: Self)
        ensures
            r.max_execution_time == Some(300_000u64),
            r.max_concurrency == Some(10usize),
            r.max_memory_bytes.is_none(),
    {
        Self::default_limits()
    }
}

// ── Retry policy ────────────────────────────────────────────────────────────

/// The IEEE-754 bit pattern of the default backoff multiplier, `2.0`.
pub const DEFAULT_MULTIPLIER_BITS: u64 = 0x4000_0000_0000_0000u64;

/// The strategy used to compute inter-retry delays.
#[derive(Debug, Clone, PartialEq, Eq)]
pub enum RetryStrategy {
    /// All retries use the same fixed delay.
    Fixed,
    /// Each retry delay is multiplied by a factor relative to the previous one;
    /// the factor is held as the bit pattern of an `f64`.
    ExponentialBackoff {
        /// The IEEE-754 bits of the multiplicative factor applied per attempt.
        multiplier_bits: u64,
    },
}

/// Retry policy controlling how the orchestrator handles transient failures.
#[derive(Debug, Clone, PartialEq, Eq)]
pub struct RetryPolicy {
    /// Maximum number of retry attempts (not counting the initial attempt).
    pub max_attempts: u32,
    /// Base delay between attempts, in milliseconds.
    pub initial_delay: u64,
    /// Maximum delay cap, in milliseconds.
    pub max_delay: u64,
    /// Backoff strategy variant.
    pub strategy: RetryStrategy,
}

impl RetryPolicy {
    /// The delay in milliseconds before retry attempt `attempt` (counted
    /// from 1) where it needs no floating point: zero for attempt 0, and the
    /// initial delay capped at the maximum for a fixed strategy. `None` for a
    /// later attempt under exponential backoff, whose factor is a float.
    pub fn whole_delay_for_attempt(&self, attempt: u32) -> (r: Option<u64>)
        ensures
            attempt == 0 ==> r == Some(0u64),
            attempt > 0 && self.strategy is Fixed ==> r == Some(
                if self.initial_delay <= self.max_delay {
                    self.initial_delay
                } else {
                    self.max_delay
                },
            ),
            attempt > 0 && self.strategy is ExponentialBackoff ==> r is None,
    {
        if attempt == 0 {
            return Some(0);
        }
        match self.strategy {
            RetryStrategy::Fixed => Some(
                if self.initial_delay <= self.max_delay {
                    self.initial_delay
                } else {
                    self.max_delay
                },
            ),
            RetryStrategy::ExponentialBackoff { .. } => None,
        }
    }

    /// The default retry policy value.
    pub open spec fn spec_default() -> RetryPolicy {
        RetryPolicy {
            max_attempts: 3,
            initial_delay: 500,
            max_delay: 30_000,
            strategy: RetryStrategy::ExponentialBackoff { multiplier_bits: DEFAULT_MULTIPLIER_BITS },
        }
    }

    /// A copy of this policy.
    pub fn duplicate(&self) -> (r: RetryPolicy)
        ensures
            r == *self,
    {
        RetryPolicy {
            max_attempts: self.max_attempts,
            initial_delay: self.initial_delay,
            max_delay: self.max_delay,
            strategy: match &self.strategy {
                RetryStrategy::Fixed => RetryStrategy::Fixed,
                RetryStrategy::ExponentialBackoff { multiplier_bits } => RetryStrategy::ExponentialBackoff {
                    multiplier_bits: *multiplier_bits,
                },
            },
        }
    }

    /// The default policy: three attempts, 500 ms initial delay, 30 s cap,
    /// exponential backoff with multiplier `2.0`.
    pub fn default_policy() -> (r: Self)
        ensures
            r == Self::spec_default(),
    {
        RetryPolicy {
            max_attempts: 3,
            initial_delay: 500,
            max_delay: 30_000,
            strategy: RetryStrategy::ExponentialBackoff { multiplier_bits: DEFAULT_MULTIPLIER_BITS },
        }
    }

    /// Create a policy that never retries.
    pub fn no_retry() -> (r: Self)
        ensures
            r.max_attempts == 0,
            r.initial_delay == 0,
            r.max_delay == 0,
            r.strategy == RetryStrategy::Fixed,
    {
        RetryPolicy { max_attempts: 0, initial_delay: 0, max_delay: 0, strategy: RetryStrategy::Fixed }
    }
}

impl Default for RetryPolicy {
    fn default() -> (r: Self)
        ensures
            r.max_attempts == 3,
            r.initial_delay == 500,
            r.max_delay == 30_000,
    {
        Self::default_policy()
    }
}


/// The RFC 3339 text of a timestamp, as `DateTime<Utc>` serializes it.
pub uninterp spec fn rfc3339_of(ts: Timestamp) -> Option<Seq<char>>;

/// The RFC 3339 text of a timestamp in microseconds
/// (`DateTime::from_timestamp_micros`, then `to_rfc3339_opts` with
/// automatic sub-second digits and `Z`), as `DateTime<Utc>` serializes it;
/// `None` for a timestamp outside the calendar's range.
#[verifier::external_body]
pub fn rfc3339_text(ts: Timestamp) -> (r: Option<String>)
    ensures
        crate::text::opt_view(r) == rfc3339_of(ts),
{
    match chrono::DateTime::from_timestamp_micros(ts) {
        Some(d) => Some(d.to_rfc3339_opts(chrono::SecondsFormat::AutoSi, true)),
        None => None,
    }
}

} // verus!
