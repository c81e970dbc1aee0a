//! How the `swarm task` commands read their arguments and pick the
//! persisted tasks they work on.

use vstd::prelude::*;
use crate::capability::{caps_view, Capability, CapabilitySet, CapabilityView};
use crate::cli::args::TaskSubmitArgs;
use crate::config::model::{OrchestratorConfig as ConfigOrchestrator, SwarmConfig};
use crate::json::{json_parse, json_parse_of};
use crate::orchestrator::control::OrchestratorConfig;
use crate::recency::{by_age, lemma_by_age, sort_oldest_first};
use crate::task::{can_retry_spec, status_label, valid_task_name, Task, TaskPriority, TaskSpec, TaskStatus};
use crate::text::{chars_eq, chars_eq_str, chars_of, lower_chars, lower_spec, owned, string_from_chars, trim_spec, trim_str};
use crate::types::{entries_map, Metadata, RetryPolicy};

verus! {

// ── Priorities ───────────────────────────────────────────────────────────────

/// The priority a normalized label names, if any.
pub open spec fn priority_named(n: Seq<char>) -> Option<TaskPriority> {
    if n == "low"@ {
        Some(TaskPriority::Low)
    } else if n == "normal"@ {
        Some(TaskPriority::Normal)
    } else if n == "high"@ {
        Some(TaskPriority::High)
    } else if n == "critical"@ {
        Some(TaskPriority::Critical)
    } else {
        None
    }
}

/// The error for a priority the command does not accept.
pub open spec fn bad_priority_reason(n: Seq<char>) -> Seq<char> {
    "unsupported task priority '"@ + n + "' (expected low, normal, high, or critical)"@
}

/// Parse a priority argument: the label is trimmed and lowercased (ASCII).
pub fn parse_priority(value: &str) -> (r: Result<TaskPriority, String>)
    ensures
        priority_named(lower_spec(trim_spec(value@))) matches Some(p) ==> r == Ok::<TaskPriority, String>(p),
        priority_named(lower_spec(trim_spec(value@))) is None ==> (r matches Err(e) && e@ == bad_priority_reason(
            lower_spec(trim_spec(value@)),
        )),
{
    let t = trim_str(value);
    let n = lower_chars(t.as_slice());
    proof {
        reveal_strlit("low");
        reveal_strlit("normal");
        reveal_strlit("high");
        reveal_strlit("critical");
    }
    if chars_eq_str(n.as_slice(), "low") {
        Ok(TaskPriority::Low)
    } else if chars_eq_str(n.as_slice(), "normal") {
        Ok(TaskPriority::Normal)
    } else if chars_eq_str(n.as_slice(), "high") {
        Ok(TaskPriority::High)
    } else if chars_eq_str(n.as_slice(), "critical") {
        Ok(TaskPriority::Critical)
    } else {
        let mut e = owned("unsupported task priority '");
        let other = string_from_chars(n.as_slice());
        e.append(other.as_str());
        e.append("' (expected low, normal, high, or critical)");
        proof {
            reveal_strlit("unsupported task priority '");
            reveal_strlit("' (expected low, normal, high, or critical)");
        }
        Err(e)
    }
}

// ── Metadata entries ─────────────────────────────────────────────────────────

/// The position of the first `=` in `s`, if there is one.
pub open spec fn first_equals(s: Seq<char>) -> Option<int>
    decreases s.len(),
{
    if s.len() == 0 {
        None
    } else if s[0] == '=' {
        Some(0)
    } else {
        match first_equals(s.drop_first()) {
            Some(i) => Some(i + 1),
            None => None,
        }
    }
}

/// The key and value of one `key=value` entry, both trimmed, or the error.
pub open spec fn entry_pair(e: Seq<char>) -> Result<(Seq<char>, Seq<char>), Seq<char>> {
    match first_equals(e) {
        None => Err("invalid metadata entry '"@ + e + "' (expected key=value)"@),
        Some(i) => if trim_spec(e.take(i)).len() == 0 {
            Err("invalid metadata entry '"@ + e + "' (key must not be empty)"@)
        } else {
            Ok((trim_spec(e.take(i)), trim_spec(e.skip(i + 1))))
        },
    }
}

/// The metadata that `key=value` entries make, entry by entry, or the error
/// of the first bad entry.
pub open spec fn metadata_of(entries: Seq<Seq<char>>) -> Result<Map<Seq<char>, Seq<char>>, Seq<char>>
    decreases entries.len(),
{
    if entries.len() == 0 {
        Ok(Map::empty())
    } else {
        match metadata_of(entries.drop_last()) {
            Err(e) => Err(e),
            Ok(m) => match entry_pair(entries.last()) {
                Err(e) => Err(e),
                Ok(kv) => Ok(m.insert(kv.0, kv.1)),
            },
        }
    }
}

/// The texts of a list of strings.
pub open spec fn texts_of(s: Seq<String>) -> Seq<Seq<char>> {
    s.map_values(|x: String| x@)
}

proof fn lemma_first_equals(s: Seq<char>)
    ensures
        first_equals(s) matches Some(i) ==> 0 <= i < s.len() && s[i] == '=' && forall|j: int| 0 <= j < i ==> s[j] != '=',
        first_equals(s) is None ==> forall|j: int| 0 <= j < s.len() ==> s[j] != '=',
    decreases s.len(),
{
    if s.len() > 0 {
        lemma_first_equals(s.drop_first());
        if s[0] != '=' {
            assert forall|j: int| 0 < j < s.len() implies s[j] == s.drop_first()[j - 1] by {}
        }
    }
}

/// The position of the first `=` in `s`, if there is one.
fn find_equals(s: &[char]) -> (r: Option<usize>)
    ensures
        r matches Some(i) ==> first_equals(s@) == Some(i as int),
        r is None ==> first_equals(s@) is None,
{
    let mut i: usize = 0;
    while i < s.len()
        invariant
            i <= s@.len(),
            forall|j: int| 0 <= j < i ==> s@[j] != '=',
        decreases s@.len() - i,
    {
        if s[i] == '=' {
            proof {
                lemma_first_equals(s@);
                if first_equals(s@) is Some {
                    let k = first_equals(s@)->Some_0;
                    if k < i {
                        assert(s@[k] != '=');
                    } else if k > i {
                        assert(s@[i as int] != '=');
                    }
                }
            }
            return Some(i);
        }
        i = i + 1;
    }
    proof {
        lemma_first_equals(s@);
        if first_equals(s@) is Some {
            let k = first_equals(s@)->Some_0;
            assert(s@[k] != '=');
        }
    }
    None
}

/// Read `key=value` metadata entries: keys and values are trimmed, a later
/// entry for a key replaces an earlier one; an entry without `=`, or with a
/// blank key, is refused.
pub fn parse_metadata(entries: &[String]) -> (r: Result<Metadata, String>)
    ensures
        metadata_of(texts_of(entries@)) is Ok <==> r is Ok,
        r matches Ok(m) ==> metadata_of(texts_of(entries@)) == Ok::<Map<Seq<char>, Seq<char>>, Seq<char>>(m@),
        r matches Err(e) ==> metadata_of(texts_of(entries@)) == Err::<Map<Seq<char>, Seq<char>>, Seq<char>>(e@),
{
    let mut metadata = Metadata::new();
    let mut i: usize = 0;
    proof {
        reveal_strlit("invalid metadata entry '");
        reveal_strlit("' (expected key=value)");
        reveal_strlit("' (key must not be empty)");
        assert(texts_of(entries@).take(0) =~= Seq::<Seq<char>>::empty());
    }
    while i < entries.len()
        invariant
            i <= entries@.len(),
            metadata_of(texts_of(entries@).take(i as int)) == Ok::<Map<Seq<char>, Seq<char>>, Seq<char>>(metadata@),
        decreases entries@.len() - i,
    {
        let entry = entries[i].as_str();
        let chars = chars_of(entry);
        let len = chars.len();
        proof {
            assert(texts_of(entries@).take(i + 1).drop_last() =~= texts_of(entries@).take(i as int));
            assert(texts_of(entries@).take(i + 1).last() == entry@);
        }
        match find_equals(chars.as_slice()) {
            None => {
                let mut e = owned("invalid metadata entry '");
                e.append(entry);
                e.append("' (expected key=value)");
                proof {
                    lemma_metadata_error_stays(texts_of(entries@), (i + 1) as int);
                }
                return Err(e);
            },
            Some(p) => {
                proof {
                    lemma_first_equals(chars@);
                    assert(first_equals(chars@) == Some(p as int));
                    assert(p < len);
                }
                let key_chars = crate::text::slice_chars(chars.as_slice(), 0, p);
                let value_chars = crate::text::slice_chars(chars.as_slice(), p + 1, chars.len());
                let key = crate::text::trim_chars(key_chars.as_slice());
                let value = crate::text::trim_chars(value_chars.as_slice());
                proof {
                    assert(key_chars@ =~= entry@.take(p as int));
                    assert(value_chars@ =~= entry@.skip(p + 1));
                }
                if key.len() == 0 {
                    let mut e = owned("invalid metadata entry '");
                    e.append(entry);
                    e.append("' (key must not be empty)");
                    proof {
                        lemma_metadata_error_stays(texts_of(entries@), (i + 1) as int);
                    }
                    return Err(e);
                }
                let k = string_from_chars(key.as_slice());
                let v = string_from_chars(value.as_slice());
                metadata.insert(k.as_str(), v.as_str());
            },
        }
        i = i + 1;
    }
    proof {
        assert(texts_of(entries@).take(entries@.len() as int) =~= texts_of(entries@));
    }
    Ok(metadata)
}

/// Once an entry is refused, the metadata of every longer list is that
/// refusal.
proof fn lemma_metadata_error_stays(entries: Seq<Seq<char>>, n: int)
    requires
        0 < n <= entries.len(),
        metadata_of(entries.take(n)) is Err,
    ensures
        metadata_of(entries) == metadata_of(entries.take(n)),
    decreases entries.len() - n,
{
    if n < entries.len() {
        assert(entries.take(n + 1).drop_last() =~= entries.take(n));
        lemma_metadata_error_stays(entries, n + 1);
    } else {
        assert(entries.take(n) =~= entries);
    }
}

// ── Submitting tasks ─────────────────────────────────────────────────────────

/// The required capabilities named by `names`, trimmed, each once, in the
/// order first named.
pub open spec fn capabilities_named(names: Seq<Seq<char>>) -> Seq<CapabilityView>
    decreases names.len(),
{
    if names.len() == 0 {
        Seq::empty()
    } else {
        let prev = capabilities_named(names.drop_last());
        let c = (trim_spec(names.last()), None::<Seq<char>>);
        if prev.contains(c) {
            prev
        } else {
            prev.push(c)
        }
    }
}

/// Whether some name is blank once trimmed.
pub open spec fn has_blank_name(names: Seq<Seq<char>>) -> bool {
    exists|i: int| #![trigger names[i]] 0 <= i < names.len() && trim_spec(names[i]).len() == 0
}

/// A timeout in seconds as milliseconds, saturating at the largest value.
pub open spec fn seconds_to_millis(secs: u64) -> u64 {
    if secs * 1000 > u64::MAX {
        u64::MAX
    } else {
        (secs * 1000) as u64
    }
}

/// A timeout in seconds as milliseconds, saturating at the largest value.
pub fn secs_to_millis(secs: u64) -> (r: u64)
    ensures
        r == seconds_to_millis(secs),
{
    if secs > u64::MAX / 1000 {
        u64::MAX
    } else {
        secs * 1000
    }
}

/// The timeout of a submitted task: an explicit zero disables it, an
/// explicit value sets it, and without one the configured default applies
/// (zero disabling it).
pub open spec fn submit_timeout(requested: Option<u64>, default_secs: u64) -> Option<u64> {
    match requested {
        Some(0) => None,
        Some(s) => Some(seconds_to_millis(s)),
        None => if default_secs == 0 {
            None
        } else {
            Some(seconds_to_millis(default_secs))
        },
    }
}

/// Whether `spec` is what `task submit` builds from its arguments, given
/// that every step succeeds.
pub open spec fn built_from(spec: TaskSpec, args: TaskSubmitArgs, config: SwarmConfig) -> bool {
    &&& json_parse_of(args.input@) == Ok::<serde_json::Value, Seq<char>>(spec.input)
    &&& spec.name@ == args.name@
    &&& priority_named(lower_spec(trim_spec(args.priority@))) == Some(spec.priority)
    &&& metadata_of(texts_of(args.metadata@)) == Ok::<Map<Seq<char>, Seq<char>>, Seq<char>>(spec.metadata@)
    &&& spec.timeout == submit_timeout(args.timeout_secs, config.orchestrator.default_task_timeout_secs)
    &&& spec.required_capabilities@ == capabilities_named(texts_of(args.capabilities@))
    &&& spec.retry_policy == RetryPolicy::spec_default()
}

/// Whether every step of `task submit` succeeds on these arguments.
pub open spec fn submit_accepted(args: TaskSubmitArgs) -> bool {
    &&& json_parse_of(args.input@) is Ok
    &&& priority_named(lower_spec(trim_spec(args.priority@))) is Some
    &&& metadata_of(texts_of(args.metadata@)) is Ok
    &&& !has_blank_name(texts_of(args.capabilities@))
    &&& valid_task_name(args.name@)
}

/// The task specification of `task submit`: the JSON input, priority,
/// metadata, timeout and required capabilities, checked in that order; the
/// first failing step gives the error.
pub fn build_task_spec(args: &TaskSubmitArgs, config: &SwarmConfig) -> (r: Result<TaskSpec, String>)
    ensures
        submit_accepted(*args) <==> r is Ok,
        r matches Ok(spec) ==> built_from(spec, *args, *config),
        json_parse_of(args.input@) is Err ==> (r matches Err(e) && e@ == "invalid JSON input: "@ + json_parse_of(
            args.input@,
        )->Err_0),
{
    let payload = match json_parse(args.input.as_str()) {
        Ok(v) => v,
        Err(error) => {
            let mut e = owned("invalid JSON input: ");
            e.append(error.as_str());
            proof {
                reveal_strlit("invalid JSON input: ");
            }
            return Err(e);
        },
    };
    let mut spec = TaskSpec::new(args.name.as_str(), payload);
    spec.priority = match parse_priority(args.priority.as_str()) {
        Ok(p) => p,
        Err(e) => {
            return Err(e);
        },
    };
    spec.metadata = match parse_metadata(args.metadata.as_slice()) {
        Ok(m) => m,
        Err(e) => {
            return Err(e);
        },
    };
    spec.timeout = match args.timeout_secs {
        Some(0) => None,
        Some(seconds) => Some(secs_to_millis(seconds)),
        None => if config.orchestrator.default_task_timeout_secs == 0 {
            None
        } else {
            Some(secs_to_millis(config.orchestrator.default_task_timeout_secs))
        },
    };
    let names = &args.capabilities;
    let mut i: usize = 0;
    proof {
        assert(texts_of(names@).take(0) =~= Seq::<Seq<char>>::empty());
    }
    while i < names.len()
        invariant
            i <= names@.len(),
            names@ == args.capabilities@,
            spec.required_capabilities@ == capabilities_named(texts_of(names@).take(i as int)),
            !has_blank_name(texts_of(names@).take(i as int)),
            spec.name@ == args.name@,
            json_parse_of(args.input@) == Ok::<serde_json::Value, Seq<char>>(spec.input),
            priority_named(lower_spec(trim_spec(args.priority@))) == Some(spec.priority),
            metadata_of(texts_of(args.metadata@)) == Ok::<Map<Seq<char>, Seq<char>>, Seq<char>>(spec.metadata@),
            spec.timeout == submit_timeout(args.timeout_secs, config.orchestrator.default_task_timeout_secs),
            spec.retry_policy == RetryPolicy::spec_default(),
        decreases names@.len() - i,
    {
        let trimmed = trim_str(names[i].as_str());
        proof {
            assert(texts_of(names@).take(i + 1).drop_last() =~= texts_of(names@).take(i as int));
            assert(texts_of(names@).take(i + 1).last() == names@[i as int]@);
        }
        if trimmed.len() == 0 {
            proof {
                reveal_strlit("capability names must not be empty");
                assert(trim_spec(texts_of(names@)[i as int]).len() == 0);
                assert(has_blank_name(texts_of(args.capabilities@)));
            }
            return Err(owned("capability names must not be empty"));
        }
        let name = string_from_chars(trimmed.as_slice());
        spec.required_capabilities.add(Capability::new(name.as_str()));
        proof {
            assert forall|q: int| #![trigger texts_of(names@).take(i + 1)[q]] 0 <= q < i + 1 implies trim_spec(texts_of(names@).take(i + 1)[q]).len() != 0 by {
                if q < i {
                    assert(texts_of(names@).take(i + 1)[q] == texts_of(names@).take(i as int)[q]);
                }
            }
        }
        i = i + 1;
    }
    proof {
        assert(texts_of(names@).take(names@.len() as int) =~= texts_of(names@));
    }
    match spec.validate() {
        Ok(()) => Ok(spec),
        Err(_) => {
            proof {
                reveal_strlit("invalid task specification: task name must not be empty");
            }
            Err(owned("invalid task specification: task name must not be empty"))
        },
    }
}

// ── Choosing persisted tasks ─────────────────────────────────────────────────

/// Whether a task's status label matches an optional status argument,
/// compared trimmed and without regard to ASCII case.
pub open spec fn status_matches_spec(t: Task, status: Option<Seq<char>>) -> bool {
    match status {
        None => true,
        Some(v) => lower_spec(trim_spec(v)) == lower_spec(status_label(t.status)),
    }
}

/// Whether a task's status matches an optional status argument.
pub fn status_matches(task: &Task, status: Option<&str>) -> (r: bool)
    ensures
        r == status_matches_spec(*task, match status {
            Some(s) => Some(s@),
            None => None,
        }),
{
    match status {
        None => true,
        Some(v) => {
            let t = trim_str(v);
            let a = lower_chars(t.as_slice());
            let l = chars_of(task.status.label());
            let b = lower_chars(l.as_slice());
            chars_eq(a.as_slice(), b.as_slice())
        },
    }
}

/// The statuses a retry batch may be restricted to.
pub open spec fn retry_filter_named(n: Seq<char>) -> Option<Seq<char>> {
    if n == "failed"@ || n == "cancelled"@ || n == "timed_out"@ {
        Some(n)
    } else {
        None
    }
}

/// Read the status a retry batch is restricted to: failed, cancelled or
/// timed_out, trimmed and lowercased (ASCII).
pub fn parse_retryable_status_filter(status: Option<&str>) -> (r: Result<Option<&'static str>, String>)
    ensures
        status is None ==> r == Ok::<Option<&'static str>, String>(None),
        status is Some && retry_filter_named(lower_spec(trim_spec(status->Some_0@))) is Some ==> (r matches Ok(Some(f))
            && f@ == lower_spec(trim_spec(status->Some_0@))),
        status is Some && retry_filter_named(lower_spec(trim_spec(status->Some_0@))) is None ==> (r matches Err(e)
            && e@ == "unsupported retry batch status '"@ + lower_spec(trim_spec(status->Some_0@))
            + "' (expected failed, cancelled, or timed_out)"@),
{
    proof {
        reveal_strlit("failed");
        reveal_strlit("cancelled");
        reveal_strlit("timed_out");
    }
    match status {
        None => Ok(None),
        Some(v) => {
            let t = trim_str(v);
            let n = lower_chars(t.as_slice());
            if chars_eq_str(n.as_slice(), "failed") {
                Ok(Some("failed"))
            } else if chars_eq_str(n.as_slice(), "cancelled") {
                Ok(Some("cancelled"))
            } else if chars_eq_str(n.as_slice(), "timed_out") {
                Ok(Some("timed_out"))
            } else {
                let mut e = owned("unsupported retry batch status '");
                let other = string_from_chars(n.as_slice());
                e.append(other.as_str());
                e.append("' (expected failed, cancelled, or timed_out)");
                proof {
                    reveal_strlit("unsupported retry batch status '");
                    reveal_strlit("' (expected failed, cancelled, or timed_out)");
                }
                Err(e)
            }
        },
    }
}

/// Whether a task is pending.
pub open spec fn is_pending(t: Task) -> bool {
    t.status is Pending
}

/// Whether a task can be retried and matches the status argument.
pub open spec fn retry_candidate(t: Task, status: Option<Seq<char>>) -> bool {
    can_retry_spec(t.status) && status_matches_spec(t, status)
}

/// The pending tasks of `s`, in order.
pub open spec fn pending_tasks(s: Seq<Task>) -> Seq<Task> {
    s.filter(|t: Task| is_pending(t))
}

/// The retry candidates of `s`, in order.
pub open spec fn retry_candidates(s: Seq<Task>, status: Option<Seq<char>>) -> Seq<Task> {
    s.filter(|t: Task| retry_candidate(t, status))
}

/// The first `limit` items of `s`, or all of them without a limit.
pub open spec fn limited<T>(s: Seq<T>, limit: Option<usize>) -> Seq<T> {
    match limit {
        Some(l) => if l < s.len() {
            s.take(l as int)
        } else {
            s
        },
        None => s,
    }
}

/// The first `limit` items of `v`, or all of them without a limit.
fn truncated(v: Vec<Task>, limit: Option<usize>) -> (r: Vec<Task>)
    ensures
        r@ == limited(v@, limit),
{
    let mut v = v;
    match limit {
        Some(l) => {
            if l < v.len() {
                v.truncate(l);
            }
        },
        None => {},
    }
    v
}

/// The pending tasks of `v`, in order.
fn keep_pending(v: Vec<Task>) -> (r: Vec<Task>)
    ensures
        r@ == pending_tasks(v@),
{
    let ghost all = v@;
    let mut out: Vec<Task> = Vec::new();
    let mut rest = v;
    let mut k: usize = 0;
    let n = rest.len();
    proof {
        assert(all.take(0).filter(|t: Task| is_pending(t)) =~= Seq::<Task>::empty());
    }
    while k < n
        invariant
            k <= n == all.len(),
            rest@ == all.skip(k as int),
            out@ == all.take(k as int).filter(|t: Task| is_pending(t)),
        decreases n - k,
    {
        let t = rest.remove(0);
        proof {
            assert(t == all[k as int]);
            assert(rest@ =~= all.skip(k + 1));
            assert(all.take(k + 1) =~= all.take(k as int).push(t));
            all.take(k as int).lemma_filter_push(t, |t: Task| is_pending(t));
        }
        if matches!(t.status, TaskStatus::Pending) {
            out.push(t);
        }
        k = k + 1;
    }
    proof {
        assert(all.take(n as int) =~= all);
    }
    out
}

/// The retry candidates of `v`, in order.
fn keep_retryable(v: Vec<Task>, status: Option<&str>) -> (r: Vec<Task>)
    ensures
        r@ == retry_candidates(v@, match status {
            Some(s) => Some(s@),
            None => None,
        }),
{
    let ghost st = match status {
        Some(s) => Some(s@),
        None => None::<Seq<char>>,
    };
    let ghost all = v@;
    let mut out: Vec<Task> = Vec::new();
    let mut rest = v;
    let mut k: usize = 0;
    let n = rest.len();
    proof {
        assert(all.take(0).filter(|t: Task| retry_candidate(t, st)) =~= Seq::<Task>::empty());
    }
    while k < n
        invariant
            k <= n == all.len(),
            rest@ == all.skip(k as int),
            out@ == all.take(k as int).filter(|t: Task| retry_candidate(t, st)),
            st == match status {
                Some(s) => Some(s@),
                None => None::<Seq<char>>,
            },
        decreases n - k,
    {
        let t = rest.remove(0);
        proof {
            assert(t == all[k as int]);
            assert(rest@ =~= all.skip(k + 1));
            assert(all.take(k + 1) =~= all.take(k as int).push(t));
            all.take(k as int).lemma_filter_push(t, |t: Task| retry_candidate(t, st));
        }
        if t.status.can_retry() && status_matches(&t, status) {
            out.push(t);
        }
        k = k + 1;
    }
    proof {
        assert(all.take(n as int) =~= all);
    }
    out
}

/// The pending tasks to process: oldest first (tasks created at the same
/// time keep their order), at most `limit` of them.
pub fn collect_pending_tasks(tasks: Vec<Task>, limit: Option<usize>) -> (r: Vec<Task>)
    ensures
        r@ == limited(by_age(pending_tasks(tasks@)), limit),
{
    let pending = keep_pending(tasks);
    let sorted = sort_oldest_first(pending);
    truncated(sorted, limit)
}

/// The tasks to retry: retryable tasks matching the status argument, oldest
/// first, at most `limit` of them.
pub fn collect_retryable_tasks(tasks: Vec<Task>, status: Option<&str>, limit: Option<usize>) -> (r: Vec<Task>)
    ensures
        r@ == limited(
            by_age(
                retry_candidates(
                    tasks@,
                    match status {
                        Some(s) => Some(s@),
                        None => None,
                    },
                ),
            ),
            limit,
        ),
{
    let kept = keep_retryable(tasks, status);
    let sorted = sort_oldest_first(kept);
    truncated(sorted, limit)
}

/// The number of pending tasks in `tasks`.
pub fn count_pending(tasks: &Vec<Task>) -> (r: usize)
    ensures
        r == pending_tasks(tasks@).len(),
{
    let mut c: usize = 0;
    let mut i: usize = 0;
    proof {
        assert(tasks@.take(0).filter(|t: Task| is_pending(t)) =~= Seq::<Task>::empty());
    }
    while i < tasks.len()
        invariant
            i <= tasks@.len(),
            c == tasks@.take(i as int).filter(|t: Task| is_pending(t)).len(),
            c <= i,
        decreases tasks@.len() - i,
    {
        proof {
            assert(tasks@.take(i + 1) =~= tasks@.take(i as int).push(tasks@[i as int]));
            tasks@.take(i as int).lemma_filter_push(tasks@[i as int], |t: Task| is_pending(t));
        }
        if matches!(tasks[i].status, TaskStatus::Pending) {
            c = c + 1;
        }
        i = i + 1;
    }
    proof {
        assert(tasks@.take(tasks@.len() as int) =~= tasks@);
    }
    c
}

/// The number of retry candidates in `tasks`.
pub fn count_retryable(tasks: &Vec<Task>, status: Option<&str>) -> (r: usize)
    ensures
        r == retry_candidates(
            tasks@,
            match status {
                Some(s) => Some(s@),
                None => None,
            },
        ).len(),
{
    let ghost st = match status {
        Some(s) => Some(s@),
        None => None::<Seq<char>>,
    };
    let mut c: usize = 0;
    let mut i: usize = 0;
    proof {
        assert(tasks@.take(0).filter(|t: Task| retry_candidate(t, st)) =~= Seq::<Task>::empty());
    }
    while i < tasks.len()
        invariant
            i <= tasks@.len(),
            c == tasks@.take(i as int).filter(|t: Task| retry_candidate(t, st)).len(),
            c <= i,
            st == match status {
                Some(s) => Some(s@),
                None => None::<Seq<char>>,
            },
        decreases tasks@.len() - i,
    {
        proof {
            assert(tasks@.take(i + 1) =~= tasks@.take(i as int).push(tasks@[i as int]));
            tasks@.take(i as int).lemma_filter_push(tasks@[i as int], |t: Task| retry_candidate(t, st));
        }
        if tasks[i].status.can_retry() && status_matches(&tasks[i], status) {
            c = c + 1;
        }
        i = i + 1;
    }
    proof {
        assert(tasks@.take(tasks@.len() as int) =~= tasks@);
    }
    c
}

/// The tasks of `s` whose status matches a status argument, in order.
pub open spec fn status_filtered(s: Seq<Task>, status: Option<Seq<char>>) -> Seq<Task> {
    s.filter(|t: Task| status_matches_spec(t, status))
}

/// The tasks of `task list` with a status argument: those whose status
/// matches, in order.
pub fn filter_by_status(tasks: Vec<Task>, status: Option<&str>) -> (r: Vec<Task>)
    ensures
        r@ == status_filtered(
            tasks@,
            match status {
                Some(s) => Some(s@),
                None => None,
            },
        ),
{
    let ghost st = match status {
        Some(s) => Some(s@),
        None => None::<Seq<char>>,
    };
    let ghost all = tasks@;
    let mut out: Vec<Task> = Vec::new();
    let mut rest = tasks;
    let mut k: usize = 0;
    let n = rest.len();
    proof {
        assert(status_filtered(all.take(0), st) =~= Seq::<Task>::empty());
    }
    while k < n
        invariant
            k <= n == all.len(),
            rest@ == all.skip(k as int),
            out@ == status_filtered(all.take(k as int), st),
            st == match status {
                Some(s) => Some(s@),
                None => None::<Seq<char>>,
            },
        decreases n - k,
    {
        let t = rest.remove(0);
        proof {
            assert(t == all[k as int]);
            assert(rest@ =~= all.skip(k + 1));
            assert(all.take(k + 1) =~= all.take(k as int).push(t));
            all.take(k as int).lemma_filter_push(t, |t: Task| status_matches_spec(t, st));
        }
        if status_matches(&t, status) {
            out.push(t);
        }
        k = k + 1;
    }
    proof {
        assert(all.take(n as int) =~= all);
    }
    out
}

/// The capabilities the built-in workers need: every capability required by
/// one of the tasks, each once, in the order first required.
pub open spec fn combined_caps(s: Seq<Task>) -> Seq<CapabilityView>
    decreases s.len(),
{
    if s.len() == 0 {
        Seq::empty()
    } else {
        added_all(combined_caps(s.drop_last()), s.last().spec.required_capabilities@)
    }
}

/// `set` with each capability of `more` added in turn, skipping those
/// already present.
pub open spec fn added_all(set: Seq<CapabilityView>, more: Seq<CapabilityView>) -> Seq<CapabilityView>
    decreases more.len(),
{
    if more.len() == 0 {
        set
    } else {
        let prev = added_all(set, more.drop_last());
        if prev.contains(more.last()) {
            prev
        } else {
            prev.push(more.last())
        }
    }
}

/// The union of the capabilities required by the tasks.
pub fn combined_capabilities(tasks: &[Task]) -> (r: CapabilitySet)
    ensures
        r@ == combined_caps(tasks@),
{
    let mut set = CapabilitySet::new();
    let mut i: usize = 0;
    proof {
        assert(tasks@.take(0) =~= Seq::<Task>::empty());
    }
    while i < tasks.len()
        invariant
            i <= tasks@.len(),
            set@ == combined_caps(tasks@.take(i as int)),
        decreases tasks@.len() - i,
    {
        let caps = tasks[i].spec.required_capabilities.as_slice();
        let ghost base = set@;
        let mut j: usize = 0;
        proof {
            assert(caps_view(caps@).take(0) =~= Seq::<CapabilityView>::empty());
        }
        while j < caps.len()
            invariant
                j <= caps@.len(),
                caps_view(caps@) == tasks@[i as int].spec.required_capabilities@,
                set@ == added_all(base, caps_view(caps@).take(j as int)),
            decreases caps@.len() - j,
        {
            proof {
                assert(caps_view(caps@).take(j + 1).drop_last() =~= caps_view(caps@).take(j as int));
                assert(caps_view(caps@).take(j + 1).last() == caps@[j as int]@);
            }
            set.add(caps[j].duplicate());
            j = j + 1;
        }
        proof {
            assert(caps_view(caps@).take(caps@.len() as int) =~= caps_view(caps@));
            assert(tasks@.take(i + 1).drop_last() =~= tasks@.take(i as int));
            assert(tasks@.take(i + 1).last() == tasks@[i as int]);
        }
        i = i + 1;
    }
    proof {
        assert(tasks@.take(tasks@.len() as int) =~= tasks@);
    }
    set
}

/// The orchestrator settings of a loaded configuration; a zero default
/// timeout disables the default deadline.
pub fn orchestrator_config_from_swarm(config: &ConfigOrchestrator) -> (r: OrchestratorConfig)
    ensures
        r.event_channel_capacity == config.event_channel_capacity,
        r.max_dispatch_per_tick == config.max_dispatch_per_tick,
        r.default_task_timeout == (if config.default_task_timeout_secs == 0 {
            None
        } else {
            Some(seconds_to_millis(config.default_task_timeout_secs))
        }),
        r.max_concurrent_tasks == config.max_concurrent_tasks,
{
    OrchestratorConfig {
        event_channel_capacity: config.event_channel_capacity,
        max_dispatch_per_tick: config.max_dispatch_per_tick,
        default_task_timeout: if config.default_task_timeout_secs == 0 {
            None
        } else {
            Some(secs_to_millis(config.default_task_timeout_secs))
        },
        max_concurrent_tasks: config.max_concurrent_tasks,
    }
}

/// What `task process` works on: how many tasks are pending, and the
/// pending tasks it will run.
#[derive(Debug)]
pub struct ProcessPlan {
    /// The number of pending tasks in the store.
    pub available_pending: usize,
    /// The tasks to run, oldest first.
    pub tasks: Vec<Task>,
}

/// Plan `task process`: at least one worker is needed; the pending tasks are
/// counted and the ones to run chosen oldest first, at most `limit`.
pub fn plan_processing(tasks: Vec<Task>, limit: Option<usize>, workers: usize) -> (r: Result<ProcessPlan, String>)
    ensures
        workers == 0 <==> r is Err,
        r matches Err(e) ==> e@ == "workers must be at least 1"@,
        r matches Ok(p) ==> p.available_pending == pending_tasks(tasks@).len() && p.tasks@ == limited(
            by_age(pending_tasks(tasks@)),
            limit,
        ),
{
    if workers == 0 {
        proof {
            reveal_strlit("workers must be at least 1");
        }
        return Err(owned("workers must be at least 1"));
    }
    let available_pending = count_pending(&tasks);
    let chosen = collect_pending_tasks(tasks, limit);
    Ok(ProcessPlan { available_pending, tasks: chosen })
}

/// What `task retry-batch` works on: how many tasks can be retried, and the
/// ones it will retry.
#[derive(Debug)]
pub struct RetryPlan {
    /// The number of retry candidates in the store.
    pub available_retryable: usize,
    /// The tasks to retry, oldest first.
    pub tasks: Vec<Task>,
}

/// The status a retry batch is restricted to, as given: trimmed and
/// lowercased, or none.
pub open spec fn requested_status(status: Option<&str>) -> Option<Seq<char>> {
    match status {
        Some(s) => Some(lower_spec(trim_spec(s@))),
        None => None,
    }
}

/// Plan `task retry-batch`: read the status filter, count the candidates and
/// choose the ones to retry oldest first, at most `limit`.
pub fn plan_retry(tasks: Vec<Task>, status: Option<&str>, limit: Option<usize>) -> (r: Result<RetryPlan, String>)
    ensures
        status is Some && retry_filter_named(lower_spec(trim_spec(status->Some_0@))) is None <==> r is Err,
        r matches Ok(p) ==> p.available_retryable == retry_candidates(tasks@, requested_status(status)).len()
            && p.tasks@ == limited(by_age(retry_candidates(tasks@, requested_status(status))), limit),
{
    let filter = match parse_retryable_status_filter(status) {
        Ok(f) => f,
        Err(e) => {
            return Err(e);
        },
    };
    let available_retryable = count_retryable(&tasks, filter);
    let chosen = collect_retryable_tasks(tasks, filter, limit);
    let r = RetryPlan { available_retryable, tasks: chosen };
    Ok(r)
}

/// The tasks that `task process` runs are pending and ordered oldest first;
/// there are at most `limit` of them, and without a limit they are exactly
/// the pending tasks.
pub proof fn lemma_processing_plan(s: Seq<Task>, limit: Option<usize>)
    ensures
        forall|i: int| 0 <= i < limited(by_age(pending_tasks(s)), limit).len() ==> (#[trigger] limited(
            by_age(pending_tasks(s)),
            limit,
        )[i]).status is Pending,
        crate::recency::oldest_first(limited(by_age(pending_tasks(s)), limit)),
        limit matches Some(l) ==> limited(by_age(pending_tasks(s)), limit).len() <= l,
        limit is None ==> limited(by_age(pending_tasks(s)), limit).to_multiset() == pending_tasks(s).to_multiset(),
{
    let p = pending_tasks(s);
    let b = by_age(p);
    let plan = limited(b, limit);
    lemma_by_age(p);
    assert forall|i: int| 0 <= i < b.len() implies (#[trigger] b[i]).status is Pending by {
        vstd::seq_lib::to_multiset_contains(b, b[i]);
        assert(b.contains(b[i]));
        assert(p.to_multiset().count(b[i]) > 0);
        vstd::seq_lib::to_multiset_contains(p, b[i]);
        let k = choose|k: int| 0 <= k < p.len() && p[k] == b[i];
        s.lemma_filter_pred(|t: Task| is_pending(t), k);
    }
    assert forall|i: int| 0 <= i < plan.len() implies plan[i] == b[i] by {}
}

} // verus!
