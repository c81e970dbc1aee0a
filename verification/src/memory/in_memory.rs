//! The in-memory memory backend.
//!
//! Entries are kept in a concurrent table keyed by entry identifier.
//! Retrieval filters by the query, orders newest first and applies the
//! limit; retention removes entries older than the policy's age, then the
//! oldest entries beyond its count.

use vstd::prelude::*;
use dashmap::DashMap;
use crate::error::{SwarmError, SwarmResult};
use crate::identity::MemoryId;
use crate::json::{json_has_member, json_member_present, json_set_string_member, json_with_string};
use crate::memory::entry::{expired_at_spec, more_sensitive, same_entry, scope_view, tag_texts, MemoryEntry, MemoryScope};
use crate::memory::query::MemoryQuery;
use crate::memory::retention::RetentionPolicy;
use crate::text::owned;
use crate::types::Timestamp;

verus! {

/// The concurrent table of memory entries, keyed by entry identifier value.
pub type MemoryTable = DashMap<u128, MemoryEntry>;

/// The entries of a memory table, keyed by the entry identifier's value.
pub uninterp spec fn memory_table(m: MemoryTable) -> Map<u128, MemoryEntry>;

/// `DashMap::new`: an empty table.
#[verifier::external_body]
fn mem_new() -> (r: MemoryTable)
    ensures
        memory_table(r).dom() == Set::<u128>::empty(),
{
    DashMap::new()
}

/// `DashMap::insert`: the entry for `key` becomes `value`, all others stay.
#[verifier::external_body]
fn mem_insert(m: &mut MemoryTable, key: u128, value: MemoryEntry)
    ensures
        memory_table(*final(m)) == memory_table(*old(m)).insert(key, value),
{
    m.insert(key, value);
}

/// `DashMap::remove`: the entry for `key` leaves the table and its value is
/// handed back; all other entries stay.
#[verifier::external_body]
fn mem_remove(m: &mut MemoryTable, key: u128) -> (r: Option<MemoryEntry>)
    ensures
        memory_table(*final(m)) == memory_table(*old(m)).remove(key),
        memory_table(*old(m)).dom().contains(key) ==> r == Some(memory_table(*old(m))[key]),
        !memory_table(*old(m)).dom().contains(key) ==> r.is_none(),
{
    m.remove(&key).map(|(_, v)| v)
}

/// `DashMap::get`: a copy of the entry for `key`, if there is one.
#[verifier::external_body]
fn mem_get(m: &MemoryTable, key: u128) -> (r: Option<MemoryEntry>)
    ensures
        memory_table(*m).dom().contains(key) <==> r.is_some(),
        r matches Some(e) ==> same_entry(e, memory_table(*m)[key]),
{
    m.get(&key).map(|e| e.value().duplicate())
}

/// `DashMap::iter`: the identifier and creation time of every entry, each
/// entry once, in the map's own order (which the contract leaves open).
#[verifier::external_body]
fn mem_stamps(m: &MemoryTable) -> (r: Vec<(u128, Timestamp)>)
    ensures
        r@.len() == memory_table(*m).dom().len(),
        lists_entries(r@, memory_table(*m), memory_table(*m).dom()),
{
    m.iter().map(|e| (*e.key(), e.value().created_at)).collect()
}

/// Whether `s` lists, each once, the identifier and creation time of the
/// entries of `t` whose keys are in `keys`, and nothing else.
pub open spec fn lists_entries(s: Seq<(u128, Timestamp)>, t: Map<u128, MemoryEntry>, keys: Set<u128>) -> bool {
    &&& forall|i: int| #![trigger s[i]] 0 <= i < s.len() ==> keys.contains(s[i].0) && t.dom().contains(s[i].0)
        && t[s[i].0].created_at == s[i].1
    &&& forall|k: u128| #[trigger] keys.contains(k) ==> exists|i: int| #![trigger s[i]] 0 <= i < s.len() && s[i].0 == k
    &&& distinct_ids(s)
}

/// The identifiers of the first `n` pairs of `s`.
pub open spec fn first_ids(s: Seq<(u128, Timestamp)>, n: int) -> Set<u128> {
    Set::new(|k: u128| exists|p: int| #![trigger s[p]] 0 <= p < n && s[p].0 == k)
}

/// The keys of `t` whose entries match a query at time `at`.
pub open spec fn matching_keys(t: Map<u128, MemoryEntry>, q: MemoryQuery, at: Timestamp) -> Set<u128> {
    t.dom().filter(|k: u128| matches_query(q, t[k], at))
}

/// Whether an entry passes every filter of a query at time `at`.
pub open spec fn matches_query(q: MemoryQuery, e: MemoryEntry, at: Timestamp) -> bool {
    &&& (q.include_expired || !expired_at_spec(e, at))
    &&& (q.scope matches Some(s) ==> scope_view(e.scope) == scope_view(s))
    &&& (q.memory_type matches Some(t) ==> e.memory_type == t)
    &&& (forall|i: int| 0 <= i < q.tags@.len() ==> tag_texts(e.tags@).contains(#[trigger] q.tags@[i]@))
    &&& (q.max_sensitivity matches Some(m) ==> e.sensitivity.rank() <= m.rank())
}

/// Whether an entry falls under a policy's scope (every entry when the
/// policy has none).
pub open spec fn in_policy_scope(scope: Option<MemoryScope>, e: MemoryEntry) -> bool {
    scope matches Some(s) ==> scope_view(e.scope) == scope_view(s)
}

/// Whether the timestamps of `s` are in order: newest first when
/// `newest_first`, else oldest first.
pub open spec fn stamps_sorted(s: Seq<(u128, Timestamp)>, newest_first: bool) -> bool {
    forall|i: int, j: int| 0 <= i < j < s.len() ==> if newest_first {
        s[i].1 >= s[j].1
    } else {
        s[i].1 <= s[j].1
    }
}

/// Whether no two pairs of `s` share an identifier.
pub open spec fn distinct_ids(s: Seq<(u128, Timestamp)>) -> bool {
    forall|a: int, b: int| 0 <= a < b < s.len() ==> s[a].0 != s[b].0
}

/// Whether `a` goes after `b` in the order.
pub open spec fn after(a: Timestamp, b: Timestamp, newest_first: bool) -> bool {
    if newest_first {
        a < b
    } else {
        a > b
    }
}

fn goes_after(a: Timestamp, b: Timestamp, newest_first: bool) -> (r: bool)
    ensures
        r == after(a, b, newest_first),
{
    if newest_first {
        a < b
    } else {
        a > b
    }
}

/// Sort identifier/timestamp pairs by timestamp; pairs with equal
/// timestamps keep their order.
pub fn sort_stamps(v: Vec<(u128, Timestamp)>, newest_first: bool) -> (r: Vec<(u128, Timestamp)>)
    ensures
        stamps_sorted(r@, newest_first),
        r@.to_multiset() == v@.to_multiset(),
        r@.len() == v@.len(),
        forall|x: (u128, Timestamp)| #[trigger] r@.contains(x) <==> v@.contains(x),
        distinct_ids(v@) ==> distinct_ids(r@),
{
    let mut out: Vec<(u128, Timestamp)> = Vec::new();
    let n = v.len();
    let mut k: usize = 0;
    proof {
        assert(out@ =~= v@.take(0));
    }
    while k < n
        invariant
            k <= n == v@.len(),
            stamps_sorted(out@, newest_first),
            out@.to_multiset() == v@.take(k as int).to_multiset(),
            forall|x: (u128, Timestamp)| #[trigger] out@.contains(x) <==> v@.take(k as int).contains(x),
            distinct_ids(v@) ==> distinct_ids(out@),
        decreases n - k,
    {
        let x = v[k];
        let mut p: usize = 0;
        while p < out.len() && !goes_after(out[p].1, x.1, newest_first)
            invariant
                p <= out@.len(),
                forall|q: int| 0 <= q < p ==> !after(#[trigger] out@[q].1, x.1, newest_first),
            decreases out@.len() - p,
        {
            p = p + 1;
        }
        let ghost before = out@;
        out.insert(p, x);
        proof {
            let o = out@;
            assert(o == before.insert(p as int, x));
            assert forall|i: int, j: int| 0 <= i < j < o.len() implies (if newest_first {
                o[i].1 >= o[j].1
            } else {
                o[i].1 <= o[j].1
            }) by {
                if j < p {
                    assert(o[i] == before[i] && o[j] == before[j]);
                } else if j == p {
                    assert(o[i] == before[i]);
                    assert(!after(before[i].1, x.1, newest_first));
                } else if i == p {
                    assert(o[j] == before[j - 1]);
                    assert(after(before[p as int].1, x.1, newest_first));
                    if j - 1 > p {
                        assert(o[j] == before[j - 1]);
                    }
                } else if i < p {
                    assert(o[i] == before[i] && o[j] == before[j - 1]);
                } else {
                    assert(o[i] == before[i - 1] && o[j] == before[j - 1]);
                }
            }
            vstd::seq_lib::to_multiset_insert(before, p as int, x);
            assert(v@.take(k + 1) =~= v@.take(k as int).push(x));
            vstd::seq_lib::to_multiset_build(v@.take(k as int), x);
            assert forall|y: (u128, Timestamp)| #[trigger] o.contains(y) <==> v@.take(k + 1).contains(y) by {
                if o.contains(y) {
                    let q = choose|q: int| 0 <= q < o.len() && o[q] == y;
                    if q < p {
                        assert(o[q] == before[q]);
                        assert(before.contains(y));
                    } else if q > p {
                        assert(o[q] == before[q - 1]);
                        assert(before.contains(y));
                    }
                    if y != x {
                        let w = choose|w: int| 0 <= w < k && #[trigger] v@.take(k as int)[w] == y;
                        assert(v@.take(k + 1)[w] == y);
                    } else {
                        assert(v@.take(k + 1)[k as int] == y);
                    }
                }
                if v@.take(k + 1).contains(y) {
                    let w = choose|w: int| 0 <= w < k + 1 && #[trigger] v@.take(k + 1)[w] == y;
                    if w < k {
                        assert(v@.take(k as int)[w] == y);
                        assert(before.contains(y));
                        let q = choose|q: int| 0 <= q < before.len() && before[q] == y;
                        if q < p {
                            assert(o[q] == y);
                        } else {
                            assert(o[q + 1] == y);
                        }
                    } else {
                        assert(o[p as int] == y);
                    }
                }
            }
            if distinct_ids(v@) {
                assert forall|a: int, b: int| 0 <= a < b < o.len() implies o[a].0 != o[b].0 by {
                    if a == p || b == p {
                        let other = if a == p { b } else { a };
                        let y = o[other];
                        assert(y == (if other < p { before[other] } else { before[other - 1] }));
                        assert(before.contains(y));
                        let w = choose|w: int| 0 <= w < k && #[trigger] v@.take(k as int)[w] == y;
                        assert(v@[w] == y);
                        assert(v@[k as int] == x);
                    } else {
                        let aa = if a < p { a } else { a - 1 };
                        let bb = if b < p { b } else { b - 1 };
                        assert(o[a] == before[aa] && o[b] == before[bb]);
                    }
                }
            }
        }
        k = k + 1;
    }
    proof {
        assert(v@.take(n as int) =~= v@);
        vstd::seq_lib::to_multiset_len(out@);
        vstd::seq_lib::to_multiset_len(v@);
    }
    out
}

/// The in-memory memory backend.
pub struct InMemoryBackend {
    entries: MemoryTable,
}

impl InMemoryBackend {
    /// The stored entries, keyed by the entry identifier's value.
    pub closed spec fn stored(&self) -> Map<u128, MemoryEntry> {
        memory_table(self.entries)
    }

    #[verifier::type_invariant]
    closed spec fn wf(&self) -> bool {
        &&& memory_table(self.entries).dom().finite()
        &&& forall|k: u128| #[trigger] memory_table(self.entries).dom().contains(k) ==> memory_table(
            self.entries,
        )[k].id@ == k
    }

    /// An empty backend.
    pub fn new() -> (r: Self)
        ensures
            r.stored().dom() == Set::<u128>::empty(),
    {
        let entries = mem_new();
        proof {
            assert(memory_table(entries) =~= Map::<u128, MemoryEntry>::empty());
        }
        InMemoryBackend { entries }
    }

    /// Store an entry under its identifier, replacing any entry stored there.
    pub fn store(&mut self, entry: MemoryEntry) -> (r: SwarmResult<MemoryId>)
        ensures
            r == Ok::<MemoryId, SwarmError>(entry.id),
            final(self).stored() == old(self).stored().insert(entry.id@, entry),
    {
        proof {
            use_type_invariant(&*self);
        }
        let id = entry.id;
        let mut entries = mem_new();
        core::mem::swap(&mut entries, &mut self.entries);
        mem_insert(&mut entries, id.as_uuid(), entry);
        *self = InMemoryBackend { entries };
        Ok(id)
    }

    /// A copy of an entry, if it is stored.
    pub fn get(&self, id: &MemoryId) -> (r: SwarmResult<Option<MemoryEntry>>)
        ensures
            r is Ok,
            self.stored().dom().contains(id@) <==> r->Ok_0 is Some,
            r->Ok_0 matches Some(e) ==> same_entry(e, self.stored()[id@]),
    {
        Ok(mem_get(&self.entries, id.as_uuid()))
    }

    /// Remove an entry; an unknown entry is `Internal` and nothing changes.
    pub fn delete(&mut self, id: &MemoryId) -> (r: SwarmResult<()>)
        ensures
            !old(self).stored().dom().contains(id@) ==> (r matches Err(SwarmError::Internal { reason })
                && reason@ == "Memory entry "@ + crate::identity::uuid_hyphenated(id@) + " not found"@)
                && final(self).stored() == old(self).stored(),
            old(self).stored().dom().contains(id@) ==> r is Ok && final(self).stored() == old(
                self,
            ).stored().remove(id@),
    {
        proof {
            use_type_invariant(&*self);
        }
        let mut entries = mem_new();
        core::mem::swap(&mut entries, &mut self.entries);
        let removed = mem_remove(&mut entries, id.as_uuid());
        *self = InMemoryBackend { entries };
        match removed {
            Some(_) => Ok(()),
            None => Err(SwarmError::Internal { reason: not_found_reason(id) }),
        }
    }

    /// Replace the listed members of an entry's JSON object content with the
    /// string `[REDACTED]`; members that are absent, and content that is not
    /// an object, are left alone. An unknown entry is `Internal`.
    pub fn redact(&mut self, id: &MemoryId, fields: &[String]) -> (r: SwarmResult<()>)
        ensures
            !old(self).stored().dom().contains(id@) ==> (r matches Err(SwarmError::Internal { reason })
                && reason@ == "Memory entry "@ + crate::identity::uuid_hyphenated(id@) + " not found"@)
                && final(self).stored() == old(self).stored(),
            old(self).stored().dom().contains(id@) ==> r is Ok && final(self).stored() == old(
                self,
            ).stored().insert(
                id@,
                MemoryEntry {
                    content: redacted(old(self).stored()[id@].content, texts_of(fields@)),
                    ..old(self).stored()[id@]
                },
            ),
    {
        proof {
            use_type_invariant(&*self);
        }
        let mut entries = mem_new();
        core::mem::swap(&mut entries, &mut self.entries);
        let ghost before = memory_table(entries);
        match mem_remove(&mut entries, id.as_uuid()) {
            None => {
                proof {
                    assert(memory_table(entries) =~= before);
                }
                *self = InMemoryBackend { entries };
                Err(SwarmError::Internal { reason: not_found_reason(id) })
            },
            Some(mut e) => {
                let ghost fetched = e;
                let mut i: usize = 0;
                while i < fields.len()
                    invariant
                        i <= fields@.len(),
                        e == (MemoryEntry { content: e.content, ..fetched }),
                        e.content == redacted(fetched.content, texts_of(fields@).take(i as int)),
                    decreases fields@.len() - i,
                {
                    let f = fields[i].as_str();
                    let ghost c0 = e.content;
                    if json_member_present(&e.content, f) {
                        json_set_string_member(&mut e.content, f, "[REDACTED]");
                    }
                    proof {
                        reveal_strlit("[REDACTED]");
                        assert(texts_of(fields@).take(i + 1) =~= texts_of(fields@).take(i as int).push(f@));
                        lemma_redacted_push(fetched.content, texts_of(fields@).take(i as int), f@);
                    }
                    i = i + 1;
                }
                proof {
                    assert(texts_of(fields@).take(i as int) =~= texts_of(fields@));
                }
                mem_insert(&mut entries, id.as_uuid(), e);
                proof {
                    assert(memory_table(entries) =~= before.insert(id@, e));
                }
                *self = InMemoryBackend { entries };
                Ok(())
            },
        }
    }

    /// Health check: the in-memory backend is always healthy.
    pub fn health_check(&self) -> (r: SwarmResult<()>)
        ensures
            r is Ok,
    {
        Ok(())
    }

    /// Remove the entries in the scope created before `cutoff`; returns how
    /// many were removed.
    fn remove_older(&mut self, scope: &Option<MemoryScope>, cutoff: Timestamp) -> (removed: u64)
        ensures
            final(self).stored() == without_older(old(self).stored(), *scope, cutoff as int),
            removed == old(self).stored().dom().len() - final(self).stored().dom().len(),
            old(self).stored().dom().len() <= usize::MAX,
    {
        proof {
            use_type_invariant(&*self);
        }
        let ghost t0 = memory_table(self.entries);
        let stamps = mem_stamps(&self.entries);
        let mut entries = mem_new();
        core::mem::swap(&mut entries, &mut self.entries);
        let n = stamps.len();
        let mut removed: u64 = 0;
        let mut i: usize = 0;
        while i < n
            invariant
                i <= n == stamps@.len(),
                t0.dom().finite(),
                n == t0.dom().len(),
                lists_entries(stamps@, t0, t0.dom()),
                submap_of(memory_table(entries), t0),
                memory_table(entries).dom().finite(),
                forall|k: u128| #[trigger] t0.dom().contains(k) ==> (memory_table(entries).dom().contains(k) <==> !(
                    in_policy_scope(*scope, t0[k]) && t0[k].created_at < cutoff && exists|q: int| 0 <= q < i && stamps@[q].0 == k)),
                removed <= i,
                removed == t0.dom().len() - memory_table(entries).dom().len(),
            decreases n - i,
        {
            let (key, ts) = stamps[i];
            proof {
                assert(t0.dom().contains(stamps@[i as int].0));
            }
            if ts < cutoff {
                let doomed = match mem_get(&entries, key) {
                    Some(e) => in_scope_exec(scope, &e),
                    None => false,
                };
                if doomed {
                    let ghost before = memory_table(entries);
                    let _ = mem_remove(&mut entries, key);
                    removed = removed + 1;
                    proof {
                        assert(before.dom().contains(key));
                        assert(memory_table(entries).dom() =~= before.dom().remove(key));
                    }
                }
            }
            proof {
                assert forall|k: u128| #[trigger] t0.dom().contains(k) implies (memory_table(entries).dom().contains(k) <==> !(
                    in_policy_scope(*scope, t0[k]) && t0[k].created_at < cutoff && exists|q: int| 0 <= q < i + 1 && stamps@[q].0 == k)) by {
                    if k == key {
                        assert(stamps@[i as int].0 == k);
                    } else {
                        if exists|q: int| 0 <= q < i + 1 && stamps@[q].0 == k {
                            let q = choose|q: int| 0 <= q < i + 1 && stamps@[q].0 == k;
                            assert(q != i);
                        }
                    }
                }
            }
            i = i + 1;
        }
        proof {
            assert(memory_table(entries) =~= without_older(t0, *scope, cutoff as int)) by {
                assert forall|k: u128| #[trigger] memory_table(entries).dom().contains(k) <==> without_older(t0, *scope, cutoff as int).dom().contains(k) by {
                    if t0.dom().contains(k) {
                        let q = choose|q: int| 0 <= q < stamps@.len() && #[trigger] stamps@[q].0 == k;
                        assert(stamps@[q].0 == k);
                    }
                }
            }
        }
        *self = InMemoryBackend { entries };
        removed
    }

    /// Keep at most `max` entries in the scope, removing the oldest ones
    /// first; returns how many were removed.
    fn trim_oldest(&mut self, scope: &Option<MemoryScope>, max: u64) -> (removed: u64)
        ensures
            submap_of(final(self).stored(), old(self).stored()),
            forall|k: u128| #[trigger] old(self).stored().dom().contains(k) && !in_policy_scope(*scope, old(self).stored()[k])
                ==> final(self).stored().dom().contains(k),
            scoped_keys(final(self).stored(), *scope).len() <= max,
            scoped_keys(old(self).stored(), *scope).len() <= max ==> final(self).stored() == old(self).stored(),
            scoped_keys(old(self).stored(), *scope).len() > max ==> scoped_keys(final(self).stored(), *scope).len()
                == max,
            forall|k: u128, j: u128| #[trigger] old(self).stored().dom().contains(k) && #[trigger] final(self).stored().dom().contains(j)
                && !final(self).stored().dom().contains(k) && in_policy_scope(*scope, final(self).stored()[j])
                ==> old(self).stored()[k].created_at <= final(self).stored()[j].created_at,
            removed == old(self).stored().dom().len() - final(self).stored().dom().len(),
            old(self).stored().dom().len() <= usize::MAX,
    {
        proof {
            use_type_invariant(&*self);
        }
        let ghost t0 = memory_table(self.entries);
        let ghost s0 = scoped_keys(t0, *scope);
        let stamps = mem_stamps(&self.entries);
        let total = stamps.len();
        let flags = scope_flags(&self.entries, &stamps, scope);
        let (scoped, Ghost(idx)) = select_flagged(&stamps, &flags);
        proof {
            assert forall|p: int| 0 <= p < stamps@.len() implies #[trigger] flags@[p] == s0.contains(stamps@[p].0) by {
                assert(t0.dom().contains(stamps@[p].0));
            }
            lemma_select_lists(stamps@, flags@, scoped@, idx, t0, s0);
            lemma_lists_len(scoped@, t0, s0);
        }
        let count = scoped.len();
        if count as u64 <= max {
            return 0;
        }
        let excess: usize = count - max as usize;
        let sorted = sort_stamps(scoped, false);
        proof {
            lemma_lists_permuted(scoped@, sorted@, t0, s0);
        }
        let ghost sv = sorted@;
        let mut entries = mem_new();
        core::mem::swap(&mut entries, &mut self.entries);
        remove_listed(&mut entries, &sorted, excess, Ghost(s0));
        proof {
            let fin = memory_table(entries);
            let d = first_ids(sv, excess as int);
            assert(scoped_keys(fin, *scope) =~= s0.difference(d));
            assert(scoped_keys(fin, *scope).len() == max);
            assert forall|k: u128| #[trigger] fin.dom().contains(k) implies fin[k].id@ == k by {
                assert(t0.dom().contains(k));
                assert(fin[k] == t0[k]);
            }
            assert forall|k: u128| #[trigger] t0.dom().contains(k) && !in_policy_scope(*scope, t0[k]) implies fin.dom().contains(k) by {
                if d.contains(k) {
                    let p = choose|p: int| #![trigger sv[p]] 0 <= p < excess && sv[p].0 == k;
                    assert(s0.contains(sv[p].0));
                }
            }
            assert forall|k: u128, jj: u128| #[trigger] t0.dom().contains(k) && #[trigger] fin.dom().contains(jj)
                && !fin.dom().contains(k) && in_policy_scope(*scope, fin[jj]) implies t0[k].created_at <= fin[jj].created_at by {
                assert(d.contains(k));
                let p = choose|p: int| #![trigger sv[p]] 0 <= p < excess && sv[p].0 == k;
                assert(s0.contains(jj));
                let q = choose|q: int| #![trigger sv[q]] 0 <= q < sv.len() && sv[q].0 == jj;
                if q < excess {
                    assert(d.contains(jj));
                }
                assert(sv[p].1 <= sv[q].1);
            }
        }
        *self = InMemoryBackend { entries };
        excess as u64
    }

    /// Apply a retention policy at time `at`: first the entries in the
    /// policy's scope older than its maximum age go, then, beyond its
    /// maximum count, the oldest remaining entries in the scope go. Returns
    /// how many entries were removed. A maximum age that reaches before the
    /// earliest representable time is `Internal` and nothing changes.
    pub fn apply_retention(&mut self, policy: &RetentionPolicy, at: Timestamp) -> (r: SwarmResult<u64>)
        ensures
            (policy.max_age matches Some(a) && !cutoff_fits(at, a)) ==> (r matches Err(SwarmError::Internal { .. }))
                && final(self).stored() == old(self).stored(),
            r is Ok ==> ({
                let t0 = old(self).stored();
                let t1 = final(self).stored();
                &&& submap_of(t1, t0)
                &&& forall|k: u128| #[trigger] t0.dom().contains(k) && !in_policy_scope(policy.scope, t0[k]) ==> t1.dom().contains(k)
                &&& (policy.max_age matches Some(a) ==> forall|k: u128| #[trigger] t1.dom().contains(k)
                    && in_policy_scope(policy.scope, t1[k]) ==> t1[k].created_at >= at - a * 1000)
                &&& (policy.max_entries matches Some(m) ==> scoped_keys(t1, policy.scope).len() <= m)
                &&& (policy.max_entries is None ==> t1 == age_pruned(t0, *policy, at))
                &&& submap_of(t1, age_pruned(t0, *policy, at))
                &&& (policy.max_entries matches Some(m) ==> scoped_keys(t1, policy.scope).len() == (if scoped_keys(
                    age_pruned(t0, *policy, at),
                    policy.scope,
                ).len() <= m {
                    scoped_keys(age_pruned(t0, *policy, at), policy.scope).len()
                } else {
                    m as nat
                }))
                &&& forall|k: u128, j: u128| #[trigger] t0.dom().contains(k) && #[trigger] t1.dom().contains(j)
                    && !t1.dom().contains(k) && in_policy_scope(policy.scope, t1[j]) && (policy.max_age matches Some(a)
                    ==> t0[k].created_at >= at - a * 1000) ==> t0[k].created_at <= t1[j].created_at
                &&& r->Ok_0 == t0.dom().len() - t1.dom().len()
            }),
            (policy.max_age is None || cutoff_fits(at, policy.max_age->Some_0)) ==> r is Ok,
    {
        proof {
            use_type_invariant(&*self);
        }
        let ghost t0 = memory_table(self.entries);
        let mut removed: u64 = 0;
        match policy.max_age {
            Some(age) => {
                if age > 9223372036854775u64 {
                    return Err(SwarmError::Internal { reason: owned("retention age out of range") });
                }
                let span: i64 = (age as i64) * 1000;
                if at < i64::MIN + span {
                    return Err(SwarmError::Internal { reason: owned("retention age out of range") });
                }
                let cutoff: i64 = at - span;
                removed = self.remove_older(&policy.scope, cutoff);
                proof {
                    lemma_without_older_submap(t0, policy.scope, cutoff as int);
                }
            },
            None => {},
        }
        let ghost t1 = memory_table(self.entries);
        proof {
            use_type_invariant(&*self);
        }
        match policy.max_entries {
            Some(max) => {
                let more = self.trim_oldest(&policy.scope, max);
                proof {
                    lemma_len_le_submap(memory_table(self.entries), t1);
                    lemma_len_le_submap(t1, t0);
                }
                removed = removed + more;
            },
            None => {},
        }
        proof {
            lemma_retention_composed(t0, t1, memory_table(self.entries), *policy, at);
        }
        Ok(removed)
    }

    /// Copies of the entries matching a query at time `at`, newest first.
    /// With a limit, only that many of the newest matching entries are
    /// returned.
    pub fn retrieve(&self, query: &MemoryQuery, at: Timestamp) -> (r: SwarmResult<Vec<MemoryEntry>>)
        ensures
            r is Ok,
            forall|i: int| 0 <= i < r->Ok_0@.len() ==> #[trigger] self.stored().dom().contains(r->Ok_0@[i].id@)
                && same_entry(r->Ok_0@[i], self.stored()[r->Ok_0@[i].id@]) && matches_query(
                *query,
                self.stored()[r->Ok_0@[i].id@],
                at,
            ),
            forall|i: int, j: int| 0 <= i < j < r->Ok_0@.len() ==> r->Ok_0@[i].id != r->Ok_0@[j].id,
            forall|i: int, j: int| 0 <= i < j < r->Ok_0@.len() ==> r->Ok_0@[i].created_at
                >= r->Ok_0@[j].created_at,
            query.limit matches Some(l) ==> r->Ok_0@.len() <= l,
            forall|k: u128| #[trigger] self.stored().dom().contains(k) && matches_query(
                *query,
                self.stored()[k],
                at,
            ) ==> (exists|i: int| 0 <= i < r->Ok_0@.len() && r->Ok_0@[i].id@ == k) || (query.limit
                matches Some(l) && r->Ok_0@.len() == l && forall|i: int| 0 <= i < r->Ok_0@.len()
                ==> self.stored()[k].created_at <= #[trigger] r->Ok_0@[i].created_at),
    {
        proof {
            use_type_invariant(self);
        }
        let ghost t = memory_table(self.entries);
        let ghost mk = matching_keys(t, *query, at);
        let stamps = mem_stamps(&self.entries);
        let flags = query_flags(&self.entries, &stamps, query, at);
        let (picked, Ghost(idx)) = select_flagged(&stamps, &flags);
        proof {
            assert forall|p: int| 0 <= p < stamps@.len() implies #[trigger] flags@[p] == mk.contains(stamps@[p].0) by {
                assert(t.dom().contains(stamps@[p].0));
            }
            lemma_select_lists(stamps@, flags@, picked@, idx, t, mk);
        }
        let sorted = sort_stamps(picked, true);
        proof {
            lemma_lists_permuted(picked@, sorted@, t, mk);
        }
        let ghost full = sorted@;
        let mut chosen = sorted;
        match query.limit {
            Some(l) => {
                chosen.truncate(l);
            },
            None => {},
        }
        // Fetch the chosen entries.
        let mut out: Vec<MemoryEntry> = Vec::new();
        let m = chosen.len();
        let mut i: usize = 0;
        while i < m
            invariant
                i <= m == chosen@.len(),
                t == memory_table(self.entries),
                chosen@.len() <= full.len(),
                chosen@ == full.subrange(0, chosen@.len() as int),
                lists_entries(full, t, mk),
                out@.len() == i,
                forall|q: int| #![trigger out@[q]] 0 <= q < i ==> out@[q].id@ == chosen@[q].0 && same_entry(out@[q], t[chosen@[q].0])
                    && out@[q].created_at == chosen@[q].1,
            decreases m - i,
        {
            let (key, _) = chosen[i];
            proof {
                assert(chosen@[i as int] == full[i as int]);
                assert(t.dom().contains(full[i as int].0));
            }
            match mem_get(&self.entries, key) {
                Some(e) => {
                    proof {
                        use_type_invariant(self);
                        assert(t[key].id@ == key);
                    }
                    out.push(e);
                },
                None => {
                    proof {
                        assert(false);
                    }
                },
            }
            i = i + 1;
        }
        proof {
            lemma_retrieve_result(t, *query, at, full, chosen@, out@);
        }
        Ok(out)
    }
}

/// The table `t` without the entries in the policy's scope created before
/// `cutoff`.
pub open spec fn without_older(t: Map<u128, MemoryEntry>, scope: Option<MemoryScope>, cutoff: int) -> Map<u128, MemoryEntry> {
    Map::new(
        |k: u128| t.dom().contains(k) && !(in_policy_scope(scope, t[k]) && t[k].created_at < cutoff),
        |k: u128| t[k],
    )
}

/// The keys of `t` whose entries fall under the policy's scope.
pub open spec fn scoped_keys(t: Map<u128, MemoryEntry>, scope: Option<MemoryScope>) -> Set<u128> {
    t.dom().filter(|k: u128| in_policy_scope(scope, t[k]))
}

/// What the age rule of a policy leaves of `t` at time `at`: without a
/// maximum age, everything; with one, all but the entries in the scope
/// created before `at` minus that age.
pub open spec fn age_pruned(t: Map<u128, MemoryEntry>, policy: RetentionPolicy, at: Timestamp) -> Map<u128, MemoryEntry> {
    match policy.max_age {
        Some(a) => without_older(t, policy.scope, at - a * 1000),
        None => t,
    }
}

/// Whether `a` keeps a subset of the entries of `b`, unchanged.
pub open spec fn submap_of(a: Map<u128, MemoryEntry>, b: Map<u128, MemoryEntry>) -> bool {
    forall|k: u128| #[trigger] a.dom().contains(k) ==> b.dom().contains(k) && a[k] == b[k]
}

/// Whether the cutoff `at - age` milliseconds is a representable time.
pub open spec fn cutoff_fits(at: Timestamp, age: u64) -> bool {
    age <= 9223372036854775 && at - age * 1000 >= i64::MIN
}

/// Whether an entry falls under a policy's scope.
pub fn in_scope_exec(scope: &Option<MemoryScope>, e: &MemoryEntry) -> (r: bool)
    ensures
        r == in_policy_scope(*scope, *e),
{
    match scope {
        Some(s) => e.scope.same_as(s),
        None => true,
    }
}

proof fn lemma_len_le_submap(a: Map<u128, MemoryEntry>, b: Map<u128, MemoryEntry>)
    requires
        submap_of(a, b),
        b.dom().finite(),
    ensures
        a.dom().len() <= b.dom().len(),
        a.dom().finite(),
{
    vstd::set_lib::lemma_len_subset(a.dom(), b.dom());
}

proof fn lemma_without_older_submap(t: Map<u128, MemoryEntry>, scope: Option<MemoryScope>, cutoff: int)
    ensures
        submap_of(without_older(t, scope, cutoff), t),
{
}

proof fn lemma_retention_composed(
    t0: Map<u128, MemoryEntry>,
    t1: Map<u128, MemoryEntry>,
    t2: Map<u128, MemoryEntry>,
    policy: RetentionPolicy,
    at: Timestamp,
)
    requires
        policy.max_age matches Some(a) ==> t1 == without_older(t0, policy.scope, at - a * 1000),
        policy.max_age is None ==> t1 == t0,
        policy.max_entries is None ==> t2 == t1,
        policy.max_entries is Some ==> {
            &&& submap_of(t2, t1)
            &&& forall|k: u128| #[trigger] t1.dom().contains(k) && !in_policy_scope(policy.scope, t1[k]) ==> t2.dom().contains(k)
            &&& forall|k: u128, j: u128| #[trigger] t1.dom().contains(k) && #[trigger] t2.dom().contains(j)
                && !t2.dom().contains(k) && in_policy_scope(policy.scope, t2[j]) ==> t1[k].created_at <= t2[j].created_at
        },
    ensures
        submap_of(t2, t0),
        forall|k: u128| #[trigger] t0.dom().contains(k) && !in_policy_scope(policy.scope, t0[k]) ==> t2.dom().contains(k),
        policy.max_age matches Some(a) ==> forall|k: u128| #[trigger] t2.dom().contains(k)
            && in_policy_scope(policy.scope, t2[k]) ==> t2[k].created_at >= at - a * 1000,
        forall|k: u128, j: u128| #[trigger] t0.dom().contains(k) && #[trigger] t2.dom().contains(j)
            && !t2.dom().contains(k) && in_policy_scope(policy.scope, t2[j]) && (policy.max_age matches Some(a)
            ==> t0[k].created_at >= at - a * 1000) ==> t0[k].created_at <= t2[j].created_at,
{
    assert forall|k: u128| #[trigger] t0.dom().contains(k) && !in_policy_scope(policy.scope, t0[k]) implies t2.dom().contains(k) by {
        assert(t1.dom().contains(k));
        assert(t1[k] == t0[k]);
    }
    assert forall|k: u128, j: u128| #[trigger] t0.dom().contains(k) && #[trigger] t2.dom().contains(j)
        && !t2.dom().contains(k) && in_policy_scope(policy.scope, t2[j]) && (policy.max_age matches Some(a)
        ==> t0[k].created_at >= at - a * 1000) implies t0[k].created_at <= t2[j].created_at by {
        assert(t1.dom().contains(k));
        assert(t1.dom().contains(j));
        assert(t1[k] == t0[k]);
    }
}

/// Entries holding the same values match the same queries.
pub proof fn lemma_matches_same(q: MemoryQuery, a: MemoryEntry, b: MemoryEntry, at: Timestamp)
    requires
        same_entry(a, b),
    ensures
        matches_query(q, a, at) == matches_query(q, b, at),
{
    assert(tag_texts(a.tags@) == tag_texts(b.tags@));
}

/// The texts of a list of strings.
pub open spec fn texts_of(s: Seq<String>) -> Seq<Seq<char>> {
    s.map_values(|x: String| x@)
}

/// What redacting `fields`, in order, makes of a JSON document: each field
/// that is a member is set to the string `[REDACTED]`.
pub open spec fn redacted(v: serde_json::Value, fields: Seq<Seq<char>>) -> serde_json::Value
    decreases fields.len(),
{
    if fields.len() == 0 {
        v
    } else {
        let prev = redacted(v, fields.drop_last());
        if json_has_member(prev, fields.last()) {
            json_with_string(prev, fields.last(), "[REDACTED]"@)
        } else {
            prev
        }
    }
}

proof fn lemma_redacted_push(v: serde_json::Value, fields: Seq<Seq<char>>, f: Seq<char>)
    ensures
        redacted(v, fields.push(f)) == (if json_has_member(redacted(v, fields), f) {
            json_with_string(redacted(v, fields), f, "[REDACTED]"@)
        } else {
            redacted(v, fields)
        }),
{
    assert(fields.push(f).drop_last() =~= fields);
}

fn not_found_reason(id: &MemoryId) -> (r: String)
    ensures
        r@ == "Memory entry "@ + crate::identity::uuid_hyphenated(id@) + " not found"@,
{
    let mut s = owned("Memory entry ");
    s.append(id.to_text().as_str());
    s.append(" not found");
    proof {
        reveal_strlit("Memory entry ");
        reveal_strlit(" not found");
    }
    s
}

/// Whether an entry passes every filter of a query at time `at`.
pub fn entry_matches(query: &MemoryQuery, e: &MemoryEntry, at: Timestamp) -> (r: bool)
    ensures
        r == matches_query(*query, *e, at),
{
    if !query.include_expired && e.expired_at(at) {
        return false;
    }
    match &query.scope {
        Some(s) => {
            if !e.scope.same_as(s) {
                return false;
            }
        },
        None => {},
    }
    match &query.memory_type {
        Some(t) => {
            if e.memory_type != *t {
                return false;
            }
        },
        None => {},
    }
    let mut i: usize = 0;
    while i < query.tags.len()
        invariant
            i <= query.tags@.len(),
            forall|q: int| 0 <= q < i ==> tag_texts(e.tags@).contains(#[trigger] query.tags@[q]@),
        decreases query.tags@.len() - i,
    {
        match crate::text::position_of(e.tags.as_slice(), query.tags[i].as_str()) {
            Some(p) => {
                proof {
                    assert(tag_texts(e.tags@)[p as int] == query.tags@[i as int]@);
                }
            },
            None => {
                proof {
                    if tag_texts(e.tags@).contains(query.tags@[i as int]@) {
                        let p = choose|p: int| 0 <= p < tag_texts(e.tags@).len() && tag_texts(e.tags@)[p]
                            == query.tags@[i as int]@;
                        assert(e.tags@[p]@ == query.tags@[i as int]@);
                    }
                }
                return false;
            },
        }
        i = i + 1;
    }
    match &query.max_sensitivity {
        Some(m) => {
            if e.sensitivity.exceeds(m) {
                return false;
            }
        },
        None => {},
    }
    true
}

proof fn lemma_retrieve_result(
    t: Map<u128, MemoryEntry>,
    q: MemoryQuery,
    at: Timestamp,
    full: Seq<(u128, Timestamp)>,
    chosen: Seq<(u128, Timestamp)>,
    out: Seq<MemoryEntry>,
)
    requires
        chosen.len() <= full.len(),
        chosen == full.subrange(0, chosen.len() as int),
        stamps_sorted(full, true),
        lists_entries(full, t, matching_keys(t, q, at)),
        q.limit matches Some(l) ==> chosen.len() == if l < full.len() { l as int } else { full.len() as int },
        q.limit is None ==> chosen.len() == full.len(),
        out.len() == chosen.len(),
        forall|i: int| #![trigger out[i]] 0 <= i < chosen.len() ==> out[i].id@ == chosen[i].0 && same_entry(out[i], t[chosen[i].0])
            && out[i].created_at == chosen[i].1,
    ensures
        forall|i: int| 0 <= i < out.len() ==> #[trigger] t.dom().contains(out[i].id@) && same_entry(out[i], t[out[i].id@])
            && matches_query(q, t[out[i].id@], at),
        forall|i: int, j: int| 0 <= i < j < out.len() ==> out[i].id != out[j].id,
        forall|i: int, j: int| 0 <= i < j < out.len() ==> out[i].created_at >= out[j].created_at,
        q.limit matches Some(l) ==> out.len() <= l,
        forall|k: u128| #[trigger] t.dom().contains(k) && matches_query(q, t[k], at) ==> (exists|i: int|
            0 <= i < out.len() && out[i].id@ == k) || (q.limit matches Some(l) && out.len() == l && forall|i: int|
            0 <= i < out.len() ==> t[k].created_at <= #[trigger] out[i].created_at),
{
    let mk = matching_keys(t, q, at);
    assert forall|i: int| 0 <= i < out.len() implies #[trigger] t.dom().contains(out[i].id@) && same_entry(out[i], t[out[i].id@])
        && matches_query(q, t[out[i].id@], at) by {
        assert(chosen[i] == full[i]);
        assert(mk.contains(full[i].0));
    }
    assert forall|i: int, j: int| 0 <= i < j < out.len() implies out[i].id != out[j].id by {
        assert(chosen[i] == full[i] && chosen[j] == full[j]);
        assert(out[i].id@ == full[i].0 && out[j].id@ == full[j].0);
        assert(full[i].0 != full[j].0);
        crate::identity::MemoryId::lemma_view_injective(out[i].id, out[j].id);
    }
    assert forall|i: int, j: int| 0 <= i < j < out.len() implies out[i].created_at >= out[j].created_at by {
        assert(chosen[i] == full[i] && chosen[j] == full[j]);
        assert(out[i].created_at == full[i].1 && out[j].created_at == full[j].1);
        assert(full[i].1 >= full[j].1);
    }
    assert forall|k: u128| #[trigger] t.dom().contains(k) && matches_query(q, t[k], at) implies (exists|i: int|
        0 <= i < out.len() && out[i].id@ == k) || (q.limit matches Some(l) && out.len() == l && forall|i: int|
        0 <= i < out.len() ==> t[k].created_at <= #[trigger] out[i].created_at) by {
        assert(mk.contains(k));
        let p = choose|p: int| #![trigger full[p]] 0 <= p < full.len() && full[p].0 == k;
        if p < chosen.len() {
            assert(chosen[p] == full[p]);
            assert(out[p].id@ == k);
        } else {
            assert forall|i: int| 0 <= i < out.len() implies t[k].created_at <= #[trigger] out[i].created_at by {
                assert(chosen[i] == full[i]);
                assert(full[i].1 >= full[p].1);
            }
        }
    }
}

/// For each listed identifier, whether its entry falls under the scope.
fn scope_flags(entries: &MemoryTable, stamps: &Vec<(u128, Timestamp)>, scope: &Option<MemoryScope>) -> (f: Vec<bool>)
    requires
        forall|i: int| 0 <= i < stamps@.len() ==> #[trigger] memory_table(*entries).dom().contains(stamps@[i].0),
    ensures
        f@.len() == stamps@.len(),
        forall|i: int| 0 <= i < stamps@.len() ==> #[trigger] f@[i] == in_policy_scope(
            *scope,
            memory_table(*entries)[stamps@[i].0],
        ),
{
    let mut f: Vec<bool> = Vec::new();
    let mut i: usize = 0;
    while i < stamps.len()
        invariant
            i <= stamps@.len(),
            f@.len() == i,
            forall|q: int| 0 <= q < stamps@.len() ==> #[trigger] memory_table(*entries).dom().contains(stamps@[q].0),
            forall|q: int| 0 <= q < i ==> #[trigger] f@[q] == in_policy_scope(*scope, memory_table(*entries)[stamps@[q].0]),
        decreases stamps@.len() - i,
    {
        let key = stamps[i].0;
        proof {
            assert(memory_table(*entries).dom().contains(stamps@[i as int].0));
        }
        let b = match mem_get(entries, key) {
            Some(e) => in_scope_exec(scope, &e),
            None => false,
        };
        f.push(b);
        i = i + 1;
    }
    f
}

/// For each listed identifier, whether its entry matches the query at `at`.
fn query_flags(entries: &MemoryTable, stamps: &Vec<(u128, Timestamp)>, query: &MemoryQuery, at: Timestamp) -> (f: Vec<bool>)
    requires
        forall|i: int| 0 <= i < stamps@.len() ==> #[trigger] memory_table(*entries).dom().contains(stamps@[i].0),
    ensures
        f@.len() == stamps@.len(),
        forall|i: int| 0 <= i < stamps@.len() ==> #[trigger] f@[i] == matches_query(
            *query,
            memory_table(*entries)[stamps@[i].0],
            at,
        ),
{
    let mut f: Vec<bool> = Vec::new();
    let mut i: usize = 0;
    while i < stamps.len()
        invariant
            i <= stamps@.len(),
            f@.len() == i,
            forall|q: int| 0 <= q < stamps@.len() ==> #[trigger] memory_table(*entries).dom().contains(stamps@[q].0),
            forall|q: int| 0 <= q < i ==> #[trigger] f@[q] == matches_query(*query, memory_table(*entries)[stamps@[q].0], at),
        decreases stamps@.len() - i,
    {
        let key = stamps[i].0;
        proof {
            assert(memory_table(*entries).dom().contains(stamps@[i as int].0));
        }
        let b = match mem_get(entries, key) {
            Some(e) => {
                proof {
                    lemma_matches_same(*query, e, memory_table(*entries)[key], at);
                }
                entry_matches(query, &e, at)
            },
            None => false,
        };
        f.push(b);
        i = i + 1;
    }
    f
}

/// The pairs of `stamps` whose flag is set, in their order; the ghost
/// sequence gives, for each pair kept, its position in `stamps`.
fn select_flagged(stamps: &Vec<(u128, Timestamp)>, flags: &Vec<bool>) -> (r: (Vec<(u128, Timestamp)>, Ghost<Seq<int>>))
    requires
        flags@.len() == stamps@.len(),
    ensures
        selected(stamps@, flags@, r.0@, r.1@),
{
    let mut r: Vec<(u128, Timestamp)> = Vec::new();
    let ghost mut idx: Seq<int> = Seq::empty();
    let mut k: usize = 0;
    while k < stamps.len()
        invariant
            k <= stamps@.len() == flags@.len(),
            idx.len() == r@.len(),
            forall|i: int| #![trigger idx[i]] 0 <= i < r@.len() ==> 0 <= idx[i] < k && stamps@[idx[i]] == r@[i]
                && flags@[idx[i]],
            forall|a: int, b: int| 0 <= a < b < r@.len() ==> #[trigger] idx[a] < #[trigger] idx[b],
            forall|p: int| 0 <= p < k && #[trigger] flags@[p] ==> exists|i: int| 0 <= i < r@.len() && #[trigger] idx[i] == p,
        decreases stamps@.len() - k,
    {
        if flags[k] {
            r.push(stamps[k]);
            proof {
                let old_idx = idx;
                idx = idx.push(k as int);
                assert forall|p: int| 0 <= p < k + 1 && #[trigger] flags@[p] implies exists|i: int| 0 <= i < r@.len() && #[trigger] idx[i] == p by {
                    if p < k {
                        let i = choose|i: int| 0 <= i < old_idx.len() && #[trigger] old_idx[i] == p;
                        assert(idx[i] == p);
                    } else {
                        assert(idx[old_idx.len() as int] == p);
                    }
                }
            }
        }
        k = k + 1;
    }
    (r, Ghost(idx))
}

/// Whether `r` holds the pairs of `stamps` whose flag is set, in their
/// order, `idx` giving the position in `stamps` of each.
pub open spec fn selected(stamps: Seq<(u128, Timestamp)>, flags: Seq<bool>, r: Seq<(u128, Timestamp)>, idx: Seq<int>) -> bool {
    &&& idx.len() == r.len()
    &&& forall|i: int| #![trigger idx[i]] 0 <= i < r.len() ==> 0 <= idx[i] < stamps.len() && stamps[idx[i]] == r[i]
        && flags[idx[i]]
    &&& forall|a: int, b: int| 0 <= a < b < r.len() ==> #[trigger] idx[a] < #[trigger] idx[b]
    &&& forall|p: int| 0 <= p < stamps.len() && #[trigger] flags[p] ==> exists|i: int| 0 <= i < r.len() && #[trigger] idx[i] == p
}

/// Selecting, from a listing of every entry, the pairs flagged exactly for
/// the keys of `keys` lists the entries under `keys`.
proof fn lemma_select_lists(
    stamps: Seq<(u128, Timestamp)>,
    flags: Seq<bool>,
    r: Seq<(u128, Timestamp)>,
    idx: Seq<int>,
    t: Map<u128, MemoryEntry>,
    keys: Set<u128>,
)
    requires
        lists_entries(stamps, t, t.dom()),
        flags.len() == stamps.len(),
        forall|p: int| 0 <= p < stamps.len() ==> #[trigger] flags[p] == keys.contains(stamps[p].0),
        forall|k: u128| #[trigger] keys.contains(k) ==> t.dom().contains(k),
        selected(stamps, flags, r, idx),
    ensures
        lists_entries(r, t, keys),
{
    assert forall|i: int| #![trigger r[i]] 0 <= i < r.len() implies keys.contains(r[i].0) && t.dom().contains(r[i].0)
        && t[r[i].0].created_at == r[i].1 by {
        assert(flags[idx[i]]);
        assert(stamps[idx[i]] == r[i]);
    }
    assert forall|k: u128| #[trigger] keys.contains(k) implies exists|i: int| #![trigger r[i]] 0 <= i < r.len() && r[i].0 == k by {
        assert(t.dom().contains(k));
        let p = choose|p: int| #![trigger stamps[p]] 0 <= p < stamps.len() && stamps[p].0 == k;
        assert(flags[p]);
        let i = choose|i: int| 0 <= i < r.len() && #[trigger] idx[i] == p;
        assert(r[i].0 == k);
    }
    assert forall|a: int, b: int| 0 <= a < b < r.len() implies r[a].0 != r[b].0 by {
        assert(idx[a] < idx[b]);
        assert(stamps[idx[a]] == r[a] && stamps[idx[b]] == r[b]);
    }
}

/// A reordering of a listing, holding each identifier once, is a listing
/// of the same entries.
proof fn lemma_lists_permuted(a: Seq<(u128, Timestamp)>, b: Seq<(u128, Timestamp)>, t: Map<u128, MemoryEntry>, keys: Set<u128>)
    requires
        lists_entries(a, t, keys),
        forall|x: (u128, Timestamp)| #[trigger] a.contains(x) <==> b.contains(x),
        distinct_ids(b),
    ensures
        lists_entries(b, t, keys),
{
    assert forall|i: int| #![trigger b[i]] 0 <= i < b.len() implies keys.contains(b[i].0) && t.dom().contains(b[i].0)
        && t[b[i].0].created_at == b[i].1 by {
        assert(b.contains(b[i]));
        assert(a.contains(b[i]));
        let p = choose|p: int| 0 <= p < a.len() && a[p] == b[i];
        assert(a[p] == b[i]);
    }
    assert forall|k: u128| #[trigger] keys.contains(k) implies exists|i: int| #![trigger b[i]] 0 <= i < b.len() && b[i].0 == k by {
        let p = choose|p: int| #![trigger a[p]] 0 <= p < a.len() && a[p].0 == k;
        assert(a.contains(a[p]));
        assert(b.contains(a[p]));
        let i = choose|i: int| 0 <= i < b.len() && b[i] == a[p];
        assert(b[i].0 == k);
    }
}

/// A listing holds as many pairs as there are keys.
proof fn lemma_lists_len(s: Seq<(u128, Timestamp)>, t: Map<u128, MemoryEntry>, keys: Set<u128>)
    requires
        lists_entries(s, t, keys),
    ensures
        keys.finite(),
        keys.len() == s.len(),
{
    let ids = s.map_values(|x: (u128, Timestamp)| x.0);
    assert(ids.no_duplicates()) by {
        assert forall|a: int, b: int| 0 <= a < ids.len() && 0 <= b < ids.len() && a != b implies ids[a] != ids[b] by {
            if a < b {
                assert(s[a].0 != s[b].0);
            } else {
                assert(s[b].0 != s[a].0);
            }
        }
    }
    assert(ids.to_set() =~= keys) by {
        assert forall|k: u128| ids.to_set().contains(k) <==> keys.contains(k) by {
            if keys.contains(k) {
                let p = choose|p: int| #![trigger s[p]] 0 <= p < s.len() && s[p].0 == k;
                assert(ids[p] == k);
            }
            if ids.to_set().contains(k) {
                let p = choose|p: int| 0 <= p < ids.len() && ids[p] == k;
                assert(s[p].0 == k);
            }
        }
    }
    ids.unique_seq_to_set();
}

/// Remove from the table the entries of the first `count` listed
/// identifiers.
fn remove_listed(entries: &mut MemoryTable, doomed: &Vec<(u128, Timestamp)>, count: usize, Ghost(keys): Ghost<Set<u128>>)
    requires
        count <= doomed@.len(),
        distinct_ids(doomed@),
        keys.finite(),
        memory_table(*old(entries)).dom().finite(),
        forall|i: int| 0 <= i < count ==> keys.contains(#[trigger] doomed@[i].0) && memory_table(*old(entries)).dom().contains(doomed@[i].0),
    ensures
        memory_table(*final(entries)) == memory_table(*old(entries)).remove_keys(first_ids(doomed@, count as int)),
        memory_table(*final(entries)).dom().len() == memory_table(*old(entries)).dom().len() - count,
        memory_table(*final(entries)).dom().finite(),
        keys.difference(first_ids(doomed@, count as int)).len() == keys.len() - count,
{
    let ghost t0 = memory_table(*entries);
    let mut j: usize = 0;
    proof {
        assert(first_ids(doomed@, 0) =~= Set::<u128>::empty());
        assert(t0.remove_keys(first_ids(doomed@, 0)) =~= t0);
        assert(keys.difference(first_ids(doomed@, 0)) =~= keys);
    }
    while j < count
        invariant
            j <= count <= doomed@.len(),
            distinct_ids(doomed@),
            keys.finite(),
            t0.dom().finite(),
            forall|i: int| 0 <= i < count ==> keys.contains(#[trigger] doomed@[i].0) && t0.dom().contains(doomed@[i].0),
            memory_table(*entries) == t0.remove_keys(first_ids(doomed@, j as int)),
            memory_table(*entries).dom().finite(),
            memory_table(*entries).dom().len() == t0.dom().len() - j,
            keys.difference(first_ids(doomed@, j as int)).len() == keys.len() - j,
        decreases count - j,
    {
        let key = doomed[j].0;
        let ghost before = memory_table(*entries);
        let ghost d = first_ids(doomed@, j as int);
        proof {
            assert(keys.contains(doomed@[j as int].0));
            assert(!d.contains(key)) by {
                if d.contains(key) {
                    let p = choose|p: int| #![trigger doomed@[p]] 0 <= p < j && doomed@[p].0 == key;
                    assert(doomed@[p].0 != doomed@[j as int].0);
                }
            }
            assert(before.dom().contains(key));
        }
        let _ = mem_remove(entries, key);
        proof {
            let d2 = first_ids(doomed@, j + 1);
            assert(d2 =~= d.insert(key)) by {
                assert forall|k: u128| d2.contains(k) <==> (d.contains(k) || k == key) by {
                    if d2.contains(k) {
                        let p = choose|p: int| #![trigger doomed@[p]] 0 <= p < j + 1 && doomed@[p].0 == k;
                        if p < j {
                            assert(d.contains(k));
                        }
                    }
                    if d.contains(k) {
                        let p = choose|p: int| #![trigger doomed@[p]] 0 <= p < j && doomed@[p].0 == k;
                        assert(d2.contains(k));
                    }
                    if k == key {
                        assert(doomed@[j as int].0 == k);
                    }
                }
            }
            assert(memory_table(*entries) =~= t0.remove_keys(d2));
            assert(memory_table(*entries).dom() =~= before.dom().remove(key));
            assert(keys.difference(d2) =~= keys.difference(d).remove(key));
        }
        j = j + 1;
    }
}

/// A query capped at a sensitivity level never matches an entry that is
/// more restricted than the cap, and the cap never excludes an entry that
/// is not: capped at `Internal`, no `Confidential` or `Restricted` entry is
/// retrieved.
pub proof fn lemma_sensitivity_cap(q: MemoryQuery, e: MemoryEntry, at: Timestamp)
    requires
        q.max_sensitivity is Some,
    ensures
        more_sensitive(e.sensitivity, q.max_sensitivity->Some_0) ==> !matches_query(q, e, at),
        !more_sensitive(e.sensitivity, q.max_sensitivity->Some_0) ==> matches_query(q, e, at) == matches_query(
            MemoryQuery { max_sensitivity: None, ..q },
            e,
            at,
        ),
{
    crate::memory::entry::lemma_sensitivity_levels_rise(e.sensitivity, q.max_sensitivity->Some_0);
    let q2 = MemoryQuery { max_sensitivity: None, ..q };
    assert(q2.tags == q.tags);
    assert((forall|i: int| 0 <= i < q.tags@.len() ==> tag_texts(e.tags@).contains(#[trigger] q.tags@[i]@))
        == (forall|i: int| 0 <= i < q2.tags@.len() ==> tag_texts(e.tags@).contains(#[trigger] q2.tags@[i]@)));
}

} // verus!
