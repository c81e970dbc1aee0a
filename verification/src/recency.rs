//! Ordering dated items by date.
//!
//! Listings of tasks and of learning outputs put the newest first; the
//! command line picks persisted tasks to process or retry oldest first.
//! Items with the same date keep the order in which they came.

use vstd::prelude::*;
use crate::types::Timestamp;

verus! {

/// Something with a date: a task's or an output's creation time.
pub trait Dated {
    /// The date of the item.
    spec fn date(&self) -> Timestamp;

    /// The date of the item.
    fn date_of(&self) -> (r: Timestamp)
        ensures
            r == self.date(),
    ;
}

/// The number of leading elements of `s` created no earlier than `at`: the
/// position before the first element that is older than `at`.
pub open spec fn first_older<T: Dated>(s: Seq<T>, at: Timestamp) -> nat
    decreases s.len(),
{
    if s.len() == 0 {
        0
    } else if s[0].date() < at {
        0
    } else {
        1 + first_older(s.drop_first(), at)
    }
}

/// `s` with `t` inserted before the first element older than it.
pub open spec fn insert_by_recency<T: Dated>(s: Seq<T>, t: T) -> Seq<T> {
    s.insert(first_older(s, t.date()) as int, t)
}

/// The elements of `s` ordered newest first; elements created at the same
/// time keep their order in `s`.
pub open spec fn by_recency<T: Dated>(s: Seq<T>) -> Seq<T>
    decreases s.len(),
{
    if s.len() == 0 {
        s
    } else {
        insert_by_recency(by_recency(s.drop_last()), s.last())
    }
}

/// Whether the elements of `s` never get newer along the sequence.
pub open spec fn newest_first<T: Dated>(s: Seq<T>) -> bool {
    forall|i: int, j: int| 0 <= i < j < s.len() ==> s[i].date() >= s[j].date()
}

proof fn lemma_first_older<T: Dated>(s: Seq<T>, at: Timestamp)
    ensures
        first_older(s, at) <= s.len(),
        forall|k: int| 0 <= k < first_older(s, at) ==> (#[trigger] s[k]).date() >= at,
        first_older(s, at) < s.len() ==> s[first_older(s, at) as int].date() < at,
    decreases s.len(),
{
    if s.len() > 0 && s[0].date() >= at {
        lemma_first_older(s.drop_first(), at);
        assert forall|k: int| 0 <= k < first_older(s, at) implies (#[trigger] s[k]).date() >= at by {
            if k > 0 {
                assert(s[k] == s.drop_first()[k - 1]);
            }
        }
    }
}

/// Listing orders tasks newest first and keeps every task: the result of
/// `by_recency` is sorted by creation time and is a permutation of its input.
pub proof fn lemma_by_recency<T: Dated>(s: Seq<T>)
    ensures
        newest_first(by_recency(s)),
        by_recency(s).to_multiset() == s.to_multiset(),
        by_recency(s).len() == s.len(),
    decreases s.len(),
{
    if s.len() > 0 {
        let p = by_recency(s.drop_last());
        lemma_by_recency(s.drop_last());
        let t = s.last();
        lemma_first_older(p, t.date());
        let pos = first_older(p, t.date()) as int;
        let r = p.insert(pos, t);
        assert forall|i: int, j: int| 0 <= i < j < r.len() implies r[i].date() >= r[j].date() by {
            if j < pos {
                assert(r[i] == p[i] && r[j] == p[j]);
            } else if j == pos {
                assert(r[i] == p[i]);
            } else if i == pos {
                assert(r[j] == p[j - 1]);
                if pos < p.len() {
                    assert(p[pos].date() < t.date());
                    if j - 1 > pos {
                        assert(p[pos].date() >= p[j - 1].date());
                    }
                }
            } else if i < pos {
                assert(r[i] == p[i] && r[j] == p[j - 1]);
            } else {
                assert(r[i] == p[i - 1] && r[j] == p[j - 1]);
            }
        }
        assert(s =~= s.drop_last().push(t));
        vstd::seq_lib::to_multiset_build(s.drop_last(), t);
        vstd::seq_lib::to_multiset_insert(p, pos, t);
    }
}

/// The position before the first element of `v` older than `at`.
fn position_by_recency<T: Dated>(v: &Vec<T>, at: Timestamp) -> (r: usize)
    ensures
        r == first_older(v@, at),
{
    let n = v.len();
    let mut i: usize = 0;
    assert(v@.skip(0) =~= v@);
    while i < n
        invariant
            i <= n == v@.len(),
            first_older(v@, at) == i + first_older(v@.skip(i as int), at),
        decreases n - i,
    {
        if v[i].date_of() < at {
            assert(v@.skip(i as int)[0] == v@[i as int]);
            return i;
        }
        proof {
            assert(v@.skip(i as int).drop_first() =~= v@.skip(i + 1));
        }
        i = i + 1;
    }
    assert(v@.skip(n as int).len() == 0);
    i
}

/// Order items newest first; items dated the same keep their order.
pub fn sort_newest_first<T: Dated>(items: Vec<T>) -> (r: Vec<T>)
    ensures
        r@ == by_recency(items@),
{
    let ghost orig = items@;
    let mut rest = items;
    let mut out: Vec<T> = Vec::new();
    let n = rest.len();
    let mut k: usize = 0;
    while k < n
        invariant
            k <= n == orig.len(),
            rest@ == orig.skip(k as int),
            out@ == by_recency(orig.take(k as int)),
        decreases n - k,
    {
        let t = rest.remove(0);
        proof {
            assert(orig.take(k + 1).drop_last() =~= orig.take(k as int));
            assert(orig.take(k + 1).last() == orig[k as int]);
            assert(t == orig[k as int]);
            assert(rest@ =~= orig.skip(k + 1));
        }
        let pos = position_by_recency(&out, t.date_of());
        proof {
            lemma_first_older(out@, t.date());
        }
        out.insert(pos, t);
        k = k + 1;
    }
    proof {
        assert(orig.take(n as int) =~= orig);
    }
    out
}

/// The number of leading elements of `s` dated no later than `at`: the
/// position before the first element that is newer than `at`.
pub open spec fn first_newer<T: Dated>(s: Seq<T>, at: Timestamp) -> nat
    decreases s.len(),
{
    if s.len() == 0 {
        0
    } else if s[0].date() > at {
        0
    } else {
        1 + first_newer(s.drop_first(), at)
    }
}

/// `s` with `t` inserted before the first element newer than it.
pub open spec fn insert_by_age<T: Dated>(s: Seq<T>, t: T) -> Seq<T> {
    s.insert(first_newer(s, t.date()) as int, t)
}

/// The elements of `s` ordered oldest first; elements dated the same keep
/// their order in `s`.
pub open spec fn by_age<T: Dated>(s: Seq<T>) -> Seq<T>
    decreases s.len(),
{
    if s.len() == 0 {
        s
    } else {
        insert_by_age(by_age(s.drop_last()), s.last())
    }
}

/// Whether the elements of `s` never get older along the sequence.
pub open spec fn oldest_first<T: Dated>(s: Seq<T>) -> bool {
    forall|i: int, j: int| 0 <= i < j < s.len() ==> s[i].date() <= s[j].date()
}

proof fn lemma_first_newer<T: Dated>(s: Seq<T>, at: Timestamp)
    ensures
        first_newer(s, at) <= s.len(),
        forall|k: int| 0 <= k < first_newer(s, at) ==> (#[trigger] s[k]).date() <= at,
        first_newer(s, at) < s.len() ==> s[first_newer(s, at) as int].date() > at,
    decreases s.len(),
{
    if s.len() > 0 && s[0].date() <= at {
        lemma_first_newer(s.drop_first(), at);
        assert forall|k: int| 0 <= k < first_newer(s, at) implies (#[trigger] s[k]).date() <= at by {
            if k > 0 {
                assert(s[k] == s.drop_first()[k - 1]);
            }
        }
    }
}

/// Ordering oldest first keeps every item: the result of `by_age` is sorted
/// by date and is a permutation of its input.
pub proof fn lemma_by_age<T: Dated>(s: Seq<T>)
    ensures
        oldest_first(by_age(s)),
        by_age(s).to_multiset() == s.to_multiset(),
        by_age(s).len() == s.len(),
    decreases s.len(),
{
    if s.len() > 0 {
        let p = by_age(s.drop_last());
        lemma_by_age(s.drop_last());
        let t = s.last();
        lemma_first_newer(p, t.date());
        let pos = first_newer(p, t.date()) as int;
        let r = p.insert(pos, t);
        assert forall|i: int, j: int| 0 <= i < j < r.len() implies r[i].date() <= r[j].date() by {
            if j < pos {
                assert(r[i] == p[i] && r[j] == p[j]);
            } else if j == pos {
                assert(r[i] == p[i]);
            } else if i == pos {
                assert(r[j] == p[j - 1]);
                if pos < p.len() {
                    assert(p[pos].date() > t.date());
                    if j - 1 > pos {
                        assert(p[pos].date() <= p[j - 1].date());
                    }
                }
            } else if i < pos {
                assert(r[i] == p[i] && r[j] == p[j - 1]);
            } else {
                assert(r[i] == p[i - 1] && r[j] == p[j - 1]);
            }
        }
        assert(s =~= s.drop_last().push(t));
        vstd::seq_lib::to_multiset_build(s.drop_last(), t);
        vstd::seq_lib::to_multiset_insert(p, pos, t);
    }
}

/// The position before the first element of `v` newer than `at`.
fn position_by_age<T: Dated>(v: &Vec<T>, at: Timestamp) -> (r: usize)
    ensures
        r == first_newer(v@, at),
{
    let n = v.len();
    let mut i: usize = 0;
    assert(v@.skip(0) =~= v@);
    while i < n
        invariant
            i <= n == v@.len(),
            first_newer(v@, at) == i + first_newer(v@.skip(i as int), at),
        decreases n - i,
    {
        if v[i].date_of() > at {
            assert(v@.skip(i as int)[0] == v@[i as int]);
            return i;
        }
        proof {
            assert(v@.skip(i as int).drop_first() =~= v@.skip(i + 1));
        }
        i = i + 1;
    }
    assert(v@.skip(n as int).len() == 0);
    i
}

/// Order items oldest first; items dated the same keep their order.
pub fn sort_oldest_first<T: Dated>(items: Vec<T>) -> (r: Vec<T>)
    ensures
        r@ == by_age(items@),
{
    let ghost orig = items@;
    let mut rest = items;
    let mut out: Vec<T> = Vec::new();
    let n = rest.len();
    let mut k: usize = 0;
    while k < n
        invariant
            k <= n == orig.len(),
            rest@ == orig.skip(k as int),
            out@ == by_age(orig.take(k as int)),
        decreases n - k,
    {
        let t = rest.remove(0);
        proof {
            assert(orig.take(k + 1).drop_last() =~= orig.take(k as int));
            assert(orig.take(k + 1).last() == orig[k as int]);
            assert(t == orig[k as int]);
            assert(rest@ =~= orig.skip(k + 1));
        }
        let pos = position_by_age(&out, t.date_of());
        proof {
            lemma_first_newer(out@, t.date());
        }
        out.insert(pos, t);
        k = k + 1;
    }
    proof {
        assert(orig.take(n as int) =~= orig);
    }
    out
}

} // verus!
