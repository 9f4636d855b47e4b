//! Per-direction tallies and summary statistics.
//!
//! Elapsed times are nanoseconds and speeds are bytes per second.  Averages
//! and percentiles are exact integer computations, rounded down.
use vstd::prelude::*;

use crate::status::{status_is_success, Status};
use crate::transfer::TransferResult;

verus! {

broadcast use {vstd::seq_lib::group_to_multiset_ensures, vstd::multiset::group_multiset_axioms};

/// Counts of transfers by status class, and the times and speeds of the
/// successful ones.
pub struct DirectionStats {
    pub ok: u32,
    pub slow: u32,
    pub crawl: u32,
    pub stall: u32,
    pub tmout: u32,
    pub reset: u32,
    pub skipped: u32,
    pub err: u32,
    pub times: Vec<u64>,
    pub speeds: Vec<u64>,
}

/// Summary of the successful transfer times, in nanoseconds.
pub struct Percentiles {
    pub min: u64,
    pub max: u64,
    pub p50: u64,
    pub p95: u64,
    pub p99: u64,
}

/// The sum of all counters.
pub open spec fn total_spec(s: &DirectionStats) -> int {
    s.ok + s.slow + s.crawl + s.stall + s.tmout + s.reset + s.skipped + s.err
}

/// The number of completed transfers.
pub open spec fn success_spec(s: &DirectionStats) -> int {
    s.ok + s.slow + s.crawl + s.stall
}

/// The counter that a status is tallied in: 0 ok, 1 slow, 2 crawl, 3 stall,
/// 4 tmout, 5 reset, 6 skipped, 7 err (RFUSD, HTTP and other curl errors).
pub open spec fn counter_index(s: Status) -> int {
    match s {
        Status::Okay => 0,
        Status::Slow => 1,
        Status::Crawl => 2,
        Status::Stall => 3,
        Status::Tmout => 4,
        Status::Reset => 5,
        Status::Skipped => 6,
        _ => 7,
    }
}

/// The value of counter `i`.
pub open spec fn counter(s: &DirectionStats, i: int) -> int {
    if i == 0 {
        s.ok as int
    } else if i == 1 {
        s.slow as int
    } else if i == 2 {
        s.crawl as int
    } else if i == 3 {
        s.stall as int
    } else if i == 4 {
        s.tmout as int
    } else if i == 5 {
        s.reset as int
    } else if i == 6 {
        s.skipped as int
    } else {
        s.err as int
    }
}

/// The sum of a sequence.
pub open spec fn seq_sum(s: Seq<u64>) -> int
    decreases s.len(),
{
    if s.len() == 0 {
        0
    } else {
        seq_sum(s.drop_last()) + s.last()
    }
}

/// `s` is in non-decreasing order.
pub open spec fn is_sorted(s: Seq<u64>) -> bool {
    forall|a: int, b: int| 0 <= a <= b < s.len() ==> s[a] <= s[b]
}

/// The `pct`-th percentile of the sorted, non-empty `s`, by linear
/// interpolation between closest ranks: the rank is `pct/100 * (len - 1)`;
/// between the two neighbouring samples the value moves in proportion to the
/// fractional part of the rank (rounded down to a whole nanosecond).
pub open spec fn percentile(s: Seq<u64>, pct: nat) -> int {
    let m = pct * (s.len() - 1);
    let lo = m / 100;
    let r = m % 100;
    if r == 0 {
        s[lo] as int
    } else {
        s[lo] + (r * (s[lo + 1] - s[lo])) / 100
    }
}

/// A tally as plain values: the eight counters (indexed as `counter`), the
/// kept times and the kept speeds.
pub type Tally = (Seq<int>, Seq<u64>, Seq<u64>);

/// The plain values of a tally.
pub open spec fn tally_view(s: &DirectionStats) -> Tally {
    (Seq::new(8, |i: int| counter(s, i)), s.times@, s.speeds@)
}

/// The tally with nothing recorded.
pub open spec fn empty_tally() -> Tally {
    (Seq::new(8, |i: int| 0int), seq![], seq![])
}

/// The tally after recording `r`: its status's counter grows by one; a
/// completed transfer keeps its time, and its speed when known.
pub open spec fn record_view(t: Tally, r: TransferResult) -> Tally {
    let k = counter_index(r.status);
    (
        t.0.update(k, t.0[k] + 1),
        if status_is_success(r.status) {
            t.1.push(r.elapsed_nanos)
        } else {
            t.1
        },
        if status_is_success(r.status) && r.speed is Some {
            t.2.push(r.speed->0)
        } else {
            t.2
        },
    )
}

/// The tally after recording each of `rs` in turn, starting from `t`.
pub open spec fn records(t: Tally, rs: Seq<TransferResult>) -> Tally
    decreases rs.len(),
{
    if rs.len() == 0 {
        t
    } else {
        record_view(records(t, rs.drop_last()), rs.last())
    }
}

/// Two tallies combined: counters add, times and speeds are concatenated.
pub open spec fn merge_view(a: Tally, b: Tally) -> Tally {
    (Seq::new(8, |i: int| a.0[i] + b.0[i]), a.1 + b.1, a.2 + b.2)
}

/// The completed transfers of a tally.
pub open spec fn tally_successes(t: Tally) -> int {
    t.0[0] + t.0[1] + t.0[2] + t.0[3]
}

/// All transfers of a tally.
pub open spec fn tally_total(t: Tally) -> int {
    t.0[0] + t.0[1] + t.0[2] + t.0[3] + t.0[4] + t.0[5] + t.0[6] + t.0[7]
}

/// What every tally built by recording and merging satisfies: one time per
/// completed transfer, at most one speed per time, counters never negative.
pub open spec fn tally_consistent(t: Tally) -> bool {
    &&& t.0.len() == 8
    &&& forall|i: int| 0 <= i < 8 ==> #[trigger] t.0[i] >= 0
    &&& t.1.len() == tally_successes(t)
    &&& t.2.len() <= t.1.len()
    &&& tally_successes(t) <= tally_total(t)
}

impl DirectionStats {
    /// An empty tally.
    pub fn new() -> (s: Self)
        ensures
            total_spec(&s) == 0,
            s.times@.len() == 0,
            s.speeds@.len() == 0,
            tally_view(&s) == empty_tally(),
    {
        let s = DirectionStats {
            ok: 0,
            slow: 0,
            crawl: 0,
            stall: 0,
            tmout: 0,
            reset: 0,
            skipped: 0,
            err: 0,
            times: Vec::new(),
            speeds: Vec::new(),
        };
        proof {
            lemma_new_is_empty(&s);
        }
        s
    }

    /// Tallies one transfer: its status's counter grows by one, and for a
    /// successful transfer its elapsed time (and speed, when known) is kept.
    pub fn record(&mut self, result: &TransferResult)
        requires
            counter(old(self), counter_index(result.status)) < u32::MAX,
        ensures
            forall|i: int|
                0 <= i < 8 ==> #[trigger] counter(final(self), i) == counter(old(self), i) + if i
                    == counter_index(result.status) {
                    1int
                } else {
                    0int
                },
            total_spec(final(self)) == total_spec(old(self)) + 1,
            final(self).ok == old(self).ok + if result.status is Okay { 1int } else { 0int },
            final(self).slow == old(self).slow + if result.status is Slow { 1int } else { 0int },
            final(self).crawl == old(self).crawl + if result.status is Crawl { 1int } else { 0int },
            final(self).stall == old(self).stall + if result.status is Stall { 1int } else { 0int },
            final(self).tmout == old(self).tmout + if result.status is Tmout { 1int } else { 0int },
            final(self).reset == old(self).reset + if result.status is Reset { 1int } else { 0int },
            final(self).skipped == old(self).skipped + if result.status is Skipped {
                1int
            } else {
                0int
            },
            final(self).err == old(self).err + if result.status is Rfusd || result.status is HttpErr
                || result.status is CurlErr {
                1int
            } else {
                0int
            },
            final(self).times@ == if status_is_success(result.status) {
                old(self).times@.push(result.elapsed_nanos)
            } else {
                old(self).times@
            },
            final(self).speeds@ == if status_is_success(result.status) && result.speed is Some {
                old(self).speeds@.push(result.speed->0)
            } else {
                old(self).speeds@
            },
            tally_view(final(self)) == record_view(tally_view(old(self)), *result),
    {
        match result.status {
            Status::Okay => self.ok = self.ok + 1,
            Status::Slow => self.slow = self.slow + 1,
            Status::Crawl => self.crawl = self.crawl + 1,
            Status::Stall => self.stall = self.stall + 1,
            Status::Tmout => self.tmout = self.tmout + 1,
            Status::Reset => self.reset = self.reset + 1,
            Status::Skipped => self.skipped = self.skipped + 1,
            Status::Rfusd | Status::HttpErr(_) | Status::CurlErr(_) => self.err = self.err + 1,
        }
        if result.status.is_success() {
            self.times.push(result.elapsed_nanos);
            if let Some(speed) = result.speed {
                self.speeds.push(speed);
            }
        }
        proof {
            let k = counter_index(result.status);
            let before = tally_view(old(self)).0;
            assert(tally_view(self).0 =~= before.update(k, before[k] + 1)) by {
                assert forall|i: int| 0 <= i < 8 implies #[trigger] tally_view(self).0[i] == before.update(
                    k,
                    before[k] + 1,
                )[i] by {
                    assert(counter(self, i) == counter(old(self), i) + if i == k {
                        1int
                    } else {
                        0int
                    });
                }
            }
        }
    }

    /// The number of transfers tallied.
    pub fn total(&self) -> (t: u32)
        requires
            total_spec(self) <= u32::MAX,
        ensures
            t == total_spec(self),
    {
        self.ok + self.slow + self.crawl + self.stall + self.tmout + self.reset + self.skipped
            + self.err
    }

    /// The number of completed transfers (OK, SLOW, CRAWL or STALL).
    pub fn success_count(&self) -> (c: u32)
        requires
            success_spec(self) <= u32::MAX,
        ensures
            c == success_spec(self),
    {
        self.ok + self.slow + self.crawl + self.stall
    }

    /// The share of completed transfers, as a whole percentage rounded down;
    /// 0 when nothing was tallied.
    pub fn success_pct(&self) -> (p: u32)
        requires
            total_spec(self) <= u32::MAX,
            success_spec(self) * 100 <= u32::MAX,
        ensures
            p == if total_spec(self) == 0 {
                0
            } else {
                success_spec(self) * 100 / total_spec(self)
            },
            p <= 100,
    {
        let t = self.total();
        if t == 0 {
            0
        } else {
            let p = self.success_count() * 100 / t;
            assert(success_spec(self) * 100 / total_spec(self) <= 100) by (nonlinear_arith)
                requires
                    0 <= success_spec(self) <= total_spec(self),
                    total_spec(self) > 0,
            ;
            p
        }
    }

    /// The mean elapsed time of the successful transfers, rounded down to a
    /// nanosecond; `None` when there are none.
    pub fn avg_time(&self) -> (a: Option<u64>)
        ensures
            a is None <==> self.times@.len() == 0,
            a matches Some(v) ==> v == seq_sum(self.times@) / (self.times@.len() as int),
    {
        average(&self.times)
    }

    /// The mean speed of the successful transfers, in bytes per second
    /// rounded down; `None` when no speed was recorded.
    pub fn avg_speed(&self) -> (a: Option<u64>)
        ensures
            a is None <==> self.speeds@.len() == 0,
            a matches Some(v) ==> v == seq_sum(self.speeds@) / (self.speeds@.len() as int),
    {
        average(&self.speeds)
    }

    /// Minimum, maximum and the 50th, 95th and 99th percentiles of the
    /// successful transfer times; `None` when there are none.
    pub fn percentiles(&self) -> (r: Option<Percentiles>)
        ensures
            r is None <==> self.times@.len() == 0,
            r matches Some(p) ==> exists|s: Seq<u64>|
                {
                    &&& is_sorted(s)
                    &&& s.to_multiset() == self.times@.to_multiset()
                    &&& p.min == s[0]
                    &&& p.max == s.last()
                    &&& p.p50 == percentile(s, 50)
                    &&& p.p95 == percentile(s, 95)
                    &&& p.p99 == percentile(s, 99)
                },
            r matches Some(p) ==> p.min <= p.p50 <= p.p95 <= p.p99 <= p.max,
    {
        if self.times.len() == 0 {
            return None;
        }
        let mut sorted = self.times.clone();
        assert(sorted@ == self.times@);
        sort(&mut sorted);
        assert(sorted@.to_multiset().len() == self.times@.to_multiset().len());
        let n = sorted.len();
        proof {
            lemma_percentile_bounds(sorted@, 50);
            lemma_percentile_bounds(sorted@, 95);
            lemma_percentile_bounds(sorted@, 99);
            lemma_percentile_monotone(sorted@, 50, 95);
            lemma_percentile_monotone(sorted@, 95, 99);
        }
        let p = Percentiles {
            min: sorted[0],
            max: sorted[n - 1],
            p50: percentile_val(&sorted, 50),
            p95: percentile_val(&sorted, 95),
            p99: percentile_val(&sorted, 99),
        };
        assert(is_sorted(sorted@));
        Some(p)
    }

    /// Adds another tally into this one: counters add up, and the other's
    /// times and speeds follow this one's.
    pub fn merge(&mut self, other: DirectionStats)
        requires
            forall|i: int| 0 <= i < 8 ==> #[trigger] counter(old(self), i) + counter(&other, i) <= u32::MAX,
        ensures
            forall|i: int|
                0 <= i < 8 ==> #[trigger] counter(final(self), i) == counter(old(self), i) + counter(&other, i),
            total_spec(final(self)) == total_spec(old(self)) + total_spec(&other),
            success_spec(final(self)) == success_spec(old(self)) + success_spec(&other),
            final(self).times@ == old(self).times@ + other.times@,
            final(self).speeds@ == old(self).speeds@ + other.speeds@,
            tally_view(final(self)) == merge_view(tally_view(old(self)), tally_view(&other)),
    {
        let ghost other_view = tally_view(&other);
        let mut other = other;
        assert(counter(old(self), 0) + counter(&other, 0) <= u32::MAX);
        assert(counter(old(self), 1) + counter(&other, 1) <= u32::MAX);
        assert(counter(old(self), 2) + counter(&other, 2) <= u32::MAX);
        assert(counter(old(self), 3) + counter(&other, 3) <= u32::MAX);
        assert(counter(old(self), 4) + counter(&other, 4) <= u32::MAX);
        assert(counter(old(self), 5) + counter(&other, 5) <= u32::MAX);
        assert(counter(old(self), 6) + counter(&other, 6) <= u32::MAX);
        assert(counter(old(self), 7) + counter(&other, 7) <= u32::MAX);
        self.ok = self.ok + other.ok;
        self.slow = self.slow + other.slow;
        self.crawl = self.crawl + other.crawl;
        self.stall = self.stall + other.stall;
        self.tmout = self.tmout + other.tmout;
        self.reset = self.reset + other.reset;
        self.skipped = self.skipped + other.skipped;
        self.err = self.err + other.err;
        self.times.append(&mut other.times);
        self.speeds.append(&mut other.speeds);
        proof {
            assert(tally_view(self).0 =~= merge_view(tally_view(old(self)), other_view).0);
        }
    }
}

/// Whether the counter that `status` is tallied in can still grow by one.
pub fn counter_room(s: &DirectionStats, status: &Status) -> (b: bool)
    ensures
        b == (counter(s, counter_index(*status)) < u32::MAX),
{
    let c = match status {
        Status::Okay => s.ok,
        Status::Slow => s.slow,
        Status::Crawl => s.crawl,
        Status::Stall => s.stall,
        Status::Tmout => s.tmout,
        Status::Reset => s.reset,
        Status::Skipped => s.skipped,
        Status::Rfusd | Status::HttpErr(_) | Status::CurlErr(_) => s.err,
    };
    c < u32::MAX
}

/// The mean of `v` rounded down, or `None` for an empty `v`.
fn average(v: &Vec<u64>) -> (a: Option<u64>)
    ensures
        a is None <==> v@.len() == 0,
        a matches Some(x) ==> x == seq_sum(v@) / (v@.len() as int),
{
    if v.len() == 0 {
        return None;
    }
    let mut acc: u128 = 0;
    let mut i: usize = 0;
    while i < v.len()
        invariant
            i <= v.len(),
            acc == seq_sum(v@.take(i as int)),
            acc <= i * 0xffff_ffff_ffff_ffffu128,
        decreases v.len() - i,
    {
        assert(v@.take(i + 1).drop_last() =~= v@.take(i as int));
        acc = acc + v[i] as u128;
        i = i + 1;
    }
    assert(v@.take(v.len() as int) =~= v@);
    let n = v.len() as u128;
    let q = acc / n;
    assert(q <= 0xffff_ffff_ffff_ffffu128) by (nonlinear_arith)
        requires
            acc <= n * 0xffff_ffff_ffff_ffffu128,
            n > 0,
            q == acc / n,
    ;
    Some(q as u64)
}

/// Sorts `v` into non-decreasing order (insertion sort).
pub fn sort(v: &mut Vec<u64>)
    ensures
        is_sorted(final(v)@),
        final(v)@.to_multiset() == old(v)@.to_multiset(),
{
    let n = v.len();
    let mut i: usize = 1;
    if n == 0 {
        return;
    }
    while i < n
        invariant
            1 <= i <= n,
            n == v@.len(),
            forall|a: int, b: int| 0 <= a <= b < i ==> v@[a] <= v@[b],
            v@.to_multiset() == old(v)@.to_multiset(),
        decreases n - i,
    {
        let mut j = i;
        while j > 0 && v[j - 1] > v[j]
            invariant
                0 <= j <= i < n,
                n == v@.len(),
                forall|a: int, b: int|
                    0 <= a <= b <= i && a != j && b != j ==> v@[a] <= v@[b],
                forall|b: int| j < b <= i ==> v@[j as int] <= v@[b],
                v@.to_multiset() == old(v)@.to_multiset(),
            decreases j,
        {
            let x = v[j - 1];
            let y = v[j];
            let ghost before = v@;
            v.set(j - 1, y);
            v.set(j, x);
            proof {
                assert(v@ == before.update(j - 1, y).update(j as int, x));
                assert(before.update(j - 1, y)[j as int] == y);
                assert(v@.to_multiset() =~= before.to_multiset());
            }
            j = j - 1;
        }
        i = i + 1;
    }
}

/// The `pct`-th percentile of the sorted, non-empty `sorted`.
pub fn percentile_val(sorted: &Vec<u64>, pct: u64) -> (r: u64)
    requires
        sorted@.len() > 0,
        is_sorted(sorted@),
        pct <= 100,
    ensures
        r == percentile(sorted@, pct as nat),
{
    if sorted.len() == 1 {
        assert(sorted@.len() - 1 == 0);
        assert(pct * 0 == 0) by (nonlinear_arith);
        return sorted[0];
    }
    let n1 = (sorted.len() - 1) as u128;
    proof {
        lemma_rank(pct as nat, n1 as int);
    }
    let m: u128 = pct as u128 * n1;
    let lo = m / 100;
    let r = m % 100;
    let lo = lo as usize;
    if r == 0 {
        sorted[lo]
    } else {
        let a = sorted[lo];
        let b = sorted[lo + 1];
        assert(a <= b);
        let d = (b - a) as u128;
        assert(r * d <= 100 * 0xffff_ffff_ffff_ffffu128) by (nonlinear_arith)
            requires
                r < 100,
                d <= 0xffff_ffff_ffff_ffffu128,
        ;
        let step = r * d / 100;
        assert(step <= d) by (nonlinear_arith)
            requires
                r < 100,
                step == r * d / 100,
        ;
        (a as u128 + step) as u64
    }
}

/// The rank of a percentile lies within the samples.
pub proof fn lemma_rank(pct: nat, n1: int)
    requires
        pct <= 100,
        n1 >= 0,
    ensures
        0 <= pct * n1 <= 100 * n1,
        0 <= (pct * n1) / 100 <= n1,
        (pct * n1) % 100 != 0 ==> (pct * n1) / 100 < n1,
{
    let m = pct * n1;
    assert(0 <= m <= 100 * n1) by (nonlinear_arith)
        requires
            m == pct * n1,
            pct <= 100,
            n1 >= 0,
    ;
    let lo = m / 100;
    let r = m % 100;
    assert(lo * 100 + r == m);
}

/// A percentile lies between the smallest and the largest sample, and below
/// the next sample after its rank.
pub proof fn lemma_percentile_bounds(s: Seq<u64>, pct: nat)
    requires
        s.len() > 0,
        is_sorted(s),
        pct <= 100,
    ensures
        s[0] <= percentile(s, pct) <= s.last(),
        s[(pct * (s.len() - 1)) / 100] <= percentile(s, pct),
        (pct * (s.len() - 1)) % 100 != 0 ==> percentile(s, pct) <= s[(pct * (s.len() - 1)) / 100
            + 1],
{
    let n1 = (s.len() - 1) as int;
    let m = pct * n1;
    let lo = m / 100;
    let r = m % 100;
    lemma_rank(pct, n1);
    if r != 0 {
        let d = s[lo + 1] - s[lo];
        assert(0 <= (r * d) / 100 <= d) by (nonlinear_arith)
            requires
                0 <= r < 100,
                d >= 0,
        ;
    }
}

/// When the rank `pct/100 · (len - 1)` is a whole number `k`, the percentile
/// is exactly the `k`-th smallest sample.
pub proof fn lemma_percentile_at_rank(s: Seq<u64>, pct: nat, k: int)
    requires
        s.len() > 0,
        pct <= 100,
        pct * (s.len() - 1) == 100 * k,
    ensures
        0 <= k < s.len(),
        percentile(s, pct) == s[k],
{
    lemma_rank(pct, s.len() - 1);
    assert((100 * k) / 100 == k && (100 * k) % 100 == 0);
}

/// A higher percentile is never smaller.
pub proof fn lemma_percentile_monotone(s: Seq<u64>, p1: nat, p2: nat)
    requires
        s.len() > 0,
        is_sorted(s),
        p1 <= p2 <= 100,
    ensures
        percentile(s, p1) <= percentile(s, p2),
{
    let n1 = (s.len() - 1) as int;
    let m1 = p1 * n1;
    let m2 = p2 * n1;
    assert(m1 <= m2) by (nonlinear_arith)
        requires
            m1 == p1 * n1,
            m2 == p2 * n1,
            p1 <= p2,
            n1 >= 0,
    ;
    lemma_percentile_bounds(s, p1);
    lemma_percentile_bounds(s, p2);
    lemma_rank(p1, n1);
    lemma_rank(p2, n1);
    let lo1 = m1 / 100;
    let lo2 = m2 / 100;
    if lo1 == lo2 {
        let r1 = m1 % 100;
        let r2 = m2 % 100;
        assert(r1 <= r2);
        if r1 != 0 {
            let d = s[lo1 + 1] - s[lo1];
            assert((r1 * d) / 100 <= (r2 * d) / 100) by (nonlinear_arith)
                requires
                    0 <= r1 <= r2,
                    d >= 0,
            ;
        }
    } else {
        assert(lo1 < lo2);
        if m1 % 100 != 0 {
            assert(s[lo1 + 1] <= s[lo2]);
        } else {
            assert(s[lo1] <= s[lo2]);
        }
    }
}

/// Sorting is unambiguous: two sorted orderings of the same samples are the
/// same sequence, so the percentiles of a tally are determined by its times.
pub proof fn lemma_sorted_unique(a: Seq<u64>, b: Seq<u64>)
    requires
        is_sorted(a),
        is_sorted(b),
        a.to_multiset() == b.to_multiset(),
    ensures
        a == b,
    decreases a.len(),
{
    assert(a.len() == b.len()) by {
        assert(a.to_multiset().len() == a.len());
        assert(b.to_multiset().len() == b.len());
    }
    if a.len() > 0 {
        let x = a.last();
        let y = b.last();
        assert(a.contains(x)) by {
            assert(a[a.len() - 1] == x);
        }
        assert(b.contains(y)) by {
            assert(b[b.len() - 1] == y);
        }
        assert(b.to_multiset().count(x) > 0);
        assert(a.to_multiset().count(y) > 0);
        assert(b.contains(x));
        assert(a.contains(y));
        let i = choose|i: int| 0 <= i < b.len() && b[i] == x;
        let j = choose|j: int| 0 <= j < a.len() && a[j] == y;
        assert(x <= y) by {
            assert(b[i] <= b[b.len() - 1]);
        }
        assert(y <= x) by {
            assert(a[j] <= a[a.len() - 1]);
        }
        let a2 = a.drop_last();
        let b2 = b.drop_last();
        assert(a2 =~= a.remove(a.len() - 1));
        assert(b2 =~= b.remove(b.len() - 1));
        assert(a2.to_multiset() == a.to_multiset().remove(x));
        assert(b2.to_multiset() == b.to_multiset().remove(y));
        assert(is_sorted(a2)) by {
            assert forall|p: int, q: int| 0 <= p <= q < a2.len() implies a2[p] <= a2[q] by {
                assert(a2[p] == a[p] && a2[q] == a[q]);
            }
        }
        assert(is_sorted(b2)) by {
            assert forall|p: int, q: int| 0 <= p <= q < b2.len() implies b2[p] <= b2[q] by {
                assert(b2[p] == b[p] && b2[q] == b[q]);
            }
        }
        lemma_sorted_unique(a2, b2);
        assert(a =~= a2.push(x));
        assert(b =~= b2.push(y));
    } else {
        assert(a =~= b);
    }
}

/// `n·lo <= sum <= n·hi` for `n` samples each within `[lo, hi]`.
proof fn lemma_sum_bounds(t: Seq<u64>, lo: int, hi: int)
    requires
        forall|i: int| 0 <= i < t.len() ==> lo <= #[trigger] t[i] <= hi,
    ensures
        t.len() * lo <= seq_sum(t) <= t.len() * hi,
    decreases t.len(),
{
    if t.len() > 0 {
        let p = t.drop_last();
        assert forall|i: int| 0 <= i < p.len() implies lo <= #[trigger] p[i] <= hi by {
            assert(p[i] == t[i]);
        }
        lemma_sum_bounds(p, lo, hi);
        assert(t[t.len() - 1] == t.last());
        assert(t.len() * lo == p.len() * lo + lo) by (nonlinear_arith)
            requires
                t.len() == p.len() + 1,
        ;
        assert(t.len() * hi == p.len() * hi + hi) by (nonlinear_arith)
            requires
                t.len() == p.len() + 1,
        ;
    }
}

/// The mean completed time (as `avg_time` gives it) lies between the fastest
/// and the slowest completed time (`min` and `max` of `percentiles`).
pub proof fn lemma_avg_time_within_range(times: Seq<u64>, sorted: Seq<u64>)
    requires
        times.len() > 0,
        is_sorted(sorted),
        sorted.to_multiset() == times.to_multiset(),
    ensures
        sorted[0] <= seq_sum(times) / (times.len() as int) <= sorted.last(),
{
    assert(sorted.len() == times.len()) by {
        assert(sorted.to_multiset().len() == sorted.len());
        assert(times.to_multiset().len() == times.len());
    }
    let lo = sorted[0] as int;
    let hi = sorted.last() as int;
    assert forall|i: int| 0 <= i < times.len() implies lo <= #[trigger] times[i] <= hi by {
        let x = times[i];
        assert(times.contains(x));
        assert(times.to_multiset().count(x) > 0);
        assert(sorted.contains(x));
        let k = choose|k: int| 0 <= k < sorted.len() && sorted[k] == x;
        assert(sorted[0] <= sorted[k] <= sorted[sorted.len() - 1]);
    }
    lemma_sum_bounds(times, lo, hi);
    let n = times.len() as int;
    let sum = seq_sum(times);
    assert(lo <= sum / n <= hi) by (nonlinear_arith)
        requires
            n > 0,
            n * lo <= sum <= n * hi,
    ;
}

/// Failed connections, HTTP errors and other curl errors are all tallied as
/// errors, whatever their code: recording one raises the error count by one
/// and leaves every other counter, the times and the speeds as they were.
pub proof fn lemma_errors_tallied_as_err(t: Tally, r: TransferResult)
    requires
        t.0.len() == 8,
        r.status is Rfusd || r.status is HttpErr || r.status is CurlErr,
    ensures
        record_view(t, r).0[7] == t.0[7] + 1,
        forall|i: int| 0 <= i < 7 ==> #[trigger] record_view(t, r).0[i] == t.0[i],
        record_view(t, r).1 == t.1,
        record_view(t, r).2 == t.2,
{
}

/// Every status is tallied in the counter of its own class: OK, SLOW, CRAWL,
/// STALL, TMOUT, RESET and SKIP each in its own, all errors in the last.
pub proof fn lemma_counter_of_each_status(c: u16, e: i32)
    ensures
        counter_index(Status::Okay) == 0,
        counter_index(Status::Slow) == 1,
        counter_index(Status::Crawl) == 2,
        counter_index(Status::Stall) == 3,
        counter_index(Status::Tmout) == 4,
        counter_index(Status::Reset) == 5,
        counter_index(Status::Skipped) == 6,
        counter_index(Status::Rfusd) == 7,
        counter_index(Status::HttpErr(c)) == 7,
        counter_index(Status::CurlErr(e)) == 7,
{
}

/// A new tally has nothing recorded.
pub proof fn lemma_new_is_empty(s: &DirectionStats)
    requires
        total_spec(s) == 0,
        s.times@.len() == 0,
        s.speeds@.len() == 0,
    ensures
        tally_view(s) == empty_tally(),
{
    assert(tally_view(s).0 =~= empty_tally().0);
    assert(tally_view(s).1 =~= empty_tally().1);
    assert(tally_view(s).2 =~= empty_tally().2);
}

proof fn lemma_record_consistent(t: Tally, r: TransferResult)
    requires
        tally_consistent(t),
    ensures
        tally_consistent(record_view(t, r)),
{
    let u = record_view(t, r);
    let k = counter_index(r.status);
    assert forall|i: int| 0 <= i < 8 implies #[trigger] u.0[i] >= 0 by {
        assert(t.0[i] >= 0);
    }
    assert(t.0[0] >= 0 && t.0[1] >= 0 && t.0[2] >= 0 && t.0[3] >= 0);
    assert(t.0[4] >= 0 && t.0[5] >= 0 && t.0[6] >= 0 && t.0[7] >= 0);
}

/// Recording any sequence of transfers into a new tally keeps it consistent:
/// one time per completed transfer, no more speeds than times, and no more
/// completed transfers than transfers.
pub proof fn lemma_records_consistent(rs: Seq<TransferResult>)
    ensures
        tally_consistent(records(empty_tally(), rs)),
    decreases rs.len(),
{
    if rs.len() == 0 {
        let e = empty_tally();
        assert(e.0[0] == 0 && e.0[1] == 0 && e.0[2] == 0 && e.0[3] == 0);
        assert(e.0[4] == 0 && e.0[5] == 0 && e.0[6] == 0 && e.0[7] == 0);
    } else {
        lemma_records_consistent(rs.drop_last());
        lemma_record_consistent(records(empty_tally(), rs.drop_last()), rs.last());
    }
}

/// Merging two consistent tallies gives a consistent tally.
pub proof fn lemma_merge_consistent(a: Tally, b: Tally)
    requires
        tally_consistent(a),
        tally_consistent(b),
    ensures
        tally_consistent(merge_view(a, b)),
{
    let m = merge_view(a, b);
    assert forall|i: int| 0 <= i < 8 implies #[trigger] m.0[i] >= 0 by {
        assert(a.0[i] >= 0 && b.0[i] >= 0);
    }
    assert(a.0[4] >= 0 && a.0[5] >= 0 && a.0[6] >= 0 && a.0[7] >= 0);
    assert(b.0[4] >= 0 && b.0[5] >= 0 && b.0[6] >= 0 && b.0[7] >= 0);
}

proof fn lemma_merge_record(a: Tally, b: Tally, r: TransferResult)
    requires
        a.0.len() == 8,
        b.0.len() == 8,
    ensures
        merge_view(a, record_view(b, r)) == record_view(merge_view(a, b), r),
{
    let k = counter_index(r.status);
    let l = merge_view(a, record_view(b, r));
    let rr = record_view(merge_view(a, b), r);
    assert(l.0 =~= rr.0);
    if status_is_success(r.status) {
        assert(l.1 =~= rr.1);
    }
    if status_is_success(r.status) && r.speed is Some {
        assert(l.2 =~= rr.2);
    }
    assert(l.1 =~= rr.1);
    assert(l.2 =~= rr.2);
}

proof fn lemma_records_len(t: Tally, rs: Seq<TransferResult>)
    requires
        t.0.len() == 8,
    ensures
        records(t, rs).0.len() == 8,
    decreases rs.len(),
{
    if rs.len() > 0 {
        lemma_records_len(t, rs.drop_last());
    }
}

/// Merging in a tally of `rs` is the same as recording `rs` one by one.
pub proof fn lemma_merge_is_recording(t: Tally, rs: Seq<TransferResult>)
    requires
        t.0.len() == 8,
    ensures
        merge_view(t, records(empty_tally(), rs)) == records(t, rs),
    decreases rs.len(),
{
    if rs.len() == 0 {
        let m = merge_view(t, empty_tally());
        assert(m.0 =~= t.0);
        assert(m.1 =~= t.1);
        assert(m.2 =~= t.2);
    } else {
        lemma_merge_is_recording(t, rs.drop_last());
        lemma_records_len(empty_tally(), rs.drop_last());
        lemma_merge_record(t, records(empty_tally(), rs.drop_last()), rs.last());
    }
}

/// Recording `a` and then `b` is recording `a + b`.
pub proof fn lemma_records_concat(t: Tally, a: Seq<TransferResult>, b: Seq<TransferResult>)
    ensures
        records(records(t, a), b) == records(t, a + b),
    decreases b.len(),
{
    if b.len() == 0 {
        assert(a + b =~= a);
    } else {
        lemma_records_concat(t, a, b.drop_last());
        assert((a + b).drop_last() =~= a + b.drop_last());
        assert((a + b).last() == b.last());
    }
}

/// Merging the tally of `b` into the tally of `a` gives exactly the tally of
/// `a` followed by `b`: the same counters, times and speeds.
pub proof fn lemma_merge_homomorphism(a: Seq<TransferResult>, b: Seq<TransferResult>)
    ensures
        merge_view(records(empty_tally(), a), records(empty_tally(), b)) == records(
            empty_tally(),
            a + b,
        ),
{
    lemma_records_len(empty_tally(), a);
    lemma_merge_is_recording(records(empty_tally(), a), b);
    lemma_records_concat(empty_tally(), a, b);
}

/// Tallies built by `new`, `record` and `merge` keep one elapsed time per
/// completed transfer: recording keeps the times in step with the success
/// count, and so does merging two tallies that are each in step.
pub proof fn lemma_times_track_successes(before: DirectionStats, after: DirectionStats, status: Status)
    requires
        before.times@.len() == success_spec(&before),
        forall|i: int|
            0 <= i < 8 ==> #[trigger] counter(&after, i) == counter(&before, i) + if i
                == counter_index(status) {
                1int
            } else {
                0int
            },
        after.times@.len() == before.times@.len() + if status_is_success(status) {
            1int
        } else {
            0int
        },
    ensures
        after.times@.len() == success_spec(&after),
{
    assert(counter(&after, 0) == counter(&before, 0) + if 0 == counter_index(status) { 1int } else { 0int });
    assert(counter(&after, 1) == counter(&before, 1) + if 1 == counter_index(status) { 1int } else { 0int });
    assert(counter(&after, 2) == counter(&before, 2) + if 2 == counter_index(status) { 1int } else { 0int });
    assert(counter(&after, 3) == counter(&before, 3) + if 3 == counter_index(status) { 1int } else { 0int });
}

} // verus!
