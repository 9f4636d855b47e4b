//! Rolling deviation: how far a new sample sits above the recent ones.
//!
//! A bounded window keeps the most recent samples.  A new sample is rated by
//! its z-score against the window (sample mean and sample standard
//! deviation): within 1σ above the mean is NORMAL, up to 2σ ELEVATED, up to 3σ
//! HIGH, beyond that OUTLIER.  Until the window holds 10 samples every rating
//! is NORMAL.  The rating is decided exactly, in integer arithmetic, so it
//! does not depend on the unit the samples are measured in.
use vstd::prelude::*;

use crate::wide::{add_wide, from_u128, le, mul_small, mul_wide, sub_wide, value, b128, b256, U256};

verus! {

/// The largest window this library keeps: `2^40` samples.  Its storage is
/// reserved when the window is made, and a window this large would take 8 TiB;
/// the bound also keeps the exact 256-bit arithmetic that rates a sample in
/// range.
pub const MAX_CAPACITY: u64 = 0x100_0000_0000;

/// A sample's rating against the rolling window.
#[derive(Clone, Copy, PartialEq, Eq, Structural, Debug)]
pub enum DeviationLevel {
    Normal,
    Elevated,
    High,
    Outlier,
}

impl DeviationLevel {
    /// The label printed for the rating.
    pub fn label(&self) -> (s: &'static str)
        ensures
            s@ == level_label(*self),
    {
        match self {
            DeviationLevel::Normal => "NORMAL",
            DeviationLevel::Elevated => "ELEVATED",
            DeviationLevel::High => "HIGH",
            DeviationLevel::Outlier => "OUTLIER",
        }
    }

    /// The arrows shown with the rating before its z-score.
    pub fn arrows(&self) -> (s: &'static str)
        ensures
            s@ == level_arrows(*self),
    {
        match self {
            DeviationLevel::Normal => "",
            DeviationLevel::Elevated => "↑",
            DeviationLevel::High => "↑↑",
            DeviationLevel::Outlier => "↑↑↑",
        }
    }
}

/// The arrows shown with a rating: none for NORMAL, one more per step above.
pub open spec fn level_arrows(l: DeviationLevel) -> Seq<char> {
    match l {
        DeviationLevel::Normal => ""@,
        DeviationLevel::Elevated => "↑"@,
        DeviationLevel::High => "↑↑"@,
        DeviationLevel::Outlier => "↑↑↑"@,
    }
}

pub open spec fn level_label(l: DeviationLevel) -> Seq<char> {
    match l {
        DeviationLevel::Normal => "NORMAL"@,
        DeviationLevel::Elevated => "ELEVATED"@,
        DeviationLevel::High => "HIGH"@,
        DeviationLevel::Outlier => "OUTLIER"@,
    }
}

/// The sum of the samples.
pub open spec fn sum(w: Seq<u64>) -> int
    decreases w.len(),
{
    if w.len() == 0 {
        0
    } else {
        sum(w.drop_last()) + w.last()
    }
}

/// The sum of the squared samples.
pub open spec fn sum_sq(w: Seq<u64>) -> int
    decreases w.len(),
{
    if w.len() == 0 {
        0
    } else {
        sum_sq(w.drop_last()) + w.last() * w.last()
    }
}

/// `n` times the numerator of the sample variance: with `n` samples of sum
/// `S` and square sum `Q`, the variance is `(nQ - S²) / (n(n - 1))`.
pub open spec fn spread(w: Seq<u64>) -> int {
    w.len() * sum_sq(w) - sum(w) * sum(w)
}

/// Whether `v` lies at most `k` sample standard deviations above the mean of
/// `w` (for `w` of at least two samples and positive spread).  With
/// `D = n·v - S`, `(v - mean) / sd <= k` is `D <= 0` or
/// `(n - 1)·D² <= k²·n·(nQ - S²)`.
pub open spec fn within_sigmas(w: Seq<u64>, v: u64, k: int) -> bool {
    let n = w.len() as int;
    let d = n * v - sum(w);
    d <= 0 || (n - 1) * (d * d) <= k * k * n * spread(w)
}

/// The rating of `v` against the window `w`: NORMAL until `w` holds ten
/// samples or when the samples do not vary; otherwise by the z-score.
pub open spec fn rate(w: Seq<u64>, v: u64) -> DeviationLevel {
    if w.len() < 10 || spread(w) <= 0 {
        DeviationLevel::Normal
    } else if within_sigmas(w, v, 1) {
        DeviationLevel::Normal
    } else if within_sigmas(w, v, 2) {
        DeviationLevel::Elevated
    } else if within_sigmas(w, v, 3) {
        DeviationLevel::High
    } else {
        DeviationLevel::Outlier
    }
}

/// The window after adding `v`: when it is full (it holds `capacity` samples
/// or more), the oldest sample leaves first.
pub open spec fn pushed(w: Seq<u64>, capacity: nat, v: u64) -> Seq<u64> {
    if w.len() >= capacity && w.len() > 0 {
        w.drop_first().push(v)
    } else {
        w.push(v)
    }
}

/// The window after adding each of `vals` in turn to an empty one.
pub open spec fn window_after(capacity: nat, vals: Seq<u64>) -> Seq<u64>
    decreases vals.len(),
{
    if vals.len() == 0 {
        seq![]
    } else {
        pushed(window_after(capacity, vals.drop_last()), capacity, vals.last())
    }
}

/// How many samples a window of the given capacity holds at most: a zero
/// capacity still keeps the latest sample.
pub open spec fn effective_capacity(capacity: nat) -> nat {
    if capacity == 0 {
        1
    } else {
        capacity
    }
}

/// A window of recent samples.
pub struct RollingStats {
    window: std::collections::VecDeque<u64>,
    capacity: usize,
}

impl RollingStats {
    /// The samples in the window, oldest first.
    pub closed spec fn samples_spec(&self) -> Seq<u64> {
        self.window@
    }

    /// The capacity the window was made with.
    pub closed spec fn capacity_spec(&self) -> nat {
        self.capacity as nat
    }

    #[verifier::type_invariant]
    closed spec fn inv(&self) -> bool {
        &&& self.capacity <= MAX_CAPACITY
        &&& self.window@.len() <= effective_capacity(self.capacity as nat)
    }

    /// An empty window of the given capacity.
    pub fn new(capacity: usize) -> (r: Self)
        requires
            capacity <= MAX_CAPACITY,
        ensures
            r.samples_spec() == Seq::<u64>::empty(),
            r.capacity_spec() == capacity,
    {
        RollingStats { window: std::collections::VecDeque::with_capacity(capacity), capacity }
    }

    /// Whether the window holds enough samples (ten) to rate against.
    pub fn is_ready(&self) -> (b: bool)
        ensures
            b == (self.samples_spec().len() >= 10),
    {
        self.window.len() >= 10
    }

    /// The samples in the window, oldest first.
    pub fn samples(&self) -> (v: Vec<u64>)
        ensures
            v@ == self.samples_spec(),
    {
        let mut v: Vec<u64> = Vec::new();
        let mut i: usize = 0;
        while i < self.window.len()
            invariant
                i <= self.window@.len(),
                v@ =~= self.window@.take(i as int),
            decreases self.window@.len() - i,
        {
            v.push(self.window[i]);
            i = i + 1;
        }
        v
    }

    /// Rates `value` against the window as it is, then adds it to the window.
    pub fn classify(&mut self, value: u64) -> (l: DeviationLevel)
        ensures
            l == rate(old(self).samples_spec(), value),
            final(self).samples_spec() == pushed(
                old(self).samples_spec(),
                old(self).capacity_spec(),
                value,
            ),
            final(self).capacity_spec() == old(self).capacity_spec(),
            final(self).samples_spec().len() <= effective_capacity(final(self).capacity_spec()),
    {
        proof {
            use_type_invariant(&*self);
        }
        let l = self.rate_now(value);
        self.push(value);
        proof {
            use_type_invariant(&*self);
        }
        l
    }

    fn push(&mut self, value: u64)
        ensures
            final(self).window@ == pushed(old(self).window@, old(self).capacity as nat, value),
            final(self).capacity == old(self).capacity,
    {
        proof {
            use_type_invariant(&*self);
        }
        let mut w: std::collections::VecDeque<u64> = std::collections::VecDeque::new();
        std::mem::swap(&mut w, &mut self.window);
        if w.len() >= self.capacity && w.len() > 0 {
            let _ = w.pop_front();
            assert(w@ =~= old(self).window@.drop_first());
        }
        w.push_back(value);
        self.window = w;
    }

    fn rate_now(&self, sample: u64) -> (l: DeviationLevel)
        ensures
            l == rate(self.window@, sample),
    {
        proof {
            use_type_invariant(self);
        }
        let w = &self.window;
        let n = w.len();
        if n < 10 {
            return DeviationLevel::Normal;
        }
        let ghost mx: int = 0xffff_ffff_ffff_ffff;
        let ghost mx2: int = mx * mx;
        let mut s: u128 = 0;
        let mut q: U256 = from_u128(0);
        let mut i: usize = 0;
        while i < n
            invariant
                n == w@.len(),
                n <= MAX_CAPACITY,
                i <= n,
                mx == 0xffff_ffff_ffff_ffff,
                mx2 == mx * mx,
                s == sum(w@.take(i as int)),
                value(q) == sum_sq(w@.take(i as int)),
                s <= i * 0xffff_ffff_ffff_ffffu128,
                value(q) <= i * mx2,
            decreases n - i,
        {
            let x = w[i];
            assert(w@.take(i + 1).drop_last() =~= w@.take(i as int));
            assert(x as u128 * x as u128 <= mx2) by (nonlinear_arith)
                requires
                    x <= mx,
                    mx2 == mx * mx,
                    x >= 0,
            ;
            assert(mx2 < b128()) by (nonlinear_arith)
                requires
                    mx2 == mx * mx,
                    mx == 0xffff_ffff_ffff_ffff,
            ;
            assert(i * mx2 + mx2 < b256()) by (nonlinear_arith)
                requires
                    i <= 0x100_0000_0000,
                    0 <= mx2 < b128(),
                    b256() == b128() * b128(),
                    b128() > 0x1_0000_0000_0000_0000_0000,
            ;
            let sq = x as u128 * x as u128;
            s = s + x as u128;
            q = add_wide(q, from_u128(sq));
            assert((i + 1) * mx2 == i * mx2 + mx2) by (nonlinear_arith);
            i = i + 1;
        }
        assert(w@.take(n as int) =~= w@);
        let nn = n as u64;
        proof {
            assert(value(q) * nn <= 0x100_0000_0000 * (0x100_0000_0000 * mx2)) by (nonlinear_arith)
                requires
                    nn <= 0x100_0000_0000,
                    0 <= value(q) <= nn * mx2,
                    mx2 >= 0,
            ;
            assert(0x100_0000_0000 * (0x100_0000_0000 * mx2) < b256()) by (nonlinear_arith)
                requires
                    mx2 == mx * mx,
                    mx == 0xffff_ffff_ffff_ffff,
                    b256() == b128() * b128(),
                    b128() == 0x1_0000_0000_0000_0000 * 0x1_0000_0000_0000_0000,
            ;
        }
        let nq = mul_small(q, nn);
        let ss = mul_wide(s, s);
        if le(nq, ss) {
            return DeviationLevel::Normal;
        }
        let v = sub_wide(nq, ss);
        assert(nn as u128 * sample as u128 <= 0x100_0000_0000u128 * 0xffff_ffff_ffff_ffffu128) by (
        nonlinear_arith)
            requires
                nn <= 0x100_0000_0000,
                sample <= 0xffff_ffff_ffff_ffffu64,
        ;
        let nv = nn as u128 * sample as u128;
        if nv <= s {
            return DeviationLevel::Normal;
        }
        let d = nv - s;
        let dd = mul_wide(d, d);
        proof {
            assert(value(dd) * (nn - 1) <= (0x100_0000_0000 * mx) * (0x100_0000_0000 * mx)
                * 0x100_0000_0000) by (nonlinear_arith)
                requires
                    value(dd) == d * d,
                    0 <= d <= 0x100_0000_0000 * mx,
                    1 <= nn <= 0x100_0000_0000,
                    mx >= 0,
            ;
            assert(value(v) * nn <= 0x100_0000_0000 * (0x100_0000_0000 * (0x100_0000_0000
                * mx2))) by (nonlinear_arith)
                requires
                    0 <= value(v) <= value(nq),
                    value(nq) == value(q) * nn,
                    value(q) * nn <= 0x100_0000_0000 * (0x100_0000_0000 * mx2),
                    0 <= nn <= 0x100_0000_0000,
                    mx2 >= 0,
            ;
            assert((0x100_0000_0000 * mx) * (0x100_0000_0000 * mx) * 0x100_0000_0000 < b256()
                && 9 * (0x100_0000_0000 * (0x100_0000_0000 * (0x100_0000_0000 * mx2))) < b256())
                by (nonlinear_arith)
                requires
                    mx2 == mx * mx,
                    mx == 0xffff_ffff_ffff_ffff,
                    b256() == b128() * b128(),
                    b128() == 0x1_0000_0000_0000_0000 * 0x1_0000_0000_0000_0000,
            ;
        }
        let lhs = mul_small(dd, nn - 1);
        let nvn = mul_small(v, nn);
        let nvn4 = mul_small(nvn, 4);
        let nvn9 = mul_small(nvn, 9);
        proof {
            assert(spread(w@) == value(v));
            assert(value(lhs) == (n - 1) * ((n * sample - sum(w@)) * (n * sample - sum(w@)))) by (
            nonlinear_arith)
                requires
                    value(lhs) == value(dd) * (nn - 1),
                    value(dd) == d * d,
                    d == nv - s,
                    nv == nn * sample,
                    s == sum(w@),
                    nn == n,
            ;
            assert(1 * 1 * n * spread(w@) == value(nvn)) by (nonlinear_arith)
                requires
                    value(nvn) == value(v) * nn,
                    nn == n,
                    value(v) == spread(w@),
            ;
            assert(2 * 2 * n * spread(w@) == value(nvn4)) by (nonlinear_arith)
                requires
                    value(nvn4) == value(nvn) * 4,
                    value(nvn) == value(v) * nn,
                    nn == n,
                    value(v) == spread(w@),
            ;
            assert(3 * 3 * n * spread(w@) == value(nvn9)) by (nonlinear_arith)
                requires
                    value(nvn9) == value(nvn) * 9,
                    value(nvn) == value(v) * nn,
                    nn == n,
                    value(v) == spread(w@),
            ;
        }
        if le(lhs, nvn) {
            DeviationLevel::Normal
        } else if le(lhs, nvn4) {
            DeviationLevel::Elevated
        } else if le(lhs, nvn9) {
            DeviationLevel::High
        } else {
            DeviationLevel::Outlier
        }
    }
}

/// The window holds exactly the most recent samples: after any sequence of
/// additions to an empty window, it holds the last `min(count, capacity)` of
/// them (at least the last one), oldest first.
pub proof fn lemma_window_is_recent_suffix(capacity: nat, vals: Seq<u64>)
    ensures
        window_after(capacity, vals) == vals.skip(
            vals.len() - if vals.len() <= effective_capacity(capacity) {
                vals.len() as int
            } else {
                effective_capacity(capacity) as int
            },
        ),
    decreases vals.len(),
{
    if vals.len() > 0 {
        let prev = vals.drop_last();
        lemma_window_is_recent_suffix(capacity, prev);
        let w = window_after(capacity, prev);
        let c = effective_capacity(capacity) as int;
        if prev.len() < c {
            assert(w =~= prev);
            assert(w.len() < capacity || w.len() == 0);
            assert(window_after(capacity, vals) =~= vals);
        } else {
            assert(w =~= prev.skip(prev.len() - c));
            assert(w.len() == c);
            assert(window_after(capacity, vals) =~= vals.skip(vals.len() - c));
        }
    } else {
        assert(vals.skip(0) =~= vals);
    }
}

/// A sample is never rated worse than another one that is larger.
pub proof fn lemma_rate_monotone(w: Seq<u64>, v1: u64, v2: u64)
    requires
        v1 <= v2,
    ensures
        level_rank(rate(w, v1)) <= level_rank(rate(w, v2)),
{
    let n = w.len() as int;
    if w.len() >= 10 && spread(w) > 0 {
        let d1 = n * v1 - sum(w);
        let d2 = n * v2 - sum(w);
        assert(d1 <= d2) by (nonlinear_arith)
            requires
                d1 == n * v1 - sum(w),
                d2 == n * v2 - sum(w),
                v1 <= v2,
                n >= 0,
        ;
        if d1 > 0 {
            assert((n - 1) * (d1 * d1) <= (n - 1) * (d2 * d2)) by (nonlinear_arith)
                requires
                    0 < d1 <= d2,
                    n >= 1,
            ;
        }
    }
}

/// Ratings start only once the window holds ten samples, and a sample no
/// larger than the window's mean is never rated above NORMAL.
pub proof fn lemma_rate_normal_cases(w: Seq<u64>, v: u64)
    ensures
        w.len() < 10 ==> rate(w, v) == DeviationLevel::Normal,
        w.len() * v <= sum(w) ==> rate(w, v) == DeviationLevel::Normal,
{
}

/// NORMAL < ELEVATED < HIGH < OUTLIER.
pub open spec fn level_rank(l: DeviationLevel) -> int {
    match l {
        DeviationLevel::Normal => 0,
        DeviationLevel::Elevated => 1,
        DeviationLevel::High => 2,
        DeviationLevel::Outlier => 3,
    }
}

} // verus!
