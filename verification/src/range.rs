//! The pulse-width primitive: half-open tolerance windows around a nominal
//! symbol duration, precomputed in ticks so that matching a measured
//! duration is two integer comparisons.

use vstd::prelude::*;

verus! {

/// Lower bound of the window: floor(nominal_us * (1 - tol) * rate / 1e6),
/// with the tolerance given as a percentage.
pub open spec fn scale_lo(nominal_us: int, tol_pct: int, rate_hz: int) -> int {
    nominal_us * (100 - tol_pct) * rate_hz / 100_000_000
}

/// Upper bound of the window: ceil(nominal_us * (1 + tol) * rate / 1e6),
/// with the tolerance given as a percentage.
pub open spec fn scale_hi(nominal_us: int, tol_pct: int, rate_hz: int) -> int {
    (nominal_us * (100 + tol_pct) * rate_hz + 100_000_000 - 1) / 100_000_000
}

/// A nominal duration converted to ticks at a sampling rate, rounded down.
pub open spec fn ticks_of(us: int, rate_hz: int) -> int {
    us * rate_hz / 1_000_000
}

/// An inclusive range of acceptable durations, in ticks.
#[derive(Clone, Copy, Debug, PartialEq, Eq, Structural)]
pub struct TickRange {
    pub lo: u32,
    pub hi: u32,
}

impl TickRange {
    /// The measured duration lies inside the window.
    pub open spec fn spec_contains(self, d: int) -> bool {
        self.lo <= d <= self.hi
    }

    /// The window is exactly the tolerance expansion of `nominal_us` at
    /// `tol_pct` percent, in ticks at `rate_hz`.
    pub open spec fn is_window(self, nominal_us: int, tol_pct: int, rate_hz: int) -> bool {
        &&& self.lo == scale_lo(nominal_us, tol_pct, rate_hz)
        &&& self.hi == scale_hi(nominal_us, tol_pct, rate_hz)
    }

    /// Precompute the window for one named symbol of a protocol.
    pub fn new(nominal_us: u32, tol_pct: u32, rate_hz: u32) -> (r: TickRange)
        requires
            nominal_us <= 1_000_000,
            tol_pct <= 100,
            rate_hz <= 1_000_000,
        ensures
            r.is_window(nominal_us as int, tol_pct as int, rate_hz as int),
    {
        let a: u64 = nominal_us as u64;
        let b_lo: u64 = (100 - tol_pct) as u64;
        let b_hi: u64 = (100 + tol_pct) as u64;
        let c: u64 = rate_hz as u64;
        proof {
            assert(a * b_lo <= 200_000_000) by (nonlinear_arith)
                requires
                    a <= 1_000_000,
                    b_lo <= 200,
            ;
            assert(a * b_hi <= 200_000_000) by (nonlinear_arith)
                requires
                    a <= 1_000_000,
                    b_hi <= 200,
            ;
            assert(a * b_lo * c <= 200_000_000_000_000) by (nonlinear_arith)
                requires
                    a * b_lo <= 200_000_000,
                    c <= 1_000_000,
            ;
            assert(a * b_hi * c <= 200_000_000_000_000) by (nonlinear_arith)
                requires
                    a * b_hi <= 200_000_000,
                    c <= 1_000_000,
            ;
        }
        let lo_prod: u64 = a * b_lo * c;
        let hi_prod: u64 = a * b_hi * c;
        let lo64: u64 = lo_prod / 100_000_000;
        let hi64: u64 = (hi_prod + 100_000_000 - 1) / 100_000_000;
        proof {
            vstd::arithmetic::div_mod::lemma_div_is_ordered(
                lo_prod as int,
                200_000_000_000_000int,
                100_000_000int,
            );
            vstd::arithmetic::div_mod::lemma_div_is_ordered(
                hi_prod as int + 100_000_000 - 1,
                200_000_000_000_000int + 100_000_000 - 1,
                100_000_000int,
            );
        }
        TickRange { lo: lo64 as u32, hi: hi64 as u32 }
    }

    /// Two integer comparisons on the hot path.
    pub fn contains(&self, d: u32) -> (r: bool)
        ensures
            r == self.spec_contains(d as int),
    {
        self.lo <= d && d <= self.hi
    }
}

/// Convert a nominal microsecond duration to ticks at a sampling rate.
pub fn ticks(us: u32, rate_hz: u32) -> (r: u32)
    requires
        us <= 1_000_000,
        rate_hz <= 1_000_000,
    ensures
        r == ticks_of(us as int, rate_hz as int),
{
    proof {
        assert(us * rate_hz <= 1_000_000 * 1_000_000) by (nonlinear_arith)
            requires
                us <= 1_000_000,
                rate_hz <= 1_000_000,
        ;
        assert(0 <= us * rate_hz) by (nonlinear_arith)
            requires
                0 <= us,
                0 <= rate_hz,
        ;
        vstd::arithmetic::div_mod::lemma_div_is_ordered(
            us as int * rate_hz as int,
            1_000_000_000_000int,
            1_000_000int,
        );
    }
    let prod: u64 = us as u64 * rate_hz as u64;
    (prod / 1_000_000) as u32
}

/// A nominal duration, converted to ticks, lies inside its own tolerance
/// window at the same rate.
pub proof fn lemma_nominal_in_window(n: int, tol: int, r: int)
    requires
        0 <= n,
        0 <= tol <= 100,
        0 < r,
    ensures
        scale_lo(n, tol, r) <= ticks_of(n, r) <= scale_hi(n, tol, r),
{
    assert(n * r * 100 == n * 100 * r) by (nonlinear_arith);
    assert((n * r * 100) / 100_000_000 == n * r / 1_000_000) by {
        vstd::arithmetic::div_mod::lemma_div_denominator(n * r * 100, 100, 1_000_000);
        vstd::arithmetic::div_mod::lemma_div_multiples_vanish(n * r, 100);
        assert(n * r * 100 == 100 * (n * r)) by (nonlinear_arith);
    }
    assert(n * (100 - tol) * r <= n * 100 * r) by (nonlinear_arith)
        requires
            0 <= n && 0 <= tol <= 100 && 0 < r,
    ;
    assert(n * 100 * r <= n * (100 + tol) * r) by (nonlinear_arith)
        requires
            0 <= n && 0 <= tol && 0 < r,
    ;
    vstd::arithmetic::div_mod::lemma_div_is_ordered(
        n * (100 - tol) * r,
        n * 100 * r,
        100_000_000int,
    );
    vstd::arithmetic::div_mod::lemma_div_is_ordered(
        n * 100 * r,
        n * (100 + tol) * r + 100_000_000 - 1,
        100_000_000int,
    );
}

/// With enough rate, the widened window of a shorter nominal ends strictly
/// below a longer nominal's tick count: the two symbols stay apart.
pub proof fn lemma_window_below_ticks(nlow: int, tol: int, nhigh: int, r: int)
    requires
        0 <= nlow,
        0 <= tol <= 100,
        0 < r,
        r * (100 * nhigh - nlow * (100 + tol)) >= 200_000_000,
    ensures
        scale_hi(nlow, tol, r) < ticks_of(nhigh, r),
{
    let d = 100_000_000int;
    let a = nlow * (100 + tol) * r + d - 1;
    let b = nhigh * 100 * r;
    assert(b >= a + 1 + d) by (nonlinear_arith)
        requires
            r * (100 * nhigh - nlow * (100 + tol)) >= 2 * d && a == nlow * (100 + tol) * r + d - 1
                && b == nhigh * 100 * r,
    ;
    vstd::arithmetic::div_mod::lemma_div_is_ordered(a + d, b, d);
    vstd::arithmetic::div_mod::lemma_div_plus_one(a, d);
    assert((nhigh * 100 * r) / d == ticks_of(nhigh, r)) by {
        vstd::arithmetic::div_mod::lemma_div_denominator(nhigh * 100 * r, 100, 1_000_000);
        vstd::arithmetic::div_mod::lemma_div_multiples_vanish(nhigh * r, 100);
        assert(nhigh * 100 * r == 100 * (nhigh * r)) by (nonlinear_arith);
        assert((nhigh * 100 * r) / 100 / 1_000_000 == (nhigh * r) / 1_000_000);
    }
}

/// With enough rate, a shorter nominal's tick count stays strictly below
/// the floor of a longer nominal's window.
pub proof fn lemma_ticks_below_window(nlow: int, nhigh: int, tol: int, r: int)
    requires
        0 <= nlow,
        0 <= tol <= 100,
        0 < r,
        r * (nhigh * (100 - tol) - 100 * nlow) >= 200_000_000,
    ensures
        ticks_of(nlow, r) < scale_lo(nhigh, tol, r),
{
    let d = 100_000_000int;
    let a = nlow * 100 * r;
    let b = nhigh * (100 - tol) * r;
    assert(b >= a + d) by (nonlinear_arith)
        requires
            d >= 0 && r * (nhigh * (100 - tol) - 100 * nlow) >= 2 * d && a == nlow * 100 * r && b
                == nhigh * (100 - tol) * r,
    ;
    vstd::arithmetic::div_mod::lemma_div_is_ordered(a + d, b, d);
    vstd::arithmetic::div_mod::lemma_div_plus_one(a, d);
    assert((nlow * 100 * r) / d == ticks_of(nlow, r)) by {
        vstd::arithmetic::div_mod::lemma_div_denominator(nlow * 100 * r, 100, 1_000_000);
        vstd::arithmetic::div_mod::lemma_div_multiples_vanish(nlow * r, 100);
        assert(nlow * 100 * r == 100 * (nlow * r)) by (nonlinear_arith);
        assert((nlow * 100 * r) / 100 / 1_000_000 == (nlow * r) / 1_000_000);
    }
}

/// Converting to ticks preserves order of nominal durations.
pub proof fn lemma_ticks_ordered(n1: int, n2: int, r: int)
    requires
        0 <= n1 <= n2,
        0 <= r,
    ensures
        ticks_of(n1, r) <= ticks_of(n2, r),
{
    assert(n1 * r <= n2 * r) by (nonlinear_arith)
        requires
            n1 <= n2 && 0 <= r,
    ;
    vstd::arithmetic::div_mod::lemma_div_is_ordered(n1 * r, n2 * r, 1_000_000int);
}

/// At any supported rate, a nominal duration never gains ticks: the tick
/// count is nonnegative and at most the microsecond count.
pub proof fn lemma_ticks_bounds(n: int, r: int)
    requires
        0 <= n,
        0 < r <= 1_000_000,
    ensures
        0 <= ticks_of(n, r) <= n,
{
    assert(n * r <= n * 1_000_000) by (nonlinear_arith)
        requires
            0 <= n && r <= 1_000_000,
    ;
    assert(0 <= n * r) by (nonlinear_arith)
        requires
            0 <= n && 0 <= r,
    ;
    vstd::arithmetic::div_mod::lemma_div_is_ordered(n * r, n * 1_000_000, 1_000_000int);
    vstd::arithmetic::div_mod::lemma_div_multiples_vanish(n, 1_000_000);
    assert(n * 1_000_000 == 1_000_000 * n) by (nonlinear_arith);
    vstd::arithmetic::div_mod::lemma_div_pos_is_pos(n * r, 1_000_000int);
}

/// A run of `k` equal grid units, each `ticks_of(n, r)` ticks long, stays
/// within `k/1e6` of `k·n·r`.
proof fn lemma_scaled_ticks_bounds(n: int, k: int, r: int)
    requires
        0 <= n,
        1 <= k,
        0 < r,
    ensures
        k * ticks_of(n, r) * 1_000_000 <= k * n * r,
        k * n * r <= k * ticks_of(n, r) * 1_000_000 + k * (1_000_000 - 1),
{
    let q = ticks_of(n, r);
    vstd::arithmetic::div_mod::lemma_fundamental_div_mod(n * r, 1_000_000int);
    vstd::arithmetic::div_mod::lemma_mod_bound(n * r, 1_000_000int);
    let rem = (n * r) % 1_000_000;
    assert(k * q * 1_000_000 <= k * n * r && k * n * r <= k * q * 1_000_000 + k * (1_000_000 - 1))
        by (nonlinear_arith)
        requires
            n * r == 1_000_000 * q + rem && 0 <= rem < 1_000_000 && 1 <= k,
    ;
}

/// A run of `k` equal grid units of nominal `n` microseconds lands inside
/// the tolerance window of a period of nominal `m` microseconds, at every
/// rate satisfying the linear bound.
pub proof fn lemma_scaled_in_window(n: int, k: int, m: int, tol: int, r: int)
    requires
        0 <= n,
        1 <= k,
        0 <= m,
        0 <= tol <= 100,
        0 < r,
        100 * k * n <= m * (100 + tol),
        r * (100 * k * n - m * (100 - tol)) >= 100 * k * (1_000_000 - 1),
    ensures
        scale_lo(m, tol, r) <= k * ticks_of(n, r) <= scale_hi(m, tol, r),
{
    let d = 100_000_000int;
    lemma_scaled_ticks_bounds(n, k, r);
    let kq = k * ticks_of(n, r);
    lemma_ticks_bounds_nonneg(n, r);
    vstd::arithmetic::mul::lemma_mul_nonnegative(k, ticks_of(n, r));
    // Upper side: kq · 1e8 is at most the window's ceiling numerator.
    assert(kq * d <= m * (100 + tol) * r) by (nonlinear_arith)
        requires
            kq * 1_000_000 <= k * n * r && 100 * k * n <= m * (100 + tol) && 0 < r && d == 100
                * 1_000_000 && 0 <= kq,
    ;
    vstd::arithmetic::div_mod::lemma_div_is_ordered(kq * d, m * (100 + tol) * r + d - 1, d);
    vstd::arithmetic::div_mod::lemma_div_multiples_vanish(kq, d);
    assert(kq * d == d * kq) by (nonlinear_arith);
    // Lower side: the window's floor numerator is at most kq · 1e8.
    assert(m * (100 - tol) * r <= kq * d) by (nonlinear_arith)
        requires
            k * n * r <= kq * 1_000_000 + k * (1_000_000 - 1) && r * (100 * k * n - m * (100 - tol))
                >= 100 * k * (1_000_000 - 1) && d == 100 * 1_000_000,
    ;
    vstd::arithmetic::div_mod::lemma_div_is_ordered(m * (100 - tol) * r, kq * d, d);
}

/// A run of `k` equal grid units of nominal `n` microseconds overshoots
/// the tolerance window of a shorter nominal `m`, at every rate satisfying
/// the linear bound: the decoder cannot mistake it for fewer units.
pub proof fn lemma_scaled_above_window(n: int, k: int, m: int, tol: int, r: int)
    requires
        0 <= n,
        1 <= k,
        0 <= m,
        0 <= tol <= 100,
        0 < r,
        r * (100 * k * n - m * (100 + tol)) >= 100 * k * (1_000_000 - 1) + 200_000_000,
    ensures
        k * ticks_of(n, r) > scale_hi(m, tol, r),
{
    let d = 100_000_000int;
    lemma_scaled_ticks_bounds(n, k, r);
    let kq = k * ticks_of(n, r);
    let b = m * (100 + tol) * r + d - 1;
    assert(kq * d >= b + d) by (nonlinear_arith)
        requires
            k * n * r <= kq * 1_000_000 + k * (1_000_000 - 1) && r * (100 * k * n - m * (100 + tol))
                >= 100 * k * (1_000_000 - 1) + 2 * d && b == m * (100 + tol) * r + d - 1 && d == 100
                * 1_000_000,
    ;
    vstd::arithmetic::div_mod::lemma_div_is_ordered(b + d, kq * d, d);
    vstd::arithmetic::div_mod::lemma_div_plus_one(b, d);
    vstd::arithmetic::div_mod::lemma_div_multiples_vanish(kq, d);
    assert(kq * d == d * kq) by (nonlinear_arith);
}

/// A run of `k` equal grid units never outlasts `k` times its nominal in
/// ticks.
pub proof fn lemma_scaled_ticks_le(n: int, k: int, r: int)
    requires
        0 <= n,
        1 <= k,
        0 < r,
    ensures
        k * ticks_of(n, r) <= ticks_of(k * n, r),
{
    lemma_scaled_ticks_bounds(n, k, r);
    let kq = k * ticks_of(n, r);
    assert(kq * 1_000_000 <= (k * n) * r) by (nonlinear_arith)
        requires
            kq * 1_000_000 <= k * n * r,
    ;
    vstd::arithmetic::div_mod::lemma_div_is_ordered(kq * 1_000_000, (k * n) * r, 1_000_000int);
    vstd::arithmetic::div_mod::lemma_div_multiples_vanish(kq, 1_000_000int);
    assert(kq * 1_000_000 == 1_000_000 * kq) by (nonlinear_arith);
}

/// The tick count of a nonnegative duration is nonnegative.
proof fn lemma_ticks_bounds_nonneg(n: int, r: int)
    requires
        0 <= n,
        0 < r,
    ensures
        0 <= ticks_of(n, r),
{
    assert(0 <= n * r) by (nonlinear_arith)
        requires
            0 <= n && 0 <= r,
    ;
    vstd::arithmetic::div_mod::lemma_div_pos_is_pos(n * r, 1_000_000int);
}

/// Accepting a duration is monotone in the tolerance: a duration inside the
/// window computed at a smaller tolerance is inside the window computed at a
/// larger tolerance, for the same nominal duration and sampling rate.
pub proof fn lemma_tolerance_monotonic(
    nominal_us: int,
    tol1: int,
    tol2: int,
    rate_hz: int,
    w1: TickRange,
    w2: TickRange,
    d: int,
)
    requires
        0 <= nominal_us,
        0 <= rate_hz,
        0 <= tol1 <= tol2 <= 100,
        w1.is_window(nominal_us, tol1, rate_hz),
        w2.is_window(nominal_us, tol2, rate_hz),
        w1.spec_contains(d),
    ensures
        w2.spec_contains(d),
{
    assert(nominal_us * (100 - tol2) * rate_hz <= nominal_us * (100 - tol1) * rate_hz)
        by (nonlinear_arith)
        requires
            0 <= nominal_us,
            0 <= rate_hz,
            tol1 <= tol2 <= 100,
    ;
    assert(nominal_us * (100 + tol1) * rate_hz <= nominal_us * (100 + tol2) * rate_hz)
        by (nonlinear_arith)
        requires
            0 <= nominal_us,
            0 <= rate_hz,
            0 <= tol1 <= tol2,
    ;
    vstd::arithmetic::div_mod::lemma_div_is_ordered(
        nominal_us * (100 - tol2) * rate_hz,
        nominal_us * (100 - tol1) * rate_hz,
        100_000_000int,
    );
    vstd::arithmetic::div_mod::lemma_div_is_ordered(
        nominal_us * (100 + tol1) * rate_hz + 100_000_000 - 1,
        nominal_us * (100 + tol2) * rate_hz + 100_000_000 - 1,
        100_000_000int,
    );
}

} // verus!
