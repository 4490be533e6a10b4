//! Fixed-point arithmetic for exponential smoothing.
//!
//! Scroll deltas are measured in 1/120000 of a wheel notch, elapsed time in
//! milliseconds, and smoothing weights in millionths (`ALPHA_UNIT` is the
//! fixed-point one). The smoothing weight for an event that arrives `dt`
//! milliseconds after the previous one is `1 - exp(-dt / time_constant)`;
//! `exp_neg_fixed` approximates the decaying exponential with a clamped
//! fourth-order series on the fractional part and repeated multiplication by
//! `exp(-1)` for the integer part.

use vstd::prelude::*;

verus! {

/// Fixed-point one for smoothing weights: weights range over `0..=ALPHA_UNIT`.
pub const ALPHA_UNIT: u64 = 1000000;

/// `exp(-1)` in `ALPHA_UNIT` fixed point, rounded down.
pub const DECAY_PER_UNIT: u64 = 367879;

/// Once the elapsed time reaches this many time constants the smoothed
/// signal has decayed below the fixed-point resolution, so the weight
/// saturates at `ALPHA_UNIT`.
pub const FULL_DECAY_RATIO: u64 = 14;

/// Largest delta magnitude the filter accepts, in 1/120000 notch units
/// (about nine million notches). Keeps every intermediate product inside
/// `i64`.
pub const DELTA_LIMIT: i64 = 0x100_0000_0000;

/// Largest accepted smoothing time constant, in milliseconds. Keeps the
/// elapsed-time-to-weight conversion inside `u64`.
pub const TC_LIMIT: u64 = 1000000000;

/// The sign of a delta: `-1`, `0` or `1`. Zero is its own sign, so a
/// transition from or to zero counts as a direction change.
pub open spec fn sign_of(d: int) -> int {
    if d < 0 {
        -1
    } else if d == 0 {
        0
    } else {
        1
    }
}

/// The magnitude of a delta.
pub open spec fn magnitude(d: int) -> int {
    if d < 0 {
        -d
    } else {
        d
    }
}

/// `e` multiplied `n` times by `exp(-1)`, in fixed point.
pub open spec fn decay_steps(e: int, n: nat) -> int
    decreases n,
{
    if n == 0 {
        e
    } else {
        decay_steps(e, (n - 1) as nat) * DECAY_PER_UNIT / (ALPHA_UNIT as int)
    }
}

/// Fourth-order series for `exp(-y / ALPHA_UNIT)` on a half-unit argument
/// `0 <= y <= ALPHA_UNIT / 2`, clamped into `0..=ALPHA_UNIT`.
pub open spec fn exp_frac_half(y: int) -> int {
    let t2 = y * y / (2 * ALPHA_UNIT);
    let t3 = t2 * y / (3 * ALPHA_UNIT);
    let t4 = t3 * y / (4 * ALPHA_UNIT);
    let v = ALPHA_UNIT - y + t2 - t3 + t4;
    if v > ALPHA_UNIT {
        ALPHA_UNIT as int
    } else if v < 0 {
        0
    } else {
        v
    }
}

/// `exp(-x / ALPHA_UNIT)` in fixed point: the series (applied to half the
/// fractional part, then squared) handles the fractional part of `x`, and
/// one `exp(-1)` multiplication handles each whole unit.
pub open spec fn exp_decay(x: int) -> int {
    if x >= FULL_DECAY_RATIO * ALPHA_UNIT {
        0
    } else {
        let h = exp_frac_half(x % (ALPHA_UNIT as int) / 2);
        decay_steps(h * h / (ALPHA_UNIT as int), (x / (ALPHA_UNIT as int)) as nat)
    }
}

/// The smoothing weight `1 - exp(-dt / tc)` in fixed point, for an event
/// `dt` milliseconds after the previous one under time constant `tc`.
pub open spec fn alpha_for(dt: int, tc: int) -> int {
    if dt / tc >= FULL_DECAY_RATIO {
        ALPHA_UNIT as int
    } else {
        ALPHA_UNIT - exp_decay(dt * ALPHA_UNIT / tc)
    }
}

/// One exponential-smoothing step: the new delta `d` weighted by `a` plus
/// the previous smoothed delta `s` weighted by the rest, rounded toward
/// negative infinity.
pub open spec fn blend_value(d: int, s: int, a: int) -> int {
    (d * a + s * (ALPHA_UNIT - a)) / (ALPHA_UNIT as int)
}

/// Repeated decay keeps a fixed-point value inside `0..=ALPHA_UNIT`.
pub proof fn lemma_decay_steps_bounds(e: int, n: nat)
    requires
        0 <= e <= ALPHA_UNIT,
    ensures
        0 <= decay_steps(e, n) <= ALPHA_UNIT,
    decreases n,
{
    if n > 0 {
        lemma_decay_steps_bounds(e, (n - 1) as nat);
        let p = decay_steps(e, (n - 1) as nat);
        vstd::arithmetic::div_mod::lemma_div_pos_is_pos(p * DECAY_PER_UNIT, ALPHA_UNIT as int);
        vstd::arithmetic::div_mod::lemma_div_is_ordered(
            p * DECAY_PER_UNIT,
            1000000 * DECAY_PER_UNIT,
            ALPHA_UNIT as int,
        );
    }
}

/// The decaying exponential stays inside `0..=ALPHA_UNIT`.
pub proof fn lemma_exp_decay_bounds(x: int)
    requires
        0 <= x,
    ensures
        0 <= exp_decay(x) <= ALPHA_UNIT,
{
    if x < FULL_DECAY_RATIO * ALPHA_UNIT {
        let h = exp_frac_half(x % (ALPHA_UNIT as int) / 2);
        assert(0 <= h <= ALPHA_UNIT);
        assert(h * h <= 1000000 * 1000000) by (nonlinear_arith)
            requires
                0 <= h <= 1000000,
        ;
        assert(0 <= h * h) by (nonlinear_arith)
            requires
                0 <= h,
        ;
        vstd::arithmetic::div_mod::lemma_div_pos_is_pos(h * h, ALPHA_UNIT as int);
        vstd::arithmetic::div_mod::lemma_div_is_ordered(
            h * h,
            1000000int * 1000000,
            ALPHA_UNIT as int,
        );
        lemma_decay_steps_bounds(h * h / (ALPHA_UNIT as int), (x / (ALPHA_UNIT as int)) as nat);
    }
}

/// The smoothing weight stays inside `0..=ALPHA_UNIT`.
pub proof fn lemma_alpha_bounds(dt: int, tc: int)
    requires
        0 <= dt,
        1 <= tc,
    ensures
        0 <= alpha_for(dt, tc) <= ALPHA_UNIT,
{
    if dt / tc < FULL_DECAY_RATIO {
        vstd::arithmetic::div_mod::lemma_div_pos_is_pos(dt * ALPHA_UNIT, tc);
        lemma_exp_decay_bounds(dt * ALPHA_UNIT / tc);
    }
}

/// A smoothing step stays between any bounds that hold of both inputs.
pub proof fn lemma_blend_between(d: int, s: int, a: int, lo: int, hi: int)
    requires
        lo <= d <= hi,
        lo <= s <= hi,
        0 <= a <= ALPHA_UNIT,
    ensures
        lo <= blend_value(d, s, a) <= hi,
{
    let num = d * a + s * (1000000 - a);
    assert(lo * 1000000 <= num <= hi * 1000000) by (nonlinear_arith)
        requires
            lo <= d <= hi,
            lo <= s <= hi,
            0 <= a <= 1000000,
            num == d * a + s * (1000000 - a),
    ;
    vstd::arithmetic::div_mod::lemma_div_is_ordered(lo * 1000000, num, 1000000);
    vstd::arithmetic::div_mod::lemma_div_is_ordered(num, hi * 1000000, 1000000);
    vstd::arithmetic::div_mod::lemma_div_multiples_vanish(lo, 1000000);
    vstd::arithmetic::div_mod::lemma_div_multiples_vanish(hi, 1000000);
}

/// A smoothing step moves the previous smoothed value toward the new delta
/// by exactly the weighted, rounded-down share of the gap.
pub proof fn lemma_blend_progress(d: int, s: int, a: int)
    ensures
        blend_value(d, s, a) == s + (d - s) * a / (ALPHA_UNIT as int),
{
    assert(d * a + s * (1000000 - a) == (d - s) * a + s * 1000000) by (nonlinear_arith);
    vstd::arithmetic::div_mod::lemma_hoist_over_denominator((d - s) * a, s, 1000000nat);
}

/// The sign of a delta, as executable code.
pub fn sign_i64(d: i64) -> (s: i64)
    ensures
        s == sign_of(d as int),
{
    if d < 0 {
        -1
    } else if d == 0 {
        0
    } else {
        1
    }
}

/// The magnitude of a delta, as executable code.
pub fn abs_i64(d: i64) -> (m: i64)
    requires
        d > i64::MIN,
    ensures
        m == magnitude(d as int),
{
    if d < 0 {
        -d
    } else {
        d
    }
}

/// `exp(-x / ALPHA_UNIT)` in fixed point.
pub fn exp_neg_fixed(x: u64) -> (e: u64)
    ensures
        e == exp_decay(x as int),
        e <= ALPHA_UNIT,
{
    if x >= FULL_DECAY_RATIO * ALPHA_UNIT {
        return 0;
    }
    let f = x % ALPHA_UNIT;
    let n = x / ALPHA_UNIT;
    assert(n <= 13);
    let y = f / 2;
    assert(y <= 499999);
    assert(y * y <= 499999 * 499999) by (nonlinear_arith)
        requires
            y <= 499999,
    ;
    let t2 = y * y / (2 * ALPHA_UNIT);
    assert(t2 <= 125000);
    assert(t2 * y <= 125000 * 499999) by (nonlinear_arith)
        requires
            t2 <= 125000,
            y <= 499999,
    ;
    let t3 = t2 * y / (3 * ALPHA_UNIT);
    assert(t3 <= 20834);
    assert(t3 * y <= 20834 * 499999) by (nonlinear_arith)
        requires
            t3 <= 20834,
            y <= 499999,
    ;
    let t4 = t3 * y / (4 * ALPHA_UNIT);
    assert(t4 <= 2605);
    let v = ALPHA_UNIT - y + t2 - t3 + t4;
    let h = if v > ALPHA_UNIT {
        ALPHA_UNIT
    } else {
        v
    };
    assert(h == exp_frac_half(y as int));
    assert(h * h <= 1000000 * 1000000) by (nonlinear_arith)
        requires
            h <= 1000000,
    ;
    let mut e = h * h / ALPHA_UNIT;
    let ghost e0 = e as int;
    let mut i: u64 = 0;
    while i < n
        invariant
            i <= n,
            e <= ALPHA_UNIT,
            e == decay_steps(e0, i as nat),
        decreases n - i,
    {
        e = e * DECAY_PER_UNIT / ALPHA_UNIT;
        i = i + 1;
    }
    e
}

/// The smoothing weight for an event `dt_ms` milliseconds after the
/// previous one under time constant `tc_ms`.
pub fn alpha_from_elapsed(dt_ms: u64, tc_ms: u64) -> (a: u64)
    requires
        1 <= tc_ms <= TC_LIMIT,
    ensures
        a == alpha_for(dt_ms as int, tc_ms as int),
        a <= ALPHA_UNIT,
{
    if dt_ms / tc_ms >= FULL_DECAY_RATIO {
        ALPHA_UNIT
    } else {
        proof {
            vstd::arithmetic::div_mod::lemma_fundamental_div_mod(dt_ms as int, tc_ms as int);
            vstd::arithmetic::div_mod::lemma_mod_bound(dt_ms as int, tc_ms as int);
            let q = dt_ms as int / tc_ms as int;
            let r = dt_ms as int % tc_ms as int;
            assert(dt_ms < 14 * tc_ms) by (nonlinear_arith)
                requires
                    dt_ms == tc_ms * q + r,
                    q <= 13,
                    0 <= r < tc_ms,
            ;
        }
        let x = dt_ms * ALPHA_UNIT / tc_ms;
        let e = exp_neg_fixed(x);
        ALPHA_UNIT - e
    }
}

/// One exponential-smoothing step, as executable code.
pub fn blend(d: i64, s: i64, a: u64) -> (r: i64)
    requires
        -DELTA_LIMIT <= d <= DELTA_LIMIT,
        -DELTA_LIMIT <= s <= DELTA_LIMIT,
        a <= ALPHA_UNIT,
    ensures
        r == blend_value(d as int, s as int, a as int),
        -DELTA_LIMIT <= r <= DELTA_LIMIT,
{
    let aw = a as i64;
    let rest = (ALPHA_UNIT as i64) - aw;
    assert(-DELTA_LIMIT * 1000000 <= d * aw <= DELTA_LIMIT * 1000000) by (nonlinear_arith)
        requires
            -DELTA_LIMIT <= d <= DELTA_LIMIT,
            0 <= aw <= 1000000,
    ;
    assert(-DELTA_LIMIT * 1000000 <= s * rest <= DELTA_LIMIT * 1000000) by (nonlinear_arith)
        requires
            -DELTA_LIMIT <= s <= DELTA_LIMIT,
            0 <= rest <= 1000000,
    ;
    assert(d * aw + s * rest <= DELTA_LIMIT * 1000000) by (nonlinear_arith)
        requires
            -DELTA_LIMIT <= d <= DELTA_LIMIT,
            -DELTA_LIMIT <= s <= DELTA_LIMIT,
            0 <= aw,
            0 <= rest,
            aw + rest == 1000000,
    ;
    assert(-DELTA_LIMIT * 1000000 <= d * aw + s * rest) by (nonlinear_arith)
        requires
            -DELTA_LIMIT <= d <= DELTA_LIMIT,
            -DELTA_LIMIT <= s <= DELTA_LIMIT,
            0 <= aw,
            0 <= rest,
            aw + rest == 1000000,
    ;
    let num = d * aw + s * rest;
    if num >= 0 {
        let q = (num as u64) / ALPHA_UNIT;
        q as i64
    } else {
        let mag = (-num) as u64;
        let q = (mag + (ALPHA_UNIT - 1)) / ALPHA_UNIT;
        -(q as i64)
    }
}

} // verus!
