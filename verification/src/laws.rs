//! Laws of the scroll filter, proved against the decision specification.
//!
//! Each proof function states one guarantee of `ScrollFilter::decide` over
//! `verdict_on` and `stepped`, the spec functions that its contract is
//! written in.

use vstd::prelude::*;

use crate::filter::{
    clock_anomaly, direction_change, smoothing_weight, stepped, verdict_on, ScrollFilter,
};
use crate::smoothing::{
    blend_value, lemma_alpha_bounds, lemma_blend_between, lemma_blend_progress, magnitude, sign_of,
    ALPHA_UNIT, DELTA_LIMIT,
};

verus! {

/// A direction reversal always forwards: whatever the prior state, an event
/// whose delta sign differs from the stored raw delta's on either axis is
/// forwarded, regardless of magnitude, as long as its timestamp is not
/// behind the stored one.
pub proof fn lemma_reversal_always_forwards(f: ScrollFilter, t: u64, dx: i64, dy: i64)
    requires
        !clock_anomaly(f, t),
        direction_change(f.last_raw, dx, dy),
    ensures
        verdict_on(f, t, dx, dy),
{
}

/// The raw-magnitude escape hatch: an event whose raw delta reaches
/// `min_delta_size` on either axis is forwarded, however little the
/// smoothed signal has accumulated. A fresh filter stores the sentinel
/// timestamp `0`, so for the very first event `clock_anomaly` cannot hold
/// and this law applies unconditionally.
pub proof fn lemma_raw_escape_forwards(f: ScrollFilter, t: u64, dx: i64, dy: i64)
    requires
        !clock_anomaly(f, t),
        magnitude(dx as int) >= f.config.min_delta_size || magnitude(dy as int)
            >= f.config.min_delta_size,
    ensures
        verdict_on(f, t, dx, dy),
{
}

/// Zero state is idempotent: with both registers at zero and a positive
/// smoothed threshold, a zero-delta event is suppressed and leaves every
/// stored delta at exactly zero — so repeated zero-delta events never
/// toggle the verdict away from suppressed and never perturb the smoothed
/// state.
pub proof fn lemma_zero_state_idempotent(f: ScrollFilter, t: u64)
    requires
        f.wf(),
        f.config.min_smoothed_delta_size >= 1,
        f.last_raw.delta_x == 0,
        f.last_raw.delta_y == 0,
        f.last_smoothed.delta_x == 0,
        f.last_smoothed.delta_y == 0,
    ensures
        !verdict_on(f, t, 0, 0),
        stepped(f, t, 0, 0).last_raw.delta_x == 0,
        stepped(f, t, 0, 0).last_raw.delta_y == 0,
        stepped(f, t, 0, 0).last_smoothed.delta_x == 0,
        stepped(f, t, 0, 0).last_smoothed.delta_y == 0,
{
    if !clock_anomaly(f, t) {
        let a = smoothing_weight(f, t, 0, 0);
        assert(0int * a == 0 && 0int * (1000000 - a) == 0) by (nonlinear_arith);
        assert(blend_value(0, 0, a) == 0);
    }
}

/// Monotone suppression under steady input: for a fixed positive direction
/// on one axis, each event moves the smoothed delta toward the raw delta by
/// the weighted share of the gap and never past it; once the smoothed delta
/// has reached `min_smoothed_delta_size` it stays there, and whenever it
/// has, the event is forwarded — the verdict never regresses to suppressed
/// for the same steady input.
pub proof fn lemma_steady_input_ramps(f: ScrollFilter, t: u64, d: i64)
    requires
        f.wf(),
        !clock_anomaly(f, t),
        0 < d <= DELTA_LIMIT,
        f.last_raw.delta_x > 0,
        f.last_raw.delta_y == 0,
        0 <= f.last_smoothed.delta_x <= d,
        f.last_smoothed.delta_y == 0,
    ensures
        ({
            let s = f.last_smoothed.delta_x as int;
            let a = smoothing_weight(f, t, d, 0);
            let next = stepped(f, t, d, 0).last_smoothed;
            &&& s <= next.delta_x <= d
            &&& next.delta_y == 0
            &&& next.delta_x == s + (d - s) * a / (ALPHA_UNIT as int)
            &&& ((d - s) * a >= ALPHA_UNIT ==> next.delta_x >= s + 1)
            &&& (next.delta_x >= f.config.min_smoothed_delta_size ==> verdict_on(f, t, d, 0))
            &&& (s >= f.config.min_smoothed_delta_size ==> next.delta_x
                >= f.config.min_smoothed_delta_size)
        }),
{
    let s = f.last_smoothed.delta_x as int;
    let a = smoothing_weight(f, t, d, 0);
    assert(sign_of(d as int) == 1 && sign_of(f.last_raw.delta_x as int) == 1);
    assert(!direction_change(f.last_raw, d, 0));
    lemma_alpha_bounds(t - f.last_raw.timestamp, f.config.time_constant_ms as int);
    lemma_blend_between(d as int, s, a, s, d as int);
    lemma_blend_progress(d as int, s, a);
    assert(0int * a == 0 && 0int * (1000000 - a) == 0) by (nonlinear_arith);
    assert(blend_value(0, 0, a) == 0);
    if (d - s) * a >= ALPHA_UNIT {
        vstd::arithmetic::div_mod::lemma_div_is_ordered(1000000, (d - s) * a, 1000000);
        vstd::arithmetic::div_mod::lemma_div_by_self(1000000);
    }
}

} // verus!
