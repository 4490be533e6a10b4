//! The scroll filter: per-event forward/suppress decisions.
//!
//! The filter keeps two registers between events — the last raw sample and
//! the last smoothed sample — and classifies each incoming timestamped
//! delta. A direction change always forwards; otherwise the event is
//! forwarded when the smoothed or the raw magnitude reaches its threshold.

use vstd::prelude::*;

use crate::smoothing::{
    abs_i64, alpha_for, alpha_from_elapsed, blend, blend_value, magnitude, sign_i64, sign_of,
    ALPHA_UNIT, DELTA_LIMIT, TC_LIMIT,
};

verus! {

/// One observed or derived 2-D scroll delta at a point in time. Deltas are
/// in 1/120000 notch units, the timestamp in milliseconds; the sentinel
/// timestamp `0` is "no scroll yet".
#[derive(Clone, Copy, Debug, PartialEq, Eq, Structural)]
pub struct ScrollSample {
    pub delta_x: i64,
    pub delta_y: i64,
    pub timestamp: u64,
}

impl Default for ScrollSample {
    /// The sentinel "no scroll yet" sample: zero deltas at the earliest
    /// representable timestamp.
    fn default() -> (s: Self)
        ensures
            s == (ScrollSample { delta_x: 0, delta_y: 0, timestamp: 0 }),
    {
        ScrollSample { delta_x: 0, delta_y: 0, timestamp: 0 }
    }
}

/// Thresholds fixed at filter construction. Deltas and thresholds are in
/// 1/120000 notch units, the time constant in milliseconds.
#[derive(Clone, Copy, Debug, PartialEq, Eq, Structural)]
pub struct FilterConfig {
    /// A raw delta at least this large is forwarded outright.
    pub min_delta_size: i64,
    /// A smoothed delta at least this large marks sustained scrolling.
    /// Must not exceed `min_delta_size`.
    pub min_smoothed_delta_size: i64,
    /// Milliseconds for the smoothed signal to reach 63.2% of a step
    /// change in the input.
    pub time_constant_ms: u64,
}

/// Why a configuration was rejected at construction time.
#[derive(Clone, Copy, Debug, PartialEq, Eq, Structural)]
pub enum ConfigError {
    /// The time constant was zero or above `TC_LIMIT`.
    TimeConstantOutOfRange,
    /// The smoothed threshold was stricter than the raw threshold.
    SmoothedThresholdExceedsRaw,
}

impl FilterConfig {
    /// A configuration the filter can run on: positive bounded time
    /// constant, and a smoothed threshold no stricter than the raw one.
    pub open spec fn wf(self) -> bool {
        &&& 1 <= self.time_constant_ms <= TC_LIMIT
        &&& self.min_smoothed_delta_size <= self.min_delta_size
    }

    /// Validates and builds a configuration; `decide` can never misbehave
    /// on a configuration built here.
    pub fn new(min_delta_size: i64, min_smoothed_delta_size: i64, time_constant_ms: u64) -> (r:
        Result<FilterConfig, ConfigError>)
        ensures
            r == if time_constant_ms == 0 || time_constant_ms > TC_LIMIT {
                Result::<FilterConfig, ConfigError>::Err(ConfigError::TimeConstantOutOfRange)
            } else if min_smoothed_delta_size > min_delta_size {
                Result::<FilterConfig, ConfigError>::Err(ConfigError::SmoothedThresholdExceedsRaw)
            } else {
                Result::<FilterConfig, ConfigError>::Ok(
                    (FilterConfig { min_delta_size, min_smoothed_delta_size, time_constant_ms }),
                )
            },
            r is Ok ==> r->Ok_0.wf(),
    {
        if time_constant_ms == 0 || time_constant_ms > TC_LIMIT {
            Err(ConfigError::TimeConstantOutOfRange)
        } else if min_smoothed_delta_size > min_delta_size {
            Err(ConfigError::SmoothedThresholdExceedsRaw)
        } else {
            Ok(FilterConfig { min_delta_size, min_smoothed_delta_size, time_constant_ms })
        }
    }
}

/// A delta small enough that every smoothing product stays inside `i64`.
pub open spec fn sample_in_range(s: ScrollSample) -> bool {
    &&& -DELTA_LIMIT <= s.delta_x <= DELTA_LIMIT
    &&& -DELTA_LIMIT <= s.delta_y <= DELTA_LIMIT
}

/// One filter instance: the configuration and the two state registers.
#[derive(Clone, Copy, Debug, PartialEq, Eq, Structural)]
pub struct ScrollFilter {
    pub config: FilterConfig,
    /// The newest raw sample observed so far (by timestamp).
    pub last_raw: ScrollSample,
    /// The exponentially smoothed signal, stamped with the newest event.
    pub last_smoothed: ScrollSample,
}

/// The event's timestamp lies before the stored raw sample's: elapsed time
/// would be negative, so the filter falls back to a raw-threshold verdict.
pub open spec fn clock_anomaly(f: ScrollFilter, t: u64) -> bool {
    t < f.last_raw.timestamp
}

/// The new delta's sign differs from the previous raw delta's on either
/// axis; zero is its own sign.
pub open spec fn direction_change(prev: ScrollSample, dx: i64, dy: i64) -> bool {
    ||| sign_of(dx as int) != sign_of(prev.delta_x as int)
    ||| sign_of(dy as int) != sign_of(prev.delta_y as int)
}

/// The smoothing weight applied to the incoming event: full weight on a
/// direction change (stale opposite-direction history is discarded), the
/// elapsed-time weight otherwise.
pub open spec fn smoothing_weight(f: ScrollFilter, t: u64, dx: i64, dy: i64) -> int {
    if direction_change(f.last_raw, dx, dy) {
        ALPHA_UNIT as int
    } else {
        alpha_for(t - f.last_raw.timestamp, f.config.time_constant_ms as int)
    }
}

/// The filter state after `decide(t, dx, dy)`: on a clock anomaly the state
/// is untouched; otherwise the raw register is overwritten when the event's
/// timestamp is strictly newer, and the smoothed register is re-blended
/// unconditionally.
pub open spec fn stepped(f: ScrollFilter, t: u64, dx: i64, dy: i64) -> ScrollFilter {
    if clock_anomaly(f, t) {
        f
    } else {
        let raw = if t > f.last_raw.timestamp {
            ScrollSample { delta_x: dx, delta_y: dy, timestamp: t }
        } else {
            f.last_raw
        };
        let a = smoothing_weight(f, t, dx, dy);
        ScrollFilter {
            config: f.config,
            last_raw: raw,
            last_smoothed: ScrollSample {
                delta_x: blend_value(dx as int, f.last_smoothed.delta_x as int, a) as i64,
                delta_y: blend_value(dy as int, f.last_smoothed.delta_y as int, a) as i64,
                timestamp: t,
            },
        }
    }
}

/// The verdict of `decide(t, dx, dy)`: on a clock anomaly, forward only if
/// both raw magnitudes reach the raw threshold; on a direction change,
/// forward unconditionally; otherwise forward when the new smoothed signal
/// or the raw delta reaches its threshold on either axis.
pub open spec fn verdict_on(f: ScrollFilter, t: u64, dx: i64, dy: i64) -> bool {
    if clock_anomaly(f, t) {
        magnitude(dx as int) >= f.config.min_delta_size && magnitude(dy as int)
            >= f.config.min_delta_size
    } else if direction_change(f.last_raw, dx, dy) {
        true
    } else {
        let s = stepped(f, t, dx, dy).last_smoothed;
        ||| magnitude(s.delta_x as int) >= f.config.min_smoothed_delta_size
        ||| magnitude(s.delta_y as int) >= f.config.min_smoothed_delta_size
        ||| magnitude(dx as int) >= f.config.min_delta_size
        ||| magnitude(dy as int) >= f.config.min_delta_size
    }
}

impl ScrollFilter {
    /// Valid configuration and bounded state registers.
    pub open spec fn wf(self) -> bool {
        &&& self.config.wf()
        &&& sample_in_range(self.last_raw)
        &&& sample_in_range(self.last_smoothed)
    }

    /// A fresh filter: both registers hold the zero sentinel sample, so the
    /// first real event is treated as arbitrarily old.
    pub fn new(config: FilterConfig) -> (f: ScrollFilter)
        requires
            config.wf(),
        ensures
            f == (ScrollFilter {
                config,
                last_raw: ScrollSample { delta_x: 0, delta_y: 0, timestamp: 0 },
                last_smoothed: ScrollSample { delta_x: 0, delta_y: 0, timestamp: 0 },
            }),
            f.wf(),
    {
        ScrollFilter {
            config,
            last_raw: ScrollSample { delta_x: 0, delta_y: 0, timestamp: 0 },
            last_smoothed: ScrollSample { delta_x: 0, delta_y: 0, timestamp: 0 },
        }
    }

    /// Observes one timestamped delta, updates the two state registers,
    /// and returns the verdict. A result of `true` means the event should
    /// pass through; `false` means it should be dropped as jitter.
    pub fn decide(&mut self, event_time: u64, delta_x: i64, delta_y: i64) -> (forward: bool)
        requires
            old(self).wf(),
            -DELTA_LIMIT <= delta_x <= DELTA_LIMIT,
            -DELTA_LIMIT <= delta_y <= DELTA_LIMIT,
        ensures
            forward == verdict_on(*old(self), event_time, delta_x, delta_y),
            *final(self) == stepped(*old(self), event_time, delta_x, delta_y),
            final(self).wf(),
            final(self).config == old(self).config,
    {
        let previous = self.last_raw;
        if event_time < previous.timestamp {
            return abs_i64(delta_x) >= self.config.min_delta_size && abs_i64(delta_y)
                >= self.config.min_delta_size;
        }
        if event_time > previous.timestamp {
            self.last_raw = ScrollSample { delta_x, delta_y, timestamp: event_time };
        }
        let reversed = sign_i64(delta_x) != sign_i64(previous.delta_x) || sign_i64(delta_y)
            != sign_i64(previous.delta_y);
        let alpha = if reversed {
            ALPHA_UNIT
        } else {
            alpha_from_elapsed(event_time - previous.timestamp, self.config.time_constant_ms)
        };
        let sx = blend(delta_x, self.last_smoothed.delta_x, alpha);
        let sy = blend(delta_y, self.last_smoothed.delta_y, alpha);
        self.last_smoothed = ScrollSample { delta_x: sx, delta_y: sy, timestamp: event_time };
        if reversed {
            return true;
        }
        abs_i64(sx) >= self.config.min_smoothed_delta_size || abs_i64(sy)
            >= self.config.min_smoothed_delta_size || abs_i64(delta_x)
            >= self.config.min_delta_size || abs_i64(delta_y) >= self.config.min_delta_size
    }
}

} // verus!
