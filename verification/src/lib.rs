//! A filter for raw mouse-wheel scroll events.
//!
//! Given a stream of timestamped 2-D scroll deltas, the filter decides per
//! event whether to forward it to the input pipeline or to suppress it as
//! hardware jitter. The decision uses exponential smoothing of the delta
//! signal together with direction-change detection, so that sustained
//! gestures and direction reversals always pass while isolated low-amplitude
//! ticks are dropped.
//!
//! All quantities are fixed-point integers: scroll deltas are measured in
//! 1/120000 of a wheel notch, timestamps in milliseconds, and smoothing
//! weights in millionths.

pub mod app_config;
pub mod filter;
pub mod laws;
pub mod smoothing;
