use scroll_filter::filter::{FilterConfig, ScrollFilter};

fn standard_filter() -> ScrollFilter {
    // 4/120 and 2/120 of a notch in 1/120000 notch units, 80 ms time constant.
    let config = match FilterConfig::new(4000, 2000, 80) {
        Ok(c) => c,
        Err(_) => panic!("valid configuration rejected"),
    };
    ScrollFilter::new(config)
}

#[test]
fn first_small_tick_forwards_as_reversal_from_zero() {
    let mut f = standard_filter();
    // The sentinel state has zero deltas; zero is its own sign, so any
    // nonzero first delta is a direction change and is forwarded.
    assert!(f.decide(0, 1000, 0));
    assert_eq!(f.last_smoothed.delta_x, 1000);
    assert_eq!(f.last_smoothed.delta_y, 0);
}

#[test]
fn steady_small_ticks_settle_to_suppressed() {
    let mut f = standard_filter();
    // 1/120 notch every 50 ms. The first two events still compare against
    // the zero sentinel raw register (a timestamp of 0 never overwrites it),
    // so they forward as direction changes; after that the smoothed signal
    // holds steady at 1000, below the smoothed threshold of 2000.
    assert!(f.decide(0, 1000, 0));
    assert!(f.decide(50, 1000, 0));
    assert!(!f.decide(100, 1000, 0));
    assert!(!f.decide(150, 1000, 0));
    assert_eq!(f.last_smoothed.delta_x, 1000);
}

#[test]
fn steady_ramp_crosses_smoothed_threshold() {
    let mut f = standard_filter();
    // Seed a tiny positive delta, then feed 3/120 notch every 50 ms: the
    // smoothed signal ramps 100 -> 1447 -> 2168 -> 2554 and the verdict
    // flips to forwarded once it crosses 2000, never regressing.
    assert!(f.decide(1, 100, 0));
    assert!(!f.decide(51, 3000, 0));
    assert_eq!(f.last_smoothed.delta_x, 1447);
    assert!(f.decide(101, 3000, 0));
    assert_eq!(f.last_smoothed.delta_x, 2168);
    assert!(f.decide(151, 3000, 0));
    assert_eq!(f.last_smoothed.delta_x, 2554);
}

#[test]
fn reversal_always_forwards_tiny_delta() {
    let mut f = standard_filter();
    assert!(f.decide(1, 1000, 0));
    // A sign flip forwards however small the delta, and resets the smoothed
    // state to the new event alone.
    assert!(f.decide(2, -1, 0));
    assert_eq!(f.last_smoothed.delta_x, -1);
}

#[test]
fn reversal_on_y_axis_forwards() {
    let mut f = standard_filter();
    assert!(f.decide(1, 0, 1000));
    assert!(f.decide(2, 0, -5));
    assert_eq!(f.last_smoothed.delta_y, -5);
}

#[test]
fn raw_escape_hatch_first_event() {
    let mut f = standard_filter();
    // 0.05 notch exceeds the raw threshold: forwarded immediately.
    assert!(f.decide(10, 6000, 0));
}

#[test]
fn raw_escape_hatch_without_reversal() {
    let mut f = standard_filter();
    assert!(f.decide(1, 100, 0));
    // Only 1 ms later the smoothing weight is tiny, so the smoothed signal
    // (173) stays far below its threshold; the raw magnitude alone forwards.
    assert!(f.decide(2, 6000, 0));
    assert_eq!(f.last_smoothed.delta_x, 173);
}

#[test]
fn raw_threshold_is_inclusive() {
    let mut f = standard_filter();
    assert!(f.decide(1, 100, 0));
    // One delta exactly at the raw threshold forwards; one unit below it
    // does not (the smoothed signal is still far too small either way).
    assert!(f.decide(2, 4000, 0));
    let mut g = standard_filter();
    assert!(g.decide(1, 100, 0));
    assert!(!g.decide(2, 3999, 0));
}

#[test]
fn small_tick_after_raw_escape_reverses() {
    let mut f = standard_filter();
    assert!(f.decide(5, 2400, 0));
    // The reversal is forwarded unconditionally and the smoothed state is
    // rebuilt from the new sign alone.
    assert!(f.decide(10, -1200, 0));
    assert_eq!(f.last_smoothed.delta_x, -1200);
}

#[test]
fn zero_deltas_stay_suppressed() {
    let mut f = standard_filter();
    assert!(!f.decide(10, 0, 0));
    assert!(!f.decide(20, 0, 0));
    assert!(!f.decide(30, 0, 0));
    assert_eq!(f.last_smoothed.delta_x, 0);
    assert_eq!(f.last_smoothed.delta_y, 0);
}

#[test]
fn clock_anomaly_falls_back_to_raw_threshold() {
    let mut f = standard_filter();
    assert!(f.decide(100, 1000, 0));
    let before = f;
    // An event timestamped before the stored raw sample forwards only if
    // both raw magnitudes reach the raw threshold, and leaves the state
    // untouched.
    assert!(f.decide(50, 5000, -5000));
    assert_eq!(f, before);
    assert!(!f.decide(50, 5000, 0));
    assert_eq!(f, before);
}

#[test]
fn equal_timestamp_keeps_raw_register() {
    let mut f = standard_filter();
    assert!(f.decide(1, 1000, 0));
    // A duplicate timestamp never overwrites the raw register, but the
    // event is still judged (here: a reversal) and still re-blends the
    // smoothed register.
    assert!(f.decide(1, -500, 0));
    assert_eq!(f.last_raw.delta_x, 1000);
    assert_eq!(f.last_raw.timestamp, 1);
    assert_eq!(f.last_smoothed.delta_x, -500);
}

#[test]
fn long_steady_run_stays_forwarded() {
    let mut f = standard_filter();
    assert!(f.decide(1, 100, 0));
    let mut t: u64 = 51;
    let mut verdict = false;
    for _ in 0..1000 {
        verdict = f.decide(t, 3000, 0);
        t += 50;
    }
    // The state is two registers however long the run: the smoothed signal
    // converges just under the steady input and the verdict stays forward.
    assert!(verdict);
    assert_eq!(f.last_smoothed.delta_x, 2998);
    assert!(f.decide(t, 3000, 0));
}
