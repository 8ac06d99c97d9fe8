//! Rate tracker behaviour: exact rationals out of the sliding delta window.

use cbm8032_vis::fps::Fps;

fn ratio_64(r: (u64, u64)) -> f64 {
    r.0 as f64 / r.1 as f64
}

fn ratio_128(r: (u128, u128)) -> f64 {
    r.0 as f64 / r.1 as f64
}

#[test]
fn three_samples_give_expected_rates() {
    // Deltas of 1.0 s, 0.5 s and 2.0 s, measured in milliseconds.
    let mut fps = Fps::with_window_len_and_tick_rate(10, 1000);
    fps.sample(1000);
    fps.sample(1500);
    fps.sample(3500);
    let avg = fps.avg();
    let min = fps.min();
    let max = fps.max();
    assert_eq!(avg, (3 * 1000, 3500));
    assert_eq!(ratio_128(avg), 1.0 / ((1.0 + 0.5 + 2.0) / 3.0));
    assert_eq!(min, (1000, 2000));
    assert_eq!(ratio_64(min), 0.5);
    assert_eq!(max, (1000, 500));
    assert_eq!(ratio_64(max), 2.0);
}

#[test]
fn window_eviction_keeps_only_the_most_recent_deltas() {
    let mut fps = Fps::with_window_len_and_tick_rate(4, 1000);
    // Four slow deltas of 10 ticks each...
    let mut t = 0u64;
    for _ in 0..4 {
        t += 10;
        fps.sample(t);
    }
    assert_eq!(fps.min(), (1000, 10));
    // ...then six fast deltas of 2 ticks each: the slow ones must all be
    // evicted from every subsequent calculation.
    for _ in 0..6 {
        t += 2;
        fps.sample(t);
    }
    assert_eq!(fps.min(), (1000, 2));
    assert_eq!(fps.max(), (1000, 2));
    assert_eq!(fps.avg(), (4 * 1000, 8));
}

#[test]
fn full_window_of_thirtieths_reads_thirty() {
    // Window length 60, every delta exactly 1/30 s: one tick at a tick rate
    // of 30 per second. Average, minimum and maximum all read exactly 30.
    let mut fps = Fps::with_window_len_and_tick_rate(60, 30);
    for t in 1..=70u64 {
        fps.sample(t);
    }
    assert_eq!(fps.avg(), (60 * 30, 60));
    assert_eq!(ratio_128(fps.avg()), 30.0);
    assert_eq!(ratio_64(fps.min()), 30.0);
    assert_eq!(ratio_64(fps.max()), 30.0);
}

#[test]
fn empty_window_reads_zero() {
    let fps = Fps::with_window_len(60);
    assert_eq!(fps.avg(), (0, 1));
    assert_eq!(fps.min(), (0, 1));
    assert_eq!(fps.max(), (0, 1));
    assert_eq!(ratio_128(fps.avg()), 0.0);
    assert_eq!(ratio_64(fps.min()), 0.0);
    assert_eq!(ratio_64(fps.max()), 0.0);
}

#[test]
fn default_tracker_uses_documented_constants() {
    let fps = Fps::default();
    assert_eq!(fps.window_len, Fps::DEFAULT_WINDOW_LEN);
    assert_eq!(fps.window_len, 60);
    assert_eq!(fps.ticks_per_sec, 1_000_000_000);
}

#[test]
fn backwards_clock_counts_as_zero_delta() {
    let mut fps = Fps::with_window_len_and_tick_rate(8, 1000);
    fps.sample(500);
    fps.sample(400);
    // The second delta is clamped to zero, so the fastest interval is zero.
    assert_eq!(fps.max(), (1000, 0));
    assert_eq!(fps.min(), (1000, 500));
}

#[test]
fn rate_sample_mirrors_the_three_getters() {
    let mut fps = Fps::with_window_len_and_tick_rate(10, 1000);
    fps.sample(250);
    fps.sample(1250);
    let s = fps.rate_sample();
    assert_eq!((s.avg_num, s.avg_den), fps.avg());
    assert_eq!((s.min_num, s.min_den), fps.min());
    assert_eq!((s.max_num, s.max_den), fps.max());
}
