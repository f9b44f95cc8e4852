use vox::audio::FRAME;
use vox::jitter::{
    adaptive_watermarks, ease, initial_depth, JitterEstimator, TICKS_PER_MS, TICKS_PER_S,
};

const MONO: usize = 1;
const MS: u64 = 1_000_000;

/// An estimate in seconds.
fn secs(ticks: u128) -> f64 {
    ticks as f64 / TICKS_PER_S as f64
}

#[test]
fn steady_arrivals_have_zero_jitter() {
    let mut est = JitterEstimator::new();
    let mut now = 123_456_789u64;
    let mut ts = 0u32;
    let mut j = 0.0;
    for _ in 0..50 {
        j = secs(est.update(now, ts));
        now += 20 * MS; // exactly one frame apart
        ts = ts.wrapping_add(FRAME as u32);
    }
    assert!(
        j < 1e-6,
        "steady arrivals should have ~zero jitter, got {j}"
    );
}

#[test]
fn uneven_arrivals_raise_jitter() {
    let mut est = JitterEstimator::new();
    let mut now = 0u64;
    let mut ts = 0u32;
    let mut j = 0.0;
    for i in 0..50 {
        j = secs(est.update(now, ts));
        // Alternate 5 ms / 35 ms spacing around the 20 ms nominal.
        now += if i % 2 == 0 { 5 * MS } else { 35 * MS };
        ts = ts.wrapping_add(FRAME as u32);
    }
    assert!(j > 0.005, "uneven arrivals should raise jitter, got {j}");
}

#[test]
fn late_arrival_is_ignored() {
    let mut est = JitterEstimator::new();
    let now = 1_000 * MS;
    est.update(now, 10 * FRAME as u32);
    let before = est.update(now + 20 * MS, 11 * FRAME as u32);
    // A frame whose timestamp went backward (late/dup) must not change the estimate.
    let after = est.update(now + 40 * MS, 3 * FRAME as u32);
    assert_eq!(before, after);
}

#[test]
fn watermarks_grow_with_jitter_and_stay_in_bounds() {
    let cap = 48_000; // 1 s mono ring
    let (lo0, hi0) = adaptive_watermarks(0, 48_000, MONO, cap);
    let (lo1, hi1) = adaptive_watermarks(20 * TICKS_PER_MS, 48_000, MONO, cap); // 20 ms jitter

    assert!(
        lo0 >= FRAME,
        "low floored at one frame (the underrun cushion)"
    );
    assert!(lo0 < hi0 && hi0 <= cap - FRAME, "ordered and within rails");
    // The band deepens via the high watermark; low stays at the underrun floor.
    assert!(hi1 > hi0 && lo1 >= lo0, "band deepens with jitter");
}

#[test]
fn ease_attacks_fast_releases_slow() {
    let grow = ease(1000, 2000);
    let shrink = ease(2000, 1000);
    assert!(1000 < grow && grow < 2000 && 1000 < shrink && shrink < 2000);
    assert!(grow - 1000 > 2000 - shrink, "attack should outpace release");

    let mut x = 1000;
    for _ in 0..500 {
        x = ease(x, 1800);
    }
    // Converges to within the rounding stall (a few samples, sub-0.1 ms).
    assert!((x as i64 - 1800).abs() <= 5, "easing converges, got {x}");
}

#[test]
fn watermarks_clamp_to_a_small_ring() {
    let cap = 3 * FRAME; // tiny ring
    let (low, high) = adaptive_watermarks(50 * TICKS_PER_MS, 48_000, MONO, cap);
    assert!(low >= FRAME && high <= cap - FRAME && low < high);
}

#[test]
fn watermarks_have_exact_values() {
    // 85 ms at 48 kHz mono; the low mark is floored at one frame.
    assert_eq!(adaptive_watermarks(0, 48_000, 1, 48_000), (960, 4080));
    // 20 ms of jitter: 85 + 2 * 60 = 205 ms.
    assert_eq!(
        adaptive_watermarks(20 * TICKS_PER_MS, 48_000, 1, 48_000),
        (960, 9840)
    );
    assert_eq!(adaptive_watermarks(0, 44_100, 2, 100_000), (1920, 7497));
    // A one-frame ring cannot keep its rails; the marks stay ordered.
    assert_eq!(adaptive_watermarks(0, 48_000, 1, 960), (960, 1920));
    assert_eq!(initial_depth(48_000, 1, 7200), 2520);
}

#[test]
fn the_estimate_moves_a_sixteenth_of_the_way() {
    let mut est = JitterEstimator::new();
    est.update(0, 0);
    // 36 ms where 20 ms was due: 16 ms off, of which a sixteenth counts.
    assert_eq!(est.update(36 * MS, 960), TICKS_PER_MS);
    // On time again: a sixteenth of it goes.
    assert_eq!(
        est.update(56 * MS, 1920),
        TICKS_PER_MS - TICKS_PER_MS / 16
    );
}

#[test]
fn lost_packets_are_not_jitter() {
    let mut est = JitterEstimator::new();
    est.update(0, 0);
    // Four frames lost: the next comes five frame times later, as its timestamp says.
    assert_eq!(est.update(100 * MS, 5 * 960), 0);
    // Across the wrap of the timestamp, too.
    let mut est = JitterEstimator::new();
    est.update(0, u32::MAX - 959);
    assert_eq!(est.update(20 * MS, 0), 0);
    assert_eq!(est.update(40 * MS, 960), 0);
}

#[test]
fn a_clock_that_goes_back_counts_as_no_time() {
    let mut est = JitterEstimator::new();
    est.update(50 * MS, 0);
    assert_eq!(est.update(40 * MS, 960), 20 * TICKS_PER_MS / 16);
}

#[test]
fn easing_has_exact_steps() {
    assert_eq!(ease(1000, 2000), 1100);
    assert_eq!(ease(2000, 1000), 1990);
    assert_eq!(ease(1000, 1005), 1001);
    assert_eq!(ease(1000, 1004), 1000);
    assert_eq!(ease(1050, 1000), 1050);
    assert_eq!(ease(1051, 1000), 1050);
    assert_eq!(ease(7, 7), 7);
    for current in (0..40_000usize).step_by(977) {
        for target in (0..40_000usize).step_by(991) {
            let alpha = if target > current { 0.1 } else { 0.01 };
            let float = (current as f64 + alpha * (target as f64 - current as f64)).round();
            assert!((ease(current, target) as f64 - float).abs() <= 1.0);
        }
    }
}

#[test]
fn the_start_depth_is_inside_the_band_and_half_the_ring() {
    for channels in 1..=3usize {
        for rate in [0u32, 8_000, 44_100, 48_000, 192_000] {
            for frames in [3usize, 4, 7, 50] {
                let capacity = frames * FRAME * channels;
                let (low, high) = adaptive_watermarks(0, rate, channels, capacity);
                let depth = initial_depth(rate, channels, capacity);
                assert_eq!(depth, (low + high) / 2);
                assert!(low < depth && depth < high);
                assert!(1440 * channels <= depth && depth <= capacity / 2);
            }
        }
    }
    assert_eq!(initial_depth(48_000, 1, usize::MAX), 2520);
}

#[test]
fn any_jitter_has_watermarks() {
    let mut last = 0;
    for shift in 0..128 {
        let (low, high) = adaptive_watermarks(1u128 << shift, 48_000, 2, 1 << 40);
        assert_eq!(low, 2 * FRAME);
        assert!(high >= last);
        last = high;
    }
    assert_eq!(last, (1 << 40) - 2 * FRAME);
    assert_eq!(adaptive_watermarks(u128::MAX, 48_000, 1, 7200), (960, 6240));
    assert_eq!(adaptive_watermarks(u128::MAX, 0, 1, 7200), (960, 1920));
    // One sample a second: the seconds count, not just what is left of them.
    assert_eq!(
        adaptive_watermarks(10_000 * TICKS_PER_S, 1, 1, usize::MAX),
        (960, 60_000)
    );
}

#[test]
fn an_estimate_of_any_size_is_smoothed() {
    let mut est = JitterEstimator {
        last: Some((0, 0)),
        jitter: u128::MAX,
    };
    assert_eq!(est.update(20 * MS, 960), u128::MAX - (1 << 124));
}

#[test]
fn the_estimate_does_not_stall() {
    // Fifteen forty-eighths of a nanosecond, and an arrival on time: a sixteenth goes.
    let unit = TICKS_PER_S / 48_000_000_000;
    let mut est = JitterEstimator {
        last: Some((0, 0)),
        jitter: 15 * unit,
    };
    assert_eq!(est.update(20 * MS, 960), 15 * unit - 15 * unit / 16);
    // On a steady link it falls all the way.
    let mut n = 1;
    while est.jitter > 0 {
        n += 1;
        let before = est.jitter;
        assert!(est.update(n * 20 * MS, n as u32 * 960) < before);
    }
    assert!(n < 1000, "{n}");
}

#[test]
fn the_estimate_follows_floating_point() {
    let mut est = JitterEstimator::new();
    let mut now = 0u64;
    let mut float = 0.0f64;
    let mut state = 12345u64;
    est.update(now, 0);
    for n in 1..5000u32 {
        state = state.wrapping_mul(6364136223846793005).wrapping_add(1442695040888963407);
        let spacing = 20 * MS + (state >> 40) - (1 << 23);
        now += spacing;
        let off = (spacing as f64 * 1e-9 - 0.02).abs();
        float += (off - float) / 16.0;
        assert!((secs(est.update(now, n * 960)) - float).abs() < 1e-15);
    }
}

#[test]
fn watermarks_take_many_channels() {
    let channels = 1usize << 40;
    let frame = FRAME * channels;
    assert_eq!(
        adaptive_watermarks(0, 48_000, channels, usize::MAX),
        (frame, 4080 * channels)
    );
    assert_eq!(initial_depth(48_000, channels, usize::MAX), 2520 * channels);
}
