use ratatui::symbols::braille;
use vox::engine::EngineStats;
use vox::graph::{blank_cells, glyph, plot, GraphCell, Series, BLANK};
use vox::text::{align_left, decimal_text, signed_text, two_digit_text};
use vox::tui::{
    buffer_reading, codec_line, format_duration, human_bytes, is_quit, loss_reading, on_off,
    overruns_reading, push, recenter_line, recenter_reading, total_bytes, DepthHistory, Drift, Key,
    Reading, HISTORY,
};

/// A byte count by floating point.
fn float_bytes(bytes: u64) -> String {
    let (k, b) = (1024.0, bytes as f64);
    if b < k {
        format!("{bytes} B")
    } else if b < k * k {
        format!("{:.1} KB", b / k)
    } else if b < k * k * k {
        format!("{:.1} MB", b / (k * k))
    } else {
        format!("{:.1} GB", b / (k * k * k))
    }
}

#[test]
fn byte_counts_have_one_decimal_place() {
    assert_eq!(human_bytes(0), "0 B");
    assert_eq!(human_bytes(1023), "1023 B");
    assert_eq!(human_bytes(1024), "1.0 KB");
    assert_eq!(human_bytes(1536), "1.5 KB");
    assert_eq!(human_bytes(1280), "1.2 KB"); // 1.25 rounds to even
    assert_eq!(human_bytes(1792), "1.8 KB"); // 1.75 too
    assert_eq!(human_bytes(1_048_575), "1024.0 KB");
    assert_eq!(human_bytes(1_048_576), "1.0 MB");
    assert_eq!(human_bytes(5 * 1_073_741_824), "5.0 GB");
}

#[test]
fn byte_counts_agree_with_floating_point() {
    for bytes in 0..20_000u64 {
        assert_eq!(human_bytes(bytes), float_bytes(bytes));
    }
    let mut bytes = 1u64;
    while bytes < 1 << 50 {
        for near in [bytes - 1, bytes, bytes + 1, bytes + bytes / 4, bytes + 3 * (bytes / 4)] {
            assert_eq!(human_bytes(near), float_bytes(near));
        }
        bytes = bytes * 3 + 1;
    }
}

#[test]
fn totals_add_both_directions() {
    let mut stats = EngineStats::default();
    stats.bytes_sent = 1000;
    stats.bytes_received = 536;
    assert_eq!(total_bytes(&stats), "1.5 KB");
    stats.bytes_sent = u64::MAX;
    stats.bytes_received = u64::MAX;
    assert_eq!(total_bytes(&stats), "34359738368.0 GB");
}

#[test]
fn durations_are_hours_minutes_seconds() {
    assert_eq!(format_duration(0), "00:00:00");
    assert_eq!(format_duration(59), "00:00:59");
    assert_eq!(format_duration(3661), "01:01:01");
    assert_eq!(format_duration(360_000), "100:00:00");
}

#[test]
fn numbers_are_written_in_decimal() {
    for n in [0u128, 7, 10, 99, 100, 1_000_000, u64::MAX as u128, u128::MAX] {
        assert_eq!(decimal_text(n), n.to_string());
    }
    for n in [0i64, -1, 24_000, i64::MIN, i64::MAX] {
        assert_eq!(signed_text(n), n.to_string());
    }
    assert_eq!(two_digit_text(5), "05");
    assert_eq!(two_digit_text(123), "123");
    assert_eq!(align_left("é", 4), "é   ");
    assert_eq!(align_left("abcdef", 4), "abcdef");
}

#[test]
fn codec_and_recenter_lines() {
    assert_eq!(
        codec_line(24_000, true, false, 150, false),
        "24000 bps   fec on   dtx off   jitter 150 ms   drift off"
    );
    assert_eq!((on_off(true), on_off(false)), ("on", "off"));
    let mut stats = EngineStats::default();
    assert_eq!(recenter_reading(&stats), Reading::Good);
    stats.recenter_drops = 3;
    stats.recenter_inserts = 4;
    assert_eq!(recenter_line(&stats), "7  (drop 3 / hold 4)");
    assert_eq!(recenter_reading(&stats), Reading::Warning);
}

#[test]
fn readings_have_their_thresholds() {
    assert_eq!(buffer_reading(0, 0), Reading::Bad);
    assert_eq!(buffer_reading(19, 100), Reading::Bad);
    assert_eq!(buffer_reading(20, 100), Reading::Good);
    assert_eq!(buffer_reading(80, 100), Reading::Good);
    assert_eq!(buffer_reading(81, 100), Reading::Warning);
    assert_eq!(buffer_reading(200, 100), Reading::Warning);

    let mut stats = EngineStats::default();
    assert_eq!(loss_reading(&stats), Reading::Good);
    stats.gap_frames = 1;
    stats.packets_received = 20;
    assert_eq!(loss_reading(&stats), Reading::Warning);
    stats.packets_received = 19;
    assert_eq!(loss_reading(&stats), Reading::Bad);

    assert_eq!(overruns_reading(&stats), Reading::Good);
    stats.overruns = 1;
    assert_eq!(overruns_reading(&stats), Reading::Bad);
}

#[test]
fn histories_shift() {
    let mut history = vec![1.0f64, 2.0, 3.0];
    push(&mut history, 4.0);
    assert_eq!(history, [2.0, 3.0, 4.0]);
}

/// The trend by floating point.
fn float_drift(history: &[f64]) -> f64 {
    let n = history.len();
    if n < 20 {
        return 0.0;
    }
    let half = n / 2;
    let mean = |s: &[f64]| s.iter().sum::<f64>() / s.len() as f64;
    (mean(&history[half..]) - mean(&history[..half])) * 240.0 / n as f64
}

#[test]
fn drift_is_the_trend_of_the_depth() {
    let mut history = DepthHistory::new();
    let mut floats = Vec::new();
    for i in 0..500u64 {
        let depth = 50 + i / 3 + (i * 7) % 5;
        history.record(depth);
        floats.push(depth as f64);
        if floats.len() > HISTORY {
            floats.remove(0);
        }
        let drift = history.drift_per_min();
        let value = drift.numerator as f64 / drift.denominator as f64;
        assert!((value - float_drift(&floats)).abs() < 1e-9);
        if i < 19 {
            assert_eq!(drift.numerator, 0);
        }
    }
    // A third of a millisecond per half second is 40 ms a minute.
    let drift = history.drift_per_min();
    assert!((drift.numerator as f64 / drift.denominator as f64 - 40.0).abs() < 1.0);
    assert!(drift.is_notable());
}

#[test]
fn a_level_buffer_shows_no_drift() {
    let mut history = DepthHistory::new();
    for _ in 0..100 {
        history.record(60);
    }
    let drift = history.drift_per_min();
    assert_eq!(drift.numerator, 0);
    assert!(!drift.is_notable());
}

#[test]
fn a_draining_buffer_is_notable() {
    let mut history = DepthHistory::new();
    for i in 0..40u64 {
        history.record(100 - i);
    }
    let drift = history.drift_per_min();
    assert!(drift.numerator < 0);
    assert!(drift.is_notable());
}

#[test]
fn two_ms_a_minute_is_notable() {
    let notable = |numerator: i128, denominator: i128| {
        Drift {
            numerator,
            denominator,
        }
        .is_notable()
    };
    assert!(notable(2, 1) && notable(-2, 1) && notable(7, 3) && notable(6, 3));
    assert!(!notable(1, 1) && !notable(-5, 3) && !notable(0, 1));
    assert!(notable(i128::MIN, 1 << 126) && !notable(i128::MAX, i128::MAX));
}

#[test]
fn quit_keys() {
    assert!(is_quit(Key::Char('q'), false));
    assert!(is_quit(Key::Esc, false));
    assert!(is_quit(Key::Char('c'), true));
    assert!(!is_quit(Key::Char('c'), false));
    assert!(!is_quit(Key::Char('Q'), false));
    assert!(!is_quit(Key::Other, true));
}

/// The grid that straightforward drawing gives.
fn drawn(width: usize, height: usize, heights: &[usize], is_tx: bool, cells: &mut [GraphCell]) {
    let mut previous = None;
    for (x, &y) in heights.iter().enumerate() {
        let (low, high) = match previous {
            None => (y, y),
            Some(p) => (y.min(p), y.max(p)),
        };
        for row in low..=high {
            let cell = &mut cells[(row / 4) * width + x / 2];
            cell.bits |= braille::DOTS[row % 4][x % 2];
            if is_tx {
                cell.tx = true;
            } else {
                cell.rx = true;
            }
        }
        previous = Some(y);
    }
    assert_eq!(cells.len(), width * height);
}

#[test]
fn lines_are_drawn_in_braille() {
    let (width, height) = (7, 3);
    let tx = [0, 11, 5, 5, 6, 2, 0, 0, 9, 10, 11, 1, 1, 4];
    let rx = [11, 11, 11, 10, 3, 3, 3, 8, 0, 0, 5, 6, 7, 8];
    let mut cells = blank_cells(width * height);
    let mut expected = cells.clone();
    plot(&mut cells, width, height, &tx, true);
    drawn(width, height, &tx, true, &mut expected);
    assert_eq!(cells, expected);
    plot(&mut cells, width, height, &rx, false);
    drawn(width, height, &rx, false, &mut expected);
    assert_eq!(cells, expected);
    plot(&mut cells, width, height, &[], true);
    assert_eq!(cells, expected);
}

#[test]
fn cells_are_shown_by_series() {
    let cell = |bits: u16, tx: bool, rx: bool| GraphCell { bits, tx, rx };
    assert_eq!(glyph(cell(0, true, true)), None);
    assert_eq!(glyph(cell(1, false, false)), None);
    assert_eq!(glyph(cell(0x01, true, false)), Some((0x2801, Series::Tx)));
    assert_eq!(glyph(cell(0xFF, false, true)), Some((0x28FF, Series::Rx)));
    assert_eq!(glyph(cell(0x80, true, true)), Some((0x2880, Series::Both)));
    assert_eq!(BLANK, braille::BLANK as u32);
}

#[test]
fn lit_cells_are_braille_patterns() {
    let heights: Vec<usize> = (0..20).map(|x| (x * 7) % 16).collect();
    let mut cells = blank_cells(40);
    plot(&mut cells, 10, 4, &heights, true);
    for cell in cells {
        assert!(cell.bits < 0x100);
        if let Some((code, _)) = glyph(cell) {
            assert!((0x2801..=0x28FF).contains(&code));
        }
    }
}
