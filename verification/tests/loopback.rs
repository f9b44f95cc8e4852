use vox::loopback::{is_same_device, negotiate_channels, report, Params, Tally};
use vox::smoke::Observed;

#[test]
fn loopback_rings_hold_their_time() {
    let params = Params { ring_ms: 50, secs: 30 };
    assert_eq!(params.capacity(1), 2400);
    assert_eq!(params.capacity(2), 4800);
    let short = Params { ring_ms: 1, secs: 30 };
    assert_eq!(short.capacity(2), 128);
    assert!(params.ring_fits(1));
    assert!(!params.ring_fits(0));
}

#[test]
fn loopback_starts_half_full_of_silence() {
    let params = Params { ring_ms: 50, secs: 30 };
    let (mut sink, mut source) = params.open(1);
    assert_eq!(sink.push(&[5; 1500]), 1200);
    let mut data = [9u32; 3000];
    assert_eq!(source.fill(&mut data), 2400);
    assert!(data[..1200].iter().all(|&s| s == 0));
    assert!(data[1200..2400].iter().all(|&s| s == 5));
    assert!(data[2400..].iter().all(|&s| s == 0));
}

#[test]
fn loopback_wants_two_devices() {
    let a = Some("a".to_string());
    let b = Some("b".to_string());
    assert!(is_same_device(&a, &a));
    assert!(!is_same_device(&a, &b));
    assert!(!is_same_device(&a, &None));
    assert!(!is_same_device(&None, &None));
}

#[test]
fn both_devices_must_accept_a_channel_count() {
    assert_eq!(negotiate_channels(|_, _| true, |_, _| true), Some(1));
    assert_eq!(negotiate_channels(|_, _| true, |c, _| c == 2), Some(2));
    assert_eq!(negotiate_channels(|c, _| c == 1, |c, _| c == 2), None);
    assert_eq!(negotiate_channels(|_, _| false, |_, _| true), None);
    assert_eq!(negotiate_channels(|_, r| r == 48_000, |_, r| r == 48_000), Some(1));
}

#[test]
fn loopback_reports_its_tally() {
    let tally = Tally { captured: 100, played: 90, dropped: 8, starved: 12 };
    assert_eq!(
        report(&tally),
        [
            "results (samples):",
            "  captured 100, played 90",
            "  dropped (overrun) 8, starved (underrun) 12",
        ]
    );
}

fn observed(samples: u64, channels: u16, errors: u64) -> Observed {
    Observed {
        rate: 48_000,
        channels,
        format: "F32".to_string(),
        fell_back: false,
        samples,
        errors,
    }
}

#[test]
fn streams_pass_within_a_tenth_of_their_rate() {
    assert!(observed(480_000, 1, 0).is_ok(10));
    assert!(observed(432_000, 1, 0).is_ok(10));
    assert!(!observed(431_999, 1, 0).is_ok(10));
    assert!(observed(528_000, 1, 0).is_ok(10));
    assert!(!observed(528_001, 1, 0).is_ok(10));
    assert!(!observed(480_000, 1, 1).is_ok(10));
    assert!(observed(960_000, 2, 0).is_ok(10));
    assert!(observed(480_000, 0, 0).is_ok(10));
    assert!(!observed(0, 1, 0).is_ok(0));
}

#[test]
fn fallbacks_are_explained() {
    let mut o = observed(0, 1, 0);
    assert_eq!(o.fallback_note(), "");
    o.fell_back = true;
    assert_eq!(o.fallback_note(), "  (fallback: )");
    o.rate = 44_100;
    assert_eq!(
        o.fallback_note(),
        "  (fallback: rate != 48 kHz (resampling, Phase 2))"
    );
    o.channels = 2;
    assert_eq!(
        o.fallback_note(),
        "  (fallback: rate != 48 kHz (resampling, Phase 2); not mono (channel down/up-mix needed))"
    );
    o.rate = 48_000;
    assert_eq!(
        o.fallback_note(),
        "  (fallback: not mono (channel down/up-mix needed))"
    );
}

#[test]
fn streams_are_reported() {
    let o = observed(960_000, 2, 0);
    assert_eq!((o.frames(), o.expected(10)), (480_000, 480_000));
    assert_eq!(
        o.report("capture", "mic", "100.0", 10),
        [
            "  capture: mic",
            "    config: 48000 Hz, 2 ch, F32",
            "    frames: 480000 (~100.0% of expected 480000), errors: 0",
            "    -> OK",
        ]
    );
    assert_eq!(observed(1, 1, 0).report("x", "y", "0.0", 10)[3], "    -> FAIL");
}
