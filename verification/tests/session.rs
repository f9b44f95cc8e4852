use vox::cli::OutputMode;
use vox::engine::EngineStats;
use vox::logging::{clean_prefix, is_clean, level_for, Level, LevelFilter};
use vox::session::{
    bind_for, deadline, is_over, peer_for, quality_line, report_final, running_line, stream_label,
    with_default_port, Liveness, Mode, Progress, RouteError, Sampler, SessionInfo,
    REPORT_INTERVAL_MS,
};

#[test]
fn modes_follow_the_roles() {
    assert_eq!(Mode::of(true, true).unwrap().label(), "full duplex");
    assert_eq!(Mode::of(true, false).unwrap().label(), "send-only");
    assert_eq!(Mode::of(false, true).unwrap().label(), "receive-only");
    assert_eq!(Mode::of(false, false), None);
    assert_eq!(
        RouteError::NothingToDo.message(),
        "both capture and playback are 'none'; nothing to do"
    );
}

#[test]
fn a_missing_port_is_filled_in() {
    assert_eq!(with_default_port("192.168.1.50"), "192.168.1.50:9680");
    assert_eq!(with_default_port("host:1234"), "host:1234");
    assert_eq!(with_default_port("::1"), "::1");
    assert_eq!(with_default_port(""), ":9680");
}

#[test]
fn sending_needs_a_peer() {
    let peer = Some("host".to_string());
    assert_eq!(peer_for(true, &peer), Ok(Some("host:9680".to_string())));
    assert_eq!(peer_for(false, &peer), Ok(None));
    assert_eq!(peer_for(false, &None), Ok(None));
    assert_eq!(peer_for(true, &None), Err(RouteError::NoPeer));
    assert_eq!(
        RouteError::NoPeer.message(),
        "--peer (host[:port]) is required to send captured audio"
    );
}

#[test]
fn only_receivers_bind_by_default() {
    assert_eq!(bind_for(true, None), Some(9680));
    assert_eq!(bind_for(false, None), None);
    assert_eq!(bind_for(true, Some(7)), Some(7));
    assert_eq!(bind_for(false, Some(7)), Some(7));
}

#[test]
fn streams_are_labelled() {
    assert_eq!(stream_label(Some(1), 44_100), "  [44100 Hz, mono]");
    assert_eq!(stream_label(Some(2), 48_000), "  [48000 Hz, stereo]");
    assert_eq!(stream_label(Some(6), 48_000), "  [48000 Hz, 6 ch]");
    assert_eq!(stream_label(None, 48_000), "");
}

#[test]
fn sessions_are_summed_up() {
    let mut info = SessionInfo {
        mode: Mode::FullDuplex,
        capture: "mic  [48000 Hz, mono]".to_string(),
        playback: "none".to_string(),
        peer: Some("10.0.0.1:9680".to_string()),
        bind: "0.0.0.0:9680".to_string(),
        bitrate: 24_000,
        jitter_ms: 150,
        fec: true,
        dtx: false,
    };
    assert_eq!(
        info.summary("0.1.0"),
        [
            "vox 0.1.0 — full duplex",
            "capture  mic  [48000 Hz, mono]",
            "playback none",
            "sending to 10.0.0.1:9680",
            "listening 0.0.0.0:9680",
            "codec 24000 bps, jitter 150 ms, fec=true, dtx=false",
        ]
    );
    info.peer = None;
    assert_eq!(info.summary("0.1.0").len(), 5);
    assert_eq!(running_line(None), "running (Ctrl+C to stop)");
    assert_eq!(running_line(Some(30)), "running for 30s (Ctrl+C to stop early)");
}

fn stats() -> EngineStats {
    let mut stats = EngineStats::default();
    stats.packets_sent = 100;
    stats.bytes_sent = 10_240;
    stats.packets_received = 90;
    stats.bytes_received = 9_215;
    stats.gap_frames = 4;
    stats.dropped_late = 3;
    stats.overruns = 2;
    stats.recenter_drops = 7;
    stats.recenter_inserts = 5;
    stats
}

#[test]
fn final_reports_cover_the_enabled_directions() {
    let sent = "sent 100 packets (10 KiB)";
    let received = "received 90 packets (8 KiB), 4 gap frames, 3 late/dup, 2 overruns, \
                    12 recenter (drop 7 / hold 5)";
    let plain = OutputMode::Plain;
    assert_eq!(report_final(plain, true, true, &stats()), ["stopped", sent, received]);
    assert_eq!(report_final(plain, true, false, &stats()), ["stopped", sent]);
    assert_eq!(report_final(OutputMode::Tui, false, true, &stats()), ["stopped", received]);
    assert!(report_final(OutputMode::Quiet, true, true, &stats()).is_empty());
    assert_eq!(
        quality_line(&stats()),
        "gaps 4 drops 3 overruns 2 recenter 7/5"
    );
}

#[test]
fn progress_is_the_difference() {
    let mut now = stats();
    now.packets_sent = 150;
    now.bytes_sent = 20_000;
    now.packets_received = 95;
    now.bytes_received = 9_300;
    let progress = Progress::between(&stats(), &now);
    assert_eq!((progress.packets_sent, progress.bytes_sent), (50, 9_760));
    assert_eq!((progress.packets_received, progress.bytes_received), (5, 85));
}

#[test]
fn a_peer_is_announced_once_and_silence_once() {
    let mut liveness = Liveness::new(0);
    let mut look = |total: u64, fresh: u64| {
        let news = liveness.observe(total, fresh);
        (news.connected, news.silent)
    };
    assert_eq!(look(0, 0), (false, false));
    assert_eq!(look(10, 10), (true, false));
    assert_eq!(look(20, 10), (false, false));
    assert_eq!(look(20, 0), (false, true));
    assert_eq!(look(20, 0), (false, false));
    assert_eq!(look(30, 10), (false, false));
    assert_eq!(look(30, 0), (false, true));
    let mut seen = Liveness::new(5);
    assert!(!seen.observe(6, 1).connected);
}

#[test]
fn verbosity_sets_the_log_level() {
    assert_eq!(level_for(OutputMode::Plain, 0), LevelFilter::Info);
    assert_eq!(level_for(OutputMode::Plain, 1), LevelFilter::Debug);
    assert_eq!(level_for(OutputMode::Plain, 2), LevelFilter::Trace);
    assert_eq!(level_for(OutputMode::Plain, 255), LevelFilter::Trace);
    assert_eq!(level_for(OutputMode::Quiet, 2), LevelFilter::Warn);
    assert_eq!(level_for(OutputMode::Tui, 2), LevelFilter::Off);
    assert!(is_clean(0) && !is_clean(1));
}

#[test]
fn clean_messages_are_tagged_by_urgency() {
    assert_eq!(clean_prefix(Level::Info), Some(""));
    assert_eq!(clean_prefix(Level::Warn), Some("warning: "));
    assert_eq!(clean_prefix(Level::Error), Some("error: "));
    assert_eq!(clean_prefix(Level::Debug), None);
    assert_eq!(clean_prefix(Level::Trace), None);
}

#[test]
fn counters_are_sampled_at_intervals() {
    let mut sampler = Sampler::new(500, 1000, stats());
    assert!(!sampler.is_due(1000));
    assert!(!sampler.is_due(1499));
    assert!(sampler.is_due(1500));
    assert!(!sampler.is_due(900));
    let mut now = stats();
    now.packets_sent = 125;
    let sample = sampler.sample(1600, now);
    assert_eq!((sample.elapsed_ms, sample.progress.packets_sent), (600, 25));
    assert!(!sampler.is_due(2000));
    assert_eq!(sampler.sample(2100, now).progress.packets_sent, 0);
    assert_eq!(REPORT_INTERVAL_MS, 5000);
}

#[test]
fn sessions_end_after_their_duration() {
    assert_eq!(deadline(100, None), None);
    assert_eq!(deadline(100, Some(3)), Some(3100));
    assert_eq!(deadline(100, Some(u64::MAX)), Some(u64::MAX));
    assert!(!is_over(None, u64::MAX));
    assert!(!is_over(Some(3100), 3099));
    assert!(is_over(Some(3100), 3100));
}
