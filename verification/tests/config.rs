use vox::cli::{Cli, OutputMode};
use vox::config::{Config, FileConfig, DEFAULT_PORT};

fn bare() -> Cli {
    Cli {
        config: None,
        list_devices: false,
        print_config: false,
        output: OutputMode::default(),
        verbose: 0,
        peer: None,
        bind: None,
        capture: None,
        playback: None,
        capture_sample_rate: None,
        playback_sample_rate: None,
        capture_channels: None,
        playback_channels: None,
        bitrate: None,
        fec: None,
        expected_loss: None,
        dtx: None,
        jitter_ms: None,
        duration: None,
    }
}

#[test]
fn plain_output_is_the_default() {
    assert_eq!(OutputMode::default(), OutputMode::Plain);
}

#[test]
fn defaults_apply_when_nothing_is_said() {
    let config = Config::build(bare(), FileConfig::default());
    assert_eq!(config.peer, None);
    assert_eq!(config.bind, None);
    assert_eq!(config.capture, "default");
    assert_eq!(config.playback, "default");
    assert_eq!(config.capture_channels, None);
    assert_eq!(config.playback_channels, None);
    assert_eq!(config.capture_sample_rate, None);
    assert_eq!(config.playback_sample_rate, None);
    assert_eq!(config.bitrate, 24_000);
    assert!(!config.fec);
    assert_eq!(config.expected_loss, 10);
    assert!(!config.dtx);
    assert_eq!(config.jitter_ms, 150);
    assert_eq!(config.duration, None);
    assert_eq!(DEFAULT_PORT, 9680);
}

#[test]
fn the_file_overrides_the_defaults() {
    let file = FileConfig {
        peer: Some("host".to_string()),
        bind: Some(1),
        capture: Some("mic".to_string()),
        playback: Some("none".to_string()),
        capture_sample_rate: Some(44_100),
        playback_sample_rate: Some(96_000),
        capture_channels: Some(1),
        playback_channels: Some(2),
        bitrate: Some(64_000),
        fec: Some(true),
        expected_loss: Some(3),
        dtx: Some(true),
        jitter_ms: Some(80),
    };
    let config = Config::build(bare(), file);
    assert_eq!(config.peer.as_deref(), Some("host"));
    assert_eq!(config.bind, Some(1));
    assert_eq!(config.capture, "mic");
    assert_eq!(config.playback, "none");
    assert_eq!(config.capture_sample_rate, Some(44_100));
    assert_eq!(config.playback_sample_rate, Some(96_000));
    assert_eq!(config.capture_channels, Some(1));
    assert_eq!(config.playback_channels, Some(2));
    assert_eq!(config.bitrate, 64_000);
    assert!(config.fec && config.dtx);
    assert_eq!(config.expected_loss, 3);
    assert_eq!(config.jitter_ms, 80);
}

#[test]
fn flags_override_the_file() {
    let mut cli = bare();
    cli.peer = Some("flag".to_string());
    cli.capture = Some("none".to_string());
    cli.bitrate = Some(-1);
    cli.fec = Some(false);
    cli.jitter_ms = Some(40);
    cli.duration = Some(30);
    let mut file = FileConfig::default();
    file.peer = Some("file".to_string());
    file.capture = Some("mic".to_string());
    file.playback = Some("speaker".to_string());
    file.bitrate = Some(64_000);
    file.fec = Some(true);
    file.jitter_ms = Some(80);
    let config = Config::build(cli, file);
    assert_eq!(config.peer.as_deref(), Some("flag"));
    assert_eq!(config.capture, "none");
    assert_eq!(config.playback, "speaker");
    assert_eq!(config.bitrate, -1);
    assert!(!config.fec);
    assert_eq!(config.jitter_ms, 40);
    assert_eq!(config.duration, Some(30));
}

#[test]
fn a_configuration_is_shown_line_by_line() {
    let mut cli = bare();
    cli.peer = Some("192.168.1.50".to_string());
    cli.playback_channels = Some(2);
    cli.capture_sample_rate = Some(44_100);
    let lines = Config::build(cli, FileConfig::default()).print();
    assert_eq!(
        lines,
        [
            "peer                 = 192.168.1.50",
            "bind                 = auto",
            "capture              = default",
            "playback             = default",
            "capture_channels     = auto",
            "playback_channels    = 2",
            "capture_sample_rate  = 44100",
            "playback_sample_rate = auto",
            "bitrate              = 24000",
            "fec                  = false",
            "expected_loss        = 10",
            "dtx                  = false",
            "jitter_ms            = 150",
        ]
    );
    let lines = Config::build(bare(), FileConfig::default()).print();
    assert_eq!(lines[0], format!("{:<20} = {}", "peer", "(none)"));
}
