//! Resolved configuration: defaults, overridden by the configuration file,
//! overridden by flags.

use crate::cli::Cli;
use crate::text::{
    align_left, bool_name, bool_text, decimal, decimal_text, left_aligned, signed_decimal,
    signed_text, texts,
};
use vstd::prelude::*;
use vstd::string::StringExecFns;

verus! {

/// The UDP port used when none is given.
pub const DEFAULT_PORT: u16 = 9680;

pub const DEFAULT_BITRATE: i32 = 24_000;

pub const DEFAULT_JITTER_MS: u32 = 150;

pub const DEFAULT_FEC: bool = false;

pub const DEFAULT_EXPECTED_LOSS: u8 = 10;

pub const DEFAULT_DTX: bool = false;

/// Width of the key column when a configuration is shown.
pub const KEY_WIDTH: usize = 20;

/// What a configuration file says; every key is optional.
pub struct FileConfig {
    pub peer: Option<String>,
    pub bind: Option<u16>,
    pub capture: Option<String>,
    pub playback: Option<String>,
    pub capture_sample_rate: Option<u32>,
    pub playback_sample_rate: Option<u32>,
    pub capture_channels: Option<u16>,
    pub playback_channels: Option<u16>,
    pub bitrate: Option<i32>,
    pub fec: Option<bool>,
    pub expected_loss: Option<u8>,
    pub dtx: Option<bool>,
    pub jitter_ms: Option<u32>,
}

impl Default for FileConfig {
    /// A file that says nothing.
    fn default() -> (file: FileConfig)
        ensures
            file == FileConfig::empty(),
    {
        FileConfig {
            peer: None,
            bind: None,
            capture: None,
            playback: None,
            capture_sample_rate: None,
            playback_sample_rate: None,
            capture_channels: None,
            playback_channels: None,
            bitrate: None,
            fec: None,
            expected_loss: None,
            dtx: None,
            jitter_ms: None,
        }
    }
}

impl FileConfig {
    /// No key set.
    pub open spec fn empty() -> FileConfig {
        FileConfig {
            peer: None,
            bind: None,
            capture: None,
            playback: None,
            capture_sample_rate: None,
            playback_sample_rate: None,
            capture_channels: None,
            playback_channels: None,
            bitrate: None,
            fec: None,
            expected_loss: None,
            dtx: None,
            jitter_ms: None,
        }
    }
}

/// What a flag and a file key say together: the flag wins.
pub open spec fn either<T>(flag: Option<T>, key: Option<T>) -> Option<T> {
    if flag is Some {
        flag
    } else {
        key
    }
}

/// What a flag, a file key and a default say together: the first that says anything.
pub open spec fn settled<T>(flag: Option<T>, key: Option<T>, default: T) -> T {
    match either(flag, key) {
        Some(value) => value,
        None => default,
    }
}

fn pick<T>(flag: Option<T>, key: Option<T>) -> (value: Option<T>)
    ensures
        value == either(flag, key),
{
    match flag {
        Some(value) => Some(value),
        None => key,
    }
}

/// A device setting: what was asked for, or the host's default device.
pub open spec fn device_setting(flag: Option<String>, key: Option<String>) -> Seq<char> {
    match either(flag, key) {
        Some(name) => name@,
        None => "default"@,
    }
}

fn pick_device(flag: Option<String>, key: Option<String>) -> (name: String)
    ensures
        name@ == device_setting(flag, key),
{
    match pick(flag, key) {
        Some(name) => name,
        None => "default".to_owned(),
    }
}

/// Fully resolved configuration.
pub struct Config {
    pub peer: Option<String>,
    pub bind: Option<u16>,
    pub capture: String,
    pub playback: String,
    pub capture_channels: Option<u16>,
    pub playback_channels: Option<u16>,
    /// Device sample rates (Hz); `None` prefers 48 kHz, else the device's own.
    pub capture_sample_rate: Option<u32>,
    pub playback_sample_rate: Option<u32>,
    pub bitrate: i32,
    pub fec: bool,
    pub expected_loss: u8,
    pub dtx: bool,
    pub jitter_ms: u32,
    pub duration: Option<u64>,
}

/// Optional text, or what stands for its absence.
pub open spec fn text_or(value: Option<String>, absent: Seq<char>) -> Seq<char> {
    match value {
        Some(text) => text@,
        None => absent,
    }
}

/// An optional number, or `auto`.
pub open spec fn number_or_auto(value: Option<int>) -> Seq<char> {
    match value {
        Some(n) => decimal(n),
        None => "auto"@,
    }
}

fn number_text(value: Option<u32>) -> (text: String)
    ensures
        text@ == number_or_auto(
            match value {
                Some(n) => Some(n as int),
                None => None,
            },
        ),
{
    match value {
        Some(n) => decimal_text(n as u128),
        None => "auto".to_owned(),
    }
}

fn widen(value: Option<u16>) -> (wide: Option<u32>)
    ensures
        wide == match value {
            Some(n) => Some(n as u32),
            None => None,
        },
{
    match value {
        Some(n) => Some(n as u32),
        None => None,
    }
}

/// `key` and `value` on one line, keys in a column.
pub open spec fn setting(key: Seq<char>, value: Seq<char>) -> Seq<char> {
    left_aligned(key, KEY_WIDTH as int) + " = "@ + value
}

fn setting_line(key: &str, value: &str) -> (line: String)
    ensures
        line@ == setting(key@, value@),
{
    let mut line = align_left(key, KEY_WIDTH);
    line.append(" = ");
    line.append(value);
    line
}

impl Config {
    /// Merge defaults, the configuration file and the flags.
    pub fn build(cli: Cli, file: FileConfig) -> (config: Config)
        ensures
            config.peer == either(cli.peer, file.peer),
            config.bind == either(cli.bind, file.bind),
            config.capture@ == device_setting(cli.capture, file.capture),
            config.playback@ == device_setting(cli.playback, file.playback),
            config.capture_channels == either(cli.capture_channels, file.capture_channels),
            config.playback_channels == either(cli.playback_channels, file.playback_channels),
            config.capture_sample_rate == either(
                cli.capture_sample_rate,
                file.capture_sample_rate,
            ),
            config.playback_sample_rate == either(
                cli.playback_sample_rate,
                file.playback_sample_rate,
            ),
            config.bitrate == settled(cli.bitrate, file.bitrate, DEFAULT_BITRATE),
            config.fec == settled(cli.fec, file.fec, DEFAULT_FEC),
            config.expected_loss == settled(
                cli.expected_loss,
                file.expected_loss,
                DEFAULT_EXPECTED_LOSS,
            ),
            config.dtx == settled(cli.dtx, file.dtx, DEFAULT_DTX),
            config.jitter_ms == settled(cli.jitter_ms, file.jitter_ms, DEFAULT_JITTER_MS),
            config.duration == cli.duration,
            cli.bitrate is None && file.bitrate is None ==> config.bitrate == 24_000,
            cli.fec is None && file.fec is None ==> !config.fec,
            cli.expected_loss is None && file.expected_loss is None ==> config.expected_loss == 10,
            cli.dtx is None && file.dtx is None ==> !config.dtx,
            cli.jitter_ms is None && file.jitter_ms is None ==> config.jitter_ms == 150,
    {
        Config {
            peer: pick(cli.peer, file.peer),
            bind: pick(cli.bind, file.bind),
            capture: pick_device(cli.capture, file.capture),
            playback: pick_device(cli.playback, file.playback),
            capture_channels: pick(cli.capture_channels, file.capture_channels),
            playback_channels: pick(cli.playback_channels, file.playback_channels),
            capture_sample_rate: pick(cli.capture_sample_rate, file.capture_sample_rate),
            playback_sample_rate: pick(cli.playback_sample_rate, file.playback_sample_rate),
            bitrate: pick(cli.bitrate, file.bitrate).unwrap_or(DEFAULT_BITRATE),
            fec: pick(cli.fec, file.fec).unwrap_or(DEFAULT_FEC),
            expected_loss: pick(cli.expected_loss, file.expected_loss).unwrap_or(
                DEFAULT_EXPECTED_LOSS,
            ),
            dtx: pick(cli.dtx, file.dtx).unwrap_or(DEFAULT_DTX),
            jitter_ms: pick(cli.jitter_ms, file.jitter_ms).unwrap_or(DEFAULT_JITTER_MS),
            duration: cli.duration,
        }
    }

    /// How the configuration is shown: one setting per line, under the names that a
    /// configuration file uses.
    pub open spec fn shown(self) -> Seq<Seq<char>> {
        let channels = |value: Option<u16>|
            number_or_auto(
                match value {
                    Some(n) => Some(n as int),
                    None => None,
                },
            );
        let rate = |value: Option<u32>|
            number_or_auto(
                match value {
                    Some(n) => Some(n as int),
                    None => None,
                },
            );
        seq![
            setting("peer"@, text_or(self.peer, "(none)"@)),
            setting("bind"@, channels(self.bind)),
            setting("capture"@, self.capture@),
            setting("playback"@, self.playback@),
            setting("capture_channels"@, channels(self.capture_channels)),
            setting("playback_channels"@, channels(self.playback_channels)),
            setting("capture_sample_rate"@, rate(self.capture_sample_rate)),
            setting("playback_sample_rate"@, rate(self.playback_sample_rate)),
            setting("bitrate"@, signed_decimal(self.bitrate as int)),
            setting("fec"@, bool_name(self.fec)),
            setting("expected_loss"@, decimal(self.expected_loss as int)),
            setting("dtx"@, bool_name(self.dtx)),
            setting("jitter_ms"@, decimal(self.jitter_ms as int)),
        ]
    }

    /// The resolved configuration as lines to print.
    pub fn print(&self) -> (lines: Vec<String>)
        ensures
            texts(lines@) == self.shown(),
    {
        let peer = match &self.peer {
            Some(peer) => setting_line("peer", peer.as_str()),
            None => setting_line("peer", "(none)"),
        };
        let lines = vec![
            peer,
            setting_line("bind", number_text(widen(self.bind)).as_str()),
            setting_line("capture", self.capture.as_str()),
            setting_line("playback", self.playback.as_str()),
            setting_line("capture_channels", number_text(widen(self.capture_channels)).as_str()),
            setting_line("playback_channels", number_text(widen(self.playback_channels)).as_str()),
            setting_line("capture_sample_rate", number_text(self.capture_sample_rate).as_str()),
            setting_line("playback_sample_rate", number_text(self.playback_sample_rate).as_str()),
            setting_line("bitrate", signed_text(self.bitrate as i64).as_str()),
            setting_line("fec", bool_text(self.fec)),
            setting_line("expected_loss", decimal_text(self.expected_loss as u128).as_str()),
            setting_line("dtx", bool_text(self.dtx)),
            setting_line("jitter_ms", decimal_text(self.jitter_ms as u128).as_str()),
        ];
        assert(texts(lines@) =~= self.shown());
        lines
    }
}

/// A flag always wins over the file, the file over the default, and a setting that
/// neither mentions has its default.
pub proof fn flags_override_files_override_defaults<T>(flag: T, key: T, default: T)
    ensures
        forall|key: Option<T>| #[trigger] settled(Some(flag), key, default) == flag,
        settled(None, Some(key), default) == key,
        settled(None, None, default) == default,
        forall|key: Option<T>| #[trigger] either(Some(flag), key) == Some(flag),
        forall|key: Option<T>| #[trigger] either(None, key) == key,
{
}

/// Every line of a shown configuration has its `=` in the same column: no key is
/// wider than the key column.
pub proof fn settings_line_up(config: Config, line: int)
    requires
        0 <= line < config.shown().len(),
    ensures
        config.shown()[line].len() >= KEY_WIDTH + 3,
        config.shown()[line].subrange(KEY_WIDTH as int, KEY_WIDTH + 3) == " = "@,
{
    reveal_strlit(" = ");
    reveal_strlit("peer");
    reveal_strlit("bind");
    reveal_strlit("capture");
    reveal_strlit("playback");
    reveal_strlit("capture_channels");
    reveal_strlit("playback_channels");
    reveal_strlit("capture_sample_rate");
    reveal_strlit("playback_sample_rate");
    reveal_strlit("bitrate");
    reveal_strlit("fec");
    reveal_strlit("expected_loss");
    reveal_strlit("dtx");
    reveal_strlit("jitter_ms");
    assert(config.shown()[line].subrange(KEY_WIDTH as int, KEY_WIDTH + 3) =~= " = "@);
}

/// Whether a line says that `key` is set to `value`: the key at its start, the value
/// behind the column of equal signs.
pub open spec fn says(line: Seq<char>, key: Seq<char>, value: Seq<char>) -> bool {
    &&& line.len() == 23 + value.len()
    &&& line.take(key.len() as int) == key
    &&& line.skip(23) == value
}

proof fn lemma_setting_says(key: Seq<char>, value: Seq<char>)
    requires
        key.len() <= 20,
    ensures
        says(setting(key, value), key, value),
{
    reveal_strlit(" = ");
    let line = setting(key, value);
    assert(line.take(key.len() as int) =~= key);
    assert(line.skip(23) =~= value);
}

/// What a shown configuration says: each setting under its own key, with its own value; a
/// number in decimal, and what is not set as `auto`, or `(none)` for the peer.
pub proof fn every_setting_is_shown(config: Config)
    ensures
        ({
            let lines = config.shown();
            let small = |value: Option<u16>| match value {
                Some(n) => decimal(n as int),
                None => "auto"@,
            };
            let large = |value: Option<u32>| match value {
                Some(n) => decimal(n as int),
                None => "auto"@,
            };
            let peer = match config.peer {
                Some(peer) => peer@,
                None => "(none)"@,
            };
            let switch = |on: bool| if on {
                "true"@
            } else {
                "false"@
            };
            let bitrate = if config.bitrate < 0 {
                "-"@ + decimal(-(config.bitrate as int))
            } else {
                decimal(config.bitrate as int)
            };
            &&& lines.len() == 13
            &&& says(lines[0], "peer"@, peer)
            &&& says(lines[1], "bind"@, small(config.bind))
            &&& says(lines[2], "capture"@, config.capture@)
            &&& says(lines[3], "playback"@, config.playback@)
            &&& says(lines[4], "capture_channels"@, small(config.capture_channels))
            &&& says(lines[5], "playback_channels"@, small(config.playback_channels))
            &&& says(lines[6], "capture_sample_rate"@, large(config.capture_sample_rate))
            &&& says(lines[7], "playback_sample_rate"@, large(config.playback_sample_rate))
            &&& says(lines[8], "bitrate"@, bitrate)
            &&& says(lines[9], "fec"@, switch(config.fec))
            &&& says(lines[10], "expected_loss"@, decimal(config.expected_loss as int))
            &&& says(lines[11], "dtx"@, switch(config.dtx))
            &&& says(lines[12], "jitter_ms"@, decimal(config.jitter_ms as int))
        }),
{
    reveal_strlit("peer");
    reveal_strlit("bind");
    reveal_strlit("capture");
    reveal_strlit("playback");
    reveal_strlit("capture_channels");
    reveal_strlit("playback_channels");
    reveal_strlit("capture_sample_rate");
    reveal_strlit("playback_sample_rate");
    reveal_strlit("bitrate");
    reveal_strlit("fec");
    reveal_strlit("expected_loss");
    reveal_strlit("dtx");
    reveal_strlit("jitter_ms");
    assert forall|key: Seq<char>, value: Seq<char>| key.len() <= 20 implies says(
        #[trigger] setting(key, value),
        key,
        value,
    ) by {
        lemma_setting_says(key, value);
    }
}

/// A device that is named by a flag or in the file is the one; else it is the host's
/// default.
pub proof fn devices_default_to_the_hosts(flag: Option<String>, key: Option<String>)
    ensures
        flag is Some ==> device_setting(flag, key) == flag->0@,
        flag is None && key is Some ==> device_setting(flag, key) == key->0@,
        flag is None && key is None ==> device_setting(flag, key) == "default"@,
{
}

/// An empty file leaves every setting to the flags and the defaults.
pub proof fn an_empty_file_says_nothing()
    ensures
        ({
            let file = FileConfig::empty();
            &&& file.peer is None && file.bind is None
            &&& file.capture is None && file.playback is None
            &&& file.capture_sample_rate is None && file.playback_sample_rate is None
            &&& file.capture_channels is None && file.playback_channels is None
            &&& file.bitrate is None && file.fec is None && file.expected_loss is None
            &&& file.dtx is None && file.jitter_ms is None
        }),
{
}

} // verus!
