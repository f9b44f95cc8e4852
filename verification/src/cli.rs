//! What the command line says. Every audio option mirrors a configuration-file key
//! and overrides it, so all of them are optional.

use vstd::prelude::*;

verus! {

/// How vox presents itself while running.
#[derive(Clone, Copy, Debug, PartialEq, Eq, Structural)]
pub enum OutputMode {
    /// Errors only, for headless use.
    Quiet,
    /// Clear functional output.
    Plain,
    /// Live full-screen dashboard.
    Tui,
}

impl Default for OutputMode {
    fn default() -> (mode: OutputMode)
        ensures
            mode == OutputMode::Plain,
    {
        OutputMode::Plain
    }
}

/// A parsed command line.
#[derive(Debug)]
pub struct Cli {
    /// Path of the configuration file. Flags override its values.
    pub config: Option<String>,
    /// List the devices and exit.
    pub list_devices: bool,
    /// Print the resolved configuration and exit.
    pub print_config: bool,
    pub output: OutputMode,
    /// How often verbosity was raised.
    pub verbose: u8,
    /// Send target, `host[:port]`.
    pub peer: Option<String>,
    /// Local UDP receive port.
    pub bind: Option<u16>,
    /// Local record device: `none`, `default` or an exact name.
    pub capture: Option<String>,
    /// Local play device: `none`, `default` or an exact name.
    pub playback: Option<String>,
    pub capture_sample_rate: Option<u32>,
    pub playback_sample_rate: Option<u32>,
    pub capture_channels: Option<u16>,
    pub playback_channels: Option<u16>,
    /// Codec target bitrate, bits/s.
    pub bitrate: Option<i32>,
    /// In-band error correction.
    pub fec: Option<bool>,
    /// Expected packet loss in percent.
    pub expected_loss: Option<u8>,
    /// Silence suppression.
    pub dtx: Option<bool>,
    /// Jitter buffer ceiling, ms.
    pub jitter_ms: Option<u32>,
    /// Run for so many seconds, then exit.
    pub duration: Option<u64>,
}

} // verus!
