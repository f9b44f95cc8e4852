//! vox: the logic of a two-peer LAN voice pipe.
//!
//! The logic is here and proved: the wire format, the capture framing, loss handling,
//! the adaptive jitter buffer, configuration merging and the text the program shows.
//! The lock-free sample ring is an outside crate's and is trusted to meet the contracts
//! in [`ring`]. Sockets, threads, audio devices, the codec, the terminal and all
//! floating-point arithmetic (downmixing, rate conversion, rates and percentages) live in
//! the application around it.
//!
//! A sample is carried as the 32 raw bits of its floating-point value, so the
//! library moves audio around without doing arithmetic on it; `0` is silence.

pub mod audio;
pub mod cli;
pub mod config;
pub mod device;
pub mod engine;
pub mod graph;
pub mod jitter;
pub mod logging;
pub mod loopback;
pub mod packet;
pub mod receive;
pub mod resample;
pub mod ring;
pub mod send;
pub mod session;
pub mod smoke;
pub mod text;
pub mod tui;
