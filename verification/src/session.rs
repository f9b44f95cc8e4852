//! A session's facts and reports: what it is doing, whether the peer is heard, and
//! what was sent and received in the end.

use crate::cli::OutputMode;
use crate::config::DEFAULT_PORT;
use crate::engine::{EngineConfig, EngineStats};
use crate::text::{
    bool_name, bool_text, decimal, decimal_text, signed_decimal, signed_text, texts,
};
use vstd::prelude::*;
use vstd::string::{StrSliceExecFns, StringExecFns};

verus! {

/// How often the status line is shown, in ms.
pub const REPORT_INTERVAL_MS: u64 = 5000;

/// Which way audio flows.
#[derive(Clone, Copy, PartialEq, Eq, Structural, Debug)]
pub enum Mode {
    FullDuplex,
    SendOnly,
    ReceiveOnly,
}

/// The mode that the enabled roles make; with both roles off there is none.
pub open spec fn mode_for(capture: bool, playback: bool) -> Option<Mode> {
    if capture && playback {
        Some(Mode::FullDuplex)
    } else if capture {
        Some(Mode::SendOnly)
    } else if playback {
        Some(Mode::ReceiveOnly)
    } else {
        None
    }
}

/// How a mode is shown.
pub open spec fn mode_name(mode: Mode) -> Seq<char> {
    match mode {
        Mode::FullDuplex => "full duplex"@,
        Mode::SendOnly => "send-only"@,
        Mode::ReceiveOnly => "receive-only"@,
    }
}

impl Mode {
    /// The mode that the enabled roles make; `None` when there is nothing to do.
    pub fn of(capture: bool, playback: bool) -> (mode: Option<Mode>)
        ensures
            mode == mode_for(capture, playback),
    {
        match (capture, playback) {
            (true, true) => Some(Mode::FullDuplex),
            (true, false) => Some(Mode::SendOnly),
            (false, true) => Some(Mode::ReceiveOnly),
            (false, false) => None,
        }
    }

    /// How the mode is shown.
    pub fn label(self) -> (label: &'static str)
        ensures
            label@ == mode_name(self),
    {
        match self {
            Mode::FullDuplex => "full duplex",
            Mode::SendOnly => "send-only",
            Mode::ReceiveOnly => "receive-only",
        }
    }
}

/// Why a session has no addresses.
#[derive(Clone, Copy, PartialEq, Eq, Structural, Debug)]
pub enum RouteError {
    /// Both roles are off.
    NothingToDo,
    /// There is audio to send and no peer to send it to.
    NoPeer,
}

impl RouteError {
    /// What to tell the user.
    pub fn message(&self) -> (message: &'static str)
        ensures
            message@ == match *self {
                RouteError::NothingToDo =>
                    "both capture and playback are 'none'; nothing to do"@,
                RouteError::NoPeer =>
                    "--peer (host[:port]) is required to send captured audio"@,
            },
    {
        match self {
            RouteError::NothingToDo => "both capture and playback are 'none'; nothing to do",
            RouteError::NoPeer => "--peer (host[:port]) is required to send captured audio",
        }
    }
}

/// A peer with its port, the default port where none was given.
pub open spec fn full_peer(spec: Seq<char>) -> Seq<char> {
    if spec.contains(':') {
        spec
    } else {
        spec + ":"@ + decimal(DEFAULT_PORT as int)
    }
}

/// Add the default port to a peer that was given without one.
pub fn with_default_port(spec: &str) -> (peer: String)
    ensures
        peer@ == full_peer(spec@),
{
    let len: usize = spec.unicode_len();
    let mut i: usize = 0;
    while i < len
        invariant
            i <= len,
            len == spec@.len(),
            forall|j: int| 0 <= j < i ==> spec@[j] != ':',
        decreases len - i,
    {
        if spec.get_char(i) == ':' {
            assert(spec@.contains(':'));
            return spec.to_owned();
        }
        i += 1;
    }
    let mut peer = spec.to_owned();
    peer.append(":");
    peer.append(decimal_text(DEFAULT_PORT as u128).as_str());
    peer
}

/// The peer to send to, with its port: `None` when nothing is captured.
pub fn peer_for(
    capture: bool,
    peer: &Option<String>,
) -> (target: Result<Option<String>, RouteError>)
    ensures
        !capture ==> (target matches Ok(t) && t is None),
        capture && peer is None ==> (target matches Err(e) && e == RouteError::NoPeer),
        capture && peer is Some ==> (target matches Ok(Some(t)) && t@ == full_peer(peer->0@)),
{
    if !capture {
        return Ok(None);
    }
    match peer {
        Some(spec) => Ok(Some(with_default_port(spec.as_str()))),
        None => Err(RouteError::NoPeer),
    }
}

/// The local port: the one asked for, else the default when receiving, else none.
pub open spec fn port_for(playback: bool, bind: Option<u16>) -> Option<u16> {
    if bind is Some {
        bind
    } else if playback {
        Some(DEFAULT_PORT)
    } else {
        None
    }
}

/// The local port: the one asked for, else the default when receiving, else none.
pub fn bind_for(playback: bool, bind: Option<u16>) -> (port: Option<u16>)
    ensures
        port == port_for(playback, bind),
{
    match bind {
        Some(port) => Some(port),
        None => if playback {
            Some(DEFAULT_PORT)
        } else {
            None
        },
    }
}

/// What follows a device's name: its rate and channels, nothing for a role that is
/// off.
pub open spec fn stream_note(channels: Option<u16>, rate: u32) -> Seq<char> {
    match channels {
        None => ""@,
        Some(n) => "  ["@ + decimal(rate as int) + " Hz, "@ + (if n == 1 {
            "mono"@
        } else if n == 2 {
            "stereo"@
        } else {
            decimal(n as int) + " ch"@
        }) + "]"@,
    }
}

/// What follows a device's name, such as `  [44100 Hz, mono]`.
pub fn stream_label(channels: Option<u16>, rate: u32) -> (label: String)
    ensures
        label@ == stream_note(channels, rate),
{
    let n: u16 = match channels {
        None => return "".to_owned(),
        Some(n) => n,
    };
    let layout = if n == 1 {
        "mono".to_owned()
    } else if n == 2 {
        "stereo".to_owned()
    } else {
        let mut layout = decimal_text(n as u128);
        layout.append(" ch");
        layout
    };
    let mut label = "  [".to_owned();
    label.append(decimal_text(rate as u128).as_str());
    label.append(" Hz, ");
    label.append(layout.as_str());
    label.append("]");
    label
}

/// Display-ready session facts.
pub struct SessionInfo {
    pub mode: Mode,
    pub capture: String,
    pub playback: String,
    pub peer: Option<String>,
    pub bind: String,
    pub bitrate: i32,
    pub jitter_ms: u32,
    pub fec: bool,
    pub dtx: bool,
}

impl SessionInfo {
    /// The last line of the summary.
    pub open spec fn codec_note(self) -> Seq<char> {
        "codec "@ + signed_decimal(self.bitrate as int) + " bps, jitter "@ + decimal(
            self.jitter_ms as int,
        ) + " ms, fec="@ + bool_name(self.fec) + ", dtx="@ + bool_name(self.dtx)
    }

    /// What is shown when a session starts.
    pub open spec fn summary_text(self, version: Seq<char>) -> Seq<Seq<char>> {
        let head = seq![
            "vox "@ + version + " — "@ + mode_name(self.mode),
            "capture  "@ + self.capture@,
            "playback "@ + self.playback@,
        ];
        let sending = match self.peer {
            Some(peer) => seq!["sending to "@ + peer@],
            None => Seq::empty(),
        };
        head + sending + seq!["listening "@ + self.bind@, self.codec_note()]
    }

    /// The lines to show when a session starts.
    pub fn summary(&self, version: &str) -> (lines: Vec<String>)
        ensures
            texts(lines@) == self.summary_text(version@),
    {
        let mut head = "vox ".to_owned();
        head.append(version);
        head.append(" — ");
        head.append(self.mode.label());
        let mut capture = "capture  ".to_owned();
        capture.append(self.capture.as_str());
        let mut playback = "playback ".to_owned();
        playback.append(self.playback.as_str());
        let mut lines: Vec<String> = vec![head, capture, playback];
        if let Some(peer) = &self.peer {
            let mut line = "sending to ".to_owned();
            line.append(peer.as_str());
            lines.push(line);
        }
        let mut listening = "listening ".to_owned();
        listening.append(self.bind.as_str());
        lines.push(listening);
        let mut codec = "codec ".to_owned();
        codec.append(signed_text(self.bitrate as i64).as_str());
        codec.append(" bps, jitter ");
        codec.append(decimal_text(self.jitter_ms as u128).as_str());
        codec.append(" ms, fec=");
        codec.append(bool_text(self.fec));
        codec.append(", dtx=");
        codec.append(bool_text(self.dtx));
        lines.push(codec);
        assert(texts(lines@) =~= self.summary_text(version@));
        lines
    }
}

/// What is shown when a session begins to run.
pub open spec fn running_text(duration: Option<u64>) -> Seq<char> {
    match duration {
        Some(secs) => "running for "@ + decimal(secs as int) + "s (Ctrl+C to stop early)"@,
        None => "running (Ctrl+C to stop)"@,
    }
}

/// What to show when a session begins to run.
pub fn running_line(duration: Option<u64>) -> (line: String)
    ensures
        line@ == running_text(duration),
{
    match duration {
        Some(secs) => {
            let mut line = "running for ".to_owned();
            line.append(decimal_text(secs as u128).as_str());
            line.append("s (Ctrl+C to stop early)");
            line
        },
        None => "running (Ctrl+C to stop)".to_owned(),
    }
}

/// What was sent and received between two looks at the counters.
#[derive(Clone, Copy)]
pub struct Progress {
    pub packets_sent: u64,
    pub bytes_sent: u64,
    pub packets_received: u64,
    pub bytes_received: u64,
}

/// How far a counter moved; counters wrap.
pub open spec fn moved(now: u64, before: u64) -> u64 {
    ((now - before) % 0x1_0000_0000_0000_0000) as u64
}

/// What happened between two looks at the counters.
pub open spec fn progress_between(before: EngineStats, now: EngineStats) -> Progress {
    Progress {
        packets_sent: moved(now.packets_sent, before.packets_sent),
        bytes_sent: moved(now.bytes_sent, before.bytes_sent),
        packets_received: moved(now.packets_received, before.packets_received),
        bytes_received: moved(now.bytes_received, before.bytes_received),
    }
}

impl Progress {
    /// What happened since `before`.
    pub fn between(before: &EngineStats, now: &EngineStats) -> (progress: Progress)
        ensures
            progress == progress_between(*before, *now),
    {
        Progress {
            packets_sent: now.packets_sent.wrapping_sub(before.packets_sent),
            bytes_sent: now.bytes_sent.wrapping_sub(before.bytes_sent),
            packets_received: now.packets_received.wrapping_sub(before.packets_received),
            bytes_received: now.bytes_received.wrapping_sub(before.bytes_received),
        }
    }
}

/// When a session that began at `start` (ms) ends by itself.
pub open spec fn end_of(start: u64, duration: Option<u64>) -> Option<u64> {
    match duration {
        None => None,
        Some(secs) => Some(
            if start + secs * 1000 > u64::MAX {
                u64::MAX
            } else {
                (start + secs * 1000) as u64
            },
        ),
    }
}

/// When a session that begins at `start` (ms) ends by itself: after `duration`
/// seconds, if it has one.
pub fn deadline(start: u64, duration: Option<u64>) -> (end: Option<u64>)
    ensures
        end == end_of(start, duration),
{
    match duration {
        None => None,
        Some(secs) => {
            let end: u128 = start as u128 + secs as u128 * 1000;
            Some(
                if end > u64::MAX as u128 {
                    u64::MAX
                } else {
                    end as u64
                },
            )
        },
    }
}

/// Whether a session that ends at `end` is over.
pub open spec fn over_at(end: Option<u64>, now: u64) -> bool {
    end is Some && now >= end->0
}

/// Whether a session is over by itself at `now` (ms).
pub fn is_over(end: Option<u64>, now: u64) -> (over: bool)
    ensures
        over == over_at(end, now),
        over == (end is Some && now >= end->0),
{
    match end {
        None => false,
        Some(end) => now >= end,
    }
}

/// Looks at the counters at intervals.
pub struct Sampler {
    /// Least time between two looks, in ms.
    pub interval: u64,
    /// When the last look was (ms), and what it showed.
    pub last_time: u64,
    pub last: EngineStats,
}

/// What a look showed: how long ago the last one was, and what happened since.
pub struct Sample {
    pub elapsed_ms: u64,
    pub progress: Progress,
}

impl Sampler {
    /// Start looking at `now` (ms).
    pub fn new(interval: u64, now: u64, stats: EngineStats) -> (sampler: Sampler)
        ensures
            sampler == (Sampler { interval, last_time: now, last: stats }),
    {
        Sampler { interval, last_time: now, last: stats }
    }

    /// Whether it is time for the next look.
    pub fn is_due(&self, now: u64) -> (due: bool)
        ensures
            due == (now - self.last_time >= self.interval || self.interval == 0),
    {
        now.saturating_sub(self.last_time) >= self.interval
    }

    /// Take a look at `now`.
    pub fn sample(&mut self, now: u64, stats: EngineStats) -> (sample: Sample)
        ensures
            *final(self) == (Sampler { last_time: now, last: stats, ..*old(self) }),
            sample.elapsed_ms == if now >= old(self).last_time {
                now - old(self).last_time
            } else {
                0
            },
            sample.progress == progress_between(old(self).last, stats),
    {
        let sample = Sample {
            elapsed_ms: now.saturating_sub(self.last_time),
            progress: Progress::between(&self.last, &stats),
        };
        self.last_time = now;
        self.last = stats;
        sample
    }
}

/// What the quality counters of the status line say.
pub open spec fn quality_text(stats: EngineStats) -> Seq<char> {
    "gaps "@ + decimal(stats.gap_frames as int) + " drops "@ + decimal(stats.dropped_late as int)
        + " overruns "@ + decimal(stats.overruns as int) + " recenter "@ + decimal(
        stats.recenter_drops as int,
    ) + "/"@ + decimal(stats.recenter_inserts as int)
}

/// The end of the status line: the quality counters.
pub fn quality_line(stats: &EngineStats) -> (line: String)
    ensures
        line@ == quality_text(*stats),
{
    let mut line = "gaps ".to_owned();
    line.append(decimal_text(stats.gap_frames as u128).as_str());
    line.append(" drops ");
    line.append(decimal_text(stats.dropped_late as u128).as_str());
    line.append(" overruns ");
    line.append(decimal_text(stats.overruns as u128).as_str());
    line.append(" recenter ");
    line.append(decimal_text(stats.recenter_drops as u128).as_str());
    line.append("/");
    line.append(decimal_text(stats.recenter_inserts as u128).as_str());
    line
}

/// Whether the peer is heard.
#[derive(Clone, Copy, PartialEq, Eq, Structural, Debug)]
pub struct Liveness {
    /// Something has come from the peer.
    pub peer_seen: bool,
    /// The current silence has been reported.
    pub warned_silent: bool,
}

/// News about the peer.
#[derive(Clone, Copy, PartialEq, Eq, Structural, Debug)]
pub struct LivenessNews {
    pub connected: bool,
    pub silent: bool,
}

impl Liveness {
    /// After a look at the counters: `total` packets so far, `fresh` since the last.
    pub open spec fn after(self, total: u64, fresh: u64) -> Liveness {
        let peer_seen = self.peer_seen || total > 0;
        Liveness {
            peer_seen,
            warned_silent: if peer_seen {
                fresh == 0
            } else {
                self.warned_silent
            },
        }
    }

    /// What that look shows: a peer heard for the first time, a silence that began.
    pub open spec fn news(self, total: u64, fresh: u64) -> LivenessNews {
        LivenessNews {
            connected: !self.peer_seen && total > 0,
            silent: (self.peer_seen || total > 0) && fresh == 0 && !self.warned_silent,
        }
    }

    /// Liveness at the start, with `total` packets received already.
    pub fn new(total: u64) -> (liveness: Liveness)
        ensures
            liveness == (Liveness { peer_seen: total > 0, warned_silent: false }),
    {
        Liveness { peer_seen: total > 0, warned_silent: false }
    }

    /// Take a look at the counters.
    pub fn observe(&mut self, total: u64, fresh: u64) -> (news: LivenessNews)
        ensures
            *final(self) == old(self).after(total, fresh),
            news == old(self).news(total, fresh),
    {
        let mut news = LivenessNews { connected: false, silent: false };
        if total > 0 && !self.peer_seen {
            self.peer_seen = true;
            news.connected = true;
        }
        if self.peer_seen {
            if fresh == 0 && !self.warned_silent {
                news.silent = true;
                self.warned_silent = true;
            } else if fresh > 0 {
                self.warned_silent = false;
            }
        }
        news
    }
}

/// What is said of the sent audio in the end.
pub open spec fn sent_text(stats: EngineStats) -> Seq<char> {
    "sent "@ + decimal(stats.packets_sent as int) + " packets ("@ + decimal(
        stats.bytes_sent as int / 1024,
    ) + " KiB)"@
}

/// What is said of the received audio in the end.
pub open spec fn received_text(stats: EngineStats) -> Seq<char> {
    "received "@ + decimal(stats.packets_received as int) + " packets ("@ + decimal(
        stats.bytes_received as int / 1024,
    ) + " KiB), "@ + decimal(stats.gap_frames as int) + " gap frames, "@ + decimal(
        stats.dropped_late as int,
    ) + " late/dup, "@ + decimal(stats.overruns as int) + " overruns, "@ + decimal(
        stats.recenter_drops + stats.recenter_inserts,
    ) + " recenter (drop "@ + decimal(stats.recenter_drops as int) + " / hold "@ + decimal(
        stats.recenter_inserts as int,
    ) + ")"@
}

fn sent_line(stats: &EngineStats) -> (line: String)
    ensures
        line@ == sent_text(*stats),
{
    let mut line = "sent ".to_owned();
    line.append(decimal_text(stats.packets_sent as u128).as_str());
    line.append(" packets (");
    line.append(decimal_text((stats.bytes_sent / 1024) as u128).as_str());
    line.append(" KiB)");
    line
}

fn received_line(stats: &EngineStats) -> (line: String)
    ensures
        line@ == received_text(*stats),
{
    let recenters: u128 = stats.recenter_drops as u128 + stats.recenter_inserts as u128;
    let mut line = "received ".to_owned();
    line.append(decimal_text(stats.packets_received as u128).as_str());
    line.append(" packets (");
    line.append(decimal_text((stats.bytes_received / 1024) as u128).as_str());
    line.append(" KiB), ");
    line.append(decimal_text(stats.gap_frames as u128).as_str());
    line.append(" gap frames, ");
    line.append(decimal_text(stats.dropped_late as u128).as_str());
    line.append(" late/dup, ");
    line.append(decimal_text(stats.overruns as u128).as_str());
    line.append(" overruns, ");
    line.append(decimal_text(recenters).as_str());
    line.append(" recenter (drop ");
    line.append(decimal_text(stats.recenter_drops as u128).as_str());
    line.append(" / hold ");
    line.append(decimal_text(stats.recenter_inserts as u128).as_str());
    line.append(")");
    line
}

/// What is shown when a session has ended: nothing in quiet mode, else what was done
/// in the directions that were on.
pub open spec fn final_report(
    output: OutputMode,
    sending: bool,
    receiving: bool,
    stats: EngineStats,
) -> Seq<Seq<char>> {
    if output == OutputMode::Quiet {
        Seq::empty()
    } else {
        seq!["stopped"@] + (if sending {
            seq![sent_text(stats)]
        } else {
            Seq::empty()
        }) + (if receiving {
            seq![received_text(stats)]
        } else {
            Seq::empty()
        })
    }
}

/// The lines to show when a session has ended.
pub fn report_final(
    output: OutputMode,
    sending: bool,
    receiving: bool,
    stats: &EngineStats,
) -> (lines: Vec<String>)
    ensures
        texts(lines@) == final_report(output, sending, receiving, *stats),
{
    let mut lines: Vec<String> = Vec::new();
    if output == OutputMode::Quiet {
        assert(texts(lines@) =~= final_report(output, sending, receiving, *stats));
        return lines;
    }
    lines.push("stopped".to_owned());
    if sending {
        lines.push(sent_line(stats));
    }
    if receiving {
        lines.push(received_line(stats));
    }
    assert(texts(lines@) =~= final_report(output, sending, receiving, *stats));
    lines
}

/// A session is announced as connected at most once: no look after it says so again.
pub proof fn a_peer_connects_once(liveness: Liveness, total: u64, fresh: u64, later: u64, more: u64)
    ensures
        liveness.news(total, fresh).connected ==> !liveness.after(total, fresh).news(
            later,
            more,
        ).connected,
        liveness.peer_seen ==> liveness.after(total, fresh).peer_seen,
{
}

/// A silence is reported once: not again until packets have come in between.
pub proof fn a_silence_is_reported_once(
    liveness: Liveness,
    total: u64,
    later: u64,
    more: u64,
)
    requires
        liveness.news(total, 0).silent,
    ensures
        !liveness.after(total, 0).news(later, 0).silent,
        more > 0 && later > 0 ==> liveness.after(total, 0).after(later, more).news(
            later,
            0,
        ).silent,
{
}

/// Whatever a counter grew by, up to a whole turn, shows as that much progress.
pub proof fn progress_is_what_was_counted(before: u64, more: u64)
    ensures
        moved(crate::receive::counted(before, more as int), before) == more,
{
}

/// A session whose roles make a mode, with a peer if it captures and the port that
/// follows from its roles, has everything an engine needs to start.
pub proof fn routed_sessions_start<A>(config: EngineConfig<A>, bind: Option<u16>)
    requires
        mode_for(config.capture_channels is Some, config.playback_channels is Some) is Some,
        config.capture_channels is Some ==> config.peer is Some,
        config.bind == port_for(config.playback_channels is Some, bind),
    ensures
        config.start_error() is None,
{
}

/// Looking at the counters one after the other misses nothing: what two looks show
/// adds up to what happened in between.
pub proof fn looks_add_up(first: u64, second: u64, third: u64)
    ensures
        crate::receive::counted(moved(second, first), moved(third, second) as int) == moved(
            third,
            first,
        ),
{
}

/// The mode says which way audio flows: both roles make a full-duplex session, one role
/// alone its own direction, and none no session.
pub proof fn modes_follow_the_roles(capture: bool, playback: bool)
    ensures
        mode_for(capture, playback) == Some(Mode::FullDuplex) <==> capture && playback,
        mode_for(capture, playback) == Some(Mode::SendOnly) <==> capture && !playback,
        mode_for(capture, playback) == Some(Mode::ReceiveOnly) <==> !capture && playback,
        mode_for(capture, playback) is None <==> !capture && !playback,
        mode_name(Mode::FullDuplex) == "full duplex"@,
        mode_name(Mode::SendOnly) == "send-only"@,
        mode_name(Mode::ReceiveOnly) == "receive-only"@,
{
}

/// A peer that names its port is left alone; any other is sent to at port 9680.
pub proof fn peers_default_to_the_port(spec: Seq<char>)
    ensures
        spec.contains(':') ==> full_peer(spec) == spec,
        !spec.contains(':') ==> full_peer(spec) == spec + ":9680"@,
{
    reveal_strlit(":");
    reveal_strlit(":9680");
    reveal_with_fuel(decimal, 5);
    assert(spec + ":"@ + decimal(9680) =~= spec + ":9680"@);
}

/// The port asked for is taken, whatever the roles; without one a receiver listens at 9680
/// and a mere sender anywhere.
pub proof fn ports_follow_the_roles(playback: bool, bind: Option<u16>)
    ensures
        bind is Some ==> port_for(playback, bind) == bind,
        bind is None && playback ==> port_for(playback, bind) == Some(9680u16),
        bind is None && !playback ==> port_for(playback, bind) is None,
{
}

/// A stream is labelled with its rate and its channels, which have names where they are
/// one or two; a role that is off has no label.
pub proof fn streams_are_labelled(channels: u16, rate: u32)
    ensures
        stream_note(None, rate) == ""@,
        stream_note(Some(1u16), rate) == "  ["@ + decimal(rate as int) + " Hz, "@ + "mono"@ + "]"@,
        stream_note(Some(2u16), rate) == "  ["@ + decimal(rate as int) + " Hz, "@ + "stereo"@
            + "]"@,
        channels != 1 && channels != 2 ==> stream_note(Some(channels), rate) == "  ["@ + decimal(
            rate as int,
        ) + " Hz, "@ + (decimal(channels as int) + " ch"@) + "]"@,
{
}

/// What a summary says, line by line: a session that sends says where to, one that does
/// not has a line less.
pub proof fn summaries_say_what_is_running(info: SessionInfo, version: Seq<char>)
    ensures
        ({
            let lines = info.summary_text(version);
            let n = lines.len() as int;
            let codec = "codec "@ + signed_decimal(info.bitrate as int) + " bps, jitter "@
                + decimal(info.jitter_ms as int) + " ms, fec="@ + (if info.fec {
                "true"@
            } else {
                "false"@
            }) + ", dtx="@ + (if info.dtx {
                "true"@
            } else {
                "false"@
            });
            &&& n == if info.peer is Some {
                6int
            } else {
                5
            }
            &&& lines[0] == "vox "@ + version + " — "@ + mode_name(info.mode)
            &&& lines[1] == "capture  "@ + info.capture@
            &&& lines[2] == "playback "@ + info.playback@
            &&& info.peer is Some ==> lines[3] == "sending to "@ + info.peer->0@
            &&& lines[n - 2] == "listening "@ + info.bind@
            &&& lines[n - 1] == codec
        }),
{
}

/// A session with a duration says how long it runs; any other only how to stop it.
pub proof fn sessions_say_how_long_they_run(secs: u64)
    ensures
        running_text(Some(secs)) == "running for "@ + decimal(secs as int)
            + "s (Ctrl+C to stop early)"@,
        running_text(None) == "running (Ctrl+C to stop)"@,
{
}

/// A session with a duration is over so many seconds after it began and not before; one
/// whose end lies beyond the clock ends with the clock, and one without a duration never.
pub proof fn sessions_last_their_duration(start: u64, secs: u64, now: u64)
    ensures
        end_of(start, None) is None,
        end_of(start, Some(secs)) is Some,
        now < u64::MAX ==> (over_at(end_of(start, Some(secs)), now) <==> now - start >= 1000
            * secs),
        !over_at(end_of(start, None), now),
        end_of(start, Some(secs))->0 >= start,
{
}

/// A counter's movement is the difference, a whole turn added where it wrapped.
pub proof fn movements_are_differences(now: u64, before: u64)
    ensures
        now >= before ==> moved(now, before) == now - before,
        now < before ==> moved(now, before) == now - before + 0x1_0000_0000_0000_0000,
{
}

/// Each counter's progress is its own: what was sent and received, packets and bytes, are
/// kept apart.
pub proof fn progress_keeps_the_counters_apart(before: EngineStats, now: EngineStats)
    requires
        before.packets_sent <= now.packets_sent,
        before.bytes_sent <= now.bytes_sent,
        before.packets_received <= now.packets_received,
        before.bytes_received <= now.bytes_received,
    ensures
        ({
            let progress = progress_between(before, now);
            &&& progress.packets_sent == now.packets_sent - before.packets_sent
            &&& progress.bytes_sent == now.bytes_sent - before.bytes_sent
            &&& progress.packets_received == now.packets_received - before.packets_received
            &&& progress.bytes_received == now.bytes_received - before.bytes_received
        }),
{
}

/// The first packet connects the peer, and nothing else does; a silence is news when the
/// peer has been heard, nothing came since the last look and it was not news before.
pub proof fn peers_are_heard_by_their_packets(liveness: Liveness, total: u64, fresh: u64)
    ensures
        ({
            let (news, after) = (liveness.news(total, fresh), liveness.after(total, fresh));
            &&& news.connected <==> !liveness.peer_seen && total != 0
            &&& after.peer_seen <==> liveness.peer_seen || total != 0
            &&& news.silent <==> after.peer_seen && fresh == 0 && !liveness.warned_silent
            &&& fresh > 0 && after.peer_seen ==> !after.warned_silent
            &&& fresh == 0 && after.peer_seen ==> after.warned_silent
            &&& !after.peer_seen ==> after.warned_silent == liveness.warned_silent
        }),
{
}

/// Each number of the status line stands behind its own name.
pub proof fn the_status_line_names_its_numbers(stats: EngineStats)
    ensures
        quality_text(stats) == "gaps "@ + decimal(stats.gap_frames as int) + " drops "@ + decimal(
            stats.dropped_late as int,
        ) + " overruns "@ + decimal(stats.overruns as int) + " recenter "@ + decimal(
            stats.recenter_drops as int,
        ) + "/"@ + decimal(stats.recenter_inserts as int),
{
}

/// What a session says in the end: nothing where it is quiet, else that it stopped and,
/// of each direction that was on, its numbers, each behind its own name and volumes in
/// whole KiB.
pub proof fn final_reports_name_their_numbers(
    output: OutputMode,
    sending: bool,
    receiving: bool,
    stats: EngineStats,
)
    ensures
        ({
            let lines = final_report(output, sending, receiving, stats);
            let sent = "sent "@ + decimal(stats.packets_sent as int) + " packets ("@ + decimal(
                stats.bytes_sent as int / 1024,
            ) + " KiB)"@;
            let received = "received "@ + decimal(stats.packets_received as int) + " packets ("@
                + decimal(stats.bytes_received as int / 1024) + " KiB), "@ + decimal(
                stats.gap_frames as int,
            ) + " gap frames, "@ + decimal(stats.dropped_late as int) + " late/dup, "@ + decimal(
                stats.overruns as int,
            ) + " overruns, "@ + decimal(stats.recenter_drops + stats.recenter_inserts)
                + " recenter (drop "@ + decimal(stats.recenter_drops as int) + " / hold "@
                + decimal(stats.recenter_inserts as int) + ")"@;
            &&& output == OutputMode::Quiet ==> lines.len() == 0
            &&& output != OutputMode::Quiet ==> {
                &&& lines.len() == 1 + (if sending {
                    1int
                } else {
                    0
                }) + (if receiving {
                    1int
                } else {
                    0
                })
                &&& lines[0] == "stopped"@
                &&& sending ==> lines[1] == sent
                &&& receiving ==> lines.last() == received
            }
        }),
{
}

} // verus!
