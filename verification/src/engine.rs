//! The engine: what it takes to start a session, the rings between the audio
//! callbacks and the two network threads, and the counters a session reports.

use crate::audio::{
    capacity_for, millis_of, ring_capacity, samples_to_ms, silence, silent, CAPTURE_RING_MS, RATE,
    SILENCE,
};
use crate::jitter::{initial_depth, starting_depth};
use crate::receive::{ReceiveSnapshot, ReceiveStats, Receiver, ReceiverState};
use crate::ring::{
    carries, consumer_limit, consumer_position, consumer_queue, consumer_ring, max_ring,
    pop_effect, producer_limit, producer_position, producer_queue, producer_ring, push_effect,
    ring_new, ring_pop, ring_push, ring_split, RingConsumer, RingProducer, RingState,
};
use crate::send::{EncoderParams, SendStats, Sender, SenderState};
use vstd::prelude::*;

verus! {

/// How to start an engine. `peer` is required to capture and send; `bind` is
/// required to receive, and is the port the peer targets. Channel counts are the
/// device's: audio is mono on the wire. `A` is how a peer is addressed.
pub struct EngineConfig<A> {
    pub peer: Option<A>,
    /// Local UDP port. `None` stands for an ephemeral source port (send-only).
    pub bind: Option<u16>,
    pub capture_channels: Option<u16>,
    pub playback_channels: Option<u16>,
    pub capture_sample_rate: u32,
    pub playback_sample_rate: u32,
    /// Depth of the jitter buffer's ring: the most it ever delays.
    pub jitter_ms: u32,
    pub bitrate: i32,
    pub fec: bool,
    pub expected_loss: u8,
    pub dtx: bool,
}

/// Why an engine cannot start.
#[derive(Clone, Copy, PartialEq, Eq, Structural, Debug)]
pub enum StartError {
    NoRole,
    ReceiveWithoutBind,
    CaptureWithoutPeer,
}

impl StartError {
    /// What to tell the user.
    pub fn message(&self) -> (message: &'static str)
        ensures
            message@ == match *self {
                StartError::NoRole => "engine has neither a capture nor a playback role"@,
                StartError::ReceiveWithoutBind =>
                    "a playback (receive) role requires a bind port for the peer to target"@,
                StartError::CaptureWithoutPeer => "a capture role requires a peer to send to"@,
            },
    {
        match self {
            StartError::NoRole => "engine has neither a capture nor a playback role",
            StartError::ReceiveWithoutBind => {
                "a playback (receive) role requires a bind port for the peer to target"
            },
            StartError::CaptureWithoutPeer => "a capture role requires a peer to send to",
        }
    }
}

/// Whether a ring of `ms` of audio can be made.
pub open spec fn ring_fits(rate: u32, ms: u32, channels: u16) -> bool {
    &&& channels > 0
    &&& rate * ms <= usize::MAX
    &&& capacity_for(rate as int, ms as int, channels as int) <= max_ring()
}

/// Check that a ring of `ms` of audio has a channel and fits in memory.
fn check_ring(rate: u32, ms: u32, channels: u16) -> (fits: bool)
    ensures
        fits == ring_fits(rate, ms, channels),
{
    assert(0 <= rate * ms <= 0xFFFF_FFFF * 0xFFFF_FFFF) by (nonlinear_arith)
        requires
            0 <= rate <= 0xFFFF_FFFF,
            0 <= ms <= 0xFFFF_FFFF,
    ;
    let product: u64 = rate as u64 * ms as u64;
    if channels == 0 || product > usize::MAX as u64 {
        return false;
    }
    let per_channel: u64 = product / 1000;
    assert(0 <= per_channel * channels <= 0xFFFF_FFFF_FFFF_FFFF * 0xFFFF) by (nonlinear_arith)
        requires
            0 <= per_channel <= 0xFFFF_FFFF_FFFF_FFFF,
            0 <= channels <= 0xFFFF,
    ;
    let wanted: u128 = per_channel as u128 * channels as u128;
    if wanted > (usize::MAX / 8) as u128 {
        return false;
    }
    ring_capacity(rate, ms, channels) <= usize::MAX / 8
}

impl<A> EngineConfig<A> {
    /// Why this configuration does not start, if it does not.
    pub open spec fn start_error(self) -> Option<StartError> {
        if self.capture_channels is None && self.playback_channels is None {
            Some(StartError::NoRole)
        } else if self.playback_channels is Some && self.bind is None {
            Some(StartError::ReceiveWithoutBind)
        } else if self.capture_channels is Some && self.peer is None {
            Some(StartError::CaptureWithoutPeer)
        } else {
            None
        }
    }

    /// Whether the rings of every role that is on can be made.
    pub open spec fn fits(self) -> bool {
        &&& self.capture_channels matches Some(channels) ==> ring_fits(
            self.capture_sample_rate,
            CAPTURE_RING_MS,
            channels,
        )
        &&& self.playback_channels matches Some(channels) ==> ring_fits(
            self.playback_sample_rate,
            self.jitter_ms,
            channels,
        )
    }

    /// Whether the rings of every role that is on have a channel and fit in memory.
    pub fn rings_fit(&self) -> (fit: bool)
        ensures
            fit == self.fits(),
    {
        let capture_fits = match self.capture_channels {
            Some(channels) => check_ring(self.capture_sample_rate, CAPTURE_RING_MS, channels),
            None => true,
        };
        let playback_fits = match self.playback_channels {
            Some(channels) => check_ring(self.playback_sample_rate, self.jitter_ms, channels),
            None => true,
        };
        capture_fits && playback_fits
    }

    /// The local port to bind before the engine starts; zero lets the system pick.
    /// A missing peer is only noticed when the engine starts.
    pub fn local_port(&self) -> (port: Result<u16, StartError>)
        ensures
            self.capture_channels is None && self.playback_channels is None ==> port == Err::<
                u16,
                StartError,
            >(StartError::NoRole),
            self.playback_channels is Some && self.bind is None ==> port == Err::<u16, StartError>(
                StartError::ReceiveWithoutBind,
            ),
            (self.capture_channels is Some || self.playback_channels is Some) && self.bind is Some
                ==> port == Ok::<u16, StartError>(self.bind->0),
            self.capture_channels is Some && self.playback_channels is None && self.bind is None
                ==> port == Ok::<u16, StartError>(0),
            port == if self.start_error() == Some(StartError::NoRole) {
                Err::<u16, StartError>(StartError::NoRole)
            } else if self.start_error() == Some(StartError::ReceiveWithoutBind) {
                Err(StartError::ReceiveWithoutBind)
            } else {
                Ok(
                    match self.bind {
                        Some(port) => port,
                        None => 0,
                    },
                )
            },
    {
        if self.capture_channels.is_none() && self.playback_channels.is_none() {
            return Err(StartError::NoRole);
        }
        if self.playback_channels.is_some() && self.bind.is_none() {
            return Err(StartError::ReceiveWithoutBind);
        }
        Ok(self.bind.unwrap_or(0))
    }

    /// The encoder settings.
    pub fn encoder_params(&self) -> (params: EncoderParams)
        ensures
            params == (EncoderParams {
                bitrate: self.bitrate,
                fec: self.fec,
                expected_loss: self.expected_loss,
                dtx: self.dtx,
            }),
    {
        EncoderParams {
            bitrate: self.bitrate,
            fec: self.fec,
            expected_loss: self.expected_loss,
            dtx: self.dtx,
        }
    }
}

/// Non-blocking sink: the record callback pushes device audio into it. This is the
/// write end of the capture ring.
pub struct CaptureSink {
    producer: RingProducer,
}

impl View for CaptureSink {
    type V = RingState;

    closed spec fn view(&self) -> RingState {
        RingState {
            ring: producer_ring(self.producer),
            position: producer_position(self.producer),
            queue: producer_queue(self.producer),
            limit: producer_limit(self.producer),
        }
    }
}

impl CaptureSink {
    pub(crate) fn new(producer: RingProducer) -> (sink: CaptureSink)
        ensures
            sink@ == (RingState {
                ring: producer_ring(producer),
                position: producer_position(producer),
                queue: producer_queue(producer),
                limit: producer_limit(producer),
            }),
    {
        CaptureSink { producer }
    }

    /// Push captured interleaved audio; how many samples went in. Never waits: a
    /// full ring drops the excess.
    pub fn push(&mut self, data: &[u32]) -> (pushed: usize)
        ensures
            final(self)@.ring == old(self)@.ring,
            final(self)@.limit == old(self)@.limit,
            final(self)@.position == old(self)@.position + pushed,
            carries(old(self)@.ring, old(self)@.position, data@.take(pushed as int)),
            exists|taken: int| #[trigger]
                push_effect(
                    old(self)@.queue,
                    old(self)@.limit,
                    taken,
                    data@,
                    pushed as int,
                    final(self)@.queue,
                ),
    {
        let ghost queue = producer_queue(self.producer);
        let ghost limit = producer_limit(self.producer);
        let pushed: usize = ring_push(&mut self.producer, data);
        proof {
            let after = producer_queue(self.producer);
            let taken = choose|taken: int| #[trigger]
                push_effect(queue, limit, taken, data@, pushed as int, after);
            assert(push_effect(
                old(self)@.queue,
                old(self)@.limit,
                taken,
                data@,
                pushed as int,
                self@.queue,
            ));
        }
        pushed
    }
}

/// Non-blocking source: the play callback pulls audio from it and gets silence when
/// there is none. This is the read end of the jitter buffer.
pub struct PlaybackSource {
    consumer: RingConsumer,
}

impl View for PlaybackSource {
    type V = RingState;

    closed spec fn view(&self) -> RingState {
        RingState {
            ring: consumer_ring(self.consumer),
            position: consumer_position(self.consumer),
            queue: consumer_queue(self.consumer),
            limit: consumer_limit(self.consumer),
        }
    }
}

impl PlaybackSource {
    pub(crate) fn new(consumer: RingConsumer) -> (source: PlaybackSource)
        ensures
            source@ == (RingState {
                ring: consumer_ring(consumer),
                position: consumer_position(consumer),
                queue: consumer_queue(consumer),
                limit: consumer_limit(consumer),
            }),
    {
        PlaybackSource { consumer }
    }

    /// Fill `data` with interleaved audio to play, padded with silence where there is
    /// not enough; how many samples were there. Never waits.
    pub fn fill(&mut self, data: &mut [u32]) -> (played: usize)
        ensures
            final(self)@.ring == old(self)@.ring,
            final(self)@.limit == old(self)@.limit,
            final(self)@.position == old(self)@.position + played,
            carries(old(self)@.ring, old(self)@.position, final(data)@.take(played as int)),
            final(data)@.len() == old(data)@.len(),
            played <= final(data)@.len(),
            final(data)@.skip(played as int) == silent((final(data)@.len() - played) as nat),
            exists|arrived: Seq<u32>| #[trigger]
                pop_effect(
                    old(self)@.queue,
                    old(self)@.limit,
                    arrived,
                    old(data)@.len() as int,
                    final(data)@.take(played as int),
                    final(self)@.queue,
                ),
    {
        let len: usize = data.len();
        let ghost queue = consumer_queue(self.consumer);
        let ghost limit = consumer_limit(self.consumer);
        let popped: usize = ring_pop(&mut self.consumer, data);
        let ghost queued = data@.take(popped as int);
        let ghost after = consumer_queue(self.consumer);
        let ghost arrived = choose|arrived: Seq<u32>| #[trigger]
            pop_effect(queue, limit, arrived, len as int, queued, after);
        assert(pop_effect(queue, limit, arrived, len as int, queued, after));
        let mut i: usize = popped;
        while i < len
            invariant
                popped <= i <= len,
                data@.len() == len,
                data@.take(popped as int) == queued,
                forall|k: int| popped <= k < i ==> data@[k] == SILENCE,
            decreases len - i,
        {
            data[i] = SILENCE;
            assert(data@.take(popped as int) =~= queued);
            i += 1;
        }
        assert(data@.skip(popped as int) =~= silent((len - popped) as nat));
        assert(pop_effect(
            old(self)@.queue,
            old(self)@.limit,
            arrived,
            old(data)@.len() as int,
            data@.take(popped as int),
            self@.queue,
        ));
        popped
    }
}

/// The rings' outer ends, handed to the audio callbacks. A role is `None` when that
/// direction is off.
pub struct AudioPorts {
    pub capture: Option<CaptureSink>,
    pub playback: Option<PlaybackSource>,
}

/// Cumulative engine counters, and the state of the jitter buffer.
#[derive(Clone, Copy)]
pub struct EngineStats {
    pub packets_sent: u64,
    pub bytes_sent: u64,
    pub packets_received: u64,
    pub bytes_received: u64,
    pub gap_frames: u64,
    pub dropped_late: u64,
    /// Frames of which the jitter buffer could not take all.
    pub overruns: u64,
    /// In-order frames dropped, and repeated, to recenter the jitter buffer.
    pub recenter_drops: u64,
    pub recenter_inserts: u64,
    /// Current jitter-buffer occupancy and capacity, in samples.
    pub jitter_fill: u64,
    pub jitter_capacity: u64,
    /// The occupancy, and the depth it is steered toward, as time.
    pub jitter_fill_ms: u64,
    pub target_depth_ms: u64,
}

impl Default for EngineStats {
    /// Nothing sent, received or buffered.
    fn default() -> (stats: EngineStats)
        ensures
            stats == EngineStats::idle(),
    {
        EngineStats {
            packets_sent: 0,
            bytes_sent: 0,
            packets_received: 0,
            bytes_received: 0,
            gap_frames: 0,
            dropped_late: 0,
            overruns: 0,
            recenter_drops: 0,
            recenter_inserts: 0,
            jitter_fill: 0,
            jitter_capacity: 0,
            jitter_fill_ms: 0,
            target_depth_ms: 0,
        }
    }
}

/// `samples` as milliseconds, in a counter.
pub open spec fn shown_ms(samples: u64, rate: u32, channels: u16) -> u64 {
    let exact = millis_of(samples as int, rate as int, channels as int);
    if exact > u64::MAX {
        u64::MAX
    } else {
        exact as u64
    }
}

impl EngineStats {
    /// All zero.
    pub open spec fn idle() -> EngineStats {
        EngineStats {
            packets_sent: 0,
            bytes_sent: 0,
            packets_received: 0,
            bytes_received: 0,
            gap_frames: 0,
            dropped_late: 0,
            overruns: 0,
            recenter_drops: 0,
            recenter_inserts: 0,
            jitter_fill: 0,
            jitter_capacity: 0,
            jitter_fill_ms: 0,
            target_depth_ms: 0,
        }
    }

    /// With the send counters put in.
    pub open spec fn with_sent(self, sent: Option<SendStats>) -> EngineStats {
        match sent {
            None => self,
            Some(sent) => EngineStats {
                packets_sent: sent.packets,
                bytes_sent: sent.bytes,
                ..self
            },
        }
    }

    /// With the cumulative receive counters put in.
    pub open spec fn with_received(self, received: Option<ReceiveStats>) -> EngineStats {
        match received {
            None => self,
            Some(received) => EngineStats {
                packets_received: received.received,
                bytes_received: received.bytes,
                gap_frames: received.gap_frames,
                dropped_late: received.dropped_late,
                overruns: received.overruns,
                recenter_drops: received.recenter_drops,
                recenter_inserts: received.recenter_inserts,
                ..self
            },
        }
    }

    /// With the state of the jitter buffer put in.
    pub open spec fn with_buffer(self, buffer: Option<ReceiveSnapshot>) -> EngineStats {
        match buffer {
            None => self,
            Some(buffer) => EngineStats {
                jitter_fill: buffer.stats.jitter_fill,
                jitter_capacity: buffer.capacity,
                jitter_fill_ms: shown_ms(buffer.stats.jitter_fill, buffer.rate, buffer.channels),
                target_depth_ms: shown_ms(buffer.target, buffer.rate, buffer.channels),
                ..self
            },
        }
    }

    /// The final counters of a session: what accumulated, without the buffer's state.
    /// A direction that is off contributes nothing.
    pub fn totals(sent: Option<SendStats>, received: Option<ReceiveStats>) -> (stats: EngineStats)
        ensures
            stats == EngineStats::idle().with_sent(sent).with_received(received),
            sent matches Some(s) ==> stats.packets_sent == s.packets && stats.bytes_sent == s.bytes,
            sent is None ==> stats.packets_sent == 0 && stats.bytes_sent == 0,
            received matches Some(r) ==> {
                &&& stats.packets_received == r.received
                &&& stats.bytes_received == r.bytes
                &&& stats.gap_frames == r.gap_frames
                &&& stats.dropped_late == r.dropped_late
                &&& stats.overruns == r.overruns
                &&& stats.recenter_drops == r.recenter_drops
                &&& stats.recenter_inserts == r.recenter_inserts
            },
            received is None ==> {
                &&& stats.packets_received == 0
                &&& stats.bytes_received == 0
                &&& stats.gap_frames == 0
                &&& stats.dropped_late == 0
                &&& stats.overruns == 0
                &&& stats.recenter_drops == 0
                &&& stats.recenter_inserts == 0
            },
            stats.jitter_fill == 0,
            stats.jitter_capacity == 0,
            stats.jitter_fill_ms == 0,
            stats.target_depth_ms == 0,
    {
        let mut stats = EngineStats::default();
        if let Some(sent) = sent {
            stats.packets_sent = sent.packets;
            stats.bytes_sent = sent.bytes;
        }
        if let Some(received) = received {
            stats.packets_received = received.received;
            stats.bytes_received = received.bytes;
            stats.gap_frames = received.gap_frames;
            stats.dropped_late = received.dropped_late;
            stats.overruns = received.overruns;
            stats.recenter_drops = received.recenter_drops;
            stats.recenter_inserts = received.recenter_inserts;
        }
        stats
    }

    /// A live snapshot: the counters and the buffer's state.
    pub fn live(sent: Option<SendStats>, received: Option<ReceiveSnapshot>) -> (stats: EngineStats)
        ensures
            stats == EngineStats::idle().with_sent(sent).with_received(
                match received {
                    None => None,
                    Some(snapshot) => Some(snapshot.stats),
                },
            ).with_buffer(received),
            sent matches Some(s) ==> stats.packets_sent == s.packets && stats.bytes_sent == s.bytes,
            sent is None ==> stats.packets_sent == 0 && stats.bytes_sent == 0,
            received matches Some(r) ==> {
                &&& stats.packets_received == r.stats.received
                &&& stats.bytes_received == r.stats.bytes
                &&& stats.gap_frames == r.stats.gap_frames
                &&& stats.dropped_late == r.stats.dropped_late
                &&& stats.overruns == r.stats.overruns
                &&& stats.recenter_drops == r.stats.recenter_drops
                &&& stats.recenter_inserts == r.stats.recenter_inserts
            },
            received is None ==> {
                &&& stats.packets_received == 0
                &&& stats.bytes_received == 0
                &&& stats.gap_frames == 0
                &&& stats.dropped_late == 0
                &&& stats.overruns == 0
                &&& stats.recenter_drops == 0
                &&& stats.recenter_inserts == 0
            },
            received matches Some(r) ==> {
                &&& stats.jitter_fill == r.stats.jitter_fill
                &&& stats.jitter_capacity == r.capacity
                &&& stats.jitter_fill_ms == shown_ms(r.stats.jitter_fill, r.rate, r.channels)
                &&& stats.target_depth_ms == shown_ms(r.target, r.rate, r.channels)
            },
            received is None ==> stats.jitter_fill == 0 && stats.jitter_capacity == 0,
            received is None ==> stats.jitter_fill_ms == 0 && stats.target_depth_ms == 0,
    {
        match received {
            None => EngineStats::totals(sent, None),
            Some(snapshot) => {
                let mut stats = EngineStats::totals(sent, Some(snapshot.stats));
                stats.jitter_fill = snapshot.stats.jitter_fill;
                stats.jitter_capacity = snapshot.capacity;
                stats.jitter_fill_ms = samples_to_ms(
                    snapshot.stats.jitter_fill,
                    snapshot.rate,
                    snapshot.channels,
                );
                stats.target_depth_ms = samples_to_ms(
                    snapshot.target,
                    snapshot.rate,
                    snapshot.channels,
                );
                stats
            },
        }
    }
}

/// A started engine: the inner ends of the rings with their threads' state, to be
/// run until the session ends. `A` is how a peer is addressed.
pub struct Engine<A> {
    /// What captures, and where it sends to.
    pub sender: Option<(Sender, A)>,
    pub receiver: Option<Receiver>,
}

/// How capturing starts: with an empty ring whose ends the callback and the sender
/// share.
pub open spec fn capture_started<A>(
    config: EngineConfig<A>,
    sender: Option<(Sender, A)>,
    sink: Option<CaptureSink>,
) -> bool {
    match config.capture_channels {
        None => sender is None && sink is None,
        Some(channels) => {
            &&& sender matches Some((sender, peer)) && sink matches Some(sink) && {
                &&& Some(peer) == config.peer
                &&& sink@.position == 0
                &&& sink@.queue == Seq::<u32>::empty()
                &&& sink@.limit == capacity_for(
                    config.capture_sample_rate as int,
                    CAPTURE_RING_MS as int,
                    channels as int,
                )
                &&& sender@ == SenderState::fresh(
                    sink@.ring,
                    0,
                    sink@.queue,
                    sink@.limit,
                    channels as nat,
                    config.capture_sample_rate != RATE,
                )
            }
        },
    }
}

/// How receiving starts: with a ring whose ends the callback and the receiver share,
/// filled with silence to the starting depth, or to the brim if it is shallower.
pub open spec fn playback_started<A>(
    config: EngineConfig<A>,
    receiver: Option<Receiver>,
    source: Option<PlaybackSource>,
) -> bool {
    match config.playback_channels {
        None => receiver is None && source is None,
        Some(channels) => {
            let rate = config.playback_sample_rate;
            let capacity = capacity_for(rate as int, config.jitter_ms as int, channels as int);
            let depth = starting_depth(rate as int, channels as int, capacity);
            let cushion = silent(
                if depth <= capacity {
                    depth as nat
                } else {
                    capacity as nat
                },
            );
            &&& receiver matches Some(receiver) && source matches Some(source) && {
                &&& source@.limit == capacity
                &&& source@.position == 0
                &&& source@.queue == Seq::<u32>::empty()
                &&& carries(source@.ring, 0, cushion)
                &&& receiver@ == ReceiverState::fresh(
                    source@.ring,
                    cushion.len(),
                    cushion,
                    source@.limit,
                    channels as nat,
                    rate,
                )
            }
        },
    }
}

impl<A> Engine<A> {
    /// What every engine keeps.
    pub open spec fn wf(self) -> bool {
        &&& self.sender matches Some((sender, _)) ==> sender@.wf()
        &&& self.receiver matches Some(receiver) ==> receiver.wf()
    }

    /// The counters of the directions that are on.
    pub open spec fn sent(self) -> Option<SendStats> {
        match self.sender {
            None => None,
            Some((sender, _)) => Some(
                SendStats { packets: sender@.packets, bytes: sender@.bytes },
            ),
        }
    }

    /// Start the engine. Returns it with the rings' outer ends for the callbacks.
    pub fn start(config: EngineConfig<A>) -> (started: Result<(Engine<A>, AudioPorts), StartError>)
        requires
            config.start_error() is None ==> config.fits(),
        ensures
            match config.start_error() {
                Some(error) => started matches Err(e) && e == error,
                None => started matches Ok((engine, ports)) && {
                    &&& engine.wf()
                    &&& capture_started(config, engine.sender, ports.capture)
                    &&& playback_started(config, engine.receiver, ports.playback)
                },
            },
    {
        if let Err(error) = config.local_port() {
            return Err(error);
        }
        let playback_channels = config.playback_channels;
        let (rate, jitter_ms) = (config.playback_sample_rate, config.jitter_ms);
        let (sender, capture) = match (config.capture_channels, config.peer) {
            (Some(channels), Some(peer)) => {
                let (sender, sink) = start_capture(config.capture_sample_rate, channels);
                (Some((sender, peer)), Some(sink))
            },
            (Some(_), None) => return Err(StartError::CaptureWithoutPeer),
            (None, _) => (None, None),
        };
        let (receiver, playback) = match playback_channels {
            Some(channels) => {
                let (receiver, source) = start_playback(rate, jitter_ms, channels);
                (Some(receiver), Some(source))
            },
            None => (None, None),
        };
        Ok((Engine { sender, receiver }, AudioPorts { capture, playback }))
    }

    /// A live snapshot of the counters.
    pub fn stats(&self) -> (stats: EngineStats)
        requires
            self.wf(),
        ensures
            ({
                let counted = EngineStats::idle().with_sent(self.sent()).with_received(
                    match self.receiver {
                        None => None,
                        Some(receiver) => Some(receiver@.stats),
                    },
                );
                match self.receiver {
                    None => stats == counted,
                    Some(receiver) => stats == (EngineStats {
                        jitter_fill: receiver@.stats.jitter_fill,
                        jitter_capacity: receiver@.limit as u64,
                        jitter_fill_ms: shown_ms(
                            receiver@.stats.jitter_fill,
                            receiver@.rate,
                            receiver@.channels as u16,
                        ),
                        target_depth_ms: shown_ms(
                            ((receiver@.low + receiver@.high) / 2) as u64,
                            receiver@.rate,
                            receiver@.channels as u16,
                        ),
                        ..counted
                    }),
                }
            }),
            self.sender matches Some((s, _)) ==> stats.packets_sent == s@.packets
                && stats.bytes_sent == s@.bytes,
            self.sender is None ==> stats.packets_sent == 0 && stats.bytes_sent == 0,
            self.receiver matches Some(r) ==> {
                &&& stats.packets_received == r@.stats.received
                &&& stats.bytes_received == r@.stats.bytes
                &&& stats.gap_frames == r@.stats.gap_frames
                &&& stats.dropped_late == r@.stats.dropped_late
                &&& stats.overruns == r@.stats.overruns
                &&& stats.recenter_drops == r@.stats.recenter_drops
                &&& stats.recenter_inserts == r@.stats.recenter_inserts
            },
            self.receiver is None ==> {
                &&& stats.packets_received == 0
                &&& stats.bytes_received == 0
                &&& stats.gap_frames == 0
                &&& stats.dropped_late == 0
                &&& stats.overruns == 0
                &&& stats.recenter_drops == 0
                &&& stats.recenter_inserts == 0
            },
            self.receiver matches Some(r) ==> {
                &&& stats.jitter_fill == r@.stats.jitter_fill
                &&& stats.jitter_capacity == r@.limit
            },
    {
        let sent = match &self.sender {
            Some((sender, _)) => Some(sender.stats()),
            None => None,
        };
        let received = match &self.receiver {
            Some(receiver) => Some(receiver.snapshot()),
            None => None,
        };
        EngineStats::live(sent, received)
    }

    /// End the session; the final counters.
    pub fn stop(self) -> (stats: EngineStats)
        ensures
            stats == EngineStats::idle().with_sent(self.sent()).with_received(
                match self.receiver {
                    None => None,
                    Some(receiver) => Some(receiver@.stats),
                },
            ),
            self.sender matches Some((s, _)) ==> stats.packets_sent == s@.packets
                && stats.bytes_sent == s@.bytes,
            self.sender is None ==> stats.packets_sent == 0 && stats.bytes_sent == 0,
            self.receiver matches Some(r) ==> {
                &&& stats.packets_received == r@.stats.received
                &&& stats.bytes_received == r@.stats.bytes
                &&& stats.gap_frames == r@.stats.gap_frames
                &&& stats.dropped_late == r@.stats.dropped_late
                &&& stats.overruns == r@.stats.overruns
                &&& stats.recenter_drops == r@.stats.recenter_drops
                &&& stats.recenter_inserts == r@.stats.recenter_inserts
            },
            self.receiver is None ==> {
                &&& stats.packets_received == 0
                &&& stats.bytes_received == 0
                &&& stats.gap_frames == 0
                &&& stats.dropped_late == 0
                &&& stats.overruns == 0
                &&& stats.recenter_drops == 0
                &&& stats.recenter_inserts == 0
            },
            stats.jitter_fill == 0,
            stats.jitter_capacity == 0,
            stats.jitter_fill_ms == 0,
            stats.target_depth_ms == 0,
    {
        let sent = match self.sender {
            Some((sender, _)) => Some(sender.stats()),
            None => None,
        };
        let received = match self.receiver {
            Some(receiver) => Some(receiver.stats()),
            None => None,
        };
        EngineStats::totals(sent, received)
    }
}

/// An empty capture ring: its read end as a sender, its write end as a sink.
fn start_capture(rate: u32, channels: u16) -> (ends: (Sender, CaptureSink))
    requires
        ring_fits(rate, CAPTURE_RING_MS, channels),
    ensures
        ends.0@.wf(),
        ends.1@.position == 0,
        ends.1@.queue == Seq::<u32>::empty(),
        ends.1@.limit == capacity_for(rate as int, CAPTURE_RING_MS as int, channels as int),
        ends.0@ == SenderState::fresh(
            ends.1@.ring,
            0,
            ends.1@.queue,
            ends.1@.limit,
            channels as nat,
            rate != RATE,
        ),
{
    let capacity: usize = ring_capacity(rate, CAPTURE_RING_MS, channels);
    let (producer, consumer) = ring_split(ring_new(capacity));
    (Sender::new(consumer, channels as usize, rate, RATE), CaptureSink::new(producer))
}

/// A jitter buffer with its cushion of silence: its write end as a receiver, its read
/// end as a source.
fn start_playback(rate: u32, jitter_ms: u32, channels: u16) -> (ends: (Receiver, PlaybackSource))
    requires
        ring_fits(rate, jitter_ms, channels),
    ensures
        ends.0.wf(),
        ends.1@.limit == capacity_for(rate as int, jitter_ms as int, channels as int),
        ({
            let capacity = capacity_for(rate as int, jitter_ms as int, channels as int);
            let depth = starting_depth(rate as int, channels as int, capacity);
            let cushion = silent(
                if depth <= capacity {
                    depth as nat
                } else {
                    capacity as nat
                },
            );
            &&& ends.1@.position == 0
            &&& ends.1@.queue == Seq::<u32>::empty()
            &&& carries(ends.1@.ring, 0, cushion)
            &&& ends.0@ == ReceiverState::fresh(
                ends.1@.ring,
                cushion.len(),
                cushion,
                ends.1@.limit,
                channels as nat,
                rate,
            )
        }),
{
    let capacity: usize = ring_capacity(rate, jitter_ms, channels);
    let (mut producer, consumer) = ring_split(ring_new(capacity));
    let depth: usize = initial_depth(rate, channels as usize, capacity);
    let cushion: Vec<u32> = silence(depth);
    let ghost empty = producer_queue(producer);
    let pushed: usize = ring_push(&mut producer, cushion.as_slice());
    proof {
        let queue = producer_queue(producer);
        let taken = choose|taken: int| #[trigger]
            push_effect(empty, capacity as nat, taken, cushion@, pushed as int, queue);
        assert(push_effect(empty, capacity as nat, taken, cushion@, pushed as int, queue));
        assert(queue =~= silent(pushed as nat));
        assert(cushion@.take(pushed as int) =~= silent(pushed as nat));
    }
    (Receiver::new(producer, capacity, channels, rate), PlaybackSource::new(consumer))
}

/// An engine starts exactly when it has a role, a port to receive on if it plays, and
/// a peer to send to if it captures.
pub proof fn starting_needs_a_role_a_port_and_a_peer<A>(config: EngineConfig<A>)
    ensures
        config.start_error() is None <==> {
            &&& config.capture_channels is Some || config.playback_channels is Some
            &&& config.playback_channels is Some ==> config.bind is Some
            &&& config.capture_channels is Some ==> config.peer is Some
        },
{
}

/// A direction that is off contributes nothing to the counters.
pub proof fn idle_directions_count_nothing(sent: SendStats, received: ReceiveStats)
    ensures
        EngineStats::idle().with_sent(None).with_received(Some(received)).packets_sent == 0,
        EngineStats::idle().with_sent(None).with_received(Some(received)).bytes_sent == 0,
        EngineStats::idle().with_sent(Some(sent)).with_received(None) == (EngineStats {
            packets_sent: sent.packets,
            bytes_sent: sent.bytes,
            ..EngineStats::idle()
        }),
{
}

/// Whether no cumulative counter of a report fell.
pub open spec fn reports_no_less(before: EngineStats, after: EngineStats) -> bool {
    &&& before.packets_sent <= after.packets_sent
    &&& before.bytes_sent <= after.bytes_sent
    &&& before.packets_received <= after.packets_received
    &&& before.bytes_received <= after.bytes_received
    &&& before.gap_frames <= after.gap_frames
    &&& before.dropped_late <= after.dropped_late
    &&& before.overruns <= after.overruns
    &&& before.recenter_drops <= after.recenter_drops
    &&& before.recenter_inserts <= after.recenter_inserts
}

/// What an engine with this sender and receiver has counted.
pub open spec fn counted_by(
    sender: Option<SenderState>,
    receiver: Option<ReceiverState>,
) -> EngineStats {
    EngineStats::idle().with_sent(
        match sender {
            None => None,
            Some(sender) => Some(sender.counters()),
        },
    ).with_received(
        match receiver {
            None => None,
            Some(receiver) => Some(receiver.stats),
        },
    )
}

/// A session of both directions never reports less than before, as long as no counter
/// wraps: no counter of a later reading, the final one among them, is below that of an
/// earlier one. The two directions may be at different points of their lives.
pub proof fn reports_never_fall(
    sending: Seq<SenderState>,
    receiving: Seq<ReceiverState>,
    sent_early: int,
    sent_late: int,
    received_early: int,
    received_late: int,
)
    requires
        0 <= sent_early <= sent_late < sending.len(),
        0 <= received_early <= received_late < receiving.len(),
        forall|i: int| 0 < i < sending.len() ==> sending[i - 1].steps_to(#[trigger] sending[i]),
        forall|i: int|
            0 < i < receiving.len() ==> receiving[i - 1].steps_to(#[trigger] receiving[i]),
    ensures
        reports_no_less(
            counted_by(Some(sending[sent_early]), Some(receiving[received_early])),
            counted_by(Some(sending[sent_late]), Some(receiving[received_late])),
        ),
        reports_no_less(
            counted_by(Some(sending[sent_early]), None),
            counted_by(Some(sending[sent_late]), None),
        ),
        reports_no_less(
            counted_by(None, Some(receiving[received_early])),
            counted_by(None, Some(receiving[received_late])),
        ),
{
    crate::send::sent_counters_only_grow(sending, sent_early, sent_late);
    crate::receive::received_counters_only_grow(receiving, received_early, received_late);
}

/// What a running engine reports and what it reports in the end are what its two
/// directions have counted, apart from the state of the buffer.
pub proof fn reports_are_what_was_counted<A>(engine: Engine<A>)
    ensures
        ({
            let sender = match engine.sender {
                None => None,
                Some((sender, _)) => Some(sender@),
            };
            let receiver = match engine.receiver {
                None => None,
                Some(receiver) => Some(receiver@),
            };
            let received = match engine.receiver {
                None => None,
                Some(receiver) => Some(receiver@.stats),
            };
            EngineStats::idle().with_sent(engine.sent()).with_received(received) == counted_by(
                sender,
                receiver,
            )
        }),
{
}

/// Every counter that is reported is the counter of the same thing: nothing that was sent
/// is reported as received, nothing lost as late, and nothing dropped as repeated.
pub proof fn reports_keep_the_counters_apart(
    sent: SendStats,
    received: ReceiveStats,
    buffer: ReceiveSnapshot,
)
    ensures
        ({
            let r = EngineStats::idle().with_sent(Some(sent)).with_received(
                Some(received),
            ).with_buffer(Some(buffer));
            &&& r.packets_sent == sent.packets
            &&& r.bytes_sent == sent.bytes
            &&& r.packets_received == received.received
            &&& r.bytes_received == received.bytes
            &&& r.gap_frames == received.gap_frames
            &&& r.dropped_late == received.dropped_late
            &&& r.overruns == received.overruns
            &&& r.recenter_drops == received.recenter_drops
            &&& r.recenter_inserts == received.recenter_inserts
            &&& r.jitter_fill == buffer.stats.jitter_fill
            &&& r.jitter_capacity == buffer.capacity
            &&& r.jitter_fill_ms == shown_ms(
                buffer.stats.jitter_fill,
                buffer.rate,
                buffer.channels,
            )
            &&& r.target_depth_ms == shown_ms(buffer.target, buffer.rate, buffer.channels)
        }),
{
}

/// A depth shown in milliseconds is the whole milliseconds that its samples fill.
pub proof fn depths_are_shown_as_time(samples: u64, rate: u32, channels: u16)
    requires
        0 < rate,
        0 < channels,
    ensures
        ({
            let ms = shown_ms(samples, rate, channels);
            &&& ms * (rate * channels) <= samples * 1000
            &&& ms < u64::MAX ==> samples * 1000 < (ms + 1) * (rate * channels)
        }),
{
    crate::audio::samples_fill_their_time(samples as int, rate as int, channels as int);
    let (ms, exact, k) = (
        shown_ms(samples, rate, channels) as int,
        millis_of(samples as int, rate as int, channels as int),
        rate * channels,
    );
    assert(0 <= exact) by (nonlinear_arith)
        requires
            0 <= samples * 1000 < (exact + 1) * k,
            0 <= k,
    ;
    assert(ms * k <= exact * k) by (nonlinear_arith)
        requires
            ms <= exact,
            0 <= k,
    ;
}

/// Which of the things an engine needs is missing, in the order in which it is noticed.
pub proof fn what_is_missing_is_named<A>(config: EngineConfig<A>)
    ensures
        config.start_error() == Some(StartError::NoRole) <==> config.capture_channels is None
            && config.playback_channels is None,
        config.start_error() == Some(StartError::ReceiveWithoutBind) <==> config.playback_channels
            is Some && config.bind is None,
        config.start_error() == Some(StartError::CaptureWithoutPeer) <==> {
            &&& config.capture_channels is Some && config.peer is None
            &&& config.playback_channels is Some ==> config.bind is Some
        },
{
}

/// How a direction that is on starts, and that one that is off does not. Both ends are of
/// one ring, as deep as asked for. A capture ring is empty; what comes out of a jitter
/// buffer first is silence.
pub proof fn directions_start_as_configured<A>(
    config: EngineConfig<A>,
    sender: Option<(Sender, A)>,
    sink: Option<CaptureSink>,
    receiver: Option<Receiver>,
    source: Option<PlaybackSource>,
)
    requires
        capture_started(config, sender, sink),
        playback_started(config, receiver, source),
    ensures
        sender is Some <==> config.capture_channels is Some,
        sink is Some <==> config.capture_channels is Some,
        receiver is Some <==> config.playback_channels is Some,
        source is Some <==> config.playback_channels is Some,
        config.capture_channels matches Some(channels) ==> {
            let (s, k) = ((sender->0).0@, (sink->0)@);
            &&& Some((sender->0).1) == config.peer
            &&& s.ring == k.ring
            &&& s.position == 0 && k.position == 0
            &&& s.limit == k.limit
            &&& s.queue.len() == 0 && k.queue.len() == 0
            &&& s.partial.len() == 0 && s.wire.len() == 0
            &&& !s.failing
            &&& k.limit >= 960 * channels
            &&& k.limit >= (config.capture_sample_rate * 50 / 1000) * channels
            &&& k.limit == 960 * channels || k.limit == (config.capture_sample_rate * 50 / 1000)
                * channels
            &&& s.channels == channels
            &&& s.pending is Some <==> config.capture_sample_rate != 48_000
            &&& s.seq == 0 && s.timestamp == 0 && s.packets == 0 && s.bytes == 0
        },
        config.playback_channels matches Some(channels) ==> {
            let (r, k) = ((receiver->0)@, (source->0)@);
            let rate = config.playback_sample_rate as int;
            &&& r.ring == k.ring
            &&& k.position == 0
            &&& r.limit == k.limit
            &&& k.limit >= 960 * channels
            &&& k.limit >= (rate * config.jitter_ms / 1000) * channels
            &&& k.limit == 960 * channels || k.limit == (rate * config.jitter_ms / 1000) * channels
            &&& r.low == 960 * channels
            &&& (r.low + r.high) / 2 <= r.limit ==> r.position == (r.low + r.high) / 2
            &&& (r.low + r.high) / 2 > r.limit ==> r.position == r.limit
            &&& r.channels == channels
            &&& r.rate == config.playback_sample_rate
            &&& r.expected is None
            &&& r.position == r.queue.len()
            &&& r.position <= r.limit
            &&& r.limit >= 3 * (960 * channels) ==> r.position <= r.limit / 2 && 2 * r.position >= 3
                * (960 * channels)
            &&& carries(k.ring, 0, r.queue)
            &&& forall|i: int| 0 <= i < r.queue.len() ==> #[trigger] r.queue[i] == 0
        },
{
    if let Some(channels) = config.capture_channels {
        crate::audio::rings_hold_the_time_and_a_frame(
            config.capture_sample_rate as int,
            50,
            channels as int,
        );
    }
    if let Some(channels) = config.playback_channels {
        let (rate, ms) = (config.playback_sample_rate as int, config.jitter_ms as int);
        crate::audio::rings_hold_the_time_and_a_frame(rate, ms, channels as int);
        crate::jitter::starting_depth_is_in_the_band(
            rate,
            channels as int,
            capacity_for(rate, ms, channels as int),
        );
        crate::jitter::watermarks_are_ordered(
            0,
            rate,
            channels as int,
            capacity_for(rate, ms, channels as int),
        );
    }
}

/// A direction that is off, or a buffer that is not there, changes nothing of a report.
pub proof fn what_is_off_changes_nothing(stats: EngineStats)
    ensures
        stats.with_sent(None) == stats,
        stats.with_received(None) == stats,
        stats.with_buffer(None) == stats,
{
}

/// A stream without a rate or without channels is shown as no time.
pub proof fn no_stream_is_shown_as_no_time(samples: u64, rate: u32, channels: u16)
    requires
        rate == 0 || channels == 0,
    ensures
        shown_ms(samples, rate, channels) == 0,
{
    crate::audio::no_stream_takes_no_time(samples as int, rate as int, channels as int);
}

/// A ring can be made exactly when there is a channel, its time in samples can be counted,
/// and an eighth of memory can hold both that and one 48 kHz frame.
pub proof fn rings_that_can_be_made(rate: u32, ms: u32, channels: u16)
    ensures
        ring_fits(rate, ms, channels) <==> {
            &&& channels != 0
            &&& rate * ms <= usize::MAX
            &&& (rate * ms / 1000) * channels <= usize::MAX as int / 8
            &&& 960 * channels <= usize::MAX as int / 8
        },
{
}

/// An engine's rings fit when those of the directions that are on do: the capture ring of
/// 50 ms, and the jitter buffer of the time asked for.
pub proof fn engines_that_fit<A>(config: EngineConfig<A>)
    ensures
        config.fits() <==> {
            &&& config.capture_channels is Some ==> ring_fits(
                config.capture_sample_rate,
                50,
                config.capture_channels->0,
            )
            &&& config.playback_channels is Some ==> ring_fits(
                config.playback_sample_rate,
                config.jitter_ms,
                config.playback_channels->0,
            )
        },
{
}

} // verus!
