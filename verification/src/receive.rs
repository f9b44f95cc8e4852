//! The receive path: order the datagrams that arrive, decide which lost frames to
//! conceal, size the jitter buffer to the link, and enqueue decoded audio.
//!
//! An in-order frame is played. A short gap is concealed: the last lost frame is
//! rebuilt from the redundancy in the packet that follows it, earlier ones without
//! data. A short step back is a late or duplicate frame and is dropped. A large
//! jump either way is a discontinuity, after which the stream resumes without
//! concealment; a large one backward means that the peer restarted, so the decoder
//! starts over too.

use crate::audio::{upmix, upmixed};
use crate::jitter::{
    adaptive_watermarks, ease, eased, high_mark, low_mark, rail, JitterEstimator,
};
use crate::packet::{
    ahead, datagram, is_behind, parse, payload_of, seq_of, timestamp_of, HEADER_LEN,
};
use crate::ring::{
    carries, max_ring, producer_limit, producer_position, producer_queue, producer_ring,
    push_effect, ring_occupied, ring_push, RingProducer,
};
use crate::send::header_of_frame;
use vstd::prelude::*;

verus! {

/// Frames of gap beyond which a discontinuity is assumed: about a second.
pub const MAX_GAP_FRAMES: u32 = 50;

/// How a datagram's sequence number relates to the one expected next.
#[derive(Clone, Copy, PartialEq, Eq, Structural, Debug)]
pub enum Arrival {
    /// The first datagram of all.
    First,
    /// The frame that was expected.
    InOrder,
    /// So many frames before this one are missing.
    Gap(u32),
    /// A frame that was played, concealed or given up already.
    Late,
    /// Far ahead: the stream moved on.
    Skip,
    /// Far behind: the peer started over.
    Restart,
}

/// How `seq` relates to the sequence number expected next.
pub open spec fn arrival_of(expected: Option<u32>, seq: u32) -> Arrival {
    match expected {
        None => Arrival::First,
        Some(expected) => {
            let distance = ahead(seq, expected);
            if is_behind(distance) {
                if 0x1_0000_0000 - distance <= MAX_GAP_FRAMES {
                    Arrival::Late
                } else {
                    Arrival::Restart
                }
            } else if distance == 0 {
                Arrival::InOrder
            } else if distance <= MAX_GAP_FRAMES {
                Arrival::Gap(distance as u32)
            } else {
                Arrival::Skip
            }
        },
    }
}

/// Relate a datagram to the one expected next.
pub fn classify(expected: Option<u32>, seq: u32) -> (arrival: Arrival)
    ensures
        arrival == arrival_of(expected, seq),
{
    match expected {
        None => Arrival::First,
        Some(expected) => {
            let distance: u32 = seq.wrapping_sub(expected);
            if distance >= u32::MAX / 2 {
                if u32::MAX - distance < MAX_GAP_FRAMES {
                    Arrival::Late
                } else {
                    Arrival::Restart
                }
            } else if distance == 0 {
                Arrival::InOrder
            } else if distance <= MAX_GAP_FRAMES {
                Arrival::Gap(distance)
            } else {
                Arrival::Skip
            }
        },
    }
}

/// Lost frames that an arrival leaves to be concealed.
pub open spec fn missing(arrival: Arrival) -> int {
    match arrival {
        Arrival::Gap(frames) => frames as int,
        _ => 0,
    }
}

/// What to decode for an accepted datagram, in this order.
pub struct Playout<'a> {
    /// Reset the decoder first.
    pub reset_decoder: bool,
    /// Then conceal so many lost frames without data.
    pub conceal: u32,
    /// Then rebuild one lost frame from the redundancy in `payload`.
    pub recover: bool,
    /// Finally decode `payload` itself; if `in_order`, the frame may be dropped or
    /// repeated to recenter the buffer.
    pub in_order: bool,
    pub payload: &'a [u8],
}

/// What to do with a datagram.
pub enum Step<'a> {
    /// Too short to be one of ours.
    Ignore,
    /// Late or duplicate: dropped.
    Late,
    /// Decode and enqueue.
    Play(Playout<'a>),
}

/// How an in-order frame moves the buffer back into its band.
#[derive(Clone, Copy, PartialEq, Eq, Structural, Debug)]
pub enum Recenter {
    Keep,
    Drop,
    Repeat,
}

/// What recentering calls for at a given depth.
pub open spec fn recentered(occupied: int, low: int, high: int) -> Recenter {
    if occupied > high {
        Recenter::Drop
    } else if occupied < low {
        Recenter::Repeat
    } else {
        Recenter::Keep
    }
}

/// Drop a frame above the high watermark, repeat one below the low one, and leave
/// the buffer alone in between.
pub fn recenter(occupied: usize, low: usize, high: usize) -> (action: Recenter)
    ensures
        action == recentered(occupied as int, low as int, high as int),
{
    if occupied > high {
        Recenter::Drop
    } else if occupied < low {
        Recenter::Repeat
    } else {
        Recenter::Keep
    }
}

/// Why a receive call failed.
#[derive(Clone, Copy, PartialEq, Eq, Structural, Debug)]
pub enum ReceiveFailure {
    /// Nothing came before the read timeout, as one platform says it.
    WouldBlock,
    /// Nothing came before the read timeout, as another says it.
    TimedOut,
    /// The peer is down, and its host says so.
    ConnectionReset,
    /// The peer is down, and its host says so in other words.
    ConnectionRefused,
    /// Anything else.
    Other,
}

/// Whether a failed receive ends the session. A timeout is the chance to stop, and
/// a peer that is down may come back.
pub fn is_fatal(failure: ReceiveFailure) -> (fatal: bool)
    ensures
        fatal == (failure == ReceiveFailure::Other),
{
    match failure {
        ReceiveFailure::WouldBlock | ReceiveFailure::TimedOut => false,
        ReceiveFailure::ConnectionReset | ReceiveFailure::ConnectionRefused => false,
        ReceiveFailure::Other => true,
    }
}

/// Receive counters; all but `jitter_fill` are cumulative.
#[derive(Clone, Copy)]
pub struct ReceiveStats {
    pub received: u64,
    pub bytes: u64,
    pub gap_frames: u64,
    pub dropped_late: u64,
    /// Frames of which the ring could not take all.
    pub overruns: u64,
    pub recenter_drops: u64,
    pub recenter_inserts: u64,
    /// Samples queued after the last frame.
    pub jitter_fill: u64,
}

/// A receiver's counters with the state of its jitter buffer.
#[derive(Clone, Copy)]
pub struct ReceiveSnapshot {
    pub stats: ReceiveStats,
    /// The jitter buffer's capacity, in samples.
    pub capacity: u64,
    /// The depth the buffer is steered toward, in samples: midway between the
    /// watermarks in force.
    pub target: u64,
    pub rate: u32,
    pub channels: u16,
}

/// A counter that has grown by `more`.
pub open spec fn counted(counter: u64, more: int) -> u64 {
    ((counter + more) % 0x1_0000_0000_0000_0000) as u64
}

impl ReceiveStats {
    /// The counters after a datagram of `len` bytes arrived like this.
    pub open spec fn after_hearing(self, len: int, arrival: Arrival) -> ReceiveStats {
        ReceiveStats {
            received: counted(self.received, 1),
            bytes: counted(self.bytes, len),
            gap_frames: counted(self.gap_frames, missing(arrival)),
            dropped_late: counted(
                self.dropped_late,
                if arrival == Arrival::Late {
                    1
                } else {
                    0
                },
            ),
            ..self
        }
    }

    /// Count a datagram of `len` bytes.
    fn heard(&mut self, len: usize, arrival: Arrival)
        ensures
            *final(self) == old(self).after_hearing(len as int, arrival),
    {
        self.received = self.received.wrapping_add(1);
        self.bytes = self.bytes.wrapping_add(len as u64);
        match arrival {
            Arrival::Gap(frames) => {
                self.gap_frames = self.gap_frames.wrapping_add(frames as u64);
            },
            Arrival::Late => {
                self.dropped_late = self.dropped_late.wrapping_add(1);
            },
            _ => {},
        }
    }
}

/// What a receiver is made of.
#[verifier::ext_equal]
pub struct ReceiverState {
    /// The jitter buffer's ring.
    pub ring: int,
    /// Samples written to it so far.
    pub position: nat,
    /// Samples known to wait in the jitter buffer.
    pub queue: Seq<u32>,
    /// The jitter buffer's capacity.
    pub limit: nat,
    pub channels: nat,
    pub rate: u32,
    /// The sequence number expected next.
    pub expected: Option<u32>,
    pub estimator: JitterEstimator,
    /// The watermarks in force.
    pub low: nat,
    pub high: nat,
    pub stats: ReceiveStats,
}

impl ReceiverState {
    /// What every receiver keeps: the watermarks are a frame or more apart, the low
    /// one leaves a frame of cushion, and the high one leaves a frame of room unless
    /// the ring is too small for that.
    pub open spec fn wf(self) -> bool {
        &&& 0 < self.channels <= u16::MAX
        &&& self.limit <= max_ring()
        &&& self.queue.len() <= self.limit
        &&& self.low == rail(self.channels as int)
        &&& 2 * rail(self.channels as int) <= self.high
        &&& self.high <= self.limit - rail(self.channels as int) || self.high == 2 * rail(
            self.channels as int,
        )
    }

    /// A receiver that has not heard anything yet.
    pub open spec fn fresh(
        ring: int,
        position: nat,
        queue: Seq<u32>,
        limit: nat,
        channels: nat,
        rate: u32,
    ) -> ReceiverState {
        ReceiverState {
            ring,
            position,
            queue,
            limit,
            channels,
            rate,
            expected: None,
            estimator: JitterEstimator { last: None, jitter: 0 },
            low: low_mark(0, rate as int, channels as int, limit as int) as nat,
            high: high_mark(0, rate as int, channels as int, limit as int) as nat,
            stats: ReceiveStats {
                received: 0,
                bytes: 0,
                gap_frames: 0,
                dropped_late: 0,
                overruns: 0,
                recenter_drops: 0,
                recenter_inserts: 0,
                jitter_fill: 0,
            },
        }
    }

    /// After an accepted datagram set the estimate to `estimator`, the watermarks
    /// have glided toward what it calls for.
    pub open spec fn retuned(self, estimator: JitterEstimator) -> ReceiverState {
        let (jitter, rate, channels, limit) = (
            estimator.jitter as int,
            self.rate as int,
            self.channels as int,
            self.limit as int,
        );
        ReceiverState {
            estimator,
            low: eased(self.low as int, low_mark(jitter, rate, channels, limit)) as nat,
            high: eased(self.high as int, high_mark(jitter, rate, channels, limit)) as nat,
            ..self
        }
    }

    /// After a datagram of `len` bytes with this header came at clock reading `now`.
    pub open spec fn after_datagram(
        self,
        len: int,
        seq: u32,
        timestamp: u32,
        now: u64,
    ) -> ReceiverState {
        let arrival = arrival_of(self.expected, seq);
        let heard = ReceiverState {
            stats: self.stats.after_hearing(len, arrival),
            ..self
        };
        if arrival == Arrival::Late {
            heard
        } else {
            // A restarted peer counts its samples from zero again.
            let estimator = if arrival == Arrival::Restart {
                JitterEstimator { last: None, jitter: 0 }
            } else {
                self.estimator
            };
            ReceiverState {
                expected: Some(((seq + 1) % 0x1_0000_0000) as u32),
                ..heard.retuned(estimator.updated(now, timestamp))
            }
        }
    }
}

/// Whether `after` is `before` with `samples` pushed onto the jitter buffer,
/// whatever the reader took off it first. What does not fit is dropped, and counted.
pub open spec fn enqueued(before: ReceiverState, samples: Seq<u32>, after: ReceiverState) -> bool {
    exists|taken: int, pushed: int| #[trigger]
        push_effect(before.queue, before.limit, taken, samples, pushed, after.queue) && carries(
            before.ring,
            before.position,
            samples.take(pushed),
        ) && after == (ReceiverState {
            position: (before.position + pushed) as nat,
            queue: after.queue,
            stats: ReceiveStats {
                overruns: counted(
                    before.stats.overruns,
                    if pushed < samples.len() {
                        1
                    } else {
                        0
                    },
                ),
                ..before.stats
            },
            ..before
        })
}

/// One side's wire-to-playback state.
pub struct Receiver {
    producer: RingProducer,
    capacity: usize,
    channels: usize,
    rate: u32,
    expected: Option<u32>,
    estimator: JitterEstimator,
    low: usize,
    high: usize,
    stats: ReceiveStats,
}

impl View for Receiver {
    type V = ReceiverState;

    closed spec fn view(&self) -> ReceiverState {
        ReceiverState {
            ring: producer_ring(self.producer),
            position: producer_position(self.producer),
            queue: producer_queue(self.producer),
            limit: self.capacity as nat,
            channels: self.channels as nat,
            rate: self.rate,
            expected: self.expected,
            estimator: self.estimator,
            low: self.low as nat,
            high: self.high as nat,
            stats: self.stats,
        }
    }
}

impl Receiver {
    /// What ties a receiver to its ring.
    pub closed spec fn wf(&self) -> bool {
        &&& self@.wf()
        &&& self.capacity == producer_limit(self.producer)
    }

    /// A receiver that fills `producer`, a ring of `capacity` samples played by a
    /// device with `channels` channels at `playback_rate`.
    pub(crate) fn new(
        producer: RingProducer,
        capacity: usize,
        channels: u16,
        playback_rate: u32,
    ) -> (receiver: Receiver)
        requires
            0 < channels,
            capacity == producer_limit(producer),
            capacity <= max_ring(),
            producer_queue(producer).len() <= capacity,
        ensures
            receiver.wf(),
            receiver@.wf(),
            receiver@ == ReceiverState::fresh(
                producer_ring(producer),
                producer_position(producer),
                producer_queue(producer),
                capacity as nat,
                channels as nat,
                playback_rate,
            ),
    {
        let (low, high) = adaptive_watermarks(0, playback_rate, channels as usize, capacity);
        proof {
            crate::jitter::watermarks_are_ordered(
                0,
                playback_rate as int,
                channels as int,
                capacity as int,
            );
        }
        Receiver {
            producer,
            capacity,
            channels: channels as usize,
            rate: playback_rate,
            expected: None,
            estimator: JitterEstimator::new(),
            low,
            high,
            stats: ReceiveStats {
                received: 0,
                bytes: 0,
                gap_frames: 0,
                dropped_late: 0,
                overruns: 0,
                recenter_drops: 0,
                recenter_inserts: 0,
                jitter_fill: 0,
            },
        }
    }

    /// Take in a datagram that came at clock reading `now` (ns), and say what to
    /// decode for it.
    pub fn accept<'a>(&mut self, datagram: &'a [u8], now: u64) -> (step: Step<'a>)
        requires
            old(self).wf(),
        ensures
            final(self).wf(),
            datagram@.len() < HEADER_LEN ==> step is Ignore && final(self)@ == old(self)@,
            datagram@.len() >= HEADER_LEN ==> {
                let arrival = arrival_of(old(self)@.expected, seq_of(datagram@));
                &&& final(self)@ == old(self)@.after_datagram(
                    datagram@.len() as int,
                    seq_of(datagram@),
                    timestamp_of(datagram@),
                    now,
                )
                &&& old(self)@.expected matches Some(expected) ==> {
                    let lost = (seq_of(datagram@) - expected) % 0x1_0000_0000;
                    lost <= 50 ==> (step matches Step::Play(playout) && {
                        &&& playout.conceal + (if playout.recover {
                            1int
                        } else {
                            0
                        }) == lost
                        &&& playout.recover == (lost > 0)
                        &&& playout.in_order == (lost == 0)
                        &&& !playout.reset_decoder
                    })
                }
                &&& (step is Late <==> arrival == Arrival::Late)
                &&& (step is Play <==> arrival != Arrival::Late)
                &&& step matches Step::Play(playout) ==> {
                    &&& playout.payload@ == payload_of(datagram@)
                    &&& playout.reset_decoder == (arrival == Arrival::Restart)
                    &&& playout.in_order == (arrival == Arrival::InOrder)
                    &&& playout.recover == (missing(arrival) > 0)
                    &&& playout.conceal == if missing(arrival) > 0 {
                        missing(arrival) - 1
                    } else {
                        0
                    }
                }
            },
    {
        let packet = match parse(datagram) {
            None => return Step::Ignore,
            Some(packet) => packet,
        };
        let arrival = classify(self.expected, packet.seq);
        self.stats.heard(datagram.len(), arrival);
        let missing: u32 = match arrival {
            Arrival::Late => return Step::Late,
            Arrival::Gap(frames) => frames,
            _ => 0,
        };
        if arrival == Arrival::Restart {
            self.estimator = JitterEstimator::new();
        }
        self.retune(now, packet.timestamp);
        self.expected = Some(packet.seq.wrapping_add(1));
        Step::Play(
            Playout {
                reset_decoder: arrival == Arrival::Restart,
                conceal: if missing > 0 {
                    missing - 1
                } else {
                    0
                },
                recover: missing > 0,
                in_order: arrival == Arrival::InOrder,
                payload: packet.payload,
            },
        )
    }

    /// The counters so far.
    pub fn stats(&self) -> (stats: ReceiveStats)
        ensures
            stats == self@.stats,
    {
        self.stats
    }

    /// The counters together with what it takes to show the buffer's depth as time.
    pub fn snapshot(&self) -> (snapshot: ReceiveSnapshot)
        requires
            self.wf(),
        ensures
            snapshot.stats == self@.stats,
            snapshot.capacity == self@.limit,
            snapshot.target == (self@.low + self@.high) / 2,
            snapshot.rate == self@.rate,
            snapshot.channels == self@.channels,
    {
        ReceiveSnapshot {
            stats: self.stats,
            capacity: self.capacity as u64,
            target: ((self.low + self.high) / 2) as u64,
            rate: self.rate,
            channels: self.channels as u16,
        }
    }

    /// Fold an arrival into the jitter estimate and glide the watermarks.
    fn retune(&mut self, now: u64, timestamp: u32)
        requires
            old(self).wf(),
        ensures
            final(self).wf(),
            final(self)@ == old(self)@.retuned(old(self)@.estimator.updated(now, timestamp)),
    {
        let jitter: u128 = self.estimator.update(now, timestamp);
        let (low, high) = adaptive_watermarks(jitter, self.rate, self.channels, self.capacity);
        proof {
            crate::jitter::watermarks_are_ordered(
                jitter as int,
                self.rate as int,
                self.channels as int,
                self.capacity as int,
            );
            crate::jitter::easing_stays_between(self.low as int, low as int);
            crate::jitter::easing_stays_between(self.high as int, high as int);
        }
        self.low = ease(self.low, low);
        self.high = ease(self.high, high);
    }

    /// Push interleaved samples onto the jitter buffer.
    fn enqueue(&mut self, samples: &[u32])
        requires
            old(self).wf(),
        ensures
            final(self).wf(),
            enqueued(old(self)@, samples@, final(self)@),
    {
        let ghost queue = producer_queue(self.producer);
        let ghost limit = producer_limit(self.producer);
        let pushed: usize = ring_push(&mut self.producer, samples);
        if pushed < samples.len() {
            self.stats.overruns = self.stats.overruns.wrapping_add(1);
        }
        proof {
            let after = producer_queue(self.producer);
            let taken = choose|taken: int| #[trigger]
                push_effect(queue, limit, taken, samples@, pushed as int, after);
            assert(push_effect(
                old(self)@.queue,
                old(self)@.limit,
                taken,
                samples@,
                pushed as int,
                self@.queue,
            ));
        }
    }

    /// Look how full the jitter buffer is.
    fn look(&mut self) -> (occupied: usize)
        requires
            old(self).wf(),
        ensures
            final(self).wf(),
            looked(old(self)@, final(self)@),
            occupied == final(self)@.queue.len(),
    {
        let ghost queue = producer_queue(self.producer);
        let occupied: usize = ring_occupied(&mut self.producer);
        proof {
            let after = producer_queue(self.producer);
            let taken = choose|taken: int|
                0 <= taken <= queue.len() && after == #[trigger] queue.skip(taken);
            assert(self@.queue == old(self)@.queue.skip(taken));
        }
        occupied
    }

    /// Play a decoded mono frame (at the playback rate). An in-order frame may be
    /// dropped or repeated to bring the buffer back into its band; a concealed one
    /// never is. How full the buffer is afterwards is noted.
    pub fn play(&mut self, mono: &[u32], in_order: bool) -> (action: Recenter)
        requires
            old(self).wf(),
            mono@.len() * old(self)@.channels <= usize::MAX,
        ensures
            final(self).wf(),
            final(self)@.stats.jitter_fill == final(self)@.queue.len(),
            !in_order ==> action == Recenter::Keep,
            action == Recenter::Drop ==> final(self)@.position == old(self)@.position,
            action != Recenter::Drop && final(self)@.stats.overruns == old(self)@.stats.overruns
                ==> carries(
                old(self)@.ring,
                old(self)@.position,
                upmixed(mono@, old(self)@.channels),
            ),
            action == Recenter::Keep && final(self)@.stats.overruns == old(self)@.stats.overruns
                ==> final(self)@.position == old(self)@.position + mono@.len()
                * old(self)@.channels,
            action == Recenter::Repeat && final(self)@.stats.overruns == old(self)@.stats.overruns
                ==> {
                &&& final(self)@.position == old(self)@.position + 2 * (mono@.len()
                    * old(self)@.channels)
                &&& carries(
                    old(self)@.ring,
                    old(self)@.position + mono@.len() * old(self)@.channels,
                    upmixed(mono@, old(self)@.channels),
                )
            },
            play_effect(
                old(self)@,
                upmixed(mono@, old(self)@.channels),
                in_order,
                action,
                final(self)@,
            ),
    {
        let ghost before = self@;
        let action = if in_order {
            let occupied: usize = self.look();
            recenter(occupied, self.low, self.high)
        } else {
            proof {
                lemma_not_looking(before);
            }
            Recenter::Keep
        };
        let ghost seen = self@;
        match action {
            Recenter::Drop => {
                self.stats.recenter_drops = self.stats.recenter_drops.wrapping_add(1);
            },
            Recenter::Keep => {
                let samples: Vec<u32> = upmix(mono, self.channels);
                self.enqueue(samples.as_slice());
            },
            Recenter::Repeat => {
                let samples: Vec<u32> = upmix(mono, self.channels);
                self.enqueue(samples.as_slice());
                self.enqueue(samples.as_slice());
                self.stats.recenter_inserts = self.stats.recenter_inserts.wrapping_add(1);
            },
        }
        let ghost mid = self@;
        let occupied: usize = self.look();
        let ghost unnoted = self@;
        self.stats.jitter_fill = occupied as u64;
        proof {
            assert(with_fill(self@, mid.stats.jitter_fill) =~= unnoted);
            assert(looked(before, seen));
            assert(played(seen, upmixed(mono@, before.channels), action, mid));
            assert(looked(mid, with_fill(self@, mid.stats.jitter_fill)));
            played_frames_are_what_the_ring_carries(
                before,
                upmixed(mono@, before.channels),
                in_order,
                action,
                self@,
            );
        }
        action
    }
}

/// Whether `after` is `before` once the write end has looked how far the reader is: some
/// of the oldest samples known to be queued may be gone.
pub open spec fn looked(before: ReceiverState, after: ReceiverState) -> bool {
    exists|taken: int|
        0 <= taken <= before.queue.len() && after == (ReceiverState {
            queue: #[trigger] before.queue.skip(taken),
            ..before
        })
}

proof fn lemma_not_looking(state: ReceiverState)
    ensures
        looked(state, state),
{
    assert(state.queue.skip(0) =~= state.queue);
}

/// What playing a frame of interleaved `samples` does: an in-order frame is dropped,
/// pushed once or pushed twice by the depth seen before it, any other is pushed once;
/// then the depth seen after it is noted.
pub open spec fn play_effect(
    before: ReceiverState,
    samples: Seq<u32>,
    in_order: bool,
    action: Recenter,
    after: ReceiverState,
) -> bool {
    exists|seen: ReceiverState, mid: ReceiverState|
        {
            &&& #[trigger] looked(before, seen)
            &&& action == if in_order {
                recentered(seen.queue.len() as int, before.low as int, before.high as int)
            } else {
                Recenter::Keep
            }
            &&& played(seen, samples, action, mid)
            &&& #[trigger] looked(mid, with_fill(after, mid.stats.jitter_fill))
        }
}

/// A receiver with this buffer fill noted.
pub open spec fn with_fill(state: ReceiverState, fill: u64) -> ReceiverState {
    ReceiverState { stats: ReceiveStats { jitter_fill: fill, ..state.stats }, ..state }
}

/// Whether `after` is `before` with a frame of interleaved `samples` dropped, pushed
/// once, or pushed twice.
pub open spec fn played(
    before: ReceiverState,
    samples: Seq<u32>,
    action: Recenter,
    after: ReceiverState,
) -> bool {
    match action {
        Recenter::Drop => after == (ReceiverState {
            stats: ReceiveStats {
                recenter_drops: counted(before.stats.recenter_drops, 1),
                ..before.stats
            },
            ..before
        }),
        Recenter::Keep => enqueued(before, samples, after),
        Recenter::Repeat => exists|once: ReceiverState, twice: ReceiverState|
            {
                &&& #[trigger] enqueued(before, samples, once)
                &&& #[trigger] enqueued(once, samples, twice)
                &&& after == (ReceiverState {
                    stats: ReceiveStats {
                        recenter_inserts: counted(before.stats.recenter_inserts, 1),
                        ..twice.stats
                    },
                    ..twice
                })
            },
    }
}

/// The sequence number that follows `seq` is the one expected next, also across the
/// wrap to zero.
pub proof fn the_next_frame_is_in_order(
    state: ReceiverState,
    len: int,
    seq: u32,
    timestamp: u32,
    now: u64,
)
    requires
        arrival_of(state.expected, seq) != Arrival::Late,
    ensures
        arrival_of(
            state.after_datagram(len, seq, timestamp, now).expected,
            ((seq + 1) % 0x1_0000_0000) as u32,
        ) == Arrival::InOrder,
{
}

/// A receiver that expects a sender's frame `n` takes its datagram as in order, hands
/// on exactly the payload that was sent, and then expects frame `n + 1`: on a link
/// that loses nothing every frame is played and none is concealed, forever.
pub proof fn a_clean_link_plays_every_frame(
    state: ReceiverState,
    n: nat,
    payload: Seq<u8>,
    now: u64,
)
    requires
        state.expected == Some(header_of_frame(n).0),
    ensures
        ({
            let sent = datagram(header_of_frame(n).0, header_of_frame(n).1, payload);
            let after = state.after_datagram(
                sent.len() as int,
                seq_of(sent),
                timestamp_of(sent),
                now,
            );
            &&& arrival_of(state.expected, seq_of(sent)) == Arrival::InOrder
            &&& payload_of(sent) == payload
            &&& after.expected == Some(header_of_frame(n + 1).0)
            &&& after.stats.gap_frames == state.stats.gap_frames
            &&& after.stats.dropped_late == state.stats.dropped_late
        }),
{
    let (seq, timestamp) = header_of_frame(n);
    let len = datagram(seq, timestamp, payload).len() as int;
    crate::packet::parsing_undoes_writing(seq, timestamp, payload);
    lemma_frame_in_order(state, n, len, now);
}

proof fn lemma_frame_in_order(state: ReceiverState, n: nat, len: int, now: u64)
    requires
        state.expected == Some(header_of_frame(n).0),
    ensures
        ({
            let (seq, timestamp) = header_of_frame(n);
            let after = state.after_datagram(len, seq, timestamp, now);
            &&& arrival_of(state.expected, seq) == Arrival::InOrder
            &&& after.expected == Some(header_of_frame(n + 1).0)
            &&& after.stats.gap_frames == state.stats.gap_frames
            &&& after.stats.dropped_late == state.stats.dropped_late
        }),
{
    lemma_counted_nothing(state.stats.gap_frames);
    lemma_counted_nothing(state.stats.dropped_late);
    reveal_with_fuel(header_of_frame, 2);
}

/// Losing up to fifty frames in a row leaves a gap of exactly that many; losing
/// more, up to half the circle, moves the stream on without filling.
pub proof fn lost_frames_leave_a_gap(expected: u32, lost: int)
    requires
        1 <= lost < u32::MAX / 2,
    ensures
        arrival_of(Some(expected), ((expected + lost) % 0x1_0000_0000) as u32)
            == if lost <= MAX_GAP_FRAMES {
            Arrival::Gap(lost as u32)
        } else {
            Arrival::Skip
        },
{
}

/// A frame that comes again, or up to fifty frames after its turn, is dropped: only
/// the counters change.
pub proof fn late_frames_are_dropped(
    state: ReceiverState,
    behind: int,
    len: int,
    timestamp: u32,
    now: u64,
)
    requires
        state.expected is Some,
        1 <= behind <= MAX_GAP_FRAMES,
    ensures
        ({
            let seq = ((state.expected->0 - behind) % 0x1_0000_0000) as u32;
            let after = state.after_datagram(len, seq, timestamp, now);
            &&& arrival_of(state.expected, seq) == Arrival::Late
            &&& after.stats.dropped_late == counted(state.stats.dropped_late, 1)
            &&& after == (ReceiverState { stats: after.stats, ..state })
        }),
{
}

/// A peer that starts over at zero is noticed at its first frame, unless it had sent
/// at most fifty frames (which look late) or half the circle (which looks ahead).
pub proof fn a_restarted_peer_is_noticed(
    state: ReceiverState,
    len: int,
    timestamp: u32,
    now: u64,
)
    requires
        state.expected matches Some(expected) && MAX_GAP_FRAMES < expected <= 0x8000_0000,
    ensures
        arrival_of(state.expected, 0) == Arrival::Restart,
        state.after_datagram(len, 0, timestamp, now).expected == Some(1u32),
        state.after_datagram(len, 0, timestamp, now).estimator.jitter == 0,
{
}

proof fn lemma_one_further(from: u32, to: u32)
    requires
        ahead(to, from) < u32::MAX,
    ensures
        ahead(((to + 1) % 0x1_0000_0000) as u32, from) == ahead(to, from) + 1,
{
    let distance = if to >= from {
        to - from
    } else {
        to - from + 0x1_0000_0000
    };
    assert(ahead(to, from) == distance);
    if to == u32::MAX {
        assert((0 - from) % 0x1_0000_0000 == if from == 0 {
            0
        } else {
            0x1_0000_0000 - from
        });
    }
}

/// Between two accepted frames of one run every frame is accounted for: what is
/// played plus what is concealed is how far the stream moved.
pub proof fn every_frame_is_accounted_for(
    state: ReceiverState,
    len: int,
    seq: u32,
    timestamp: u32,
    now: u64,
)
    requires
        state.expected is Some,
        ({
            let arrival = arrival_of(state.expected, seq);
            arrival == Arrival::InOrder || arrival is Gap
        }),
    ensures
        ({
            let after = state.after_datagram(len, seq, timestamp, now);
            &&& missing(arrival_of(state.expected, seq)) + 1 == ahead(
                after.expected->0,
                state.expected->0,
            )
            &&& after.stats.gap_frames == counted(
                state.stats.gap_frames,
                ahead(after.expected->0, state.expected->0) - 1,
            )
        }),
{
    lemma_one_further(state.expected->0, seq);
}

/// Inside its band the buffer is left alone, and only there.
pub proof fn the_band_is_left_alone(occupied: int, low: int, high: int)
    requires
        low <= high,
    ensures
        recentered(occupied, low, high) == Recenter::Keep <==> low <= occupied <= high,
{
}

/// A ring that is not drained in the meantime never overruns on a frame that is
/// kept: below the high watermark there is room for a frame, where the ring is deep
/// enough to keep a frame free at its end.
pub proof fn kept_frames_fit(before: ReceiverState, samples: Seq<u32>, after: ReceiverState)
    requires
        before.wf(),
        before.limit >= 3 * rail(before.channels as int),
        samples.len() <= rail(before.channels as int),
        before.queue.len() <= before.high,
        enqueued(before, samples, after),
    ensures
        after.stats.overruns == before.stats.overruns,
{
}

/// A sender's frame as it was heard: which one, how long its datagram was, and when it
/// came.
pub struct Heard {
    pub frame: nat,
    pub len: int,
    pub now: u64,
}

/// A receiver after it heard one of a sender's frames.
#[verifier::opaque]
pub open spec fn after_frame(state: ReceiverState, heard: Heard) -> ReceiverState {
    let (seq, timestamp) = header_of_frame(heard.frame);
    state.after_datagram(heard.len, seq, timestamp, heard.now)
}

/// A receiver after it heard some of a sender's frames, one after the other.
pub open spec fn after_frames(state: ReceiverState, heard: Seq<Heard>) -> ReceiverState
    decreases heard.len(),
{
    if heard.len() == 0 {
        state
    } else {
        after_frame(after_frames(state, heard.drop_last()), heard.last())
    }
}

/// Whether frames were heard in the order in which they were sent, from `first` on,
/// with at most fifty lost in a row.
pub open spec fn mostly_heard(first: nat, heard: Seq<Heard>) -> bool {
    forall|i: int|
        0 <= i < heard.len() ==> {
            let due = if i == 0 {
                first
            } else {
                heard[i - 1].frame + 1
            };
            due <= #[trigger] heard[i].frame <= due + MAX_GAP_FRAMES
        }
}

proof fn lemma_frames_ahead(from: nat, to: nat)
    requires
        from <= to < from + 0x1_0000_0000,
    ensures
        ahead(header_of_frame(to).0, header_of_frame(from).0) == to - from,
{
    crate::send::frames_are_numbered_in_order(from);
    crate::send::frames_are_numbered_in_order(to);
    vstd::arithmetic::div_mod::lemma_sub_mod_noop(to as int, from as int, 0x1_0000_0000);
    vstd::arithmetic::div_mod::lemma_small_mod((to - from) as nat, 0x1_0000_0000);
}

proof fn lemma_counted_twice(counter: u64, first: int, second: int)
    requires
        0 <= first,
        0 <= second,
    ensures
        counted(counted(counter, first), second) == counted(counter, first + second),
{
    vstd::arithmetic::div_mod::lemma_add_mod_noop(
        counter + first,
        second,
        0x1_0000_0000_0000_0000,
    );
    vstd::arithmetic::div_mod::lemma_mod_twice(counter + first, 0x1_0000_0000_0000_0000);
    vstd::arithmetic::div_mod::lemma_add_mod_noop(
        (counter + first) % 0x1_0000_0000_0000_0000,
        second,
        0x1_0000_0000_0000_0000,
    );
}

proof fn lemma_counted_nothing(counter: u64)
    ensures
        counted(counter, 0) == counter,
{
    vstd::arithmetic::div_mod::lemma_small_mod(counter as nat, 0x1_0000_0000_0000_0000);
}

proof fn lemma_mostly_heard(first: nat, heard: Seq<Heard>)
    requires
        mostly_heard(first, heard),
        heard.len() > 0,
    ensures
        mostly_heard(first, heard.drop_last()),
        ({
            let due = if heard.len() == 1 {
                first
            } else {
                heard.drop_last().last().frame + 1
            };
            due <= heard.last().frame <= due + MAX_GAP_FRAMES
        }),
{
    let earlier = heard.drop_last();
    assert forall|i: int| 0 <= i < earlier.len() implies ({
        let due = if i == 0 {
            first
        } else {
            earlier[i - 1].frame + 1
        };
        due <= #[trigger] earlier[i].frame <= due + MAX_GAP_FRAMES
    }) by {
        assert(earlier[i] == heard[i]);
    }
    assert(heard[heard.len() - 1] == heard.last());
}

proof fn lemma_one_frame_heard(state: ReceiverState, due: nat, heard: Heard)
    requires
        state.expected == Some(header_of_frame(due).0),
        due <= heard.frame <= due + MAX_GAP_FRAMES,
    ensures
        ({
            let after = after_frame(state, heard);
            &&& after.expected == Some(header_of_frame(heard.frame + 1).0)
            &&& after.stats.gap_frames == counted(state.stats.gap_frames, heard.frame - due)
            &&& after.stats.received == counted(state.stats.received, 1)
            &&& after.stats.dropped_late == state.stats.dropped_late
        }),
{
    reveal(after_frame);
    lemma_frames_ahead(due, heard.frame);
    lemma_counted_nothing(state.stats.dropped_late);
    reveal_with_fuel(header_of_frame, 2);
    assert(missing(arrival_of(state.expected, header_of_frame(heard.frame).0)) == heard.frame
        - due);
}

/// However a stream is thinned out on its way, as long as at most fifty frames are lost
/// in a row: every frame up to the last one heard is either played or concealed, and the
/// receiver waits for the one after it.
pub proof fn a_lossy_link_is_made_whole(state: ReceiverState, first: nat, heard: Seq<Heard>)
    requires
        state.expected == Some(header_of_frame(first).0),
        mostly_heard(first, heard),
    ensures
        ({
            let after = after_frames(state, heard);
            let next = if heard.len() == 0 {
                first
            } else {
                heard.last().frame + 1
            };
            &&& after.expected == Some(header_of_frame(next).0)
            &&& first + heard.len() <= next
            &&& after.stats.gap_frames == counted(
                state.stats.gap_frames,
                next - first - heard.len(),
            )
            &&& after.stats.received == counted(state.stats.received, heard.len() as int)
            &&& after.stats.dropped_late == state.stats.dropped_late
        }),
    decreases heard.len(),
{
    if heard.len() > 0 {
        let earlier = heard.drop_last();
        let last = heard.last();
        lemma_mostly_heard(first, heard);
        a_lossy_link_is_made_whole(state, first, earlier);
        let due = if earlier.len() == 0 {
            first
        } else {
            earlier.last().frame + 1
        };
        let before = after_frames(state, earlier);
        lemma_one_frame_heard(before, due, last);
        let (lost, more) = (due - first - earlier.len(), last.frame - due);
        assert(lost + more == last.frame + 1 - first - heard.len());
        lemma_counted_twice(state.stats.gap_frames, lost, more);
        lemma_counted_twice(state.stats.received, earlier.len() as int, 1);
    } else {
        lemma_counted_nothing(state.stats.gap_frames);
        lemma_counted_nothing(state.stats.received);
    }
}

/// Whether no cumulative receive counter fell.
pub open spec fn received_no_less(before: ReceiveStats, after: ReceiveStats) -> bool {
    &&& before.received <= after.received
    &&& before.bytes <= after.bytes
    &&& before.gap_frames <= after.gap_frames
    &&& before.dropped_late <= after.dropped_late
    &&& before.overruns <= after.overruns
    &&& before.recenter_drops <= after.recenter_drops
    &&& before.recenter_inserts <= after.recenter_inserts
}

impl ReceiveStats {
    /// Whether no counter can wrap in the next step, with a datagram of up to `len` bytes.
    pub open spec fn has_room(self, len: int) -> bool {
        &&& self.received < u64::MAX
        &&& self.bytes + len <= u64::MAX
        &&& self.gap_frames + MAX_GAP_FRAMES <= u64::MAX
        &&& self.dropped_late < u64::MAX
        &&& self.overruns + 2 <= u64::MAX
        &&& self.recenter_drops < u64::MAX
        &&& self.recenter_inserts < u64::MAX
    }
}

impl ReceiverState {
    /// Whether `after` is this receiver one step on, short of the wrap of its counters: a
    /// datagram came, or a frame was played.
    pub open spec fn steps_to(self, after: ReceiverState) -> bool {
        ||| after.stats == self.stats
        ||| exists|len: int, seq: u32, timestamp: u32, now: u64|
            0 <= len && self.stats.has_room(len) && after == #[trigger] self.after_datagram(
                len,
                seq,
                timestamp,
                now,
            )
        ||| exists|samples: Seq<u32>, in_order: bool, action: Recenter|
            self.stats.has_room(0) && #[trigger] play_effect(self, samples, in_order, action, after)
    }
}

/// Hearing a datagram never lowers a counter, as long as none wraps.
pub proof fn hearing_never_lowers_a_counter(
    state: ReceiverState,
    len: int,
    seq: u32,
    timestamp: u32,
    now: u64,
)
    requires
        0 <= len,
        state.stats.has_room(len),
    ensures
        received_no_less(state.stats, state.after_datagram(len, seq, timestamp, now).stats),
{
    let arrival = arrival_of(state.expected, seq);
    assert(0 <= missing(arrival) <= MAX_GAP_FRAMES);
}

/// Playing a frame never lowers a counter, as long as none wraps.
pub proof fn playing_never_lowers_a_counter(
    before: ReceiverState,
    samples: Seq<u32>,
    in_order: bool,
    action: Recenter,
    after: ReceiverState,
)
    requires
        before.stats.has_room(0),
        play_effect(before, samples, in_order, action, after),
    ensures
        received_no_less(before.stats, after.stats),
{
    let (seen, mid) = choose|seen: ReceiverState, mid: ReceiverState|
        {
            &&& #[trigger] looked(before, seen)
            &&& action == if in_order {
                recentered(seen.queue.len() as int, before.low as int, before.high as int)
            } else {
                Recenter::Keep
            }
            &&& played(seen, samples, action, mid)
            &&& #[trigger] looked(mid, with_fill(after, mid.stats.jitter_fill))
        };
    assert(seen.stats == before.stats);
    assert(received_no_less(seen.stats, mid.stats));
    assert(with_fill(after, mid.stats.jitter_fill).stats == mid.stats);
}

/// Over a receiver's life no later reading of its counters is below an earlier one, as
/// long as none wraps.
pub proof fn received_counters_only_grow(life: Seq<ReceiverState>, early: int, late: int)
    requires
        0 <= early <= late < life.len(),
        forall|i: int|
            0 < i < life.len() ==> life[i - 1].steps_to(#[trigger] life[i]),
    ensures
        received_no_less(life[early].stats, life[late].stats),
    decreases late - early,
{
    if early < late {
        received_counters_only_grow(life, early, late - 1);
        lemma_step_raises(life[late - 1], life[late]);
    }
}

proof fn lemma_step_raises(before: ReceiverState, after: ReceiverState)
    requires
        before.steps_to(after),
    ensures
        received_no_less(before.stats, after.stats),
{
    if after.stats != before.stats {
        if exists|len: int, seq: u32, timestamp: u32, now: u64|
            0 <= len && before.stats.has_room(len) && after == #[trigger] before.after_datagram(
                len,
                seq,
                timestamp,
                now,
            ) {
            let (len, seq, timestamp, now) = choose|
                len: int,
                seq: u32,
                timestamp: u32,
                now: u64,
            |
                0 <= len && before.stats.has_room(len) && after == #[trigger] before.after_datagram(
                    len,
                    seq,
                    timestamp,
                    now,
                );
            hearing_never_lowers_a_counter(before, len, seq, timestamp, now);
        } else {
            let (samples, in_order, action) = choose|
                samples: Seq<u32>,
                in_order: bool,
                action: Recenter,
            |
                before.stats.has_room(0) && #[trigger] play_effect(
                    before,
                    samples,
                    in_order,
                    action,
                    after,
                );
            playing_never_lowers_a_counter(before, samples, in_order, action, after);
        }
    }
}

/// What every sequence number means, by how far it lies from the one expected, once round
/// the circle: the one expected, up to fifty ahead, further ahead, up to fifty behind, and
/// further behind. Without one expected it is the first.
pub proof fn every_number_has_its_meaning(expected: u32, offset: int)
    requires
        -0x8000_0001 <= offset < 0x7FFF_FFFF,
    ensures
        ({
            let seq = ((expected + offset) % 0x1_0000_0000) as u32;
            let arrival = arrival_of(Some(expected), seq);
            &&& offset == 0 ==> arrival == Arrival::InOrder
            &&& 1 <= offset <= 50 ==> arrival == Arrival::Gap(offset as u32)
            &&& 50 < offset ==> arrival == Arrival::Skip
            &&& -50 <= offset < 0 ==> arrival == Arrival::Late
            &&& offset < -50 ==> arrival == Arrival::Restart
            &&& arrival_of(None, seq) == Arrival::First
        }),
{
    let seq = ((expected + offset) % 0x1_0000_0000) as u32;
    let distance = if offset >= 0 {
        offset
    } else {
        offset + 0x1_0000_0000
    };
    assert(ahead(seq, expected) == distance) by {
        let sum = expected + offset;
        if sum < 0 {
            assert(seq == sum + 0x1_0000_0000);
        } else if sum >= 0x1_0000_0000 {
            assert(seq == sum - 0x1_0000_0000);
        } else {
            assert(seq == sum);
        }
    }
}

/// Only a gap leaves frames to conceal, and it leaves as many as it says.
pub proof fn only_gaps_are_concealed(arrival: Arrival)
    ensures
        arrival matches Arrival::Gap(frames) ==> missing(arrival) == frames,
        !(arrival is Gap) ==> missing(arrival) == 0,
{
}

/// A counter grows by what is counted, and after its largest value goes on from zero.
pub proof fn counters_count(counter: u64, more: int)
    requires
        0 <= more <= u64::MAX,
    ensures
        counter + more <= u64::MAX ==> counted(counter, more) == counter + more,
        counter + more > u64::MAX ==> counted(counter, more) == counter + more
            - 0x1_0000_0000_0000_0000,
{
}

/// What hearing a datagram does, field by field; counters wrap. Each
/// is received, with its bytes. A late one is counted as such and changes nothing else.
/// Any other moves the stream on to the number behind its own, and the frames before it
/// that are missing are counted as lost. The ring, and what playing counts, are untouched.
pub proof fn hearing_counts_what_was_heard(
    state: ReceiverState,
    len: int,
    seq: u32,
    timestamp: u32,
    now: u64,
)
    requires
        0 <= len,
    ensures
        ({
            let after = state.after_datagram(len, seq, timestamp, now);
            let late = state.expected is Some && (state.expected->0 - seq - 1) % 0x1_0000_0000
                < 50;
            let lost = if state.expected is Some && 1 <= (seq - state.expected->0) % 0x1_0000_0000
                <= 50 {
                (seq - state.expected->0) % 0x1_0000_0000
            } else {
                0
            };
            &&& after.stats.received == (state.stats.received + 1) % 0x1_0000_0000_0000_0000
            &&& after.stats.bytes == (state.stats.bytes + len) % 0x1_0000_0000_0000_0000
            &&& after.stats.gap_frames == (state.stats.gap_frames + lost) % 0x1_0000_0000_0000_0000
            &&& after.stats.dropped_late == (state.stats.dropped_late + (if late {
                1int
            } else {
                0
            })) % 0x1_0000_0000_0000_0000
            &&& after.stats.overruns == state.stats.overruns
            &&& after.stats.recenter_drops == state.stats.recenter_drops
            &&& after.stats.recenter_inserts == state.stats.recenter_inserts
            &&& after.stats.jitter_fill == state.stats.jitter_fill
            &&& late ==> {
                &&& after.expected == state.expected
                &&& after.estimator == state.estimator
                &&& after.low == state.low
                &&& after.high == state.high
            }
            &&& !late ==> after.expected is Some && (after.expected->0 == seq + 1 || (seq
                == 0xFFFF_FFFF && after.expected->0 == 0))
            &&& after.ring == state.ring
            &&& after.position == state.position
            &&& after.queue == state.queue
            &&& after.limit == state.limit
            &&& after.channels == state.channels
            &&& after.rate == state.rate
        }),
{
    lemma_hearing(state, seq);
}

proof fn lemma_hearing(state: ReceiverState, seq: u32)
    ensures
        ({
            let arrival = arrival_of(state.expected, seq);
            &&& arrival == Arrival::Late <==> state.expected is Some && (state.expected->0 - seq
                - 1) % 0x1_0000_0000 < 50
            &&& missing(arrival) == if state.expected is Some && 1 <= (seq - state.expected->0)
                % 0x1_0000_0000 <= 50 {
                (seq - state.expected->0) % 0x1_0000_0000
            } else {
                0
            }
        }),
{
    if state.expected is Some {
        let expected = state.expected->0;
        let forward = if seq >= expected {
            seq - expected
        } else {
            seq - expected + 0x1_0000_0000
        };
        let back = if expected > seq {
            expected - seq - 1
        } else {
            expected - seq - 1 + 0x1_0000_0000
        };
        assert(ahead(seq, expected) == forward);
        assert((expected - seq - 1) % 0x1_0000_0000 == back);
        assert(forward + back == 0xFFFF_FFFF);
    }
}

/// What an accepted datagram does to the jitter estimate: it is folded in as an arrival,
/// after a restart of the peer as the first one of all.
pub proof fn accepted_datagrams_are_measured(
    state: ReceiverState,
    len: int,
    seq: u32,
    timestamp: u32,
    now: u64,
)
    ensures
        ({
            let after = state.after_datagram(len, seq, timestamp, now);
            let arrival = arrival_of(state.expected, seq);
            &&& arrival == Arrival::Restart ==> after.estimator == (JitterEstimator {
                last: Some((now, timestamp)),
                jitter: 0,
            })
            &&& arrival != Arrival::Restart && arrival != Arrival::Late ==> after.estimator
                == state.estimator.updated(now, timestamp)
        }),
{
}

/// The band follows the link both ways. With each accepted datagram the high watermark
/// moves toward the mark that the estimate then calls for and not past it: strictly down
/// when it lies more than fifty samples above it, strictly up when it lies more than four
/// below, by a hundredth or a tenth of the way to within half a sample.
pub proof fn the_band_follows_the_link(
    state: ReceiverState,
    len: int,
    seq: u32,
    timestamp: u32,
    now: u64,
)
    requires
        state.wf(),
        arrival_of(state.expected, seq) != Arrival::Late,
    ensures
        ({
            let after = state.after_datagram(len, seq, timestamp, now);
            let mark = high_mark(
                after.estimator.jitter as int,
                state.rate as int,
                state.channels as int,
                state.limit as int,
            );
            &&& state.high > mark + 50 ==> mark <= after.high < state.high
            &&& state.high < mark - 4 ==> state.high < after.high <= mark
            &&& state.high >= mark ==> {
                &&& mark <= after.high <= state.high
                &&& 100 * (state.high - after.high) >= state.high - mark - 50
                &&& 100 * (state.high - after.high) < state.high - mark + 50
            }
            &&& state.high <= mark ==> {
                &&& state.high <= after.high <= mark
                &&& 10 * (after.high - state.high) > mark - state.high - 5
                &&& 10 * (after.high - state.high) <= mark - state.high + 5
            }
            &&& after.low == 960 * state.channels
        }),
{
    let after = state.after_datagram(len, seq, timestamp, now);
    let (jitter, rate, channels, limit) = (
        after.estimator.jitter as int,
        state.rate as int,
        state.channels as int,
        state.limit as int,
    );
    crate::jitter::watermarks_are_ordered(jitter, rate, channels, limit);
    let mark = high_mark(jitter, rate, channels, limit);
    crate::jitter::easing_stays_between(state.high as int, mark);
    crate::jitter::a_glide_takes_its_share_of_the_way(state.high as int, mark);
    crate::jitter::easing_stays_between(state.low as int, low_mark(jitter, rate, channels, limit));
}

/// A datagram as it came.
pub struct Came {
    pub len: int,
    pub seq: u32,
    pub timestamp: u32,
    pub now: u64,
}

/// On a link that has calmed down the band comes back, and stays: over a life in which
/// every datagram is accepted and the estimate is zero, the high watermark falls by a
/// sample or more each time until it is within fifty samples of the mark of a link
/// without jitter, and never goes below that mark.
pub proof fn a_calm_link_is_shallow_again(
    life: Seq<ReceiverState>,
    came: Seq<Came>,
    n: int,
)
    requires
        0 <= n < life.len(),
        came.len() == life.len(),
        life[0].wf(),
        forall|i: int|
            0 < i < life.len() ==> {
                let c = came[i];
                &&& #[trigger] life[i] == life[i - 1].after_datagram(
                    c.len,
                    c.seq,
                    c.timestamp,
                    c.now,
                )
                &&& arrival_of(life[i - 1].expected, c.seq) != Arrival::Late
                &&& life[i].estimator.jitter == 0
            },
        life[0].high >= high_mark(
            0,
            life[0].rate as int,
            life[0].channels as int,
            life[0].limit as int,
        ),
    ensures
        ({
            let mark = high_mark(
                0,
                life[0].rate as int,
                life[0].channels as int,
                life[0].limit as int,
            );
            &&& mark <= life[n].high
            &&& life[n].high <= mark + 50 || life[n].high <= life[0].high - n
            &&& n >= life[0].high - mark ==> life[n].high <= mark + 50
        }),
        life[n].wf(),
        life[n].rate == life[0].rate,
        life[n].channels == life[0].channels,
        life[n].limit == life[0].limit,
    decreases n,
{
    if n > 0 {
        a_calm_link_is_shallow_again(life, came, n - 1);
        let c = came[n];
        let before = life[n - 1];
        assert(life[n] == before.after_datagram(c.len, c.seq, c.timestamp, c.now));
        the_band_follows_the_link(before, c.len, c.seq, c.timestamp, c.now);
        lemma_datagrams_keep_the_shape(before, c.len, c.seq, c.timestamp, c.now);
    }
}

proof fn lemma_datagrams_keep_the_shape(
    state: ReceiverState,
    len: int,
    seq: u32,
    timestamp: u32,
    now: u64,
)
    requires
        state.wf(),
        arrival_of(state.expected, seq) != Arrival::Late,
    ensures
        state.after_datagram(len, seq, timestamp, now).wf(),
        state.after_datagram(len, seq, timestamp, now).rate == state.rate,
        state.after_datagram(len, seq, timestamp, now).channels == state.channels,
        state.after_datagram(len, seq, timestamp, now).limit == state.limit,
{
    let after = state.after_datagram(len, seq, timestamp, now);
    let (jitter, rate, channels, limit) = (
        after.estimator.jitter as int,
        state.rate as int,
        state.channels as int,
        state.limit as int,
    );
    crate::jitter::watermarks_are_ordered(jitter, rate, channels, limit);
    crate::jitter::easing_stays_between(
        state.high as int,
        high_mark(jitter, rate, channels, limit),
    );
    crate::jitter::easing_stays_between(state.low as int, low_mark(jitter, rate, channels, limit));
}

/// When a frame is dropped and when it is repeated: above the band and below it, and
/// nowhere else.
pub proof fn frames_are_dropped_above_and_repeated_below(occupied: int, low: int, high: int)
    requires
        low <= high,
    ensures
        recentered(occupied, low, high) == Recenter::Drop <==> occupied > high,
        recentered(occupied, low, high) == Recenter::Repeat <==> occupied < low,
{
}

/// Whether a frame is dropped or repeated is decided by samples that are in the buffer:
/// some that were known to be queued and that the reader has not taken. A frame that is
/// not in order is neither.
pub proof fn the_buffer_decides(
    before: ReceiverState,
    samples: Seq<u32>,
    in_order: bool,
    action: Recenter,
    after: ReceiverState,
)
    requires
        before.wf(),
        play_effect(before, samples, in_order, action, after),
    ensures
        !in_order ==> action == Recenter::Keep,
        in_order ==> exists|seen: ReceiverState| #[trigger]
            looked(before, seen) && {
                &&& action == Recenter::Drop <==> seen.queue.len() > before.high
                &&& action == Recenter::Repeat <==> seen.queue.len() < before.low
            },
        action == Recenter::Drop ==> before.queue.len() > before.high,
        in_order && before.queue.len() < before.low ==> action == Recenter::Repeat,
{
    let (seen, mid) = choose|seen: ReceiverState, mid: ReceiverState|
        {
            &&& #[trigger] looked(before, seen)
            &&& action == if in_order {
                recentered(seen.queue.len() as int, before.low as int, before.high as int)
            } else {
                Recenter::Keep
            }
            &&& played(seen, samples, action, mid)
            &&& #[trigger] looked(mid, with_fill(after, mid.stats.jitter_fill))
        };
    assert(looked(before, seen));
    assert(seen.queue.len() <= before.queue.len());
}

/// Looking how far the reader is takes samples off the front of those known to be queued,
/// and changes nothing else.
pub proof fn looking_changes_nothing_but_knowledge(before: ReceiverState, after: ReceiverState)
    requires
        looked(before, after),
    ensures
        after.queue.len() <= before.queue.len(),
        forall|i: int|
            0 <= i < after.queue.len() ==> #[trigger] after.queue[i] == before.queue[i
                + before.queue.len() - after.queue.len()],
        after == (ReceiverState { queue: after.queue, ..before }),
{
}

/// What is heard of a frame that is played: exactly its own samples, in order. The ring
/// carries nothing of a dropped one, the frame once if it is kept and twice if it is
/// repeated; where it has no room for all of it, the front of it, which is counted.
pub proof fn played_frames_are_what_the_ring_carries(
    before: ReceiverState,
    samples: Seq<u32>,
    in_order: bool,
    action: Recenter,
    after: ReceiverState,
)
    requires
        play_effect(before, samples, in_order, action, after),
    ensures
        after.ring == before.ring,
        after.limit == before.limit,
        after.expected == before.expected,
        after.estimator == before.estimator,
        after.low == before.low,
        after.high == before.high,
        action == Recenter::Drop ==> after.position == before.position && after.stats.overruns
            == before.stats.overruns,
        action == Recenter::Keep ==> {
            let pushed = after.position - before.position;
            &&& 0 <= pushed <= samples.len()
            &&& carries(before.ring, before.position, samples.take(pushed))
            &&& pushed == samples.len() <==> after.stats.overruns == before.stats.overruns
        },
        action == Recenter::Repeat ==> {
            &&& before.position <= after.position <= before.position + 2 * samples.len()
            &&& after.position == before.position + 2 * samples.len() <==> after.stats.overruns
                == before.stats.overruns
            &&& after.stats.overruns == before.stats.overruns ==> carries(
                before.ring,
                before.position,
                samples,
            ) && carries(before.ring, before.position + samples.len(), samples)
        },
        action != Recenter::Drop && after.stats.overruns == before.stats.overruns ==> carries(
            before.ring,
            before.position,
            samples,
        ),
        action == Recenter::Keep && after.stats.overruns == before.stats.overruns
            ==> after.position == before.position + samples.len(),
{
    let (seen, mid) = choose|seen: ReceiverState, mid: ReceiverState|
        {
            &&& #[trigger] looked(before, seen)
            &&& action == if in_order {
                recentered(seen.queue.len() as int, before.low as int, before.high as int)
            } else {
                Recenter::Keep
            }
            &&& played(seen, samples, action, mid)
            &&& #[trigger] looked(mid, with_fill(after, mid.stats.jitter_fill))
        };
    assert(with_fill(after, mid.stats.jitter_fill).position == after.position);
    assert(with_fill(after, mid.stats.jitter_fill).stats.overruns == after.stats.overruns);
    if action == Recenter::Keep {
        lemma_enqueued(seen, samples, mid);
    } else if action == Recenter::Repeat {
        let (once, twice) = choose|once: ReceiverState, twice: ReceiverState|
            {
                &&& #[trigger] enqueued(seen, samples, once)
                &&& #[trigger] enqueued(once, samples, twice)
                &&& mid == (ReceiverState {
                    stats: ReceiveStats {
                        recenter_inserts: counted(seen.stats.recenter_inserts, 1),
                        ..twice.stats
                    },
                    ..twice
                })
            };
        lemma_enqueued(seen, samples, once);
        lemma_enqueued(once, samples, twice);
    }
}

proof fn lemma_enqueued(before: ReceiverState, samples: Seq<u32>, after: ReceiverState)
    requires
        enqueued(before, samples, after),
    ensures
        ({
            let pushed = after.position - before.position;
            &&& 0 <= pushed <= samples.len()
            &&& carries(before.ring, before.position, samples.take(pushed))
            &&& pushed == samples.len() ==> carries(before.ring, before.position, samples)
            &&& pushed == samples.len() ==> after.stats.overruns == before.stats.overruns
            &&& pushed < samples.len() ==> after.stats.overruns == counted(
                before.stats.overruns,
                1,
            )
            &&& after == (ReceiverState {
                position: after.position,
                queue: after.queue,
                stats: ReceiveStats { overruns: after.stats.overruns, ..before.stats },
                ..before
            })
        }),
{
    let (taken, pushed) = choose|taken: int, pushed: int| #[trigger]
        push_effect(before.queue, before.limit, taken, samples, pushed, after.queue) && carries(
            before.ring,
            before.position,
            samples.take(pushed),
        ) && after == (ReceiverState {
            position: (before.position + pushed) as nat,
            queue: after.queue,
            stats: ReceiveStats {
                overruns: counted(
                    before.stats.overruns,
                    if pushed < samples.len() {
                        1
                    } else {
                        0
                    },
                ),
                ..before.stats
            },
            ..before
        });
    lemma_counted_nothing(before.stats.overruns);
    assert(after.position - before.position == pushed);
    if pushed == samples.len() {
        assert(samples.take(pushed) =~= samples);
    }
}

/// What playing a frame counts: a dropped one is a recenter drop, a repeated one a recenter
/// insert, one kept is neither, and what was received, lost or late does not change. A
/// frame of which the ring took less than all is one overrun each time it is pushed.
pub proof fn playing_counts_what_it_did(
    before: ReceiverState,
    samples: Seq<u32>,
    in_order: bool,
    action: Recenter,
    after: ReceiverState,
)
    requires
        play_effect(before, samples, in_order, action, after),
    ensures
        after.stats.recenter_drops == (before.stats.recenter_drops + (if action == Recenter::Drop {
            1int
        } else {
            0
        })) % 0x1_0000_0000_0000_0000,
        after.stats.recenter_inserts == (before.stats.recenter_inserts + (if action
            == Recenter::Repeat {
            1int
        } else {
            0
        })) % 0x1_0000_0000_0000_0000,
        action == Recenter::Keep ==> after.stats.overruns == (before.stats.overruns + (if (
        after.position < before.position + samples.len()) {
            1int
        } else {
            0
        })) % 0x1_0000_0000_0000_0000,
        before.stats.overruns + 2 <= u64::MAX ==> before.stats.overruns <= after.stats.overruns
            <= before.stats.overruns + 2,
        after.stats.received == before.stats.received,
        after.stats.bytes == before.stats.bytes,
        after.stats.gap_frames == before.stats.gap_frames,
        after.stats.dropped_late == before.stats.dropped_late,
{
    let (seen, mid) = choose|seen: ReceiverState, mid: ReceiverState|
        {
            &&& #[trigger] looked(before, seen)
            &&& action == if in_order {
                recentered(seen.queue.len() as int, before.low as int, before.high as int)
            } else {
                Recenter::Keep
            }
            &&& played(seen, samples, action, mid)
            &&& #[trigger] looked(mid, with_fill(after, mid.stats.jitter_fill))
        };
    assert(seen.stats == before.stats && seen.position == before.position);
    let noted = with_fill(after, mid.stats.jitter_fill);
    assert(noted.stats == mid.stats && noted.position == mid.position);
    lemma_counted_while_playing(seen, samples, action, mid);
}

proof fn lemma_counted_while_playing(
    seen: ReceiverState,
    samples: Seq<u32>,
    action: Recenter,
    mid: ReceiverState,
)
    requires
        played(seen, samples, action, mid),
    ensures
        mid.stats.recenter_drops == counted(
            seen.stats.recenter_drops,
            if action == Recenter::Drop {
                1
            } else {
                0
            },
        ),
        mid.stats.recenter_inserts == counted(
            seen.stats.recenter_inserts,
            if action == Recenter::Repeat {
                1
            } else {
                0
            },
        ),
        action == Recenter::Keep ==> mid.stats.overruns == counted(
            seen.stats.overruns,
            if mid.position < seen.position + samples.len() {
                1
            } else {
                0
            },
        ),
        seen.stats.overruns + 2 <= u64::MAX ==> seen.stats.overruns <= mid.stats.overruns
            <= seen.stats.overruns + 2,
        mid.stats.received == seen.stats.received,
        mid.stats.bytes == seen.stats.bytes,
        mid.stats.gap_frames == seen.stats.gap_frames,
        mid.stats.dropped_late == seen.stats.dropped_late,
{
    lemma_counted_nothing(seen.stats.recenter_drops);
    lemma_counted_nothing(seen.stats.recenter_inserts);
    lemma_counted_nothing(seen.stats.overruns);
    if action == Recenter::Keep {
        lemma_enqueued(seen, samples, mid);
    } else if action == Recenter::Repeat {
        let (once, twice) = choose|once: ReceiverState, twice: ReceiverState|
            {
                &&& #[trigger] enqueued(seen, samples, once)
                &&& #[trigger] enqueued(once, samples, twice)
                &&& mid == (ReceiverState {
                    stats: ReceiveStats {
                        recenter_inserts: counted(seen.stats.recenter_inserts, 1),
                        ..twice.stats
                    },
                    ..twice
                })
            };
        lemma_enqueued(seen, samples, once);
        lemma_enqueued(once, samples, twice);
    }
}

/// A receiver starts with nothing heard or counted, expects any number, and has the band
/// of a link without jitter.
pub proof fn receivers_start_from_nothing(
    ring: int,
    position: nat,
    queue: Seq<u32>,
    limit: nat,
    channels: nat,
    rate: u32,
)
    ensures
        ({
            let r = ReceiverState::fresh(ring, position, queue, limit, channels, rate);
            &&& r.expected is None
            &&& r.estimator.last is None && r.estimator.jitter == 0
            &&& r.stats.received == 0 && r.stats.bytes == 0 && r.stats.gap_frames == 0
            &&& r.stats.dropped_late == 0 && r.stats.overruns == 0 && r.stats.jitter_fill == 0
            &&& r.stats.recenter_drops == 0 && r.stats.recenter_inserts == 0
            &&& r.low == 960 * channels
            &&& r.high == high_mark(0, rate as int, channels as int, limit as int)
            &&& r.ring == ring && r.position == position && r.queue == queue && r.limit == limit
            &&& r.channels == channels && r.rate == rate
        }),
{
    crate::jitter::watermarks_are_ordered(0, rate as int, channels as int, limit as int);
}

} // verus!
