//! The send path: drain the capture ring, group interleaved samples into whole
//! frames, feed the resampler, cut 20 ms wire frames, and number the datagrams.
//!
//! The application downmixes, converts, encodes and sends; after each of these it
//! comes back here for what to do next.

use crate::audio::{
    append, partial_frame, take_front, take_whole_frames, whole_frames, FRAME,
};
use crate::packet::{datagram, write_header, HEADER_LEN};
use crate::resample::{blocks, rest, views, Resampler, CHUNK};
use crate::ring::{
    carried, carries, consumer_limit, consumer_position, consumer_queue, consumer_ring,
    pop_effect, ring_take, RingConsumer,
};
use vstd::prelude::*;

verus! {

/// The most samples taken off the capture ring at once.
pub const READ_LEN: usize = 4096;

/// Encoder settings. `expected_loss` tunes error correction and so only applies
/// when `fec` is on.
#[derive(Clone, Copy)]
pub struct EncoderParams {
    pub bitrate: i32,
    pub fec: bool,
    pub expected_loss: u8,
    pub dtx: bool,
}

impl EncoderParams {
    /// The loss percentage the encoder is told to expect.
    pub fn packet_loss_perc(&self) -> (percent: i32)
        ensures
            percent == loss_told(self.fec, self.expected_loss as int),
            percent == if !self.fec {
                0
            } else if self.expected_loss > 100 {
                100
            } else {
                self.expected_loss as int
            },
    {
        if !self.fec {
            0
        } else if self.expected_loss > 100 {
            100
        } else {
            self.expected_loss as i32
        }
    }
}

/// The loss percentage an encoder is told to expect.
pub open spec fn loss_told(fec: bool, expected_loss: int) -> int {
    if !fec {
        0
    } else if expected_loss > 100 {
        100
    } else {
        expected_loss
    }
}

/// Cumulative send counters.
#[derive(Clone, Copy)]
pub struct SendStats {
    pub packets: u64,
    pub bytes: u64,
}

/// A change in whether datagrams get out.
#[derive(Clone, Copy, PartialEq, Eq, Structural, Debug)]
pub enum SendNotice {
    /// Sending began to fail (the peer is unreachable).
    Failing,
    /// Sending works again.
    Recovered,
}

/// What there is to say when a datagram got out or not, by whether the last one did not.
pub open spec fn notice_for(failing: bool, delivered: bool) -> Option<SendNotice> {
    if delivered && failing {
        Some(SendNotice::Recovered)
    } else if !delivered && !failing {
        Some(SendNotice::Failing)
    } else {
        None
    }
}

/// What a sender is made of.
#[verifier::ext_equal]
pub struct SenderState {
    /// The capture ring.
    pub ring: int,
    /// Samples read from it so far.
    pub position: nat,
    /// Captured samples known to wait in the ring.
    pub queue: Seq<u32>,
    /// The ring's capacity.
    pub limit: nat,
    pub channels: nat,
    /// Captured samples that do not fill an interleaved frame yet.
    pub partial: Seq<u32>,
    /// Mono samples that do not fill a converter block yet; `None` when the device
    /// runs at the wire rate and nothing is converted.
    pub pending: Option<Seq<u32>>,
    /// Mono samples at the wire rate that are not in a frame yet.
    pub wire: Seq<u32>,
    /// Number and sample count of the next frame.
    pub seq: u32,
    pub timestamp: u32,
    /// Whether the last datagram failed to get out.
    pub failing: bool,
    pub packets: u64,
    pub bytes: u64,
}

impl SenderState {
    /// What every sender keeps: leftovers are shorter than what they wait to fill,
    /// and the timestamp counts the samples of all frames before this one.
    pub open spec fn wf(self) -> bool {
        &&& 0 < self.channels
        &&& self.partial.len() < self.channels
        &&& self.pending matches Some(pending) ==> pending.len() < CHUNK
        &&& self.timestamp == self.seq * FRAME % 0x1_0000_0000
    }

    /// A sender that has not read its ring yet.
    pub open spec fn fresh(
        ring: int,
        position: nat,
        queue: Seq<u32>,
        limit: nat,
        channels: nat,
        converts: bool,
    ) -> SenderState {
        SenderState {
            ring,
            position,
            queue,
            limit,
            channels,
            partial: Seq::empty(),
            pending: if converts {
                Some(Seq::empty())
            } else {
                None
            },
            wire: Seq::empty(),
            seq: 0,
            timestamp: 0,
            failing: false,
            packets: 0,
            bytes: 0,
        }
    }

    /// After `captured` joined the samples that wait for their frame.
    pub open spec fn after_group(self, captured: Seq<u32>) -> SenderState {
        SenderState { partial: partial_frame(self.partial + captured, self.channels), ..self }
    }

    /// After `popped` came off the ring and left `queue` in it.
    pub open spec fn after_capture(self, popped: Seq<u32>, queue: Seq<u32>) -> SenderState {
        SenderState { queue, position: self.position + popped.len(), ..self.after_group(popped) }
    }

    /// After a frame was handed to the socket, with `len` bytes and whether it got out.
    pub open spec fn after_send(self, delivered: bool, len: int) -> SenderState {
        let (seq, timestamp) = next_header(self.seq, self.timestamp);
        SenderState {
            seq,
            timestamp,
            failing: !delivered,
            packets: if delivered {
                ((self.packets + 1) % 0x1_0000_0000_0000_0000) as u64
            } else {
                self.packets
            },
            bytes: if delivered {
                ((self.bytes + len) % 0x1_0000_0000_0000_0000) as u64
            } else {
                self.bytes
            },
            ..self
        }
    }
}

/// The header fields of the frame after one with these.
pub open spec fn next_header(seq: u32, timestamp: u32) -> (u32, u32) {
    (
        ((seq + 1) % 0x1_0000_0000) as u32,
        ((timestamp + FRAME) % 0x1_0000_0000) as u32,
    )
}

/// The header fields of a sender's frame number `n`, counted from zero.
pub open spec fn header_of_frame(n: nat) -> (u32, u32)
    decreases n,
{
    if n == 0 {
        (0, 0)
    } else {
        let (seq, timestamp) = header_of_frame((n - 1) as nat);
        next_header(seq, timestamp)
    }
}

/// One side's capture-to-wire state.
pub struct Sender {
    consumer: RingConsumer,
    channels: usize,
    partial: Vec<u32>,
    resampler: Resampler,
    wire: Vec<u32>,
    seq: u32,
    timestamp: u32,
    failing: bool,
    stats: SendStats,
}

impl View for Sender {
    type V = SenderState;

    closed spec fn view(&self) -> SenderState {
        SenderState {
            ring: consumer_ring(self.consumer),
            position: consumer_position(self.consumer),
            queue: consumer_queue(self.consumer),
            limit: consumer_limit(self.consumer),
            channels: self.channels as nat,
            partial: self.partial@,
            pending: match self.resampler {
                Resampler::Passthrough => None,
                Resampler::Convert { pending } => Some(pending@),
            },
            wire: self.wire@,
            seq: self.seq,
            timestamp: self.timestamp,
            failing: self.failing,
            packets: self.stats.packets,
            bytes: self.stats.bytes,
        }
    }
}

impl Sender {
    /// A sender that reads `consumer`, filled by a device with `channels` channels
    /// at `capture_rate`.
    pub(crate) fn new(
        consumer: RingConsumer,
        channels: usize,
        capture_rate: u32,
        wire_rate: u32,
    ) -> (sender: Sender)
        requires
            0 < channels,
        ensures
            sender@.wf(),
            sender@ == SenderState::fresh(
                consumer_ring(consumer),
                consumer_position(consumer),
                consumer_queue(consumer),
                consumer_limit(consumer),
                channels as nat,
                capture_rate != wire_rate,
            ),
    {
        let sender = Sender {
            consumer,
            channels,
            partial: Vec::new(),
            resampler: Resampler::new(capture_rate, wire_rate),
            wire: Vec::new(),
            seq: 0,
            timestamp: 0,
            failing: false,
            stats: SendStats { packets: 0, bytes: 0 },
        };
        proof {
            if capture_rate != wire_rate {
                assert(sender.resampler->pending@ =~= Seq::empty());
            }
        }
        sender
    }

    /// Interleaved channels of the captured audio.
    pub fn channels(&self) -> (channels: usize)
        ensures
            channels == self@.channels,
    {
        self.channels
    }

    /// Take what was captured off the ring; the whole interleaved frames that are
    /// now complete. `None` when nothing was waiting.
    pub fn capture(&mut self) -> (frames: Option<Vec<u32>>)
        requires
            old(self)@.wf(),
        ensures
            final(self)@.wf(),
            exists|arrived: Seq<u32>, popped: Seq<u32>| #[trigger]
                pop_effect(
                    old(self)@.queue,
                    old(self)@.limit,
                    arrived,
                    READ_LEN as int,
                    popped,
                    final(self)@.queue,
                ) && {
                    &&& carries(old(self)@.ring, old(self)@.position, popped)
                    &&& final(self)@ == old(self)@.after_capture(popped, final(self)@.queue)
                    &&& (frames is Some <==> popped.len() > 0)
                    &&& frames matches Some(f) ==> f@ == whole_frames(
                        old(self)@.partial + popped,
                        old(self)@.channels,
                    )
                },
    {
        let ghost queue = consumer_queue(self.consumer);
        let ghost limit = consumer_limit(self.consumer);
        let popped: Vec<u32> = ring_take(&mut self.consumer, READ_LEN);
        proof {
            let after = consumer_queue(self.consumer);
            let arrived = choose|arrived: Seq<u32>| #[trigger]
                pop_effect(queue, limit, arrived, READ_LEN as int, popped@, after);
            assert(pop_effect(queue, limit, arrived, READ_LEN as int, popped@, after));
            assert(pop_effect(
                old(self)@.queue,
                old(self)@.limit,
                arrived,
                READ_LEN as int,
                popped@,
                after,
            ));
        }
        if popped.len() == 0 {
            proof {
                let channels = self.channels as nat;
                assert(self.partial@ + popped@ =~= self.partial@);
                vstd::arithmetic::div_mod::lemma_basic_div(
                    self.partial@.len() as int,
                    channels as int,
                );
                assert(0 * channels == 0) by (nonlinear_arith);
                assert(partial_frame(self.partial@, channels) =~= self.partial@);
                assert(self@ =~= old(self)@.after_capture(popped@, self@.queue));
            }
            return None;
        }
        let frames: Vec<u32> = self.group(popped.as_slice());
        assert(self@ =~= old(self)@.after_capture(popped@, self@.queue));
        Some(frames)
    }

    /// Add captured samples to those that wait for their frame; the whole
    /// interleaved frames that are now complete.
    pub fn group(&mut self, captured: &[u32]) -> (frames: Vec<u32>)
        requires
            old(self)@.wf(),
        ensures
            final(self)@.wf(),
            final(self)@ == old(self)@.after_group(captured@),
            frames@ == whole_frames(old(self)@.partial + captured@, old(self)@.channels),
    {
        append(&mut self.partial, captured);
        proof {
            crate::audio::frame_split_is_lossless(self.partial@, self.channels as nat);
        }
        take_whole_frames(&mut self.partial, self.channels)
    }

    /// Feed downmixed samples toward the wire. Without a conversion they are on it;
    /// with one, the blocks that are now whole come back, and what each converts to
    /// goes to [`Sender::converted`].
    pub fn resample(&mut self, mono: &[u32]) -> (chunks: Vec<Vec<u32>>)
        requires
            old(self)@.wf(),
        ensures
            final(self)@.wf(),
            match old(self)@.pending {
                None => {
                    &&& final(self)@ == (SenderState {
                        wire: old(self)@.wire + mono@,
                        ..old(self)@
                    })
                    &&& chunks@.len() == 0
                },
                Some(pending) => {
                    &&& final(self)@ == (SenderState {
                        pending: Some(rest(pending + mono@)),
                        ..old(self)@
                    })
                    &&& views(chunks@) == blocks(pending + mono@)
                },
            },
    {
        self.resampler.process(mono, &mut self.wire)
    }

    /// Put converted samples on the wire.
    pub fn converted(&mut self, samples: &[u32])
        requires
            old(self)@.wf(),
        ensures
            final(self)@.wf(),
            final(self)@ == (SenderState { wire: old(self)@.wire + samples@, ..old(self)@ }),
    {
        append(&mut self.wire, samples);
    }

    /// Cut the next 20 ms frame off the wire samples, if there is a whole one.
    pub fn next_frame(&mut self) -> (frame: Option<Vec<u32>>)
        requires
            old(self)@.wf(),
        ensures
            final(self)@.wf(),
            frame is Some <==> old(self)@.wire.len() >= FRAME,
            match frame {
                Some(f) => {
                    &&& f@ == old(self)@.wire.take(FRAME as int)
                    &&& final(self)@ == (SenderState {
                        wire: old(self)@.wire.skip(FRAME as int),
                        ..old(self)@
                    })
                },
                None => final(self)@ == old(self)@,
            },
    {
        if self.wire.len() < FRAME {
            return None;
        }
        Some(take_front(&mut self.wire, FRAME))
    }

    /// Number the datagram whose payload follows the header in `out`.
    pub fn stamp(&self, out: &mut [u8])
        requires
            old(out)@.len() >= HEADER_LEN,
        ensures
            final(out)@ == datagram(
                self@.seq,
                self@.timestamp,
                old(out)@.skip(HEADER_LEN as int),
            ),
    {
        write_header(self.seq, self.timestamp, out);
    }

    /// Note that the current frame's datagram of `len` bytes was sent, or that it
    /// could not be, and go on to the next frame. A frame that did not get out is
    /// not counted, and not sent again.
    pub fn sent(&mut self, delivered: bool, len: usize) -> (notice: Option<SendNotice>)
        requires
            old(self)@.wf(),
        ensures
            final(self)@.wf(),
            final(self)@ == old(self)@.after_send(delivered, len as int),
            notice == notice_for(old(self)@.failing, delivered),
            notice == if delivered && old(self)@.failing {
                Some(SendNotice::Recovered)
            } else if !delivered && !old(self)@.failing {
                Some(SendNotice::Failing)
            } else {
                None
            },
    {
        proof {
            lemma_next_timestamp(self.seq, self.timestamp);
        }
        let notice = if delivered {
            self.stats.packets = self.stats.packets.wrapping_add(1);
            self.stats.bytes = self.stats.bytes.wrapping_add(len as u64);
            if self.failing {
                Some(SendNotice::Recovered)
            } else {
                None
            }
        } else if self.failing {
            None
        } else {
            Some(SendNotice::Failing)
        };
        self.failing = !delivered;
        self.seq = self.seq.wrapping_add(1);
        self.timestamp = self.timestamp.wrapping_add(FRAME as u32);
        notice
    }

    /// The counters so far.
    pub fn stats(&self) -> (stats: SendStats)
        ensures
            stats.packets == self@.packets,
            stats.bytes == self@.bytes,
    {
        self.stats
    }
}

proof fn lemma_next_timestamp(seq: u32, timestamp: u32)
    requires
        timestamp == seq * FRAME % 0x1_0000_0000,
    ensures
        next_header(seq, timestamp).1 == next_header(seq, timestamp).0 * FRAME % 0x1_0000_0000,
{
    let next = (seq + 1) % 0x1_0000_0000;
    if seq == u32::MAX {
        assert(0xFFFF_FFFFint * 960 % 0x1_0000_0000 == 0x1_0000_0000 - 960);
    } else {
        vstd::arithmetic::div_mod::lemma_add_mod_noop(
            seq * FRAME,
            FRAME as int,
            0x1_0000_0000,
        );
    }
}

/// Frames are numbered without a gap and their timestamps count samples: frame `n`
/// carries `n` and `960 * n`, both on the 32-bit circle.
pub proof fn frames_are_numbered_in_order(n: nat)
    ensures
        header_of_frame(n).0 == n % 0x1_0000_0000,
        header_of_frame(n).1 == n * FRAME % 0x1_0000_0000,
    decreases n,
{
    if n > 0 {
        frames_are_numbered_in_order((n - 1) as nat);
        vstd::arithmetic::div_mod::lemma_add_mod_noop(n - 1, 1, 0x1_0000_0000);
        vstd::arithmetic::div_mod::lemma_add_mod_noop(
            (n - 1) * FRAME,
            FRAME as int,
            0x1_0000_0000,
        );
    }
}

/// Whether a frame got out changes the counters only: the next frame carries the
/// same number and timestamp either way, so a gap at the receiver always means a
/// lost frame.
pub proof fn numbering_ignores_failures(state: SenderState, len: int)
    ensures
        state.after_send(true, len).seq == state.after_send(false, len).seq,
        state.after_send(true, len).timestamp == state.after_send(false, len).timestamp,
        state.after_send(false, len).packets == state.packets,
        state.after_send(false, len).bytes == state.bytes,
{
}

impl SenderState {
    /// Whether the wire samples are, in order and without a gap, the ones last read off
    /// the ring of a mono device that runs at the wire rate.
    pub open spec fn in_step(self) -> bool {
        &&& self.channels == 1
        &&& self.pending is None
        &&& self.wire.len() <= self.position
        &&& carries(self.ring, (self.position - self.wire.len()) as nat, self.wire)
    }
}

/// A mono device at the wire rate has its samples sent as they were captured: reading
/// more of them and cutting frames off keeps the wire in step with the ring, so frame
/// by frame the stream is what was captured, none lost, repeated or reordered.
pub proof fn captured_audio_stays_in_order(
    state: SenderState,
    popped: Seq<u32>,
    queue: Seq<u32>,
)
    requires
        state.wf(),
        state.in_step(),
        carries(state.ring, state.position, popped),
    ensures
        whole_frames(state.partial + popped, state.channels) == popped,
        (SenderState {
            wire: state.wire + popped,
            ..state.after_capture(popped, queue)
        }).in_step(),
        state.wire.len() >= FRAME ==> {
            &&& (SenderState { wire: state.wire.skip(FRAME as int), ..state }).in_step()
            &&& carries(
                state.ring,
                (state.position - state.wire.len()) as nat,
                state.wire.take(FRAME as int),
            )
        },
{
    let from = (state.position - state.wire.len()) as nat;
    assert(state.partial + popped =~= popped);
    assert(popped.len() as int / 1 * 1 == popped.len());
    assert(whole_frames(popped, 1) =~= popped);
    crate::ring::passages_join(state.ring, from, state.wire, popped);
    if state.wire.len() >= FRAME {
        let rest = state.wire.skip(FRAME as int);
        assert forall|i: int| 0 <= i < rest.len() implies carried(
            state.ring,
            (from + FRAME) as nat + i,
        ) == #[trigger] rest[i] by {
            assert(rest[i] == state.wire[i + FRAME]);
        }
    }
}

/// Whatever the number of channels, nothing captured is lost, repeated or reordered from
/// one capture to the next: the frames that come out go on where the last ones ended, and
/// the part of a frame that is kept is what the ring carried last.
pub proof fn captured_frames_stay_in_order(
    state: SenderState,
    popped: Seq<u32>,
    queue: Seq<u32>,
)
    requires
        state.wf(),
        state.partial.len() <= state.position,
        carries(state.ring, (state.position - state.partial.len()) as nat, state.partial),
        carries(state.ring, state.position, popped),
    ensures
        ({
            let from = (state.position - state.partial.len()) as nat;
            let frames = whole_frames(state.partial + popped, state.channels);
            let after = state.after_capture(popped, queue);
            &&& carries(state.ring, from, frames)
            &&& after.partial.len() <= after.position
            &&& after.position - after.partial.len() == from + frames.len()
            &&& carries(after.ring, (from + frames.len()) as nat, after.partial)
        }),
{
    let from = (state.position - state.partial.len()) as nat;
    let all = state.partial + popped;
    let frames = whole_frames(all, state.channels);
    let kept = partial_frame(all, state.channels);
    crate::ring::passages_join(state.ring, from, state.partial, popped);
    crate::audio::frame_split_is_lossless(all, state.channels);
    assert(all.len() == frames.len() + kept.len());
    assert forall|i: int| 0 <= i < frames.len() implies carried(state.ring, from + i)
        == #[trigger] frames[i] by {
        assert((frames + kept)[i] == all[i]);
    }
    assert forall|i: int| 0 <= i < kept.len() implies carried(
        state.ring,
        (from + frames.len()) as nat + i,
    ) == #[trigger] kept[i] by {
        assert((frames + kept)[frames.len() + i] == all[frames.len() + i]);
    }
}

/// Whether no send counter fell.
pub open spec fn sent_no_less(before: SendStats, after: SendStats) -> bool {
    before.packets <= after.packets && before.bytes <= after.bytes
}

impl SenderState {
    /// The counters.
    pub open spec fn counters(self) -> SendStats {
        SendStats { packets: self.packets, bytes: self.bytes }
    }

    /// Whether `after` is this sender one step on, short of the wrap of its counters: a
    /// frame was handed to the socket, or something else happened that is not counted.
    pub open spec fn steps_to(self, after: SenderState) -> bool {
        ||| after.counters() == self.counters()
        ||| exists|delivered: bool, len: int|
            0 <= len && self.packets < u64::MAX && self.bytes + len <= u64::MAX && after
                == #[trigger] self.after_send(delivered, len)
    }
}

/// A step of a sender never lowers a counter, as long as none wraps.
pub proof fn sending_never_lowers_a_counter(before: SenderState, after: SenderState)
    requires
        before.steps_to(after),
    ensures
        sent_no_less(before.counters(), after.counters()),
{
}

/// Over a sender's life no later reading of its counters is below an earlier one, as
/// long as none wraps.
pub proof fn sent_counters_only_grow(life: Seq<SenderState>, early: int, late: int)
    requires
        0 <= early <= late < life.len(),
        forall|i: int|
            0 < i < life.len() ==> life[i - 1].steps_to(#[trigger] life[i]),
    ensures
        sent_no_less(life[early].counters(), life[late].counters()),
    decreases late - early,
{
    if early < late {
        sent_counters_only_grow(life, early, late - 1);
        sending_never_lowers_a_counter(life[late - 1], life[late]);
    }
}

/// What sending a frame does, field by field. The next frame has the next number and a
/// timestamp 960 samples on, on the 32-bit circle. Short of the wrap a frame that got out
/// counts as one packet with its bytes, one that did not counts as nothing, and which it
/// was is what is remembered. Captured audio is untouched.
pub proof fn a_frame_is_counted_if_it_got_out(state: SenderState, delivered: bool, len: int)
    requires
        0 <= len,
    ensures
        ({
            let after = state.after_send(delivered, len);
            &&& after.seq == state.seq + 1 || (state.seq == 0xFFFF_FFFF && after.seq == 0)
            &&& (after.timestamp - state.timestamp - 960) % 0x1_0000_0000 == 0
            &&& after.failing == !delivered
            &&& !delivered ==> after.packets == state.packets && after.bytes == state.bytes
            &&& delivered && state.packets < u64::MAX ==> after.packets == state.packets + 1
            &&& delivered && state.bytes + len <= u64::MAX ==> after.bytes == state.bytes + len
            &&& delivered ==> after.packets == (state.packets + 1) % 0x1_0000_0000_0000_0000
            &&& delivered ==> after.bytes == (state.bytes + len) % 0x1_0000_0000_0000_0000
            &&& after.ring == state.ring
            &&& after.position == state.position
            &&& after.queue == state.queue
            &&& after.limit == state.limit
            &&& after.channels == state.channels
            &&& after.partial == state.partial
            &&& after.pending == state.pending
            &&& after.wire == state.wire
        }),
{
}

/// Capturing moves samples from the ring into the frame that is being filled, and touches
/// nothing else: what was on the wire stays, and so do the numbering and the counters.
pub proof fn capturing_touches_the_capture_only(
    state: SenderState,
    popped: Seq<u32>,
    queue: Seq<u32>,
)
    requires
        state.wf(),
    ensures
        ({
            let after = state.after_capture(popped, queue);
            let frames = whole_frames(state.partial + popped, state.channels);
            &&& frames + after.partial == state.partial + popped
            &&& frames.len() % state.channels == 0
            &&& after.partial.len() < state.channels
            &&& after.position == state.position + popped.len()
            &&& after.queue == queue
            &&& after.ring == state.ring
            &&& after.limit == state.limit
            &&& after.channels == state.channels
            &&& after.pending == state.pending
            &&& after.wire == state.wire
            &&& after.seq == state.seq
            &&& after.timestamp == state.timestamp
            &&& after.failing == state.failing
            &&& after.packets == state.packets
            &&& after.bytes == state.bytes
        }),
{
    crate::audio::frame_split_is_lossless(state.partial + popped, state.channels);
}

/// A sender starts at frame zero with nothing counted, waiting or failing, and converts
/// exactly when it is told to.
pub proof fn senders_start_at_zero(
    ring: int,
    position: nat,
    queue: Seq<u32>,
    limit: nat,
    channels: nat,
    converts: bool,
)
    ensures
        ({
            let s = SenderState::fresh(ring, position, queue, limit, channels, converts);
            &&& s.seq == 0 && s.timestamp == 0
            &&& s.packets == 0 && s.bytes == 0
            &&& !s.failing
            &&& s.partial.len() == 0 && s.wire.len() == 0
            &&& s.pending is Some <==> converts
            &&& s.pending matches Some(pending) ==> pending.len() == 0
            &&& s.ring == ring && s.position == position && s.queue == queue && s.limit == limit
            &&& s.channels == channels
        }),
{
}

/// An encoder without error correction is told of no loss; with it, of the loss expected,
/// which is never more than all.
pub proof fn encoders_are_told_of_a_share(expected_loss: int)
    requires
        0 <= expected_loss,
    ensures
        loss_told(false, expected_loss) == 0,
        expected_loss <= 100 ==> loss_told(true, expected_loss) == expected_loss,
        expected_loss >= 100 ==> loss_told(true, expected_loss) == 100,
{
}

/// Only a change is news: over any run of frames, what is said of a frame is that sending
/// fails if it failed and the one before did not, that it works again if it did not fail
/// and the one before did, and nothing if it went like the one before.
pub proof fn only_changes_are_noticed(state: SenderState, first: bool, second: bool, len: int)
    ensures
        ({
            let notice = notice_for(state.after_send(first, len).failing, second);
            &&& notice == Some(SendNotice::Failing) <==> first && !second
            &&& notice == Some(SendNotice::Recovered) <==> !first && second
            &&& notice is None <==> first == second
        }),
{
}

} // verus!
