//! Loopback: captured audio goes through one ring straight to playback on the same
//! machine, without network or codec.

use crate::audio::{silence, silent, RATE};
use crate::device::{answers, askable};
use crate::engine::{CaptureSink, PlaybackSource};
use crate::ring::{carries, max_ring, producer_queue, push_effect, ring_new, ring_push, ring_split};
use crate::text::{decimal, decimal_text, texts};
use vstd::prelude::*;
use vstd::string::StringExecFns;

verus! {

/// The least frames a loopback ring holds.
pub const MIN_FRAMES: u16 = 64;

pub struct Params {
    /// Ring capacity in milliseconds of audio; also the latency ceiling.
    pub ring_ms: u32,
    /// How long to run before stopping and reporting.
    pub secs: u64,
}

/// Samples in a loopback ring.
pub open spec fn loop_capacity(ring_ms: int, channels: int) -> int {
    let wanted = (RATE * ring_ms / 1000) * channels;
    let floor = channels * MIN_FRAMES;
    if wanted > floor {
        wanted
    } else {
        floor
    }
}

impl Params {
    /// Whether a ring for so many channels can be made.
    pub open spec fn fits(self, channels: u16) -> bool {
        &&& channels > 0
        &&& RATE * self.ring_ms <= usize::MAX
        &&& loop_capacity(self.ring_ms as int, channels as int) <= max_ring()
    }

    /// Whether a ring for so many channels has a sample and fits in memory.
    pub fn ring_fits(&self, channels: u16) -> (fits: bool)
        ensures
            fits == self.fits(channels),
    {
        let product: u64 = RATE as u64 * self.ring_ms as u64;
        if channels == 0 || product > usize::MAX as u64 {
            return false;
        }
        let per_channel: u64 = product / 1000;
        assert(0 <= per_channel * channels <= 0xFFFF_FFFF_FFFF_FFFF * 0xFFFF) by (nonlinear_arith)
            requires
                0 <= per_channel <= 0xFFFF_FFFF_FFFF_FFFF,
                0 <= channels <= 0xFFFF,
        ;
        let wanted: u128 = per_channel as u128 * channels as u128;
        assert(channels * MIN_FRAMES <= 0xFFFF * 64) by (nonlinear_arith)
            requires
                0 <= channels <= 0xFFFF,
                MIN_FRAMES == 64,
        ;
        let floor: u128 = channels as u128 * MIN_FRAMES as u128;
        wanted <= (usize::MAX / 8) as u128 && floor <= (usize::MAX / 8) as u128
    }

    /// Ring capacity in samples.
    pub fn capacity(&self, channels: u16) -> (capacity: usize)
        requires
            self.fits(channels),
        ensures
            capacity == loop_capacity(self.ring_ms as int, channels as int),
    {
        let wanted: usize = (RATE as usize * self.ring_ms as usize / 1000) * channels as usize;
        let floor: usize = channels as usize * MIN_FRAMES as usize;
        if wanted > floor {
            wanted
        } else {
            floor
        }
    }

    /// Make the ring, half filled with silence so that playback starts smoothly; its
    /// two ends for the callbacks.
    pub fn open(&self, channels: u16) -> (ends: (CaptureSink, PlaybackSource))
        requires
            self.fits(channels),
        ensures
            ({
                let capacity = loop_capacity(self.ring_ms as int, channels as int);
                &&& ends.0@.ring == ends.1@.ring
                &&& ends.0@.limit == capacity
                &&& ends.1@.limit == capacity
                &&& ends.0@.queue == silent((capacity / 2) as nat)
                &&& ends.0@.position == capacity / 2
                &&& ends.1@.position == 0
                &&& ends.1@.queue == Seq::<u32>::empty()
                &&& carries(ends.1@.ring, 0, silent((capacity / 2) as nat))
            }),
    {
        let capacity: usize = self.capacity(channels);
        let (mut producer, consumer) = ring_split(ring_new(capacity));
        let cushion: Vec<u32> = silence(capacity / 2);
        let ghost empty = producer_queue(producer);
        let pushed: usize = ring_push(&mut producer, cushion.as_slice());
        proof {
            let queue = producer_queue(producer);
            let taken = choose|taken: int| #[trigger]
                push_effect(empty, capacity as nat, taken, cushion@, pushed as int, queue);
            assert(push_effect(empty, capacity as nat, taken, cushion@, pushed as int, queue));
            assert(queue =~= silent((capacity / 2) as nat));
            assert(cushion@.take(pushed as int) =~= cushion@);
        }
        (CaptureSink::new(producer), PlaybackSource::new(consumer))
    }
}

/// Whether two devices are one and the same, as far as their names can be read.
pub fn is_same_device(capture: &Option<String>, playback: &Option<String>) -> (same: bool)
    ensures
        same == (capture is Some && playback is Some && capture->0@ == playback->0@),
{
    match (capture, playback) {
        (Some(a), Some(b)) => *a == *b,
        _ => false,
    }
}

/// Whether both devices accepted a channel count.
pub open spec fn both_accept<C: Fn(u16, u32) -> bool, P: Fn(u16, u32) -> bool>(
    capture: C,
    playback: P,
    channels: u16,
) -> bool {
    call_ensures(capture, (channels, RATE), true) && call_ensures(playback, (channels, RATE), true)
}

/// Whether one of the devices refused a channel count.
pub open spec fn one_refuses<C: Fn(u16, u32) -> bool, P: Fn(u16, u32) -> bool>(
    capture: C,
    playback: P,
    channels: u16,
) -> bool {
    ||| call_ensures(capture, (channels, RATE), false)
    ||| call_ensures(playback, (channels, RATE), false)
}

/// Pick a channel count that both devices open at 48 kHz, preferring mono; `None` if
/// there is none. The probes try to open a stream with a channel count and a rate.
pub fn negotiate_channels<C: Fn(u16, u32) -> bool, P: Fn(u16, u32) -> bool>(
    capture: C,
    playback: P,
) -> (channels: Option<u16>)
    requires
        askable(capture),
        askable(playback),
    ensures
        match channels {
            Some(count) => {
                ||| count == 1 && both_accept(capture, playback, 1)
                ||| count == 2 && one_refuses(capture, playback, 1) && both_accept(
                    capture,
                    playback,
                    2,
                )
            },
            None => one_refuses(capture, playback, 1) && one_refuses(capture, playback, 2),
        },
        forall|records: spec_fn(u16, u32) -> bool, plays: spec_fn(u16, u32) -> bool|
            #[trigger] answers(capture, records) && #[trigger] answers(playback, plays) ==> {
                let mono = records(1, 48_000) && plays(1, 48_000);
                let stereo = records(2, 48_000) && plays(2, 48_000);
                &&& channels == Some(1u16) <==> mono
                &&& channels == Some(2u16) <==> !mono && stereo
                &&& channels is None <==> !mono && !stereo
            },
{
    assert(call_requires(capture, (1u16, RATE)));
    assert(call_requires(playback, (1u16, RATE)));
    if capture(1, RATE) && playback(1, RATE) {
        return Some(1);
    }
    assert(call_requires(capture, (2u16, RATE)));
    assert(call_requires(playback, (2u16, RATE)));
    if capture(2, RATE) && playback(2, RATE) {
        return Some(2);
    }
    None
}

/// What a loopback did, in samples.
#[derive(Clone, Copy)]
pub struct Tally {
    pub captured: u64,
    pub played: u64,
    /// Captured samples that the full ring refused.
    pub dropped: u64,
    /// Samples of silence played because the ring was empty.
    pub starved: u64,
}

/// The report of a loopback.
pub open spec fn tally_report(tally: Tally) -> Seq<Seq<char>> {
    seq![
        "results (samples):"@,
        "  captured "@ + decimal(tally.captured as int) + ", played "@ + decimal(
            tally.played as int,
        ),
        "  dropped (overrun) "@ + decimal(tally.dropped as int) + ", starved (underrun) "@
            + decimal(tally.starved as int),
    ]
}

/// The lines that report a loopback.
pub fn report(tally: &Tally) -> (lines: Vec<String>)
    ensures
        texts(lines@) == tally_report(*tally),
{
    let mut moved = "  captured ".to_owned();
    moved.append(decimal_text(tally.captured as u128).as_str());
    moved.append(", played ");
    moved.append(decimal_text(tally.played as u128).as_str());
    let mut missed = "  dropped (overrun) ".to_owned();
    missed.append(decimal_text(tally.dropped as u128).as_str());
    missed.append(", starved (underrun) ");
    missed.append(decimal_text(tally.starved as u128).as_str());
    let lines = vec!["results (samples):".to_owned(), moved, missed];
    assert(texts(lines@) =~= tally_report(*tally));
    lines
}

/// A loopback ring holds exactly the time asked for at 48 kHz, and never less than 64
/// frames: whole frames either way.
pub proof fn loops_hold_the_time_asked_for(ring_ms: int, channels: int)
    requires
        0 <= ring_ms,
        0 < channels,
    ensures
        48 * ring_ms >= 64 ==> loop_capacity(ring_ms, channels) == 48 * ring_ms * channels,
        48 * ring_ms <= 64 ==> loop_capacity(ring_ms, channels) == 64 * channels,
{
    let frames = RATE * ring_ms / 1000;
    assert(frames == 48 * ring_ms);
    if frames > 64 {
        assert(frames * channels > channels * 64) by (nonlinear_arith)
            requires
                frames > 64,
                channels > 0,
        ;
    } else {
        assert(frames * channels <= channels * 64) by (nonlinear_arith)
            requires
                frames <= 64,
                channels > 0,
        ;
    }
    assert(channels * 64 == 64 * channels);
}

/// A channel count that both devices open is not one that either refuses, with devices
/// that answer by a fixed rule.
pub proof fn agreement_takes_both<C: Fn(u16, u32) -> bool, P: Fn(u16, u32) -> bool>(
    capture: C,
    playback: P,
    records: spec_fn(u16, u32) -> bool,
    plays: spec_fn(u16, u32) -> bool,
    channels: u16,
)
    requires
        answers(capture, records),
        answers(playback, plays),
    ensures
        both_accept(capture, playback, channels) ==> records(channels, 48_000) && plays(
            channels,
            48_000,
        ),
        one_refuses(capture, playback, channels) ==> !records(channels, 48_000) || !plays(
            channels,
            48_000,
        ),
{
}

/// Each number of a loopback's report stands behind its own name.
pub proof fn loop_reports_name_their_numbers(tally: Tally)
    ensures
        tally_report(tally).len() == 3,
        tally_report(tally)[0] == "results (samples):"@,
        tally_report(tally)[1] == "  captured "@ + decimal(tally.captured as int) + ", played "@
            + decimal(tally.played as int),
        tally_report(tally)[2] == "  dropped (overrun) "@ + decimal(tally.dropped as int)
            + ", starved (underrun) "@ + decimal(tally.starved as int),
{
}

/// A loopback ring can be made exactly when there is a channel, its time in samples can be
/// counted, and an eighth of memory can hold both that and 64 frames.
pub proof fn loops_that_can_be_made(params: Params, channels: u16)
    ensures
        params.fits(channels) <==> {
            &&& channels != 0
            &&& 48_000 * params.ring_ms <= usize::MAX
            &&& 48 * params.ring_ms * channels <= usize::MAX as int / 8
            &&& 64 * channels <= usize::MAX as int / 8
        },
{
    let ms = params.ring_ms as int;
    assert(RATE * ms / 1000 == 48 * ms);
}

} // verus!
