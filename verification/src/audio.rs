//! Audio constants, ring sizing and the layout of interleaved samples.

use vstd::prelude::*;

verus! {

/// The wire and codec sample rate: always 48 kHz mono. Device streams may run at
/// other rates and are resampled to or from this at the edge.
pub const RATE: u32 = 48_000;

/// Samples in one 20 ms mono frame at 48 kHz.
pub const FRAME: usize = 960;

/// Generous upper bound on one encoded 20 ms packet, in bytes.
pub const MAX_PACKET: usize = 4000;

/// Depth of the ring between the capture callback and the send thread.
pub const CAPTURE_RING_MS: u32 = 50;

/// The bits of a silent sample.
pub const SILENCE: u32 = 0;

/// Samples in `ms` of audio at `rate` and `channels`, but never less than one
/// 48 kHz frame.
pub open spec fn capacity_for(rate: int, ms: int, channels: int) -> int {
    let wanted = (rate * ms / 1000) * channels;
    let floor = channels * FRAME;
    if wanted > floor {
        wanted
    } else {
        floor
    }
}

/// Ring capacity in samples for `ms` of audio at `rate`/`channels` (floored at one
/// 48 kHz frame). `rate` is the device rate the ring carries, not necessarily
/// 48 kHz.
pub fn ring_capacity(rate: u32, ms: u32, channels: u16) -> (capacity: usize)
    requires
        rate * ms <= usize::MAX,
        (rate * ms / 1000) * channels <= usize::MAX,
    ensures
        capacity == capacity_for(rate as int, ms as int, channels as int),
{
    let wanted: usize = (rate as usize * ms as usize / 1000) * channels as usize;
    assert(channels * FRAME <= 0xFFFF * 960) by (nonlinear_arith)
        requires
            0 <= channels <= 0xFFFF,
            FRAME == 960,
    ;
    let floor: usize = channels as usize * FRAME;
    if wanted > floor {
        wanted
    } else {
        floor
    }
}

/// How long `samples` interleaved samples play, in whole milliseconds.
pub open spec fn millis_of(samples: int, rate: int, channels: int) -> int {
    if rate * channels == 0 {
        0
    } else {
        samples * 1000 / (rate * channels)
    }
}

/// How long `samples` interleaved samples play at `rate`/`channels`, in whole
/// milliseconds; at most what the result can hold. A stream without a rate or channels
/// plays nothing.
pub fn samples_to_ms(samples: u64, rate: u32, channels: u16) -> (ms: u64)
    ensures
        ({
            let exact = millis_of(samples as int, rate as int, channels as int);
            ms == if exact > u64::MAX {
                u64::MAX as int
            } else {
                exact
            }
        }),
{
    assert(0 <= rate * channels <= 0xFFFF_FFFF * 0xFFFF) by (nonlinear_arith)
        requires
            0 <= rate <= 0xFFFF_FFFF,
            0 <= channels <= 0xFFFF,
    ;
    let per_second: u64 = rate as u64 * channels as u64;
    if per_second == 0 {
        return 0;
    }
    let ms: u128 = samples as u128 * 1000 / per_second as u128;
    if ms > u64::MAX as u128 {
        u64::MAX
    } else {
        ms as u64
    }
}

/// Every mono sample repeated once per channel.
pub open spec fn upmixed(mono: Seq<u32>, channels: nat) -> Seq<u32> {
    Seq::new(mono.len() * channels, |i: int| mono[i / channels as int])
}

/// Spread mono samples over `channels` interleaved channels.
pub fn upmix(mono: &[u32], channels: usize) -> (out: Vec<u32>)
    requires
        mono@.len() * channels <= usize::MAX,
    ensures
        out@ == upmixed(mono@, channels as nat),
{
    let total: usize = mono.len() * channels;
    let mut out: Vec<u32> = Vec::with_capacity(total);
    let mut i: usize = 0;
    while i < total
        invariant
            i <= total,
            total == mono@.len() * channels,
            out@ == upmixed(mono@, channels as nat).take(i as int),
        decreases total - i,
    {
        assert(channels > 0 && i / channels < mono@.len()) by (nonlinear_arith)
            requires
                0 <= i < mono@.len() * channels,
                0 <= channels,
        ;
        out.push(mono[i / channels]);
        i += 1;
    }
    out
}

/// A run of `len` silent samples.
pub open spec fn silent(len: nat) -> Seq<u32> {
    Seq::new(len, |i: int| SILENCE)
}

/// `len` silent samples.
pub fn silence(len: usize) -> (out: Vec<u32>)
    ensures
        out@ == silent(len as nat),
{
    let mut out: Vec<u32> = Vec::with_capacity(len);
    let mut i: usize = 0;
    while i < len
        invariant
            i <= len,
            out@ == silent(i as nat),
        decreases len - i,
    {
        out.push(SILENCE);
        i += 1;
    }
    out
}

/// Add `more` at the end of `samples`.
pub(crate) fn append(samples: &mut Vec<u32>, more: &[u32])
    ensures
        final(samples)@ == old(samples)@ + more@,
{
    samples.extend_from_slice(more);
    assert(samples@ =~= old(samples)@ + more@);
}

/// Take the first `len` samples off the front of `samples`.
pub(crate) fn take_front(samples: &mut Vec<u32>, len: usize) -> (front: Vec<u32>)
    requires
        len <= old(samples)@.len(),
    ensures
        front@ == old(samples)@.take(len as int),
        final(samples)@ == old(samples)@.skip(len as int),
{
    let mut rest: Vec<u32> = samples.split_off(len);
    std::mem::swap(samples, &mut rest);
    rest
}

/// The whole interleaved frames at the front of `samples`.
pub open spec fn whole_frames(samples: Seq<u32>, channels: nat) -> Seq<u32> {
    samples.take(samples.len() as int / channels as int * channels)
}

/// What is left of `samples` after its whole frames: part of a frame.
pub open spec fn partial_frame(samples: Seq<u32>, channels: nat) -> Seq<u32> {
    samples.skip(samples.len() as int / channels as int * channels)
}

/// Take the whole interleaved frames off the front of `samples`.
pub fn take_whole_frames(samples: &mut Vec<u32>, channels: usize) -> (frames: Vec<u32>)
    requires
        0 < channels,
    ensures
        frames@ == whole_frames(old(samples)@, channels as nat),
        final(samples)@ == partial_frame(old(samples)@, channels as nat),
{
    let len: usize = samples.len();
    proof {
        vstd::arithmetic::div_mod::lemma_fundamental_div_mod(len as int, channels as int);
        assert(len as int / channels as int * channels == channels as int * (len as int
            / channels as int)) by (nonlinear_arith);
        vstd::arithmetic::div_mod::lemma_div_pos_is_pos(len as int, channels as int);
        assert(0 <= len as int / channels as int * channels) by (nonlinear_arith)
            requires
                0 <= len as int / channels as int,
                0 < channels,
        ;
    }
    take_front(samples, len / channels * channels)
}

/// Splitting captured audio into whole frames and a remainder loses and reorders
/// nothing, leaves whole frames in front and less than one frame behind.
pub proof fn frame_split_is_lossless(samples: Seq<u32>, channels: nat)
    requires
        0 < channels,
    ensures
        whole_frames(samples, channels) + partial_frame(samples, channels) == samples,
        whole_frames(samples, channels).len() % channels == 0,
        partial_frame(samples, channels).len() < channels,
{
    let len = samples.len() as int;
    let k = len / channels as int;
    vstd::arithmetic::div_mod::lemma_fundamental_div_mod(len, channels as int);
    assert(0 <= k * channels <= len && k * channels == channels * k && len - k * channels
        < channels) by (nonlinear_arith)
        requires
            0 <= len,
            0 < channels,
            k == len / channels as int,
            len == channels as int * k + len % channels as int,
            0 <= len % channels as int,
            (len % (channels as int)) < channels,
    ;
    vstd::arithmetic::div_mod::lemma_mod_multiples_basic(k, channels as int);
    assert(whole_frames(samples, channels) + partial_frame(samples, channels) =~= samples);
}

/// A ring always holds at least one whole 48 kHz frame per channel.
pub proof fn capacity_holds_a_frame(rate: int, ms: int, channels: int)
    ensures
        capacity_for(rate, ms, channels) >= channels * FRAME,
{
}

/// Asking for more time never gives a smaller ring.
pub proof fn capacity_grows_with_time(rate: int, ms: int, more: int, channels: int)
    requires
        0 <= rate,
        0 <= ms <= more,
        0 <= channels,
    ensures
        capacity_for(rate, ms, channels) <= capacity_for(rate, more, channels),
{
    assert((rate * ms / 1000) * channels <= (rate * more / 1000) * channels) by (nonlinear_arith)
        requires
            0 <= rate,
            0 <= ms <= more,
            0 <= channels,
    {
        assert(rate * ms <= rate * more);
        assert(rate * ms / 1000 <= rate * more / 1000);
    }
}

/// Upmixed audio holds, in every channel of every frame, that frame's mono sample.
pub proof fn upmix_fills_every_channel(mono: Seq<u32>, channels: nat, frame: int, channel: int)
    requires
        0 <= frame < mono.len(),
        0 <= channel < channels,
    ensures
        frame * channels + channel < upmixed(mono, channels).len(),
        upmixed(mono, channels)[frame * channels + channel] == mono[frame],
{
    let i = frame * channels + channel;
    assert(0 <= i < mono.len() * channels && i / channels as int == frame) by (nonlinear_arith)
        requires
            0 <= frame < mono.len(),
            0 <= channel < channels,
            i == frame * channels + channel,
    {
        assert(frame * channels + channels <= mono.len() * channels);
        vstd::arithmetic::div_mod::lemma_fundamental_div_mod_converse(
            i,
            channels as int,
            frame,
            channel,
        );
    }
}

/// A ring holds the time asked for, and one 48 kHz frame per channel where that is more,
/// and no sample besides: it is as large as one of the two needs.
pub proof fn rings_hold_the_time_and_a_frame(rate: int, ms: int, channels: int)
    requires
        0 <= rate,
        0 <= ms,
        0 <= channels,
    ensures
        capacity_for(rate, ms, channels) >= 960 * channels,
        capacity_for(rate, ms, channels) >= (rate * ms / 1000) * channels,
        capacity_for(rate, ms, channels) == 960 * channels || capacity_for(rate, ms, channels) == (
        rate * ms / 1000) * channels,
{
}

/// A time in whole milliseconds is the largest that the samples fill: they fill it, and
/// do not fill one millisecond more.
pub proof fn samples_fill_their_time(samples: int, rate: int, channels: int)
    requires
        0 <= samples,
        0 < rate,
        0 < channels,
    ensures
        millis_of(samples, rate, channels) * (rate * channels) <= samples * 1000,
        samples * 1000 < (millis_of(samples, rate, channels) + 1) * (rate * channels),
{
    let k = rate * channels;
    assert(0 < k) by (nonlinear_arith)
        requires
            0 < rate,
            0 < channels,
            k == rate * channels,
    ;
    vstd::arithmetic::div_mod::lemma_fundamental_div_mod(samples * 1000, k);
    let q = samples * 1000 / k;
    assert(q * k == k * q && (q + 1) * k == k * q + k) by (nonlinear_arith);
}

/// A stream without a rate or without channels lasts no time.
pub proof fn no_stream_takes_no_time(samples: int, rate: int, channels: int)
    requires
        rate == 0 || channels == 0,
    ensures
        millis_of(samples, rate, channels) == 0,
{
    assert(rate * channels == 0) by (nonlinear_arith)
        requires
            rate == 0 || channels == 0,
    ;
}

/// Upmixing makes nothing up and leaves nothing out: one sample per channel and frame.
pub proof fn upmixing_keeps_the_length(mono: Seq<u32>, channels: nat)
    ensures
        upmixed(mono, channels).len() == mono.len() * channels,
        channels == 1 ==> upmixed(mono, channels) == mono,
{
    if channels == 1 {
        assert(mono.len() * channels == mono.len()) by (nonlinear_arith)
            requires
                channels == 1,
        ;
        assert(upmixed(mono, channels) =~= mono);
    }
}

/// Silence is all zero bits.
pub proof fn silence_is_zero(len: nat, i: int)
    ensures
        silent(len).len() == len,
        0 <= i < len ==> silent(len)[i] == 0,
{
}

} // verus!
