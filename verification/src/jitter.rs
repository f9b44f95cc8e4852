//! Adaptive jitter-buffer sizing: measure network jitter and size the buffer's
//! operating band to it, shallow on clean links and deeper on bursty ones, so that
//! normal arrival jitter does not trip the recentering of the buffer.
//!
//! Time is counted in ticks of 2^-32 of 1/48 ns. Both a nanosecond and a 48 kHz sample
//! are whole numbers of ticks, so the difference between when a packet came and when it
//! was due is exact. A tick is about 5e-21 s, which leaves the moving average more
//! precision than a 64-bit float gives it on any jitter that matters.

use crate::audio::FRAME;
use crate::packet::{ahead, is_behind};
use vstd::prelude::*;

verus! {

/// Ticks in one nanosecond.
pub const TICKS_PER_NS: u128 = 48 * 0x1_0000_0000;

/// Ticks in one sample period at the 48 kHz wire rate.
pub const TICKS_PER_SAMPLE: u128 = 1_000_000 * 0x1_0000_0000;

/// Ticks in one millisecond.
pub const TICKS_PER_MS: u128 = 48_000_000 * 0x1_0000_0000;

/// Ticks in one second.
pub const TICKS_PER_S: u128 = 48_000_000_000 * 0x1_0000_0000;

/// Smoothing divisor of the jitter estimate.
pub const JITTER_GAIN: u128 = 16;

/// Adaptive band parameters. The centre is the target depth; the half-band is how
/// far the occupancy may swing from it before the buffer is recentered. Both grow
/// with the smoothed jitter.
pub const CENTRE_MIN_MS: u128 = 40;

pub const CENTRE_PER_JITTER: u128 = 3;

pub const HALF_BAND_MIN_MS: u128 = 45;

pub const HALF_BAND_PER_JITTER: u128 = 3;

/// Watermark glide, per packet: a tenth of the way when the band deepens, so that a
/// burst is absorbed before it underruns, and a hundredth when it shrinks.
pub const BAND_GROW: usize = 10;

pub const BAND_SHRINK: usize = 100;

/// One step of the moving average: a sixteenth of the way from `jitter` to
/// `deviation`, a part of a tick counted as a whole one.
pub open spec fn smoothed(jitter: int, deviation: int) -> int {
    if deviation >= jitter {
        jitter + (deviation - jitter + 15) / 16
    } else {
        jitter - (jitter - deviation + 15) / 16
    }
}

/// A sixteenth of `way`, rounded up.
fn sixteenth(way: u128) -> (step: u128)
    ensures
        step == (way + 15) / 16,
{
    let part: u128 = if way % JITTER_GAIN > 0 {
        1
    } else {
        0
    };
    way / JITTER_GAIN + part
}

/// How far an arrival `elapsed_ns` after the previous one is off, when the samples
/// in between say how late it was due.
pub open spec fn deviation(elapsed_ns: int, samples: int) -> int {
    let off = elapsed_ns * TICKS_PER_NS - samples * TICKS_PER_SAMPLE;
    if off >= 0 {
        off
    } else {
        -off
    }
}

/// Smoothed inter-arrival jitter, in ticks. It compares packet arrival times with
/// the spacing that the carried timestamps imply, so a gap left by lost packets is
/// expected spacing and not jitter. Late and duplicate arrivals are ignored.
pub struct JitterEstimator {
    /// Clock reading (ns) and timestamp of the last arrival that counted.
    pub last: Option<(u64, u32)>,
    /// The current estimate, in ticks.
    pub jitter: u128,
}

impl JitterEstimator {
    /// The estimator after an arrival at clock reading `now`.
    pub open spec fn updated(self, now: u64, timestamp: u32) -> JitterEstimator {
        match self.last {
            None => JitterEstimator { last: Some((now, timestamp)), jitter: self.jitter },
            Some((last_now, last_timestamp)) => {
                let samples = ahead(timestamp, last_timestamp);
                if samples == 0 || is_behind(samples) {
                    self
                } else {
                    let elapsed = if now >= last_now {
                        now - last_now
                    } else {
                        0
                    };
                    JitterEstimator {
                        last: Some((now, timestamp)),
                        jitter: smoothed(self.jitter as int, deviation(elapsed, samples)) as u128,
                    }
                }
            },
        }
    }

    pub fn new() -> (estimator: JitterEstimator)
        ensures
            estimator.last is None,
            estimator.jitter == 0,
    {
        JitterEstimator { last: None, jitter: 0 }
    }

    /// Fold in an arrival at clock reading `now` (ns); the current smoothed jitter.
    pub fn update(&mut self, now: u64, timestamp: u32) -> (jitter: u128)
        ensures
            *final(self) == old(self).updated(now, timestamp),
            jitter == final(self).jitter,
    {
        if let Some((last_now, last_timestamp)) = self.last {
            let samples: u32 = timestamp.wrapping_sub(last_timestamp);
            assert(samples == ahead(timestamp, last_timestamp));
            if samples == 0 || samples >= u32::MAX / 2 {
                return self.jitter;
            }
            let elapsed: u64 = now.saturating_sub(last_now);
            let actual: u128 = elapsed as u128 * TICKS_PER_NS;
            let expected: u128 = samples as u128 * TICKS_PER_SAMPLE;
            let off: u128 = if actual >= expected {
                actual - expected
            } else {
                expected - actual
            };
            if off >= self.jitter {
                self.jitter = self.jitter + sixteenth(off - self.jitter);
            } else {
                self.jitter = self.jitter - sixteenth(self.jitter - off);
            }
        }
        self.last = Some((now, timestamp));
        self.jitter
    }
}

/// `x` brought into `low..=high`.
pub open spec fn clamped(x: int, low: int, high: int) -> int {
    if x < low {
        low
    } else if x > high {
        high
    } else {
        x
    }
}

pub open spec fn larger(a: int, b: int) -> int {
    if a >= b {
        a
    } else {
        b
    }
}

/// The interleaved samples that play in `ticks`.
pub open spec fn samples_in(ticks: int, rate: int, channels: int) -> int {
    ticks * (rate * channels) / TICKS_PER_S as int
}

/// The depth the buffer aims for at a given jitter, in ticks.
pub open spec fn centre(jitter: int) -> int {
    CENTRE_MIN_MS * TICKS_PER_MS + CENTRE_PER_JITTER * jitter
}

/// How far the depth may swing at a given jitter, in ticks.
pub open spec fn half_band(jitter: int) -> int {
    HALF_BAND_MIN_MS * TICKS_PER_MS + HALF_BAND_PER_JITTER * jitter
}

/// One interleaved 48 kHz frame: what is kept free at each end of the ring.
pub open spec fn rail(channels: int) -> int {
    FRAME * channels
}

/// Below this depth a frame is repeated.
pub open spec fn low_mark(jitter: int, rate: int, channels: int, capacity: int) -> int {
    let frame = rail(channels);
    clamped(
        samples_in(larger(centre(jitter) - half_band(jitter), 0), rate, channels),
        frame,
        larger(capacity - 2 * frame, frame),
    )
}

/// Above this depth a frame is dropped.
pub open spec fn high_mark(jitter: int, rate: int, channels: int, capacity: int) -> int {
    let frame = rail(channels);
    let low = low_mark(jitter, rate, channels, capacity);
    clamped(
        samples_in(centre(jitter) + half_band(jitter), rate, channels),
        low + frame,
        larger(capacity - frame, low + frame),
    )
}

/// The samples that play in whole `seconds` and `rest` more ticks, brought into
/// `low..=high`.
fn clamped_samples(
    seconds: u128,
    rest: u128,
    rate: u32,
    channels: usize,
    low: usize,
    high: usize,
) -> (n: usize)
    requires
        seconds <= 0x1_0000_0000_0000_0000,
        rest <= 8 * TICKS_PER_S,
        2 * rail(channels as int) <= usize::MAX,
        low <= high,
    ensures
        n == clamped(
            samples_in(seconds * TICKS_PER_S + rest, rate as int, channels as int),
            low as int,
            high as int,
        ),
{
    assert(0 <= rest * rate <= 8 * 206_158_430_208_000_000_000 * 0xFFFF_FFFF && 0 <= seconds * rate
        <= 0x1_0000_0000_0000_0000 * 0xFFFF_FFFF) by (nonlinear_arith)
        requires
            0 <= rest <= 8 * 206_158_430_208_000_000_000,
            0 <= seconds <= 0x1_0000_0000_0000_0000,
            0 <= rate <= 0xFFFF_FFFF,
    ;
    let partial: u128 = rest * rate as u128;
    let whole: u128 = seconds * rate as u128 + partial / TICKS_PER_S;
    let left: u128 = partial % TICKS_PER_S;
    proof {
        lemma_samples_by_parts(
            seconds as int,
            rest as int,
            rate as int,
            channels as int,
            whole as int,
            left as int,
        );
        assert(channels == 0 ==> whole * channels == 0 && left * channels == 0)
            by (nonlinear_arith);
        assert(channels >= 1 ==> whole * channels >= whole) by (nonlinear_arith)
            requires
                0 <= whole,
                0 <= channels,
        ;
        assert(0 <= left * channels <= 206_158_430_208_000_000_000 * 0x40_0000_0000_0000)
            by (nonlinear_arith)
            requires
                0 <= left <= 206_158_430_208_000_000_000,
                0 <= channels <= 0x40_0000_0000_0000,
        ;
        assert(whole <= u64::MAX ==> 0 <= whole * channels <= u64::MAX * 0x40_0000_0000_0000)
            by (nonlinear_arith)
            requires
                0 <= whole,
                0 <= channels <= 0x40_0000_0000_0000,
        ;
    }
    let samples: u128 = if channels == 0 {
        0
    } else if whole > u64::MAX as u128 {
        return high;
    } else {
        whole * channels as u128 + left * channels as u128 / TICKS_PER_S
    };
    if samples < low as u128 {
        low
    } else if samples > high as u128 {
        high
    } else {
        samples as usize
    }
}

/// The recenter watermarks (low, high) in ring samples for a given smoothed jitter:
/// hold below `low`, drop above `high`, free-run between. They leave one frame of
/// headroom from each end of the ring where the ring is deep enough for that.
pub fn adaptive_watermarks(
    jitter: u128,
    playback_rate: u32,
    channels: usize,
    capacity: usize,
) -> (marks: (usize, usize))
    requires
        2 * rail(channels as int) <= usize::MAX,
    ensures
        marks.0 == low_mark(
            jitter as int,
            playback_rate as int,
            channels as int,
            capacity as int,
        ),
        marks.1 == high_mark(
            jitter as int,
            playback_rate as int,
            channels as int,
            capacity as int,
        ),
{
    // The centre and the half band grow alike, so their difference does not depend on
    // the jitter.
    let bottom: u128 = (CENTRE_MIN_MS * TICKS_PER_MS).saturating_sub(
        HALF_BAND_MIN_MS * TICKS_PER_MS,
    );
    let per_jitter: u128 = CENTRE_PER_JITTER + HALF_BAND_PER_JITTER;
    let seconds: u128 = per_jitter * (jitter / TICKS_PER_S);
    let rest: u128 = (CENTRE_MIN_MS + HALF_BAND_MIN_MS) * TICKS_PER_MS + per_jitter * (jitter
        % TICKS_PER_S);
    assert(seconds * TICKS_PER_S + rest == centre(jitter as int) + half_band(jitter as int));
    let frame: usize = FRAME * channels;

    let spare: usize = capacity.saturating_sub(2 * frame);
    let low_max: usize = if spare >= frame {
        spare
    } else {
        frame
    };
    let low: usize = clamped_samples(
        0,
        bottom,
        playback_rate,
        channels,
        frame,
        low_max,
    );

    let top: usize = capacity.saturating_sub(frame);
    let high_max: usize = if top >= low + frame {
        top
    } else {
        low + frame
    };
    let high: usize = clamped_samples(
        seconds,
        rest,
        playback_rate,
        channels,
        low + frame,
        high_max,
    );
    (low, high)
}

/// The depth midway between the watermarks of a link without jitter.
pub open spec fn starting_depth(rate: int, channels: int, capacity: int) -> int {
    (low_mark(0, rate, channels, capacity) + high_mark(0, rate, channels, capacity)) / 2
}

/// The buffer depth to prefill and start at, in ring samples.
pub fn initial_depth(playback_rate: u32, channels: usize, capacity: usize) -> (depth: usize)
    requires
        3 * rail(channels as int) <= usize::MAX,
    ensures
        depth == starting_depth(playback_rate as int, channels as int, capacity as int),
{
    proof {
        watermarks_are_ordered(0, playback_rate as int, channels as int, capacity as int);
    }
    let (low, high) = adaptive_watermarks(0, playback_rate, channels, capacity);
    (low + high) / 2
}

/// A watermark after one step of its glide, to the nearest sample: a tenth of the way
/// deeper, or a hundredth of the way shallower. A half is settled toward the deeper.
pub open spec fn eased(current: int, target: int) -> int {
    if target > current {
        current + (target - current + 5) / 10
    } else {
        current - (current - target + 49) / 100
    }
}

/// Glide a watermark from `current` toward `target`: quick to deepen, slow to
/// shrink, so that the band moves smoothly rather than snapping to each estimate.
pub fn ease(current: usize, target: usize) -> (next: usize)
    ensures
        next == eased(current as int, target as int),
{
    if target > current {
        let way: usize = target - current;
        let up: usize = if way % BAND_GROW >= BAND_GROW / 2 {
            1
        } else {
            0
        };
        current + (way / BAND_GROW + up)
    } else {
        let way: usize = current - target;
        let up: usize = if way % BAND_SHRINK > BAND_SHRINK / 2 {
            1
        } else {
            0
        };
        current - (way / BAND_SHRINK + up)
    }
}

/// `whole * d + left` times `by`, in whole multiples of `d`.
proof fn lemma_multiples(total: int, whole: int, left: int, by: int, d: int)
    requires
        0 < d,
        total == whole * d + left,
    ensures
        total * by / d == whole * by + left * by / d,
{
    assert(total * by == left * by + (whole * by) * d) by (nonlinear_arith)
        requires
            total == whole * d + left,
    ;
    vstd::arithmetic::div_mod::lemma_hoist_over_denominator(left * by, whole * by, d as nat);
}

proof fn lemma_samples_by_parts(
    seconds: int,
    rest: int,
    rate: int,
    channels: int,
    whole: int,
    left: int,
)
    requires
        whole == seconds * rate + rest * rate / TICKS_PER_S as int,
        left == rest * rate % TICKS_PER_S as int,
    ensures
        samples_in(seconds * TICKS_PER_S + rest, rate, channels) == whole * channels + left
            * channels / TICKS_PER_S as int,
{
    let d = TICKS_PER_S as int;
    let ticks = seconds * d + rest;
    vstd::arithmetic::div_mod::lemma_fundamental_div_mod(rest * rate, d);
    let q = rest * rate / d;
    assert(ticks * rate == whole * d + left) by (nonlinear_arith)
        requires
            ticks == seconds * d + rest,
            rest * rate == d * q + left,
            whole == seconds * rate + q,
    ;
    lemma_multiples(ticks * rate, whole, left, channels, d);
    assert(ticks * (rate * channels) == (ticks * rate) * channels) by (nonlinear_arith);
}

/// An arrival whose timestamp repeats or goes back leaves the estimate as it was.
pub proof fn late_arrivals_are_ignored(estimator: JitterEstimator, now: u64, timestamp: u32)
    requires
        estimator.last matches Some((_, last)) && (ahead(timestamp, last) == 0 || is_behind(
            ahead(timestamp, last),
        )),
    ensures
        estimator.updated(now, timestamp) == estimator,
{
}

/// Packets that come exactly as far apart as their timestamps say, with or without
/// lost ones in between, never raise the estimate. It falls at each of them until it is
/// zero, where it stays; only a pause of half the timestamps' circle leaves it alone.
pub proof fn steady_arrivals_have_no_jitter(
    estimator: JitterEstimator,
    now: u64,
    timestamp: u32,
    frames: int,
)
    requires
        estimator.last matches Some((last_now, last)) && {
            &&& 0 < frames
            &&& now == last_now + frames * 20_000_000
            &&& ahead(timestamp, last) == frames * FRAME
        },
    ensures
        estimator.updated(now, timestamp).jitter <= estimator.jitter,
        estimator.jitter > 0 && !is_behind(frames * FRAME) ==> estimator.updated(
            now,
            timestamp,
        ).jitter < estimator.jitter,
        estimator.jitter == 0 ==> estimator.updated(now, timestamp).jitter == 0,
{
    assert(deviation(frames * 20_000_000, frames * FRAME) == 0);
}

/// A packet that comes further off its time than the estimate says raises the estimate.
pub proof fn uneven_arrivals_raise_the_estimate(
    estimator: JitterEstimator,
    now: u64,
    timestamp: u32,
)
    requires
        estimator.last matches Some((last_now, last)) && {
            &&& last_now <= now
            &&& 0 < ahead(timestamp, last)
            &&& !is_behind(ahead(timestamp, last))
            &&& deviation(now - last_now, ahead(timestamp, last)) > estimator.jitter
        },
    ensures
        estimator.updated(now, timestamp).jitter > estimator.jitter,
{
}

/// The estimate moves toward the latest deviation and never past it, and rests only on
/// it: it does not stall on the way.
pub proof fn smoothing_stays_between(jitter: int, deviation: int)
    ensures
        jitter < deviation ==> jitter < smoothed(jitter, deviation) <= deviation,
        jitter > deviation ==> deviation <= smoothed(jitter, deviation) < jitter,
        jitter == deviation ==> smoothed(jitter, deviation) == jitter,
{
}

/// A step of the estimate is the moving average `jitter + (deviation - jitter) / 16` to
/// within one tick, and exactly that where it is a whole number of ticks.
pub proof fn smoothing_is_the_moving_average(jitter: int, deviation: int)
    ensures
        -16 < 16 * smoothed(jitter, deviation) - (15 * jitter + deviation) < 16,
        (deviation - jitter) % 16 == 0 ==> 16 * smoothed(jitter, deviation) == 15 * jitter
            + deviation,
{
}

proof fn lemma_samples_in_is_ordered(a: int, b: int, rate: int, channels: int)
    requires
        0 <= a <= b,
        0 <= rate,
        0 <= channels,
    ensures
        0 <= samples_in(a, rate, channels) <= samples_in(b, rate, channels),
{
    let k = rate * channels;
    assert(0 <= k) by (nonlinear_arith)
        requires
            0 <= rate,
            0 <= channels,
            k == rate * channels,
    ;
    assert(0 <= a * k <= b * k) by (nonlinear_arith)
        requires
            0 <= a <= b,
            0 <= k,
    ;
}

/// The watermarks are at least a frame apart, and the lower one always leaves the
/// cushion of one frame against an underrun, whatever the jitter.
pub proof fn watermarks_are_ordered(jitter: int, rate: int, channels: int, capacity: int)
    requires
        0 <= jitter,
        0 <= rate,
        0 <= channels,
    ensures
        low_mark(jitter, rate, channels, capacity) == rail(channels),
        low_mark(jitter, rate, channels, capacity) + rail(channels) <= high_mark(
            jitter,
            rate,
            channels,
            capacity,
        ),
{
    assert(larger(centre(jitter) - half_band(jitter), 0) == 0);
    assert(samples_in(0, rate, channels) == 0);
    assert(rail(channels) >= 0);
}

/// In a ring of three frames or more the watermarks keep a frame off each end.
pub proof fn watermarks_stay_within_rails(jitter: int, rate: int, channels: int, capacity: int)
    requires
        0 <= jitter,
        0 <= rate,
        0 <= channels,
        capacity >= 3 * rail(channels),
    ensures
        rail(channels) <= low_mark(jitter, rate, channels, capacity) <= capacity - 2 * rail(
            channels,
        ),
        high_mark(jitter, rate, channels, capacity) <= capacity - rail(channels),
{
    watermarks_are_ordered(jitter, rate, channels, capacity);
}

/// More jitter deepens the band, and only through the high watermark: the low one stays
/// at the cushion of one frame.
pub proof fn band_deepens_with_jitter(
    jitter: int,
    more: int,
    rate: int,
    channels: int,
    capacity: int,
)
    requires
        0 <= jitter <= more,
        0 <= rate,
        0 <= channels,
    ensures
        low_mark(jitter, rate, channels, capacity) == low_mark(more, rate, channels, capacity),
        low_mark(jitter, rate, channels, capacity) == rail(channels),
        high_mark(jitter, rate, channels, capacity) <= high_mark(more, rate, channels, capacity),
{
    watermarks_are_ordered(jitter, rate, channels, capacity);
    watermarks_are_ordered(more, rate, channels, capacity);
    lemma_samples_in_is_ordered(
        centre(jitter) + half_band(jitter),
        centre(more) + half_band(more),
        rate,
        channels,
    );
}

/// The starting depth lies between the watermarks, inside the free-running band unless
/// there is no channel, and leaves a frame and a half of cushion; in a ring of three
/// frames or more it fills at most half of it.
pub proof fn starting_depth_is_in_the_band(rate: int, channels: int, capacity: int)
    requires
        0 <= rate,
        0 <= channels,
    ensures
        low_mark(0, rate, channels, capacity) <= starting_depth(rate, channels, capacity)
            <= high_mark(0, rate, channels, capacity),
        0 < channels ==> low_mark(0, rate, channels, capacity) < starting_depth(
            rate,
            channels,
            capacity,
        ) < high_mark(0, rate, channels, capacity),
        3 * rail(channels) / 2 <= starting_depth(rate, channels, capacity),
        capacity >= 3 * rail(channels) ==> starting_depth(rate, channels, capacity) <= capacity
            / 2,
{
    watermarks_are_ordered(0, rate, channels, capacity);
    if capacity >= 3 * rail(channels) {
        watermarks_stay_within_rails(0, rate, channels, capacity);
    }
}

/// A glide never overshoots and rests on its target.
pub proof fn easing_stays_between(current: int, target: int)
    ensures
        current <= target ==> current <= eased(current, target) <= target,
        target <= current ==> target <= eased(current, target) <= current,
{
}

/// A glide goes on until it is within the rounding of one step: four samples when
/// it deepens, fifty when it shrinks.
pub proof fn easing_converges(current: int, target: int)
    ensures
        eased(current, target) == current <==> -50 <= target - current <= 4,
{
}

/// Over the same distance the band deepens at least as fast as it shrinks, and
/// strictly faster as soon as it moves at all.
pub proof fn attack_outpaces_release(from: int, distance: int)
    requires
        0 <= distance,
    ensures
        eased(from, from + distance) - from >= (from + distance) - eased(from + distance, from),
        distance >= 5 ==> eased(from, from + distance) - from > (from + distance) - eased(
            from + distance,
            from,
        ),
{
}

/// What an arrival does to the estimate, for every spacing of the timestamps: sixteen
/// times the new estimate is, to within one tick of the estimate, fifteen times the old
/// one plus how far the arrival was off the time that the samples in between take. The
/// arrival is then the one that the next is measured from.
pub proof fn arrivals_are_measured_against_their_timestamps(
    estimator: JitterEstimator,
    now: u64,
    timestamp: u32,
    last_now: u64,
    last_timestamp: u32,
    samples: int,
)
    requires
        estimator.last == Some((last_now, last_timestamp)),
        last_now <= now,
        0 < samples < 0x7FFF_FFFF,
        (last_timestamp + samples) % 0x1_0000_0000 == timestamp,
    ensures
        ({
            let after = estimator.updated(now, timestamp);
            let late = (now - last_now) * TICKS_PER_NS - samples * TICKS_PER_SAMPLE;
            let off = if late >= 0 {
                late
            } else {
                -late
            };
            &&& -16 < 16 * after.jitter - (15 * estimator.jitter + off) < 16
            &&& off >= estimator.jitter ==> 16 * after.jitter >= 15 * estimator.jitter + off
            &&& off <= estimator.jitter ==> 16 * after.jitter <= 15 * estimator.jitter + off
            &&& after.last == Some((now, timestamp))
        }),
{
    assert(ahead(timestamp, last_timestamp) == samples) by {
        assert((timestamp - last_timestamp) % 0x1_0000_0000 == samples) by {
            if last_timestamp + samples < 0x1_0000_0000 {
                assert(timestamp - last_timestamp == samples);
            } else {
                assert(timestamp - last_timestamp == samples - 0x1_0000_0000);
            }
        }
    }
    let d = deviation(now - last_now, samples);
    assert(0 <= d <= u128::MAX);
    smoothing_is_the_moving_average(estimator.jitter as int, d);
    smoothing_stays_between(estimator.jitter as int, d);
}

/// The first arrival only starts the measurement; one whose timestamp repeats or goes
/// back does not count at all, and a clock that goes back counts as no time.
pub proof fn what_does_not_count_as_jitter(estimator: JitterEstimator, now: u64, timestamp: u32)
    ensures
        estimator.last is None ==> estimator.updated(now, timestamp) == (JitterEstimator {
            last: Some((now, timestamp)),
            jitter: estimator.jitter,
        }),
        estimator.last matches Some((_, last)) ==> ((timestamp - last) % 0x1_0000_0000 == 0 || (
        timestamp - last) % 0x1_0000_0000 >= 0x7FFF_FFFF) ==> estimator.updated(now, timestamp)
            == estimator,
        estimator.last matches Some((last_now, _)) ==> now < last_now ==> estimator.updated(
            now,
            timestamp,
        ).jitter == estimator.updated(last_now, timestamp).jitter,
{
}

/// Being off by more is never measured as less: of two arrivals that carry the same
/// timestamp and are both late, the later one leaves the higher estimate.
pub proof fn being_later_is_never_measured_as_less(
    estimator: JitterEstimator,
    now: u64,
    later: u64,
    timestamp: u32,
)
    requires
        estimator.last matches Some((last_now, last)) && {
            &&& last_now <= now <= later
            &&& (now - last_now) * TICKS_PER_NS >= ((timestamp - last) % 0x1_0000_0000)
                * TICKS_PER_SAMPLE
        },
    ensures
        estimator.updated(now, timestamp).jitter <= estimator.updated(later, timestamp).jitter,
{
    let (last_now, last) = estimator.last->0;
    let samples = ahead(timestamp, last);
    if samples != 0 && !is_behind(samples) {
        let (a, b) = (deviation(now - last_now, samples), deviation(later - last_now, samples));
        let (x, y, t) = (now - last_now, later - last_now, TICKS_PER_NS as int);
        assert(x * t <= y * t <= u64::MAX * 206_158_430_208) by (nonlinear_arith)
            requires
                0 <= x <= y <= u64::MAX,
                t == 206_158_430_208,
        ;
        assert(a == x * t - samples * TICKS_PER_SAMPLE);
        assert(b == y * t - samples * TICKS_PER_SAMPLE);
        smoothing_stays_between(estimator.jitter as int, a);
        smoothing_stays_between(estimator.jitter as int, b);
    }
}

/// The watermarks by what they are for. The low one is a frame. The high one is what
/// plays in 85 ms and six times the jitter, to the whole sample below, except where that
/// would leave less than a frame of band or less than a frame of room in the ring.
pub proof fn the_band_is_sized_to_the_jitter(jitter: int, rate: int, channels: int, capacity: int)
    requires
        0 <= jitter,
        0 <= rate,
        0 <= channels,
    ensures
        ({
            let low = low_mark(jitter, rate, channels, capacity);
            let high = high_mark(jitter, rate, channels, capacity);
            let wanted = (85 * TICKS_PER_MS + 6 * jitter) * (rate * channels);
            &&& low == 960 * channels
            &&& 1920 * channels <= high
            &&& high <= capacity - 960 * channels || high == 1920 * channels
            &&& high > 1920 * channels ==> high * TICKS_PER_S <= wanted
            &&& high < capacity - 960 * channels ==> wanted < (high + 1) * TICKS_PER_S
        }),
{
    watermarks_are_ordered(jitter, rate, channels, capacity);
    let ticks = centre(jitter) + half_band(jitter);
    assert(ticks == 85 * TICKS_PER_MS + 6 * jitter);
    let d = TICKS_PER_S as int;
    vstd::arithmetic::div_mod::lemma_fundamental_div_mod(ticks * (rate * channels), d);
}

/// Half a tenth, or half a hundredth, of a sample is all that a glide's step is off: a
/// tenth of the way when it deepens, a hundredth when it shrinks.
pub proof fn a_glide_takes_its_share_of_the_way(current: int, target: int)
    ensures
        target >= current ==> -5 < 10 * (eased(current, target) - current) - (target - current)
            <= 5,
        target <= current ==> -50 <= 100 * (current - eased(current, target)) - (current - target)
            < 50,
{
}

/// The starting depth is midway between the watermarks of a link without jitter.
pub proof fn the_start_is_midway(rate: int, channels: int, capacity: int)
    ensures
        ({
            let both = low_mark(0, rate, channels, capacity) + high_mark(
                0,
                rate,
                channels,
                capacity,
            );
            both - 1 <= 2 * starting_depth(rate, channels, capacity) <= both
        }),
{
}

/// The units of time agree: a second is a thousand milliseconds, a millisecond a million
/// nanoseconds, and a second 48 000 samples of the wire.
pub proof fn the_units_of_time_agree(n: int)
    ensures
        n * TICKS_PER_S == (1000 * n) * TICKS_PER_MS,
        n * TICKS_PER_MS == (1_000_000 * n) * TICKS_PER_NS,
        n * TICKS_PER_S == (48_000 * n) * TICKS_PER_SAMPLE,
        TICKS_PER_NS > 0,
{
}

} // verus!
