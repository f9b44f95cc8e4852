//! The dashboard's numbers: human-readable quantities, the drift of the buffer, the
//! levels that colour a reading, and the braille throughput graph.

use crate::engine::EngineStats;
use crate::text::{
    decimal, decimal_text, signed_decimal, signed_text, two_digit_text, two_digits,
};
use vstd::prelude::*;
use vstd::string::StringExecFns;

verus! {

/// How often the counters are sampled, in ms.
pub const SAMPLE_MS: u64 = 500;

/// Samples kept of a rate or a depth.
pub const HISTORY: usize = 240;

/// Samples needed before a drift is estimated: about ten seconds.
pub const DRIFT_MIN: usize = 20;

/// Bytes in a kilobyte, megabyte and gigabyte.
pub const KB: u64 = 1024;

pub const MB: u64 = 1_048_576;

pub const GB: u64 = 1_073_741_824;

/// `numerator / denominator` to the nearest whole number, halves to the even one.
pub open spec fn rounded_even(numerator: int, denominator: int) -> int {
    let (q, r) = (numerator / denominator, numerator % denominator);
    if 2 * r > denominator || (2 * r == denominator && q % 2 == 1) {
        q + 1
    } else {
        q
    }
}

/// `bytes` in a unit, with one decimal place.
pub open spec fn in_unit(bytes: int, unit: int, name: Seq<char>) -> Seq<char> {
    let tenths = rounded_even(bytes * 10, unit);
    decimal(tenths / 10) + "."@ + decimal(tenths % 10) + name
}

/// A byte count as shown.
pub open spec fn byte_count(bytes: int) -> Seq<char> {
    if bytes < KB {
        decimal(bytes) + " B"@
    } else if bytes < MB {
        in_unit(bytes, KB as int, " KB"@)
    } else if bytes < GB {
        in_unit(bytes, MB as int, " MB"@)
    } else {
        in_unit(bytes, GB as int, " GB"@)
    }
}

fn unit_text(bytes: u128, unit: u128, name: &str) -> (text: String)
    requires
        0 < unit <= GB,
        bytes <= 2 * u64::MAX,
    ensures
        text@ == in_unit(bytes as int, unit as int, name@),
{
    let scaled: u128 = bytes * 10;
    let mut tenths: u128 = scaled / unit;
    let rest: u128 = scaled % unit;
    if 2 * rest > unit || (2 * rest == unit && tenths % 2 == 1) {
        assert(tenths <= scaled) by (nonlinear_arith)
            requires
                tenths == scaled / unit,
                0 < unit,
                0 <= scaled,
        ;
        tenths = tenths + 1;
    }
    let mut text = decimal_text(tenths / 10);
    text.append(".");
    text.append(decimal_text(tenths % 10).as_str());
    text.append(name);
    text
}

fn bytes_text(bytes: u128) -> (text: String)
    requires
        bytes <= 2 * u64::MAX,
    ensures
        text@ == byte_count(bytes as int),
{
    if bytes < KB as u128 {
        let mut text = decimal_text(bytes);
        text.append(" B");
        text
    } else if bytes < MB as u128 {
        unit_text(bytes, KB as u128, " KB")
    } else if bytes < GB as u128 {
        unit_text(bytes, MB as u128, " MB")
    } else {
        unit_text(bytes, GB as u128, " GB")
    }
}

/// Human-readable byte count (B / KB / MB / GB).
pub fn human_bytes(bytes: u64) -> (text: String)
    ensures
        text@ == byte_count(bytes as int),
{
    bytes_text(bytes as u128)
}

/// Human-readable volume in both directions.
pub fn total_bytes(stats: &EngineStats) -> (text: String)
    ensures
        text@ == byte_count(stats.bytes_sent + stats.bytes_received),
{
    bytes_text(stats.bytes_sent as u128 + stats.bytes_received as u128)
}

/// A time as shown: hours, minutes and seconds.
pub open spec fn clock(secs: int) -> Seq<char> {
    two_digits(secs / 3600) + ":"@ + two_digits(secs % 3600 / 60) + ":"@ + two_digits(secs % 60)
}

/// Seconds as `hh:mm:ss`.
pub fn format_duration(secs: u64) -> (text: String)
    ensures
        text@ == clock(secs as int),
{
    let mut text = two_digit_text(secs / 3600);
    text.append(":");
    text.append(two_digit_text(secs % 3600 / 60).as_str());
    text.append(":");
    text.append(two_digit_text(secs % 60).as_str());
    text
}

/// How a switch is shown.
pub open spec fn switch(enabled: bool) -> Seq<char> {
    if enabled {
        "on"@
    } else {
        "off"@
    }
}

/// `"on"` or `"off"`.
pub fn on_off(enabled: bool) -> (text: &'static str)
    ensures
        text@ == switch(enabled),
{
    if enabled {
        "on"
    } else {
        "off"
    }
}

/// The codec settings as shown.
pub open spec fn codec_text(
    bitrate: i32,
    fec: bool,
    dtx: bool,
    jitter_ms: u32,
    drift_correct: bool,
) -> Seq<char> {
    signed_decimal(bitrate as int) + " bps   fec "@ + switch(fec) + "   dtx "@ + switch(dtx)
        + "   jitter "@ + decimal(jitter_ms as int) + " ms   drift "@ + switch(drift_correct)
}

/// The codec settings to show.
pub fn codec_line(
    bitrate: i32,
    fec: bool,
    dtx: bool,
    jitter_ms: u32,
    drift_correct: bool,
) -> (line: String)
    ensures
        line@ == codec_text(bitrate, fec, dtx, jitter_ms, drift_correct),
{
    let mut line = signed_text(bitrate as i64);
    line.append(" bps   fec ");
    line.append(on_off(fec));
    line.append("   dtx ");
    line.append(on_off(dtx));
    line.append("   jitter ");
    line.append(decimal_text(jitter_ms as u128).as_str());
    line.append(" ms   drift ");
    line.append(on_off(drift_correct));
    line
}

/// The recenter counters as shown.
pub open spec fn recenter_text(stats: EngineStats) -> Seq<char> {
    decimal(stats.recenter_drops + stats.recenter_inserts) + "  (drop "@ + decimal(
        stats.recenter_drops as int,
    ) + " / hold "@ + decimal(stats.recenter_inserts as int) + ")"@
}

/// The recenter counters to show.
pub fn recenter_line(stats: &EngineStats) -> (line: String)
    ensures
        line@ == recenter_text(*stats),
{
    let both: u128 = stats.recenter_drops as u128 + stats.recenter_inserts as u128;
    let mut line = decimal_text(both);
    line.append("  (drop ");
    line.append(decimal_text(stats.recenter_drops as u128).as_str());
    line.append(" / hold ");
    line.append(decimal_text(stats.recenter_inserts as u128).as_str());
    line.append(")");
    line
}

/// How a reading is to be taken.
#[derive(Clone, Copy, PartialEq, Eq, Structural, Debug)]
pub enum Reading {
    Good,
    Warning,
    Bad,
}

/// How a buffer's fill is to be taken.
pub open spec fn fill_level(fill: int, capacity: int) -> Reading {
    if capacity == 0 || fill * 5 < capacity {
        Reading::Bad
    } else if fill * 5 > capacity * 4 {
        Reading::Warning
    } else {
        Reading::Good
    }
}

/// How full the jitter buffer is: below a fifth it is about to run dry, above four
/// fifths about to overrun. A buffer without capacity is empty.
pub fn buffer_reading(fill: u64, capacity: u64) -> (reading: Reading)
    ensures
        reading == fill_level(fill as int, capacity as int),
        reading == if capacity == 0 || fill * 5 < capacity {
            Reading::Bad
        } else if fill * 5 > capacity * 4 {
            Reading::Warning
        } else {
            Reading::Good
        },
{
    let (fill, capacity) = (fill as u128, capacity as u128);
    if capacity == 0 || fill * 5 < capacity {
        Reading::Bad
    } else if fill * 5 > capacity * 4 {
        Reading::Warning
    } else {
        Reading::Good
    }
}

/// How so many lost frames among so many received packets are to be taken.
pub open spec fn loss_level(lost: int, received: int) -> Reading {
    if lost == 0 {
        Reading::Good
    } else if lost * 20 < received + lost {
        Reading::Warning
    } else {
        Reading::Bad
    }
}

/// How much of the stream was lost: nothing, less than a twentieth, or more.
pub fn loss_reading(stats: &EngineStats) -> (reading: Reading)
    ensures
        reading == loss_level(stats.gap_frames as int, stats.packets_received as int),
        reading == if stats.gap_frames == 0 {
            Reading::Good
        } else if stats.gap_frames * 20 < stats.packets_received + stats.gap_frames {
            Reading::Warning
        } else {
            Reading::Bad
        },
{
    let lost: u128 = stats.gap_frames as u128;
    if lost == 0 {
        Reading::Good
    } else if lost * 20 < stats.packets_received as u128 + lost {
        Reading::Warning
    } else {
        Reading::Bad
    }
}

/// Whether frames were ever refused by a full buffer.
pub fn overruns_reading(stats: &EngineStats) -> (reading: Reading)
    ensures
        reading == if stats.overruns > 0 {
            Reading::Bad
        } else {
            Reading::Good
        },
{
    if stats.overruns > 0 {
        Reading::Bad
    } else {
        Reading::Good
    }
}

/// Whether the buffer ever had to be recentered.
pub fn recenter_reading(stats: &EngineStats) -> (reading: Reading)
    ensures
        reading == if stats.recenter_drops > 0 || stats.recenter_inserts > 0 {
            Reading::Warning
        } else {
            Reading::Good
        },
{
    if stats.recenter_drops > 0 || stats.recenter_inserts > 0 {
        Reading::Warning
    } else {
        Reading::Good
    }
}

/// Put a value at the end of a history of fixed length; the oldest leaves.
pub fn push<T>(history: &mut Vec<T>, value: T)
    requires
        old(history)@.len() > 0,
    ensures
        final(history)@ == old(history)@.skip(1).push(value),
{
    history.remove(0);
    history.push(value);
    assert(history@ =~= old(history)@.skip(1).push(value));
}

/// The sum of all values.
pub open spec fn total(values: Seq<u64>) -> int
    decreases values.len(),
{
    if values.len() == 0 {
        0
    } else {
        total(values.drop_last()) + values.last()
    }
}

/// A trend in ms per minute, as a fraction.
#[derive(Clone, Copy)]
pub struct Drift {
    pub numerator: i128,
    pub denominator: i128,
}

/// The rise from the mean of the first half of a history to the mean of the second,
/// over the half history of half-second samples between their middles: `240 / n`
/// times the difference of the means, over a common denominator.
pub open spec fn trend(history: Seq<u64>) -> (int, int) {
    let n = history.len() as int;
    let half = n / 2;
    if n < DRIFT_MIN {
        (0, 1)
    } else {
        (
            (total(history.skip(half)) * half - total(history.take(half)) * (n - half)) * 240,
            half * (n - half) * n,
        )
    }
}

/// A history with one more sample.
pub open spec fn recorded(history: Seq<u64>, ms: u64) -> Seq<u64> {
    if history.len() < HISTORY {
        history.push(ms)
    } else {
        history.skip(1).push(ms)
    }
}

/// The buffered latency over the last samples, oldest first.
pub struct DepthHistory {
    depths: Vec<u64>,
}

impl View for DepthHistory {
    type V = Seq<u64>;

    closed spec fn view(&self) -> Seq<u64> {
        self.depths@
    }
}

impl DepthHistory {
    /// Bounded.
    pub open spec fn wf(&self) -> bool {
        self@.len() <= HISTORY
    }

    /// No samples yet.
    pub fn new() -> (history: DepthHistory)
        ensures
            history.wf(),
            history@ == Seq::<u64>::empty(),
    {
        DepthHistory { depths: Vec::new() }
    }

    /// Add a sample in ms; of more than the history holds the oldest leaves.
    pub fn record(&mut self, ms: u64)
        requires
            old(self).wf(),
        ensures
            final(self).wf(),
            final(self)@ == recorded(old(self)@, ms),
            final(self)@ == if old(self)@.len() < HISTORY {
                old(self)@.push(ms)
            } else {
                old(self)@.skip(1).push(ms)
            },
    {
        self.depths.push(ms);
        if self.depths.len() > HISTORY {
            self.depths.remove(0);
            assert(self@ =~= old(self)@.skip(1).push(ms));
        }
    }

    /// The trend of the buffered latency. Rising means that the buffer is slowly
    /// filling, falling that it drains: the signature of clock drift. Zero until there
    /// are enough samples.
    pub fn drift_per_min(&self) -> (drift: Drift)
        requires
            self.wf(),
        ensures
            drift.numerator == trend(self@).0,
            drift.denominator == trend(self@).1,
            0 < drift.denominator <= 240 * 240 * 240,
    {
        let n: usize = self.depths.len();
        if n < DRIFT_MIN {
            return Drift { numerator: 0, denominator: 1 };
        }
        let half: usize = n / 2;
        let first: u128 = self.sum(0, half);
        let second: u128 = self.sum(half, n);
        proof {
            assert(self@.subrange(0, half as int) =~= self@.take(half as int));
            assert(self@.subrange(half as int, n as int) =~= self@.skip(half as int));
            lemma_total_bound(self@.take(half as int));
            lemma_total_bound(self@.skip(half as int));
            lemma_trend_bounds(first as int, second as int, half as int, n as int);
        }
        Drift {
            numerator: (second as i128 * half as i128 - first as i128 * (n - half) as i128) * 240,
            denominator: half as i128 * (n - half) as i128 * n as i128,
        }
    }

    fn sum(&self, from: usize, to: usize) -> (sum: u128)
        requires
            self.wf(),
            from <= to <= self@.len(),
        ensures
            sum == total(self@.subrange(from as int, to as int)),
    {
        let mut sum: u128 = 0;
        let mut i: usize = from;
        assert(self@.subrange(from as int, from as int) =~= Seq::empty());
        while i < to
            invariant
                from <= i <= to <= self@.len(),
                self.wf(),
                sum == total(self@.subrange(from as int, i as int)),
            decreases to - i,
        {
            proof {
                lemma_total_bound(self@.subrange(from as int, i as int));
                assert(self@.subrange(from as int, i + 1).drop_last() =~= self@.subrange(
                    from as int,
                    i as int,
                ));
            }
            sum = sum + self.depths[i] as u128;
            i += 1;
        }
        sum
    }
}

proof fn lemma_total_bound(values: Seq<u64>)
    ensures
        0 <= total(values) <= values.len() * u64::MAX,
    decreases values.len(),
{
    if values.len() > 0 {
        lemma_total_bound(values.drop_last());
    }
}

proof fn lemma_trend_bounds(first: int, second: int, half: int, n: int)
    requires
        DRIFT_MIN <= n <= HISTORY,
        half == n / 2,
        0 <= first <= half * u64::MAX,
        0 <= second <= (n - half) * u64::MAX,
    ensures
        0 <= second * half <= 240 * 240 * u64::MAX,
        0 <= first * (n - half) <= 240 * 240 * u64::MAX,
        0 < half * (n - half) <= 240 * 240,
        0 < half * (n - half) * n <= 240 * 240 * 240,
{
    assert(0 <= second * half <= (240 * u64::MAX) * 240) by (nonlinear_arith)
        requires
            0 <= second <= 240 * u64::MAX,
            0 <= half <= 240,
    ;
    assert(0 <= first * (n - half) <= (240 * u64::MAX) * 240) by (nonlinear_arith)
        requires
            0 <= first <= 240 * u64::MAX,
            0 <= n - half <= 240,
    ;
    assert(0 < half * (n - half) <= 240 * 240) by (nonlinear_arith)
        requires
            0 < half <= 240,
            0 < n - half <= 240,
    ;
    let k = half * (n - half);
    assert(0 < k * n <= 240 * 240 * 240) by (nonlinear_arith)
        requires
            0 < k <= 240 * 240,
            0 < n <= 240,
    ;
}

/// Whether a drift is 2 ms a minute or more, either way.
pub open spec fn notable(numerator: int, denominator: int) -> bool {
    numerator >= 2 * denominator || numerator <= -2 * denominator
}

impl Drift {
    /// Whether the buffer moves by 2 ms a minute or more.
    pub fn is_notable(&self) -> (notable: bool)
        requires
            self.denominator > 0,
        ensures
            notable == self::notable(self.numerator as int, self.denominator as int),
            notable == (self.numerator >= 2 * self.denominator || self.numerator <= -2
                * self.denominator),
    {
        if self.numerator >= 0 {
            self.numerator - self.denominator >= self.denominator
        } else {
            self.numerator + self.denominator <= -self.denominator
        }
    }
}

/// A key that was pressed.
#[derive(Clone, Copy, PartialEq, Eq, Structural, Debug)]
pub enum Key {
    Char(char),
    Esc,
    Other,
}

/// Whether a key ends the dashboard: q, Esc or Ctrl+C.
pub fn is_quit(key: Key, control: bool) -> (quit: bool)
    ensures
        quit == (key == Key::Char('q') || key == Key::Esc || (key == Key::Char('c') && control)),
{
    match key {
        Key::Esc => true,
        Key::Char(c) => c == 'q' || (c == 'c' && control),
        Key::Other => false,
    }
}

/// A level buffer shows no drift, whatever its depth.
pub proof fn a_level_buffer_does_not_drift(depth: u64, n: nat)
    ensures
        trend(Seq::new(n, |i: int| depth)).0 == 0,
{
    let history = Seq::new(n, |i: int| depth);
    let half = n as int / 2;
    assert(history.take(half) =~= Seq::new(half as nat, |i: int| depth));
    assert(history.skip(half) =~= Seq::new((n - half) as nat, |i: int| depth));
    lemma_total_level(depth, half as nat);
    lemma_total_level(depth, (n - half) as nat);
    assert((depth * (n - half)) * half == (depth * half) * (n - half)) by (nonlinear_arith);
}

proof fn lemma_total_level(depth: u64, n: nat)
    ensures
        total(Seq::new(n, |i: int| depth)) == depth * n,
    decreases n,
{
    let values = Seq::new(n, |i: int| depth);
    if n > 0 {
        assert(values.drop_last() =~= Seq::new((n - 1) as nat, |i: int| depth));
        lemma_total_level(depth, (n - 1) as nat);
        assert(depth * n == depth * (n - 1) + depth) by (nonlinear_arith);
    } else {
        assert(depth * n == 0) by (nonlinear_arith)
            requires
                n == 0,
        ;
    }
}

/// A shown quantity is off by at most half of its last digit.
pub proof fn rounding_is_to_the_nearest(numerator: int, denominator: int)
    requires
        0 <= numerator,
        0 < denominator,
    ensures
        -denominator <= 2 * (rounded_even(numerator, denominator) * denominator - numerator)
            <= denominator,
{
    vstd::arithmetic::div_mod::lemma_fundamental_div_mod(numerator, denominator);
    let q = numerator / denominator;
    assert(q * denominator == denominator * q && (q + 1) * denominator == denominator * q
        + denominator) by (nonlinear_arith);
}

/// A buffer is read by the share that is filled: bad below a fifth, a warning above four
/// fifths, good between them, and bad where there is nothing to fill.
pub proof fn buffers_are_read_by_their_share(fill: int, capacity: int)
    requires
        0 <= fill,
        0 <= capacity,
    ensures
        fill_level(fill, 0) == Reading::Bad,
        capacity > 0 ==> {
            &&& fill_level(fill, capacity) == Reading::Bad <==> 100 * fill < 20 * capacity
            &&& fill_level(fill, capacity) == Reading::Warning <==> 100 * fill > 80 * capacity
            &&& fill_level(fill, capacity) == Reading::Good <==> 20 * capacity <= 100 * fill <= 80
                * capacity
        },
{
}

/// Losses are read by their share of all frames: good only where there are none, bad from
/// five in a hundred on.
pub proof fn losses_are_read_by_their_share(lost: int, received: int)
    requires
        0 <= lost,
        0 <= received,
    ensures
        loss_level(lost, received) == Reading::Good <==> lost == 0,
        loss_level(lost, received) == Reading::Bad <==> lost > 0 && 100 * lost >= 5 * (lost
            + received),
        loss_level(lost, received) == Reading::Warning <==> lost > 0 && 100 * lost < 5 * (lost
            + received),
{
}

/// What lies midway between two whole numbers is shown as the even one, and what is whole
/// as it is.
pub proof fn halves_go_to_the_even(k: int, half: int)
    requires
        0 <= k,
        0 < half,
    ensures
        rounded_even((2 * k + 1) * half, 2 * half) == if k % 2 == 0 {
            k
        } else {
            k + 1
        },
        rounded_even(k * half, half) == k,
{
    let n = (2 * k + 1) * half;
    assert(n == k * (2 * half) + half) by (nonlinear_arith)
        requires
            n == (2 * k + 1) * half,
    ;
    vstd::arithmetic::div_mod::lemma_fundamental_div_mod_converse(n, 2 * half, k, half);
    vstd::arithmetic::div_mod::lemma_fundamental_div_mod_converse(k * half, half, k, 0);
}

/// Whether `text` shows so many bytes in tenths of a unit, off by at most half a tenth.
pub open spec fn shows_tenths(text: Seq<char>, bytes: int, unit: int, name: Seq<char>) -> bool {
    exists|tenths: int|
        {
            &&& -unit <= 2 * (tenths * unit - 10 * bytes) <= unit
            &&& text == #[trigger] decimal(tenths / 10) + "."@ + decimal(tenths % 10) + name
        }
}

proof fn lemma_unit_shows_tenths(bytes: int, unit: int, name: Seq<char>)
    requires
        0 <= bytes,
        0 < unit,
    ensures
        shows_tenths(in_unit(bytes, unit, name), bytes, unit, name),
{
    rounding_is_to_the_nearest(bytes * 10, unit);
    let tenths = rounded_even(bytes * 10, unit);
    assert(in_unit(bytes, unit, name) == decimal(tenths / 10) + "."@ + decimal(tenths % 10) + name);
}

/// Bytes are shown one by one below a kilobyte; above, in the largest of kilobytes,
/// megabytes and gigabytes that there is one of, to the nearest tenth.
pub proof fn volumes_are_shown_in_their_unit(bytes: int)
    requires
        0 <= bytes,
    ensures
        bytes < 1024 ==> byte_count(bytes) == decimal(bytes) + " B"@,
        1024 <= bytes < 1024 * 1024 ==> shows_tenths(byte_count(bytes), bytes, 1024, " KB"@),
        1024 * 1024 <= bytes < 1024 * 1024 * 1024 ==> shows_tenths(
            byte_count(bytes),
            bytes,
            1_048_576,
            " MB"@,
        ),
        1024 * 1024 * 1024 <= bytes ==> shows_tenths(
            byte_count(bytes),
            bytes,
            1_073_741_824,
            " GB"@,
        ),
{
    lemma_unit_shows_tenths(bytes, 1024, " KB"@);
    lemma_unit_shows_tenths(bytes, 1_048_576, " MB"@);
    lemma_unit_shows_tenths(bytes, 1_073_741_824, " GB"@);
}

/// A clock shows the hours, minutes and seconds that make up the time.
pub proof fn clocks_show_the_time(hours: int, minutes: int, seconds: int)
    requires
        0 <= hours,
        0 <= minutes < 60,
        0 <= seconds < 60,
    ensures
        clock(3600 * hours + 60 * minutes + seconds) == two_digits(hours) + ":"@ + two_digits(
            minutes,
        ) + ":"@ + two_digits(seconds),
{
    let secs = 3600 * hours + 60 * minutes + seconds;
    assert(secs / 3600 == hours && secs % 3600 == 60 * minutes + seconds);
}

/// Each of the codec's settings stands behind its own name.
pub proof fn the_codec_line_names_its_settings(
    bitrate: i32,
    fec: bool,
    dtx: bool,
    jitter_ms: u32,
    drift_correct: bool,
)
    ensures
        switch(true) == "on"@,
        switch(false) == "off"@,
        codec_text(bitrate, fec, dtx, jitter_ms, drift_correct) == signed_decimal(bitrate as int)
            + " bps   fec "@ + switch(fec) + "   dtx "@ + switch(dtx) + "   jitter "@ + decimal(
            jitter_ms as int,
        ) + " ms   drift "@ + switch(drift_correct),
{
}

/// Recenters are shown together and apart, dropped frames before held ones.
pub proof fn recenters_are_shown_apart(stats: EngineStats)
    ensures
        recenter_text(stats) == decimal(stats.recenter_drops + stats.recenter_inserts)
            + "  (drop "@ + decimal(stats.recenter_drops as int) + " / hold "@ + decimal(
            stats.recenter_inserts as int,
        ) + ")"@,
{
}

proof fn lemma_total_of_a_slope(history: Seq<u64>, base: int, slope: int, from: int, to: int)
    requires
        0 <= from <= to <= history.len(),
        forall|i: int| 0 <= i < history.len() ==> #[trigger] history[i] == base + slope * i,
    ensures
        2 * total(history.subrange(from, to)) == 2 * base * (to - from) + slope * ((to - from) * (
        from + to - 1)),
    decreases to - from,
{
    let part = history.subrange(from, to);
    if from < to {
        lemma_total_of_a_slope(history, base, slope, from, to - 1);
        assert(part.drop_last() =~= history.subrange(from, to - 1));
        assert(part.last() == base + slope * (to - 1));
        assert(2 * base * (to - 1 - from) + slope * ((to - 1 - from) * (from + to - 2)) + 2 * (base
            + slope * (to - 1)) == 2 * base * (to - from) + slope * ((to - from) * (from + to
            - 1))) by (nonlinear_arith);
    } else {
        assert(2 * base * (to - from) + slope * ((to - from) * (from + to - 1)) == 0)
            by (nonlinear_arith)
            requires
                from == to,
        ;
    }
}

proof fn lemma_slope_between_halves(
    first: int,
    second: int,
    base: int,
    slope: int,
    half: int,
    rest: int,
)
    requires
        2 * first == 2 * base * half + slope * (half * (half - 1)),
        2 * second == 2 * base * rest + slope * (rest * (half + half + rest - 1)),
    ensures
        2 * (second * half - first * rest) == slope * (half * rest * (half + rest)),
{
    let (level_half, level_rest) = (2 * base * half, 2 * base * rest);
    let (u, v) = (rest * (half + half + rest - 1), half * (half - 1));
    assert(2 * (second * half - first * rest) == (2 * second) * half - (2 * first) * rest)
        by (nonlinear_arith);
    assert((level_rest + slope * u) * half == level_rest * half + slope * (u * half))
        by (nonlinear_arith);
    assert((level_half + slope * v) * rest == level_half * rest + slope * (v * rest))
        by (nonlinear_arith);
    assert((2 * base * rest) * half == (2 * base * half) * rest) by (nonlinear_arith);
    assert(slope * (u * half) - slope * (v * rest) == slope * (u * half - v * rest))
        by (nonlinear_arith);
    assert((rest * (half + half + rest - 1)) * half - (half * (half - 1)) * rest == half * rest * (
    half + rest)) by (nonlinear_arith);
}

/// A buffer whose depth moves by the same amount each half second drifts by 120 times that
/// amount a minute, up or down.
pub proof fn a_steady_slope_is_the_drift(history: Seq<u64>, base: int, slope: int)
    requires
        history.len() >= 20,
        forall|i: int| 0 <= i < history.len() ==> #[trigger] history[i] == base + slope * i,
    ensures
        trend(history).0 == 120 * slope * trend(history).1,
        trend(history).1 > 0,
{
    let n = history.len() as int;
    let half = n / 2;
    let rest = n - half;
    let (first, second) = (total(history.take(half)), total(history.skip(half)));
    assert(history.subrange(0, half) =~= history.take(half));
    assert(history.subrange(half, n) =~= history.skip(half));
    lemma_total_of_a_slope(history, base, slope, 0, half);
    lemma_total_of_a_slope(history, base, slope, half, n);
    lemma_slope_between_halves(first, second, base, slope, half, rest);
    assert((second * half - first * rest) * 240 == 120 * slope * (half * rest * n))
        by (nonlinear_arith)
        requires
            2 * (second * half - first * rest) == slope * (half * rest * n),
    ;
    assert(half * rest * n > 0) by (nonlinear_arith)
        requires
            half > 0,
            rest > 0,
            n > 0,
    ;
}

proof fn lemma_total_updated(values: Seq<u64>, i: int, value: u64)
    requires
        0 <= i < values.len(),
    ensures
        total(values.update(i, value)) == total(values) - values[i] + value,
    decreases values.len(),
{
    let updated = values.update(i, value);
    if i == values.len() - 1 {
        assert(updated.drop_last() =~= values.drop_last());
    } else {
        lemma_total_updated(values.drop_last(), i, value);
        assert(updated.drop_last() =~= values.drop_last().update(i, value));
    }
}

/// Every sample counts, and all of a half alike: a deeper one raises the drift where it is
/// of the second half and lowers it where it is of the first, by 240 over the samples
/// times its share of its half's mean.
pub proof fn every_sample_counts(history: Seq<u64>, i: int, value: u64)
    requires
        history.len() >= 20,
        0 <= i < history.len(),
    ensures
        ({
            let n = history.len() as int;
            let half = n / 2;
            let moved = trend(history.update(i, value)).0 - trend(history).0;
            &&& trend(history.update(i, value)).1 == trend(history).1
            &&& trend(history).1 == half * (n - half) * n
            &&& i < half ==> moved == -240 * (value - history[i]) * (n - half)
            &&& i >= half ==> moved == 240 * (value - history[i]) * half
        }),
{
    let n = history.len() as int;
    let half = n / 2;
    let updated = history.update(i, value);
    let (first, second) = (total(history.take(half)), total(history.skip(half)));
    let more = value - history[i];
    if i < half {
        lemma_total_updated(history.take(half), i, value);
        assert(updated.take(half) =~= history.take(half).update(i, value));
        assert(updated.skip(half) =~= history.skip(half));
        assert((second * half - (first + more) * (n - half)) * 240 - (second * half - first * (n
            - half)) * 240 == -240 * more * (n - half)) by (nonlinear_arith);
    } else {
        lemma_total_updated(history.skip(half), i - half, value);
        assert(updated.skip(half) =~= history.skip(half).update(i - half, value));
        assert(updated.take(half) =~= history.take(half));
        assert(((second + more) * half - first * (n - half)) * 240 - (second * half - first * (n
            - half)) * 240 == 240 * more * half) by (nonlinear_arith);
    }
}

/// Below ten seconds of samples no drift is shown.
pub proof fn drift_takes_ten_seconds_of_samples(history: Seq<u64>)
    requires
        history.len() < 20,
    ensures
        trend(history) == (0int, 1int),
{
}

/// A history holds the last two minutes of samples, the newest last: nothing leaves before
/// it is full, and from then on the oldest.
pub proof fn histories_hold_the_last_samples(history: Seq<u64>, ms: u64)
    requires
        history.len() <= 240,
    ensures
        ({
            let after = recorded(history, ms);
            &&& after.len() <= 240
            &&& after.last() == ms
            &&& history.len() < 240 ==> after.drop_last() == history
            &&& history.len() == 240 ==> after.len() == 240 && after.drop_last() == history.skip(1)
        }),
{
    let after = recorded(history, ms);
    if history.len() < 240 {
        assert(after.drop_last() =~= history);
    } else {
        assert(after.drop_last() =~= history.skip(1));
    }
}

/// A drift is notable from 2 ms a minute on, up or down: a level buffer's is not, and that
/// of one that moves by a whole millisecond each half second is.
pub proof fn drifts_are_notable_either_way(slope: int, denominator: int)
    requires
        denominator > 0,
    ensures
        notable(slope, denominator) <==> -slope >= 2 * denominator || slope >= 2 * denominator,
        notable(120 * slope * denominator, denominator) <==> slope != 0,
        !notable(0, denominator),
{
    let n = 120 * slope * denominator;
    if slope >= 1 {
        assert(n >= 2 * denominator) by (nonlinear_arith)
            requires
                n == 120 * slope * denominator,
                slope >= 1,
                denominator > 0,
        ;
    } else if slope <= -1 {
        assert(n <= -2 * denominator) by (nonlinear_arith)
            requires
                n == 120 * slope * denominator,
                slope <= -1,
                denominator > 0,
        ;
    } else {
        assert(n == 0) by (nonlinear_arith)
            requires
                n == 120 * slope * denominator,
                slope == 0,
        ;
    }
}

} // verus!
