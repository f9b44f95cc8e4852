//! The dual-stream smoke test: whether a stream ran cleanly for a while.

use crate::text::{decimal, decimal_text, texts};
use vstd::prelude::*;
use vstd::string::StringExecFns;

verus! {

/// The stream configuration asked for first.
pub const TARGET_RATE: u32 = 48_000;

pub const TARGET_CHANNELS: u16 = 1;

/// What was seen of a stream.
pub struct Observed {
    /// The configuration it ran with.
    pub rate: u32,
    pub channels: u16,
    /// The name of its sample format.
    pub format: String,
    /// Whether it had to fall back to the device's default configuration.
    pub fell_back: bool,
    pub samples: u64,
    pub errors: u64,
}

/// Why a fallback matters.
pub open spec fn fallback_text(fell_back: bool, rate: u32, channels: u16) -> Seq<char> {
    let rate_reason = "rate != 48 kHz (resampling, Phase 2)"@;
    let channel_reason = "not mono (channel down/up-mix needed)"@;
    if !fell_back {
        ""@
    } else {
        "  (fallback: "@ + (if rate != TARGET_RATE {
            rate_reason
        } else {
            ""@
        }) + (if rate != TARGET_RATE && channels != TARGET_CHANNELS {
            "; "@
        } else {
            ""@
        }) + (if channels != TARGET_CHANNELS {
            channel_reason
        } else {
            ""@
        }) + ")"@
    }
}

impl Observed {
    /// Whole frames that went through, counting a stream without channels as mono.
    pub open spec fn frame_count(self) -> int {
        self.samples as int / (if self.channels == 0 {
            1int
        } else {
            self.channels as int
        })
    }

    /// Whether the stream ran cleanly for `secs` seconds: without errors, and within a
    /// tenth of the frames that its rate says.
    pub open spec fn ran_cleanly(self, secs: u64) -> bool {
        let due = self.rate * secs;
        &&& self.errors == 0
        &&& due > 0
        &&& 9 * due <= 10 * self.frame_count() <= 11 * due
    }

    /// Frames that went through.
    pub fn frames(&self) -> (frames: u64)
        ensures
            frames == self.frame_count(),
    {
        let channels: u64 = if self.channels == 0 {
            1
        } else {
            self.channels as u64
        };
        self.samples / channels
    }

    /// Frames due in `secs` seconds.
    pub fn expected(&self, secs: u64) -> (expected: u128)
        ensures
            expected == self.rate * secs,
    {
        assert(0 <= self.rate * secs <= 0xFFFF_FFFF * 0xFFFF_FFFF_FFFF_FFFF) by (nonlinear_arith)
            requires
                0 <= self.rate <= 0xFFFF_FFFF,
                0 <= secs <= 0xFFFF_FFFF_FFFF_FFFF,
        ;
        self.rate as u128 * secs as u128
    }

    /// Whether the stream ran cleanly for `secs` seconds.
    pub fn is_ok(&self, secs: u64) -> (ok: bool)
        ensures
            ok == self.ran_cleanly(secs),
    {
        let frames: u128 = self.frames() as u128;
        let due: u128 = self.expected(secs);
        assert(due <= 0xFFFF_FFFF * 0xFFFF_FFFF_FFFF_FFFF) by (nonlinear_arith)
            requires
                due == self.rate * secs,
                0 <= self.rate <= 0xFFFF_FFFF,
                0 <= secs <= 0xFFFF_FFFF_FFFF_FFFF,
        ;
        self.errors == 0 && due > 0 && 9 * due <= 10 * frames && 10 * frames <= 11 * due
    }

    /// Why a fallback matters, in brackets; nothing without one.
    pub fn fallback_note(&self) -> (note: String)
        ensures
            note@ == fallback_text(self.fell_back, self.rate, self.channels),
    {
        if !self.fell_back {
            return "".to_owned();
        }
        let mut note = "  (fallback: ".to_owned();
        note.append(
            if self.rate != TARGET_RATE {
                "rate != 48 kHz (resampling, Phase 2)"
            } else {
                ""
            },
        );
        note.append(
            if self.rate != TARGET_RATE && self.channels != TARGET_CHANNELS {
                "; "
            } else {
                ""
            },
        );
        note.append(
            if self.channels != TARGET_CHANNELS {
                "not mono (channel down/up-mix needed)"
            } else {
                ""
            },
        );
        note.append(")");
        note
    }

    /// The report on a stream; `percent` is the share of the expected frames.
    pub open spec fn report_text(
        self,
        label: Seq<char>,
        name: Seq<char>,
        percent: Seq<char>,
        secs: u64,
    ) -> Seq<Seq<char>> {
        seq![
            "  "@ + label + ": "@ + name,
            "    config: "@ + decimal(self.rate as int) + " Hz, "@ + decimal(self.channels as int)
                + " ch, "@ + self.format@ + fallback_text(
                self.fell_back,
                self.rate,
                self.channels,
            ),
            "    frames: "@ + decimal(self.frame_count()) + " (~"@ + percent + "% of expected "@
                + decimal(self.rate * secs) + "), errors: "@ + decimal(self.errors as int),
            "    -> "@ + (if self.ran_cleanly(secs) {
                "OK"@
            } else {
                "FAIL"@
            }),
        ]
    }

    /// The lines that report on a stream.
    pub fn report(&self, label: &str, name: &str, percent: &str, secs: u64) -> (lines: Vec<String>)
        ensures
            texts(lines@) == self.report_text(label@, name@, percent@, secs),
    {
        let mut head = "  ".to_owned();
        head.append(label);
        head.append(": ");
        head.append(name);
        let mut config = "    config: ".to_owned();
        config.append(decimal_text(self.rate as u128).as_str());
        config.append(" Hz, ");
        config.append(decimal_text(self.channels as u128).as_str());
        config.append(" ch, ");
        config.append(self.format.as_str());
        config.append(self.fallback_note().as_str());
        let mut frames = "    frames: ".to_owned();
        frames.append(decimal_text(self.frames() as u128).as_str());
        frames.append(" (~");
        frames.append(percent);
        frames.append("% of expected ");
        frames.append(decimal_text(self.expected(secs)).as_str());
        frames.append("), errors: ");
        frames.append(decimal_text(self.errors as u128).as_str());
        let mut outcome = "    -> ".to_owned();
        outcome.append(
            if self.is_ok(secs) {
                "OK"
            } else {
                "FAIL"
            },
        );
        let lines = vec![head, config, frames, outcome];
        assert(texts(lines@) =~= self.report_text(label@, name@, percent@, secs));
        lines
    }
}

/// Frames are whole: as many as the samples make, and one more would take samples that
/// did not come.
pub proof fn frames_are_whole(observed: Observed)
    ensures
        observed.channels > 0 ==> {
            &&& observed.frame_count() * observed.channels <= observed.samples
            &&& observed.samples < (observed.frame_count() + 1) * observed.channels
        },
        observed.channels == 0 ==> observed.frame_count() == observed.samples,
{
    if observed.channels > 0 {
        let (samples, channels) = (observed.samples as int, observed.channels as int);
        vstd::arithmetic::div_mod::lemma_fundamental_div_mod(samples, channels);
        let frames = observed.frame_count();
        assert(frames * channels == channels * frames && (frames + 1) * channels == channels
            * frames + channels) by (nonlinear_arith);
    }
}

/// A stream ran cleanly exactly when it had no errors, frames were due, and what came is
/// off by no more than a tenth of them either way.
pub proof fn clean_streams_are_within_a_tenth(observed: Observed, secs: u64)
    ensures
        ({
            let due = observed.rate * secs;
            let off = observed.frame_count() - due;
            observed.ran_cleanly(secs) <==> observed.errors == 0 && due != 0 && -due <= 10 * off
                <= due
        }),
{
    assert(0 <= observed.rate * secs) by (nonlinear_arith)
        requires
            0 <= observed.rate,
            0 <= secs,
    ;
}

/// A fallback is noted with what it changed: the rate, the channels, or both.
pub proof fn fallbacks_are_explained(rate: u32, channels: u16)
    ensures
        ({
            let rate_reason = "rate != 48 kHz (resampling, Phase 2)"@;
            let channel_reason = "not mono (channel down/up-mix needed)"@;
            let note = fallback_text(true, rate, channels);
            &&& fallback_text(false, rate, channels) == ""@
            &&& rate == 48_000 && channels == 1 ==> note == "  (fallback: "@ + ")"@
            &&& rate != 48_000 && channels == 1 ==> note == "  (fallback: "@ + rate_reason + ")"@
            &&& rate == 48_000 && channels != 1 ==> note == "  (fallback: "@ + channel_reason
                + ")"@
            &&& rate != 48_000 && channels != 1 ==> note == "  (fallback: "@ + rate_reason + "; "@
                + channel_reason + ")"@
        }),
{
    reveal_strlit("");
    let head = "  (fallback: "@;
    assert(head + ""@ =~= head);
    assert(head + "rate != 48 kHz (resampling, Phase 2)"@ + ""@ =~= head
        + "rate != 48 kHz (resampling, Phase 2)"@);
}

/// Each number of a stream's report stands behind its own name, and the report ends with
/// how the stream did.
pub proof fn stream_reports_name_their_numbers(
    observed: Observed,
    label: Seq<char>,
    name: Seq<char>,
    percent: Seq<char>,
    secs: u64,
)
    ensures
        ({
            let lines = observed.report_text(label, name, percent, secs);
            let note = fallback_text(observed.fell_back, observed.rate, observed.channels);
            &&& lines.len() == 4
            &&& lines[0] == "  "@ + label + ": "@ + name
            &&& lines[1] == "    config: "@ + decimal(observed.rate as int) + " Hz, "@ + decimal(
                observed.channels as int,
            ) + " ch, "@ + observed.format@ + note
            &&& lines[2] == "    frames: "@ + decimal(observed.frame_count()) + " (~"@ + percent
                + "% of expected "@ + decimal(observed.rate * secs) + "), errors: "@ + decimal(
                observed.errors as int,
            )
            &&& observed.ran_cleanly(secs) ==> lines[3] == "    -> "@ + "OK"@
            &&& !observed.ran_cleanly(secs) ==> lines[3] == "    -> "@ + "FAIL"@
        }),
{
}

} // verus!
