//! Device choice: which device a specification names, at which rate and with how
//! many channels to open it, and how devices are listed. Naming is by local role,
//! never by network direction: `capture` is the record device, `playback` the play
//! device.

use crate::audio::RATE;
use crate::text::{decimal, decimal_text, texts};
use vstd::prelude::*;
use vstd::string::{StrSliceExecFns, StringExecFns};

verus! {

/// Local device role.
#[derive(Clone, Copy, PartialEq, Eq, Structural, Debug)]
pub enum Role {
    Capture,
    Playback,
}

/// How a role is spelled.
pub open spec fn role_name(role: Role) -> Seq<char> {
    match role {
        Role::Capture => "capture"@,
        Role::Playback => "playback"@,
    }
}

impl Role {
    /// Canonical role spelling, as in the flags.
    pub fn label(self) -> (label: &'static str)
        ensures
            label@ == role_name(self),
    {
        match self {
            Role::Capture => "capture",
            Role::Playback => "playback",
        }
    }
}

/// Whether a character is white space (the Unicode property of that name).
pub open spec fn is_space(c: char) -> bool {
    ||| '\u{9}' <= c <= '\u{d}'
    ||| c == ' '
    ||| c == '\u{85}'
    ||| c == '\u{a0}'
    ||| c == '\u{1680}'
    ||| '\u{2000}' <= c <= '\u{200a}'
    ||| c == '\u{2028}'
    ||| c == '\u{2029}'
    ||| c == '\u{202f}'
    ||| c == '\u{205f}'
    ||| c == '\u{3000}'
}

/// Whether a character is white space.
pub fn is_whitespace(c: char) -> (space: bool)
    ensures
        space == is_space(c),
{
    ('\u{9}' <= c && c <= '\u{d}') || c == ' ' || c == '\u{85}' || c == '\u{a0}' || c == '\u{1680}'
        || ('\u{2000}' <= c && c <= '\u{200a}') || c == '\u{2028}' || c == '\u{2029}' || c
        == '\u{202f}' || c == '\u{205f}' || c == '\u{3000}'
}

/// Whether `inner` is `text` without the white space around it.
pub open spec fn is_trimmed(text: Seq<char>, inner: Seq<char>) -> bool {
    exists|from: int, to: int|
        {
            &&& 0 <= from <= to <= text.len()
            &&& inner == #[trigger] text.subrange(from, to)
            &&& forall|i: int| 0 <= i < from ==> is_space(#[trigger] text[i])
            &&& forall|i: int| to <= i < text.len() ==> is_space(#[trigger] text[i])
            &&& inner.len() > 0 ==> !is_space(inner.first()) && !is_space(inner.last())
        }
}

/// `text` without the white space around it.
pub fn trim(text: &str) -> (inner: &str)
    ensures
        is_trimmed(text@, inner@),
{
    let len: usize = text.unicode_len();
    let mut from: usize = 0;
    while from < len && is_whitespace(text.get_char(from))
        invariant
            from <= len,
            len == text@.len(),
            forall|i: int| 0 <= i < from ==> is_space(#[trigger] text@[i]),
        decreases len - from,
    {
        from += 1;
    }
    let mut to: usize = len;
    while from < to && is_whitespace(text.get_char(to - 1))
        invariant
            from <= to <= len,
            len == text@.len(),
            from < len ==> !is_space(text@[from as int]),
            forall|i: int| to <= i < len ==> is_space(#[trigger] text@[i]),
        decreases to,
    {
        to -= 1;
    }
    let inner = text.substring_char(from, to);
    assert(inner@ == text@.subrange(from as int, to as int));
    inner
}

/// What a device setting asks for.
pub enum DeviceSpec {
    /// `none`: the role is off.
    Disabled,
    /// `default`: the host's default device.
    HostDefault,
    /// Anything else: the device of exactly that name.
    Named(String),
}

/// What a setting without white space around it asks for.
pub open spec fn asks_for(spec: Seq<char>, device: DeviceSpec) -> bool {
    match device {
        DeviceSpec::Disabled => spec == "none"@,
        DeviceSpec::HostDefault => spec == "default"@,
        DeviceSpec::Named(name) => {
            &&& name@ == spec
            &&& spec != "none"@
            &&& spec != "default"@
        },
    }
}

impl DeviceSpec {
    /// Read a device setting; white space around it is ignored.
    pub fn parse(spec: &str) -> (device: DeviceSpec)
        ensures
            exists|inner: Seq<char>| #[trigger] is_trimmed(spec@, inner) && asks_for(inner, device),
    {
        let inner = trim(spec);
        let name = inner.to_owned();
        if name == "none".to_owned() {
            DeviceSpec::Disabled
        } else if name == "default".to_owned() {
            DeviceSpec::HostDefault
        } else {
            DeviceSpec::Named(name)
        }
    }
}

/// Whether a device has this name; one whose name cannot be read has none.
pub open spec fn is_named(device: Option<String>, name: Seq<char>) -> bool {
    device is Some && device->0@ == name
}

/// The place of the first device called `name`, among devices whose names could be
/// read or not.
pub fn find_by_name(names: &[Option<String>], name: &str) -> (index: Option<usize>)
    ensures
        match index {
            Some(i) => {
                &&& i < names@.len()
                &&& is_named(names@[i as int], name@)
                &&& forall|j: int| 0 <= j < i ==> !is_named(#[trigger] names@[j], name@)
            },
            None => forall|j: int| 0 <= j < names@.len() ==> !is_named(#[trigger] names@[j], name@),
        },
{
    let wanted = name.to_owned();
    let mut i: usize = 0;
    while i < names.len()
        invariant
            i <= names@.len(),
            wanted@ == name@,
            forall|j: int| 0 <= j < i ==> !is_named(#[trigger] names@[j], name@),
        decreases names@.len() - i,
    {
        if let Some(candidate) = &names[i] {
            if *candidate == wanted {
                return Some(i);
            }
        }
        i += 1;
    }
    None
}

/// Why a device cannot be used.
pub enum DeviceError {
    /// The host has no default device for the role.
    NoDefault(Role),
    /// No device of the role has this name, given as it is to be shown.
    NotFound(Role, String),
    /// The device cannot be opened at the rate that was asked for.
    RateUnsupported(Role, u32),
    /// The device does not say how it runs by default; the reason.
    DefaultUnknown(Role, String),
    /// The device opens neither in mono nor in stereo at this rate.
    NoChannels(Role, u32),
}

/// What a device error says.
pub open spec fn device_complaint(error: DeviceError) -> Seq<char> {
    match error {
        DeviceError::NoDefault(role) => "no default "@ + role_name(role) + " device available"@,
        DeviceError::NotFound(role, name) => "no "@ + role_name(role) + " device named "@ + name@,
        DeviceError::RateUnsupported(role, rate) => role_name(role) + " device does not support "@
            + decimal(rate as int) + " Hz"@,
        DeviceError::DefaultUnknown(role, reason) => "query default "@ + role_name(role)
            + " config: "@ + reason@,
        DeviceError::NoChannels(role, rate) => role_name(role) + " device offers no "@ + decimal(
            rate as int,
        ) + " Hz f32 mono or stereo config"@,
    }
}

impl DeviceError {
    /// What to tell the user.
    pub fn message(&self) -> (message: String)
        ensures
            message@ == device_complaint(*self),
    {
        match self {
            DeviceError::NoDefault(role) => {
                let mut message = "no default ".to_owned();
                message.append(role.label());
                message.append(" device available");
                message
            },
            DeviceError::NotFound(role, name) => {
                let mut message = "no ".to_owned();
                message.append(role.label());
                message.append(" device named ");
                message.append(name.as_str());
                message
            },
            DeviceError::RateUnsupported(role, rate) => {
                let mut message = role.label().to_owned();
                message.append(" device does not support ");
                message.append(decimal_text(*rate as u128).as_str());
                message.append(" Hz");
                message
            },
            DeviceError::DefaultUnknown(role, reason) => {
                let mut message = "query default ".to_owned();
                message.append(role.label());
                message.append(" config: ");
                message.append(reason.as_str());
                message
            },
            DeviceError::NoChannels(role, rate) => {
                let mut message = role.label().to_owned();
                message.append(" device offers no ");
                message.append(decimal_text(*rate as u128).as_str());
                message.append(" Hz f32 mono or stereo config");
                message
            },
        }
    }
}

/// A probe may be asked about every channel count and rate.
pub open spec fn askable<P: Fn(u16, u32) -> bool>(probe: P) -> bool {
    forall|channels: u16, rate: u32| #[trigger] call_requires(probe, (channels, rate))
}

/// Whether a probe answers by a fixed rule: which channel counts and rates open.
pub open spec fn answers<P: Fn(u16, u32) -> bool>(
    probe: P,
    opens: spec_fn(u16, u32) -> bool,
) -> bool {
    forall|channels: u16, rate: u32, answer: bool| #[trigger]
        call_ensures(probe, (channels, rate), answer) ==> answer == opens(channels, rate)
}

/// What mono-before-stereo probing at `rate` came to: the first count that the probe
/// accepted, or nothing.
pub open spec fn probed<P: Fn(u16, u32) -> bool>(
    probe: P,
    rate: u32,
    channels: Option<u16>,
) -> bool {
    match channels {
        Some(count) => {
            ||| count == 1 && call_ensures(probe, (1u16, rate), true)
            ||| count == 2 && call_ensures(probe, (1u16, rate), false) && call_ensures(
                probe,
                (2u16, rate),
                true,
            )
        },
        None => call_ensures(probe, (1u16, rate), false) && call_ensures(
            probe,
            (2u16, rate),
            false,
        ),
    }
}

/// Mono if `probe` opens it at `rate`, else stereo if it opens that.
fn first_channels<P: Fn(u16, u32) -> bool>(probe: &P, rate: u32) -> (channels: Option<u16>)
    requires
        askable(*probe),
    ensures
        probed(*probe, rate, channels),
{
    assert(call_requires(*probe, (1u16, rate)));
    if probe(1, rate) {
        return Some(1);
    }
    assert(call_requires(*probe, (2u16, rate)));
    if probe(2, rate) {
        return Some(2);
    }
    None
}

/// Pick mono if the device can open it at `rate`, else stereo. `probe` tries to open
/// a stream with a channel count and a rate.
pub fn pick_channels<P: Fn(u16, u32) -> bool>(
    role: Role,
    rate: u32,
    probe: P,
) -> (channels: Result<u16, DeviceError>)
    requires
        askable(probe),
    ensures
        match channels {
            Ok(count) => probed(probe, rate, Some(count)),
            Err(error) => probed(probe, rate, None) && error == DeviceError::NoChannels(role, rate),
        },
        forall|opens: spec_fn(u16, u32) -> bool| #[trigger]
            answers(probe, opens) ==> {
                &&& channels == Ok::<u16, DeviceError>(1) <==> opens(1, rate)
                &&& channels == Ok::<u16, DeviceError>(2) <==> !opens(1, rate) && opens(2, rate)
                &&& channels is Err <==> !opens(1, rate) && !opens(2, rate)
                &&& channels == Err::<u16, DeviceError>(DeviceError::NoChannels(role, rate))
                    <==> !opens(1, rate) && !opens(2, rate)
            },
{
    match first_channels(&probe, rate) {
        Some(channels) => Ok(channels),
        None => Err(DeviceError::NoChannels(role, rate)),
    }
}

/// What a device that opens neither at a forced nor at the wire rate runs at.
pub open spec fn own_rate(role: Role, native: Result<u32, String>) -> Result<u32, DeviceError> {
    match native {
        Ok(rate) => Ok(rate),
        Err(reason) => Err(DeviceError::DefaultUnknown(role, reason)),
    }
}

/// Choose the device's operating rate: a forced rate, which it must support; else
/// 48 kHz when it offers that; else the rate it runs at by default, which `native`
/// asks for.
pub fn pick_sample_rate<P: Fn(u16, u32) -> bool, N: Fn() -> Result<u32, String>>(
    role: Role,
    forced: Option<u32>,
    probe: P,
    native: N,
) -> (picked: Result<u32, DeviceError>)
    requires
        askable(probe),
        call_requires(native, ()),
    ensures
        match forced {
            Some(rate) => {
                ||| picked == Ok::<u32, DeviceError>(rate) && exists|channels: u16|
                    probed(probe, rate, Some(channels))
                ||| picked == Err::<u32, DeviceError>(DeviceError::RateUnsupported(role, rate))
                    && probed(probe, rate, None)
            },
            None => {
                ||| picked == Ok::<u32, DeviceError>(RATE) && exists|channels: u16|
                    probed(probe, RATE, Some(channels))
                ||| probed(probe, RATE, None) && exists|answer: Result<u32, String>|
                    call_ensures(native, (), answer) && picked == #[trigger] own_rate(role, answer)
            },
        },
        forall|opens: spec_fn(u16, u32) -> bool| #[trigger]
            answers(probe, opens) ==> {
                &&& forced matches Some(rate) ==> {
                    &&& picked == Ok::<u32, DeviceError>(rate) <==> opens(1, rate) || opens(2, rate)
                    &&& picked == Err::<u32, DeviceError>(DeviceError::RateUnsupported(role, rate))
                        <==> !opens(1, rate) && !opens(2, rate)
                }
                &&& forced is None && (opens(1, 48_000) || opens(2, 48_000)) ==> picked == Ok::<
                    u32,
                    DeviceError,
                >(48_000)
                &&& forced is None && !opens(1, 48_000) && !opens(2, 48_000)
                    ==> exists|answer: Result<u32, String>| #[trigger]
                    call_ensures(native, (), answer) && match answer {
                        Ok(rate) => picked == Ok::<u32, DeviceError>(rate),
                        Err(reason) => picked == Err::<u32, DeviceError>(
                            DeviceError::DefaultUnknown(role, reason),
                        ),
                    }
            },
{
    if let Some(rate) = forced {
        return match first_channels(&probe, rate) {
            Some(_) => Ok(rate),
            None => Err(DeviceError::RateUnsupported(role, rate)),
        };
    }
    if first_channels(&probe, RATE).is_some() {
        return Ok(RATE);
    }
    let answer = native();
    let ghost asked = answer;
    let picked = match answer {
        Ok(rate) => Ok(rate),
        Err(reason) => Err(DeviceError::DefaultUnknown(role, reason)),
    };
    assert(picked == own_rate(role, asked));
    picked
}

/// The channel count of a role: what was forced if the device is there, else what
/// the device opens, else none for a role that is off.
pub fn channels_for<P: Fn(u16, u32) -> bool>(
    enabled: bool,
    forced: Option<u16>,
    role: Role,
    rate: u32,
    probe: P,
) -> (channels: Result<Option<u16>, DeviceError>)
    requires
        askable(probe),
    ensures
        !enabled ==> channels == Ok::<Option<u16>, DeviceError>(None),
        enabled && forced is Some ==> channels == Ok::<Option<u16>, DeviceError>(forced),
        enabled && forced is None ==> match channels {
            Ok(count) => count is Some && probed(probe, rate, count),
            Err(error) => probed(probe, rate, None) && error == DeviceError::NoChannels(role, rate),
        },
        forall|opens: spec_fn(u16, u32) -> bool| #[trigger]
            answers(probe, opens) && enabled && forced is None ==> {
                &&& channels == Ok::<Option<u16>, DeviceError>(Some(1)) <==> opens(1, rate)
                &&& channels == Ok::<Option<u16>, DeviceError>(Some(2)) <==> !opens(1, rate)
                    && opens(2, rate)
                &&& channels is Err <==> !opens(1, rate) && !opens(2, rate)
            },
{
    if !enabled {
        return Ok(None);
    }
    match forced {
        Some(channels) => Ok(Some(channels)),
        None => match pick_channels(role, rate, probe) {
            Ok(channels) => Ok(Some(channels)),
            Err(error) => Err(error),
        },
    }
}

/// How a device runs by default.
pub struct NativeConfig {
    pub rate: u32,
    pub channels: u16,
    /// The sample format's name.
    pub format: String,
}

/// What is known of a device.
pub struct DeviceInfo {
    /// Its name, if it can be read.
    pub name: Option<String>,
    /// How it runs by default, if it says so.
    pub config: Option<NativeConfig>,
}

/// A device's name as shown.
pub open spec fn shown_name(name: Option<String>) -> Seq<char> {
    match name {
        Some(name) => name@,
        None => "<unknown>"@,
    }
}

/// A device's default configuration as shown.
pub open spec fn shown_config(config: Option<NativeConfig>) -> Seq<char> {
    match config {
        Some(c) => "["@ + decimal(c.rate as int) + " Hz, "@ + decimal(c.channels as int) + " ch, "@
            + c.format@ + "]"@,
        None => "[config unavailable]"@,
    }
}

/// A device's line in the listing.
pub open spec fn listed(index: int, device: DeviceInfo, default: Option<String>) -> Seq<char> {
    let marker = if default matches Some(name) && name@ == shown_name(device.name) {
        "  [default]"@
    } else {
        ""@
    };
    "  ["@ + decimal(index) + "] "@ + shown_name(device.name) + "  "@ + shown_config(device.config)
        + marker
}

/// A role's whole listing.
pub open spec fn listing(devices: Seq<DeviceInfo>, default: Option<String>) -> Seq<Seq<char>> {
    if devices.len() == 0 {
        seq!["  (none)"@]
    } else {
        Seq::new(devices.len(), |i: int| listed(i, devices[i], default))
    }
}

/// A device's name to show.
pub fn name_text(name: &Option<String>) -> (text: String)
    ensures
        text@ == shown_name(*name),
{
    match name {
        Some(name) => name.clone(),
        None => "<unknown>".to_owned(),
    }
}

/// A device's default configuration to show.
pub fn capability(config: &Option<NativeConfig>) -> (text: String)
    ensures
        text@ == shown_config(*config),
{
    match config {
        Some(config) => {
            let mut text = "[".to_owned();
            text.append(decimal_text(config.rate as u128).as_str());
            text.append(" Hz, ");
            text.append(decimal_text(config.channels as u128).as_str());
            text.append(" ch, ");
            text.append(config.format.as_str());
            text.append("]");
            text
        },
        None => "[config unavailable]".to_owned(),
    }
}

fn device_line(index: usize, device: &DeviceInfo, default: &Option<String>) -> (line: String)
    ensures
        line@ == listed(index as int, *device, *default),
{
    let name = name_text(&device.name);
    let mut line = "  [".to_owned();
    line.append(decimal_text(index as u128).as_str());
    line.append("] ");
    line.append(name.as_str());
    line.append("  ");
    line.append(capability(&device.config).as_str());
    let is_default = match default {
        Some(default) => *default == name,
        None => false,
    };
    line.append(
        if is_default {
            "  [default]"
        } else {
            ""
        },
    );
    line
}

/// The lines that list a role's devices, in order, the host's default marked.
pub fn list_devices(devices: &[DeviceInfo], default: &Option<String>) -> (lines: Vec<String>)
    ensures
        texts(lines@) == listing(devices@, *default),
{
    let mut lines: Vec<String> = Vec::new();
    let mut i: usize = 0;
    while i < devices.len()
        invariant
            i <= devices@.len(),
            lines@.len() == i,
            forall|j: int|
                0 <= j < i ==> (#[trigger] lines@[j])@ == listed(j, devices@[j], *default),
        decreases devices@.len() - i,
    {
        lines.push(device_line(i, &devices[i], default));
        i += 1;
    }
    if devices.len() == 0 {
        lines.push("  (none)".to_owned());
    }
    assert(texts(lines@) =~= listing(devices@, *default));
    lines
}

/// There is one way to trim a text, so a device setting has one meaning.
pub proof fn trimming_is_unique(text: Seq<char>, a: Seq<char>, b: Seq<char>)
    requires
        is_trimmed(text, a),
        is_trimmed(text, b),
    ensures
        a == b,
{
    let (af, at) = choose|from: int, to: int|
        {
            &&& 0 <= from <= to <= text.len()
            &&& a == #[trigger] text.subrange(from, to)
            &&& forall|i: int| 0 <= i < from ==> is_space(#[trigger] text[i])
            &&& forall|i: int| to <= i < text.len() ==> is_space(#[trigger] text[i])
            &&& a.len() > 0 ==> !is_space(a.first()) && !is_space(a.last())
        };
    let (bf, bt) = choose|from: int, to: int|
        {
            &&& 0 <= from <= to <= text.len()
            &&& b == #[trigger] text.subrange(from, to)
            &&& forall|i: int| 0 <= i < from ==> is_space(#[trigger] text[i])
            &&& forall|i: int| to <= i < text.len() ==> is_space(#[trigger] text[i])
            &&& b.len() > 0 ==> !is_space(b.first()) && !is_space(b.last())
        };
    if a.len() > 0 {
        assert(a.first() == text[af]);
        assert(a.last() == text[at - 1]);
    }
    if b.len() > 0 {
        assert(b.first() == text[bf]);
        assert(b.last() == text[bt - 1]);
    }
    assert(a =~= b);
}

/// A setting asks for one thing only.
pub proof fn a_setting_asks_for_one_thing(spec: Seq<char>, a: DeviceSpec, b: DeviceSpec)
    requires
        asks_for(spec, a),
        asks_for(spec, b),
    ensures
        a is Disabled <==> b is Disabled,
        a is HostDefault <==> b is HostDefault,
        a matches DeviceSpec::Named(x) ==> b matches DeviceSpec::Named(y) && x@ == y@,
{
    reveal_strlit("none");
    reveal_strlit("default");
    assert("none"@.len() != "default"@.len());
}

/// Mono before stereo, and neither without its stream: with a device that opens by a fixed
/// rule, probing comes to mono exactly when mono opens, to stereo exactly when only stereo
/// does, and to nothing exactly when neither does.
pub proof fn mono_comes_before_stereo<P: Fn(u16, u32) -> bool>(
    probe: P,
    opens: spec_fn(u16, u32) -> bool,
    rate: u32,
    channels: Option<u16>,
)
    requires
        answers(probe, opens),
        probed(probe, rate, channels),
    ensures
        channels == Some(1u16) <==> opens(1, rate),
        channels == Some(2u16) <==> !opens(1, rate) && opens(2, rate),
        channels is None <==> !opens(1, rate) && !opens(2, rate),
{
    assert(answers(probe, opens));
}

/// A text that was trimmed is what is left between white space, and neither begins nor
/// ends with any.
pub proof fn trimming_takes_white_space_only(text: Seq<char>, inner: Seq<char>)
    requires
        is_trimmed(text, inner),
    ensures
        inner.len() > 0 ==> !is_space(inner.first()) && !is_space(inner.last()),
        exists|from: int, to: int|
            {
                &&& 0 <= from <= to <= text.len()
                &&& inner == #[trigger] text.subrange(from, to)
                &&& forall|i: int| 0 <= i < from || to <= i < text.len() ==> is_space(
                    #[trigger] text[i],
                )
            },
{
    let (from, to) = choose|from: int, to: int|
        {
            &&& 0 <= from <= to <= text.len()
            &&& inner == #[trigger] text.subrange(from, to)
            &&& forall|i: int| 0 <= i < from ==> is_space(#[trigger] text[i])
            &&& forall|i: int| to <= i < text.len() ==> is_space(#[trigger] text[i])
            &&& inner.len() > 0 ==> !is_space(inner.first()) && !is_space(inner.last())
        };
    assert(inner == text.subrange(from, to));
}

/// What a setting asks for: `none` turns the role off, `default` takes the host's device,
/// and anything else is a name, taken as it is.
pub proof fn settings_ask_for_what_they_say(spec: Seq<char>, device: DeviceSpec)
    requires
        asks_for(spec, device),
    ensures
        device is Disabled <==> spec == "none"@,
        device is HostDefault <==> spec == "default"@,
        device is Named <==> spec != "none"@ && spec != "default"@,
        device matches DeviceSpec::Named(name) ==> name@ == spec,
{
    reveal_strlit("none");
    reveal_strlit("default");
    assert("none"@.len() != "default"@.len());
}

/// A device that names its own rate runs at it; one that does not is an error that says
/// why.
pub proof fn devices_run_at_their_own_rate(role: Role, rate: u32, reason: String)
    ensures
        own_rate(role, Ok(rate)) == Ok::<u32, DeviceError>(rate),
        own_rate(role, Err(reason)) == Err::<u32, DeviceError>(
            DeviceError::DefaultUnknown(role, reason),
        ),
{
}

/// Every device has its line, in order: its number, its name and how it runs, and the
/// default, and no other, is marked.
pub proof fn every_device_is_listed(devices: Seq<DeviceInfo>, default: Option<String>, i: int)
    requires
        0 <= i < devices.len(),
    ensures
        listing(devices, default).len() == devices.len(),
        ({
            let name = match devices[i].name {
                Some(name) => name@,
                None => "<unknown>"@,
            };
            let config = match devices[i].config {
                Some(c) => "["@ + decimal(c.rate as int) + " Hz, "@ + decimal(c.channels as int)
                    + " ch, "@ + c.format@ + "]"@,
                None => "[config unavailable]"@,
            };
            let line = listing(devices, default)[i];
            let plain = "  ["@ + decimal(i) + "] "@ + name + "  "@ + config;
            &&& default is Some && default->0@ == name ==> line == plain + "  [default]"@
            &&& !(default is Some && default->0@ == name) ==> line == plain + ""@
        }),
{
}

/// Without devices the listing says so.
pub proof fn no_devices_are_listed_as_none(default: Option<String>)
    ensures
        listing(Seq::empty(), default) == seq!["  (none)"@],
{
}

/// Errors name the role they are about, and the rate or the reason.
pub proof fn device_errors_name_their_role(role: Role, rate: u32, text: String)
    ensures
        ({
            let name = if role == Role::Capture {
                "capture"@
            } else {
                "playback"@
            };
            &&& role_name(role) == name
            &&& device_complaint(DeviceError::NoDefault(role)) == "no default "@ + name
                + " device available"@
            &&& device_complaint(DeviceError::NotFound(role, text)) == "no "@ + name
                + " device named "@ + text@
            &&& device_complaint(DeviceError::RateUnsupported(role, rate)) == name
                + " device does not support "@ + decimal(rate as int) + " Hz"@
            &&& device_complaint(DeviceError::DefaultUnknown(role, text)) == "query default "@
                + name + " config: "@ + text@
            &&& device_complaint(DeviceError::NoChannels(role, rate)) == name
                + " device offers no "@ + decimal(rate as int) + " Hz f32 mono or stereo config"@
        }),
{
}

/// A rate is accepted exactly when the device opens at it in mono or in stereo.
pub proof fn rates_are_accepted_by_their_streams<P: Fn(u16, u32) -> bool>(
    probe: P,
    opens: spec_fn(u16, u32) -> bool,
    rate: u32,
    channels: Option<u16>,
)
    requires
        answers(probe, opens),
        probed(probe, rate, channels),
    ensures
        channels is Some <==> opens(1, rate) || opens(2, rate),
{
    mono_comes_before_stereo(probe, opens, rate, channels);
}

/// The white space of Unicode, by code point.
pub proof fn white_space_is_unicodes(c: char)
    ensures
        ({
            let code = c as int;
            is_space(c) <==> {
                ||| 9 <= code <= 13
                ||| code == 32
                ||| code == 133
                ||| code == 160
                ||| code == 5760
                ||| 8192 <= code <= 8202
                ||| code == 8232
                ||| code == 8233
                ||| code == 8239
                ||| code == 8287
                ||| code == 12288
            }
        }),
{
}

/// A device is called what its name says, and one without a readable name nothing.
pub proof fn devices_are_called_by_their_names(device: String, name: Seq<char>)
    ensures
        is_named(Some(device), name) <==> device@ == name,
        !is_named(None, name),
{
}

} // verus!
