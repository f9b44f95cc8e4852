use vox::device::{
    capability, channels_for, find_by_name, is_whitespace, list_devices, name_text, pick_channels,
    pick_sample_rate, trim, DeviceError, DeviceInfo, DeviceSpec, NativeConfig, Role,
};

#[test]
fn roles_are_spelled_like_the_flags() {
    assert_eq!(Role::Capture.label(), "capture");
    assert_eq!(Role::Playback.label(), "playback");
}

#[test]
fn whitespace_is_unicode_whitespace() {
    for code in 0..=0x10FFFFu32 {
        if let Some(c) = char::from_u32(code) {
            assert_eq!(is_whitespace(c), c.is_whitespace(), "{code:x}");
        }
    }
}

#[test]
fn trimming_strips_both_ends() {
    for text in ["", " ", "\t\n", "a", " a", "a ", " a b ", "\u{3000}CABLE-A Output\u{a0}", "é "] {
        assert_eq!(trim(text), text.trim());
    }
}

fn kind(spec: &str) -> String {
    match DeviceSpec::parse(spec) {
        DeviceSpec::Disabled => "off".to_string(),
        DeviceSpec::HostDefault => "host".to_string(),
        DeviceSpec::Named(name) => format!("name {name}"),
    }
}

#[test]
fn device_settings_are_read() {
    assert_eq!(kind("none"), "off");
    assert_eq!(kind("  none\n"), "off");
    assert_eq!(kind("default"), "host");
    assert_eq!(kind(" default "), "host");
    assert_eq!(kind("None"), "name None");
    assert_eq!(kind(" CABLE-A Output "), "name CABLE-A Output");
    assert_eq!(kind(""), "name ");
}

#[test]
fn devices_are_found_by_exact_name() {
    let names = [
        Some("mic".to_string()),
        None,
        Some("Mic".to_string()),
        Some("mic".to_string()),
    ];
    assert_eq!(find_by_name(&names, "mic"), Some(0));
    assert_eq!(find_by_name(&names, "Mic"), Some(2));
    assert_eq!(find_by_name(&names, "mi"), None);
    assert_eq!(find_by_name(&[], "mic"), None);
}

#[test]
fn device_errors_say_what_is_wrong() {
    let cases = [
        (
            DeviceError::NoDefault(Role::Capture),
            "no default capture device available",
        ),
        (
            DeviceError::NotFound(Role::Playback, "\"x\"".to_string()),
            "no playback device named \"x\"",
        ),
        (
            DeviceError::RateUnsupported(Role::Capture, 96_000),
            "capture device does not support 96000 Hz",
        ),
        (
            DeviceError::DefaultUnknown(Role::Playback, "gone".to_string()),
            "query default playback config: gone",
        ),
        (
            DeviceError::NoChannels(Role::Capture, 44_100),
            "capture device offers no 44100 Hz f32 mono or stereo config",
        ),
    ];
    for (error, message) in cases {
        assert_eq!(error.message(), message);
    }
}

fn show<T: std::fmt::Debug>(result: Result<T, DeviceError>) -> String {
    match result {
        Ok(value) => format!("{value:?}"),
        Err(error) => error.message(),
    }
}

#[test]
fn mono_is_preferred_to_stereo() {
    assert_eq!(show(pick_channels(Role::Capture, 48_000, |_, _| true)), "1");
    assert_eq!(show(pick_channels(Role::Capture, 48_000, |c, _| c == 2)), "2");
    assert_eq!(
        show(pick_channels(Role::Capture, 48_000, |_, _| false)),
        "capture device offers no 48000 Hz f32 mono or stereo config"
    );
    // The probe is asked about the rate that was chosen.
    assert_eq!(show(pick_channels(Role::Capture, 44_100, |_, r| r == 44_100)), "1");
}

#[test]
fn the_rate_is_forced_or_48_khz_or_native() {
    let native = || Ok(44_100);
    let none = || Err("gone".to_string());
    let role = Role::Playback;
    assert_eq!(show(pick_sample_rate(role, Some(96_000), |_, r| r == 96_000, none)), "96000");
    assert_eq!(
        show(pick_sample_rate(role, Some(96_000), |_, r| r == 48_000, native)),
        "playback device does not support 96000 Hz"
    );
    assert_eq!(show(pick_sample_rate(role, None, |_, r| r == 48_000, native)), "48000");
    assert_eq!(
        show(pick_sample_rate(role, None, |c, r| c == 2 && r == 48_000, native)),
        "48000"
    );
    assert_eq!(show(pick_sample_rate(role, None, |_, _| false, native)), "44100");
    assert_eq!(
        show(pick_sample_rate(role, None, |_, _| false, none)),
        "query default playback config: gone"
    );
}

#[test]
fn channels_are_forced_or_probed_or_absent() {
    let role = Role::Capture;
    assert_eq!(show(channels_for(false, Some(2), role, 48_000, |_, _| true)), "None");
    assert_eq!(show(channels_for(true, Some(6), role, 48_000, |_, _| false)), "Some(6)");
    assert_eq!(show(channels_for(true, None, role, 48_000, |c, _| c == 2)), "Some(2)");
    assert_eq!(
        show(channels_for(true, None, role, 48_000, |_, _| false)),
        "capture device offers no 48000 Hz f32 mono or stereo config"
    );
}

#[test]
fn devices_are_listed_with_the_default_marked() {
    let devices = [
        DeviceInfo {
            name: Some("mic".to_string()),
            config: Some(NativeConfig {
                rate: 44_100,
                channels: 1,
                format: "F32".to_string(),
            }),
        },
        DeviceInfo {
            name: None,
            config: None,
        },
    ];
    assert_eq!(
        list_devices(&devices, &Some("mic".to_string())),
        [
            "  [0] mic  [44100 Hz, 1 ch, F32]  [default]",
            "  [1] <unknown>  [config unavailable]",
        ]
    );
    assert_eq!(
        list_devices(&devices[..1], &None),
        ["  [0] mic  [44100 Hz, 1 ch, F32]"]
    );
    assert_eq!(list_devices(&[], &None), ["  (none)"]);
    assert_eq!(name_text(&None), "<unknown>");
    assert_eq!(capability(&None), "[config unavailable]");
}
