use vox::audio::{
    ring_capacity, samples_to_ms, silence, take_whole_frames, upmix, CAPTURE_RING_MS, FRAME, RATE,
};

#[test]
fn ring_capacity_follows_time_and_channels() {
    assert_eq!(ring_capacity(RATE, 150, 1), 7200);
    assert_eq!(ring_capacity(RATE, 150, 2), 14_400);
    assert_eq!(ring_capacity(44_100, CAPTURE_RING_MS, 2), 4410);
    assert_eq!(ring_capacity(RATE, 200, 1), 9600);
}

#[test]
fn ring_capacity_is_floored_at_one_frame() {
    assert_eq!(ring_capacity(RATE, 0, 1), FRAME);
    assert_eq!(ring_capacity(RATE, 19, 2), 2 * FRAME);
    assert_eq!(ring_capacity(8_000, 50, 1), FRAME);
}

#[test]
fn samples_are_shown_as_time() {
    assert_eq!(samples_to_ms(7200, 48_000, 1), 150);
    assert_eq!(samples_to_ms(7200, 48_000, 2), 75);
    assert_eq!(samples_to_ms(47, 48_000, 1), 0);
    assert_eq!(samples_to_ms(7200, 0, 1), 0);
    assert_eq!(samples_to_ms(7200, 48_000, 0), 0);
    assert_eq!(samples_to_ms(u64::MAX, 1, 1), u64::MAX);
}

#[test]
fn upmix_repeats_each_sample() {
    assert_eq!(upmix(&[1, 2, 3], 2), [1, 1, 2, 2, 3, 3]);
    assert_eq!(upmix(&[5, 6], 1), [5, 6]);
    assert!(upmix(&[5, 6], 0).is_empty());
    assert!(upmix(&[], 3).is_empty());
}

#[test]
fn whole_frames_leave_a_partial_one() {
    let mut samples = vec![1u32, 2, 3, 4, 5];
    assert_eq!(take_whole_frames(&mut samples, 2), [1, 2, 3, 4]);
    assert_eq!(samples, [5]);
    assert!(take_whole_frames(&mut samples, 2).is_empty());
    assert_eq!(samples, [5]);
}

#[test]
fn silence_is_zero_bits() {
    assert_eq!(silence(3), [0.0f32.to_bits(); 3]);
}
