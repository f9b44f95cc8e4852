use vox::audio::FRAME;
use vox::engine::{AudioPorts, Engine, EngineConfig, EngineStats, StartError};
use vox::packet::HEADER_LEN;
use vox::receive::{
    classify, is_fatal, recenter, Arrival, ReceiveFailure, Receiver, Recenter, Step,
};
use vox::send::{EncoderParams, SendNotice, Sender};

fn config() -> EngineConfig<&'static str> {
    EngineConfig {
        peer: Some("peer"),
        bind: Some(9680),
        capture_channels: Some(1),
        playback_channels: Some(1),
        capture_sample_rate: 48_000,
        playback_sample_rate: 48_000,
        jitter_ms: 150,
        bitrate: 24_000,
        fec: false,
        expected_loss: 10,
        dtx: false,
    }
}

fn started(config: EngineConfig<&'static str>) -> (Engine<&'static str>, AudioPorts) {
    match Engine::start(config) {
        Ok(started) => started,
        Err(error) => panic!("{}", error.message()),
    }
}

fn receiver() -> (Receiver, vox::engine::PlaybackSource) {
    let mut config = config();
    config.capture_channels = None;
    let (engine, ports) = started(config);
    (engine.receiver.unwrap(), ports.playback.unwrap())
}

fn sender(channels: u16, rate: u32) -> (Sender, vox::engine::CaptureSink) {
    let mut config = config();
    config.capture_channels = Some(channels);
    config.capture_sample_rate = rate;
    config.playback_channels = None;
    let (engine, ports) = started(config);
    (engine.sender.unwrap().0, ports.capture.unwrap())
}

fn datagram(seq: u32, timestamp: u32, payload: &[u8]) -> Vec<u8> {
    let mut out = vec![0u8; HEADER_LEN];
    vox::packet::write_header(seq, timestamp, &mut out);
    out.extend_from_slice(payload);
    out
}

fn frame(value: u32) -> Vec<u32> {
    vec![value; FRAME]
}

#[test]
fn an_engine_needs_a_role() {
    let mut c = config();
    c.capture_channels = None;
    c.playback_channels = None;
    c.bind = None;
    assert_eq!(c.local_port(), Err(StartError::NoRole));
    assert_eq!(Engine::start(c).err(), Some(StartError::NoRole));
    assert_eq!(
        StartError::NoRole.message(),
        "engine has neither a capture nor a playback role"
    );
}

#[test]
fn receiving_needs_a_port() {
    let mut c = config();
    c.bind = None;
    c.peer = None;
    assert_eq!(c.local_port(), Err(StartError::ReceiveWithoutBind));
    assert_eq!(Engine::start(c).err(), Some(StartError::ReceiveWithoutBind));
    assert_eq!(
        StartError::ReceiveWithoutBind.message(),
        "a playback (receive) role requires a bind port for the peer to target"
    );
}

#[test]
fn capturing_needs_a_peer() {
    let mut c = config();
    c.peer = None;
    assert_eq!(c.local_port(), Ok(9680));
    assert_eq!(Engine::start(c).err(), Some(StartError::CaptureWithoutPeer));
    assert_eq!(
        StartError::CaptureWithoutPeer.message(),
        "a capture role requires a peer to send to"
    );
}

#[test]
fn a_send_only_engine_binds_any_port() {
    let mut c = config();
    c.bind = None;
    c.playback_channels = None;
    assert_eq!(c.local_port(), Ok(0));
    let (engine, ports) = started(c);
    assert!(engine.receiver.is_none() && ports.playback.is_none());
    assert_eq!(engine.sender.unwrap().1, "peer");
    assert!(ports.capture.is_some());
}

#[test]
fn rings_without_channels_or_too_large_do_not_fit() {
    let mut c = config();
    assert!(c.rings_fit());
    c.playback_channels = Some(0);
    assert!(!c.rings_fit());
    c.playback_channels = None;
    assert!(c.rings_fit());
    c.capture_channels = Some(0);
    assert!(!c.rings_fit());
    let mut c = config();
    c.playback_sample_rate = u32::MAX;
    c.jitter_ms = u32::MAX;
    c.playback_channels = Some(u16::MAX);
    assert!(!c.rings_fit());
}

#[test]
fn encoder_settings_follow_the_configuration() {
    let mut c = config();
    c.expected_loss = 120;
    c.dtx = true;
    let params: EncoderParams = c.encoder_params();
    assert_eq!((params.bitrate, params.fec, params.dtx), (24_000, false, true));
    assert_eq!(params.packet_loss_perc(), 0);
    c.fec = true;
    assert_eq!(c.encoder_params().packet_loss_perc(), 100);
    c.expected_loss = 7;
    assert_eq!(c.encoder_params().packet_loss_perc(), 7);
}

#[test]
fn captured_audio_is_grouped_into_frames() {
    let (mut sender, mut sink) = sender(2, 48_000);
    assert_eq!(sender.channels(), 2);
    assert!(sender.capture().is_none());
    assert_eq!(sink.push(&[1, 2, 3]), 3);
    assert_eq!(sender.capture().unwrap(), [1, 2]);
    assert_eq!(sink.push(&[4, 5]), 2);
    assert_eq!(sender.capture().unwrap(), [3, 4]);
    assert_eq!(sink.push(&[6]), 1);
    assert_eq!(sender.capture().unwrap(), [5, 6]);
    assert!(sender.capture().is_none());
}

#[test]
fn a_full_capture_ring_drops_the_excess() {
    let (mut sender, mut sink) = sender(1, 48_000);
    let data: Vec<u32> = (0..3000).collect();
    // 50 ms at 48 kHz.
    assert_eq!(sink.push(&data), 2400);
    assert_eq!(sink.push(&data), 0);
    assert_eq!(sender.capture().unwrap(), &data[..2400]);
    assert_eq!(sink.push(&data[..10]), 10);
}

#[test]
fn frames_are_cut_and_numbered() {
    let (mut sender, mut sink) = sender(1, 48_000);
    let data: Vec<u32> = (0..2000).collect();
    sink.push(&data);
    let mono = sender.capture().unwrap();
    assert!(sender.resample(&mono).is_empty());

    assert_eq!(sender.next_frame().unwrap(), &data[..960]);
    let mut out = datagram(99, 99, b"one");
    sender.stamp(&mut out);
    assert_eq!(out, datagram(0, 0, b"one"));
    assert_eq!(sender.sent(true, out.len()), None);

    assert_eq!(sender.next_frame().unwrap(), &data[960..1920]);
    sender.stamp(&mut out);
    assert_eq!(out, datagram(1, 960, b"one"));
    assert_eq!(sender.sent(true, out.len()), None);

    assert!(sender.next_frame().is_none());
    let stats = sender.stats();
    assert_eq!((stats.packets, stats.bytes), (2, 22));
}

#[test]
fn other_rates_go_through_the_converter() {
    let (mut sender, _sink) = sender(1, 44_100);
    let chunks = sender.resample(&vec![3u32; 1500]);
    assert_eq!(chunks, [vec![3u32; 1024]]);
    assert!(sender.next_frame().is_none());
    sender.converted(&vec![4u32; 960]);
    assert_eq!(sender.next_frame().unwrap(), frame(4));
}

#[test]
fn failures_are_noticed_once_and_not_counted() {
    let (mut sender, _sink) = sender(1, 48_000);
    assert_eq!(sender.sent(false, 100), Some(SendNotice::Failing));
    assert_eq!(sender.sent(false, 100), None);
    assert_eq!(sender.sent(true, 50), Some(SendNotice::Recovered));
    assert_eq!(sender.sent(true, 50), None);
    assert_eq!((sender.stats().packets, sender.stats().bytes), (2, 100));
    // Frames that did not get out keep their numbers.
    let mut out = datagram(0, 0, &[]);
    sender.stamp(&mut out);
    assert_eq!(out, datagram(4, 4 * 960, &[]));
}

#[test]
fn sequence_numbers_are_classified() {
    assert_eq!(classify(None, 77), Arrival::First);
    assert_eq!(classify(Some(10), 10), Arrival::InOrder);
    assert_eq!(classify(Some(10), 11), Arrival::Gap(1));
    assert_eq!(classify(Some(10), 60), Arrival::Gap(50));
    assert_eq!(classify(Some(10), 61), Arrival::Skip);
    assert_eq!(classify(Some(100), 99), Arrival::Late);
    assert_eq!(classify(Some(100), 50), Arrival::Late);
    assert_eq!(classify(Some(100), 49), Arrival::Restart);
    assert_eq!(classify(Some(1000), 0), Arrival::Restart);
    // Around the wrap.
    assert_eq!(classify(Some(u32::MAX), 0), Arrival::Gap(1));
    assert_eq!(classify(Some(0), u32::MAX), Arrival::Late);
    assert_eq!(classify(Some(0), u32::MAX - 50), Arrival::Restart);
    // Half the circle.
    assert_eq!(classify(Some(0), u32::MAX / 2 - 1), Arrival::Skip);
    assert_eq!(classify(Some(0), u32::MAX / 2), Arrival::Restart);
}

/// What a step asks for: reset, conceal, recover, in order, payload.
fn playout(step: Step<'_>) -> (bool, u32, bool, bool, Vec<u8>) {
    match step {
        Step::Play(p) => (
            p.reset_decoder,
            p.conceal,
            p.recover,
            p.in_order,
            p.payload.to_vec(),
        ),
        Step::Late => panic!("late"),
        Step::Ignore => panic!("ignored"),
    }
}

#[test]
fn loss_is_concealed_and_late_frames_are_dropped() {
    let (mut receiver, _source) = receiver();
    assert!(matches!(receiver.accept(&[1, 2, 3], 0), Step::Ignore));
    assert_eq!(receiver.stats().received, 0);

    let first = datagram(100, 100 * 960, b"a");
    assert_eq!(
        playout(receiver.accept(&first, 0)),
        (false, 0, false, false, b"a".to_vec())
    );
    let next = datagram(101, 101 * 960, b"bc");
    assert_eq!(
        playout(receiver.accept(&next, 20_000_000)),
        (false, 0, false, true, b"bc".to_vec())
    );
    // One frame lost: rebuilt from the redundancy in the next packet.
    let gap1 = datagram(103, 103 * 960, b"d");
    assert_eq!(
        playout(receiver.accept(&gap1, 60_000_000)),
        (false, 0, true, false, b"d".to_vec())
    );
    // Three lost: two without data, the last from redundancy.
    let gap3 = datagram(107, 107 * 960, b"e");
    assert_eq!(
        playout(receiver.accept(&gap3, 140_000_000)),
        (false, 2, true, false, b"e".to_vec())
    );
    // A duplicate and a late one.
    assert!(matches!(receiver.accept(&gap3, 140_000_000), Step::Late));
    let late = datagram(105, 105 * 960, b"x");
    assert!(matches!(receiver.accept(&late, 141_000_000), Step::Late));
    // The stream moved on.
    let skip = datagram(1000, 1000 * 960, b"f");
    assert_eq!(
        playout(receiver.accept(&skip, 150_000_000)),
        (false, 0, false, false, b"f".to_vec())
    );
    // The peer started over.
    let restart = datagram(0, 0, b"g");
    assert_eq!(
        playout(receiver.accept(&restart, 160_000_000)),
        (true, 0, false, false, b"g".to_vec())
    );
    let after = datagram(1, 960, b"h");
    assert_eq!(
        playout(receiver.accept(&after, 180_000_000)),
        (false, 0, false, true, b"h".to_vec())
    );

    let stats = receiver.stats();
    assert_eq!(stats.received, 9);
    assert_eq!(stats.bytes, 9 * 8 + 10);
    assert_eq!(stats.gap_frames, 4);
    assert_eq!(stats.dropped_late, 2);
}

#[test]
fn recentering_follows_the_watermarks() {
    assert_eq!(recenter(959, 960, 4080), Recenter::Repeat);
    assert_eq!(recenter(960, 960, 4080), Recenter::Keep);
    assert_eq!(recenter(4080, 960, 4080), Recenter::Keep);
    assert_eq!(recenter(4081, 960, 4080), Recenter::Drop);
}

#[test]
fn the_buffer_is_kept_in_its_band() {
    let (mut receiver, mut source) = receiver();
    // It starts at 2520 samples of silence; above 4080 in-order frames are dropped.
    assert_eq!(receiver.play(&frame(1), true), Recenter::Keep);
    assert_eq!(receiver.stats().jitter_fill, 3480);
    assert_eq!(receiver.play(&frame(2), true), Recenter::Keep);
    assert_eq!(receiver.play(&frame(3), true), Recenter::Drop);
    assert_eq!(receiver.stats().jitter_fill, 4440);
    // Concealment is never dropped.
    assert_eq!(receiver.play(&frame(4), false), Recenter::Keep);
    assert_eq!(receiver.stats().jitter_fill, 5400);

    let mut data = vec![9u32; 6000];
    assert_eq!(source.fill(&mut data), 5400);
    assert!(data[..2520].iter().all(|&s| s == 0));
    assert!(data[2520..3480].iter().all(|&s| s == 1));
    assert!(data[3480..4440].iter().all(|&s| s == 2));
    assert!(data[4440..5400].iter().all(|&s| s == 4));
    assert!(data[5400..].iter().all(|&s| s == 0));

    // Empty: an in-order frame is repeated, a concealed one is not.
    assert_eq!(receiver.play(&frame(5), false), Recenter::Keep);
    let mut data = vec![9u32; 960];
    assert_eq!(source.fill(&mut data), 960);
    assert_eq!(receiver.play(&frame(6), true), Recenter::Repeat);
    assert_eq!(receiver.stats().jitter_fill, 1920);
    let stats = receiver.stats();
    assert_eq!((stats.recenter_drops, stats.recenter_inserts), (1, 1));
    assert_eq!(stats.overruns, 0);
}

#[test]
fn a_full_jitter_buffer_counts_overruns() {
    let (mut receiver, mut source) = receiver();
    for _ in 0..4 {
        receiver.play(&frame(1), false);
    }
    assert_eq!(receiver.stats().overruns, 0);
    receiver.play(&frame(2), false);
    receiver.play(&frame(3), false);
    assert_eq!(receiver.stats().overruns, 2);
    assert_eq!(receiver.stats().jitter_fill, 7200);
    let mut data = vec![9u32; 7300];
    assert_eq!(source.fill(&mut data), 7200);
    // What did fit of the frame is played.
    assert_eq!(data[6360..7200], vec![2u32; 840]);
}

#[test]
fn playback_is_upmixed_and_padded_with_silence() {
    let mut c = config();
    c.capture_channels = None;
    c.playback_channels = Some(2);
    let (engine, ports) = started(c);
    let mut receiver = engine.receiver.unwrap();
    let mut source = ports.playback.unwrap();
    let mut cushion = vec![1u32; 5040];
    assert_eq!(source.fill(&mut cushion), 5040);
    assert!(cushion.iter().all(|&s| s == 0));
    receiver.play(&[7, 8], false);
    let mut data = vec![9u32; 6];
    assert_eq!(source.fill(&mut data), 4);
    assert_eq!(data, [7, 7, 8, 8, 0, 0]);
}

#[test]
fn a_tiny_jitter_buffer_starts_full() {
    let mut c = config();
    c.capture_channels = None;
    c.jitter_ms = 1;
    let (engine, ports) = started(c);
    assert_eq!(engine.stats().jitter_capacity, 960);
    let mut data = vec![9u32; 2000];
    assert_eq!(ports.playback.unwrap().fill(&mut data), 960);
}

#[test]
fn the_band_deepens_on_a_bursty_link() {
    let (mut receiver, _source) = receiver();
    let before = receiver.snapshot().target;
    assert_eq!(before, 2520);
    let mut now = 0u64;
    for i in 0..200u32 {
        let d = datagram(i, i * 960, b"x");
        let _ = receiver.accept(&d, now);
        now += if i % 2 == 0 { 5_000_000 } else { 35_000_000 };
    }
    let snapshot = receiver.snapshot();
    assert!(snapshot.target > before);
    assert!(snapshot.target <= snapshot.capacity);
    assert_eq!((snapshot.capacity, snapshot.rate, snapshot.channels), (7200, 48_000, 1));
}

#[test]
fn stats_show_both_directions() {
    let (mut engine, mut ports) = started(config());
    let idle = engine.stats();
    assert_eq!((idle.packets_sent, idle.packets_received), (0, 0));
    assert_eq!((idle.jitter_fill, idle.jitter_capacity), (0, 7200));
    assert_eq!((idle.jitter_fill_ms, idle.target_depth_ms), (0, 52));

    ports.capture.as_mut().unwrap().push(&frame(1));
    {
        let (sender, _peer) = engine.sender.as_mut().unwrap();
        let mono = sender.capture().unwrap();
        sender.resample(&mono);
        sender.next_frame().unwrap();
        sender.sent(true, 68);
        let receiver = engine.receiver.as_mut().unwrap();
        let d = datagram(0, 0, &[0; 60]);
        assert!(matches!(receiver.accept(&d, 0), Step::Play(_)));
        receiver.play(&frame(2), false);
    }
    let live = engine.stats();
    assert_eq!((live.packets_sent, live.bytes_sent), (1, 68));
    assert_eq!((live.packets_received, live.bytes_received), (1, 68));
    assert_eq!((live.jitter_fill, live.jitter_fill_ms), (3480, 72));

    let total = engine.stop();
    assert_eq!((total.packets_sent, total.bytes_sent), (1, 68));
    assert_eq!((total.packets_received, total.bytes_received), (1, 68));
    assert_eq!((total.jitter_fill, total.jitter_capacity), (0, 0));
    assert_eq!((total.jitter_fill_ms, total.target_depth_ms), (0, 0));
}

#[test]
fn default_stats_are_zero() {
    let stats = EngineStats::default();
    assert_eq!(stats.packets_sent + stats.bytes_received + stats.target_depth_ms, 0);
}

#[test]
fn only_unknown_receive_errors_end_the_session() {
    assert!(!is_fatal(ReceiveFailure::WouldBlock));
    assert!(!is_fatal(ReceiveFailure::TimedOut));
    assert!(!is_fatal(ReceiveFailure::ConnectionReset));
    assert!(!is_fatal(ReceiveFailure::ConnectionRefused));
    assert!(is_fatal(ReceiveFailure::Other));
}

#[test]
fn a_clean_link_carries_every_frame() {
    let (mut sender, mut sink) = sender(1, 48_000);
    let (mut receiver, mut source) = receiver();
    let mut now = 0u64;
    let mut cushion = vec![0u32; 2520 - 960];
    source.fill(&mut cushion);
    for n in 0..40u32 {
        sink.push(&frame(n + 1));
        let mono = sender.capture().unwrap();
        sender.resample(&mono);
        let cut = sender.next_frame().unwrap();
        let mut out = datagram(0, 0, &cut[0].to_be_bytes());
        sender.stamp(&mut out);
        sender.sent(true, out.len());
        let (reset, conceal, recover, in_order, payload) = playout(receiver.accept(&out, now));
        assert_eq!((reset, conceal, recover, in_order), (false, 0, false, n > 0));
        let value = u32::from_be_bytes(payload.try_into().unwrap());
        assert_eq!(receiver.play(&frame(value), in_order), Recenter::Keep);
        let mut played = vec![0u32; 960];
        assert_eq!(source.fill(&mut played), 960);
        assert_eq!(played, frame(n));
        now += 20_000_000;
    }
    assert_eq!(receiver.stats().gap_frames, 0);
}

#[test]
fn a_lossy_link_accounts_for_every_frame() {
    let (mut receiver, _source) = receiver();
    let start = u32::MAX - 200;
    let mut played = 0u32;
    let mut heard = 0u32;
    let mut last = 0u32;
    for n in 0..600u32 {
        // Lose some frames singly and some in runs, across the wrap of the numbers.
        if n % 7 == 3 || (101..151).contains(&n) || (300..349).contains(&n) {
            continue;
        }
        let seq = start.wrapping_add(n);
        let d = datagram(seq, seq.wrapping_mul(960), b"x");
        let (reset, conceal, recover, _, _) = playout(receiver.accept(&d, n as u64 * 20_000_000));
        assert!(!reset);
        played += conceal + u32::from(recover) + 1;
        heard += 1;
        last = n;
    }
    assert_eq!(played, last + 1);
    let stats = receiver.stats();
    assert_eq!(stats.received, heard as u64);
    assert_eq!(stats.gap_frames, (last + 1 - heard) as u64);
    assert_eq!(stats.dropped_late, 0);
}

#[test]
fn the_wire_carries_what_was_captured() {
    let (mut sender, mut sink) = sender(1, 48_000);
    let mut sent: Vec<u32> = Vec::new();
    let mut value = 0u32;
    for push in 0..50u32 {
        let data: Vec<u32> = (0..97 + push * 11).map(|i| value + i).collect();
        value += data.len() as u32;
        assert_eq!(sink.push(&data), data.len());
        let mono = sender.capture().unwrap();
        sender.resample(&mono);
        while let Some(cut) = sender.next_frame() {
            sent.extend(cut);
        }
    }
    let expected: Vec<u32> = (0..sent.len() as u32).collect();
    assert_eq!(sent, expected);
    assert!(value as usize - sent.len() < FRAME);
}

#[test]
fn counters_never_fall() {
    let (mut engine, mut ports) = started(config());
    let list = |s: &EngineStats| {
        [
            s.packets_sent,
            s.bytes_sent,
            s.packets_received,
            s.bytes_received,
            s.gap_frames,
            s.dropped_late,
            s.overruns,
            s.recenter_drops,
            s.recenter_inserts,
        ]
    };
    let mut last = list(&engine.stats());
    for n in 0..300u32 {
        let (sender, _peer) = engine.sender.as_mut().unwrap();
        sender.sent(n % 5 != 0, 60);
        let receiver = engine.receiver.as_mut().unwrap();
        let seq = [n, n + 3, n.saturating_sub(2)][n as usize % 3];
        let d = datagram(seq, seq * 960, b"x");
        let in_order = match receiver.accept(&d, n as u64) {
            Step::Play(p) => p.in_order,
            _ => false,
        };
        receiver.play(&frame(n), in_order || n % 2 == 0);
        // The reader comes and goes, so the buffer runs full and dry.
        let mut data = vec![0u32; if n / 50 % 2 == 1 { 3000 } else { 0 }];
        ports.playback.as_mut().unwrap().fill(&mut data);
        let now = list(&engine.stats());
        assert!(now.iter().zip(&last).all(|(now, last)| now >= last));
        last = now;
    }
    assert!(last.iter().all(|&counter| counter > 0), "{last:?}");
    assert_eq!(list(&engine.stop()), last);
}

#[test]
fn the_noted_fill_is_what_the_reader_left() {
    let (mut receiver, mut source) = receiver();
    receiver.play(&frame(1), false);
    assert_eq!(receiver.stats().jitter_fill, 3480);
    let mut data = vec![0u32; 1000];
    source.fill(&mut data);
    receiver.play(&frame(2), false);
    assert_eq!(receiver.stats().jitter_fill, 3440);
    // Above the band until the reader catches up.
    receiver.play(&frame(3), false);
    assert_eq!(receiver.play(&frame(4), true), Recenter::Drop);
    source.fill(&mut data);
    assert_eq!(receiver.play(&frame(5), true), Recenter::Keep);
    assert_eq!(receiver.stats().jitter_fill, 4360);
}

#[test]
fn stereo_frames_go_on_where_the_last_ones_ended() {
    let (mut sender, mut sink) = sender(2, 48_000);
    let mut frames: Vec<u32> = Vec::new();
    let mut value = 0u32;
    for push in 0..40u32 {
        let data: Vec<u32> = (0..1 + push * 3).map(|i| value + i).collect();
        value += data.len() as u32;
        assert_eq!(sink.push(&data), data.len());
        let whole = sender.capture().unwrap();
        assert_eq!(whole.len() % 2, 0);
        frames.extend(whole);
    }
    assert_eq!(frames, (0..frames.len() as u32).collect::<Vec<u32>>());
    assert!(value as usize - frames.len() < 2);
}
