use rubato::{FftFixedIn, Resampler as _};
use vox::resample::{Resampler, CHUNK};

/// The library's buffering with the converter around it.
struct Converter {
    front: Resampler,
    inner: Option<FftFixedIn<f32>>,
}

impl Converter {
    fn new(in_rate: u32, out_rate: u32) -> Converter {
        let inner = if in_rate == out_rate {
            None
        } else {
            Some(
                FftFixedIn::<f32>::new(in_rate as usize, out_rate as usize, CHUNK, 1, 1).unwrap(),
            )
        };
        Converter {
            front: Resampler::new(in_rate, out_rate),
            inner,
        }
    }

    fn process(&mut self, input: &[f32], out: &mut Vec<f32>) {
        let bits: Vec<u32> = input.iter().map(|s| s.to_bits()).collect();
        let mut straight: Vec<u32> = Vec::new();
        let chunks = self.front.process(&bits, &mut straight);
        out.extend(straight.iter().map(|&b| f32::from_bits(b)));
        for chunk in chunks {
            let inner = self.inner.as_mut().expect("only conversions make chunks");
            assert_eq!(chunk.len(), inner.input_frames_next());
            let chunk: Vec<f32> = chunk.iter().map(|&b| f32::from_bits(b)).collect();
            let converted = inner.process(&[chunk], None).unwrap();
            out.extend_from_slice(&converted[0]);
        }
    }
}

/// A 440 Hz mono tone of `n` samples at `rate`.
fn tone(rate: u32, n: usize) -> Vec<f32> {
    let step = 2.0 * std::f32::consts::PI * 440.0 / rate as f32;
    (0..n).map(|i| (step * i as f32).sin() * 0.5).collect()
}

#[test]
fn passthrough_is_identity() {
    let mut r = Converter::new(48_000, 48_000);
    let input = tone(48_000, 1000);
    let mut out = Vec::new();
    r.process(&input, &mut out);
    assert_eq!(out, input);
}

#[test]
fn upsample_preserves_rate_ratio() {
    let mut r = Converter::new(44_100, 48_000);
    let input = tone(44_100, 44_100); // 1 s
    let mut out = Vec::new();
    r.process(&input, &mut out);
    // ~1 s at 48 kHz out; allow a chunk of slack for filter delay / buffering.
    let expected = 48_000i64;
    assert!(
        (out.len() as i64 - expected).abs() < 2 * CHUNK as i64,
        "got {} samples, expected ~{expected}",
        out.len()
    );
    assert!(out.iter().all(|s| s.is_finite()));
}

#[test]
fn downsample_preserves_rate_ratio() {
    let mut r = Converter::new(48_000, 44_100);
    let input = tone(48_000, 48_000); // 1 s
    let mut out = Vec::new();
    r.process(&input, &mut out);
    let expected = 44_100i64;
    assert!(
        (out.len() as i64 - expected).abs() < 2 * CHUNK as i64,
        "got {} samples, expected ~{expected}",
        out.len()
    );
    // A resampled tone is still real audio, not silence.
    let rms = (out.iter().map(|s| s * s).sum::<f32>() / out.len() as f32).sqrt();
    assert!(rms > 0.1, "resampled tone rms {rms} too low");
}

#[test]
fn output_accumulates_across_small_pushes() {
    // Feeding many sub-chunk pushes yields the same total as one big push.
    let mut a = Converter::new(44_100, 48_000);
    let mut b = Converter::new(44_100, 48_000);
    let input = tone(44_100, 10_000);

    let mut out_a = Vec::new();
    a.process(&input, &mut out_a);

    let mut out_b = Vec::new();
    for chunk in input.chunks(137) {
        b.process(chunk, &mut out_b);
    }
    assert_eq!(out_a.len(), out_b.len());
    assert_eq!(out_a, out_b);
}

#[test]
fn blocks_come_out_whole_and_in_order() {
    let mut front = Resampler::new(44_100, 48_000);
    let mut out = vec![7u32];
    let first: Vec<u32> = (0..1000).collect();
    assert!(front.process(&first, &mut out).is_empty());
    let second: Vec<u32> = (1000..3100).collect();
    let chunks = front.process(&second, &mut out);
    assert_eq!(chunks.len(), 3);
    let joined: Vec<u32> = chunks.concat();
    assert_eq!(joined, (0..3072).collect::<Vec<u32>>());
    assert_eq!(out, [7]);
    match front {
        Resampler::Convert { pending } => assert_eq!(pending, (3072..3100).collect::<Vec<u32>>()),
        Resampler::Passthrough => panic!("rates differ"),
    }
}
