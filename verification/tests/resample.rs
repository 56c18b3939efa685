use realtime_translation::resample::{collapse, out_capacity, ResampleState, CHUNK_IN_FRAMES};
use rubato::{FastFixedIn, PolynomialDegree, Resampler};

fn average(frame: &[f32]) -> f32 {
    let mut acc = 0.0f32;
    for s in frame {
        acc += s;
    }
    acc / frame.len() as f32
}

fn to_i16(s: f32) -> i16 {
    (s.clamp(-1.0, 1.0) * 32767.0) as i16
}

struct Chain {
    state: ResampleState<f32>,
    resampler: Option<FastFixedIn<f32>>,
    out: Vec<f32>,
}

impl Chain {
    fn new(rate: u32, channels: u16) -> Chain {
        let state = ResampleState::new(rate, channels);
        let resampler = if state.passes_through() {
            None
        } else {
            Some(
                FastFixedIn::new(
                    16_000.0 / rate as f64,
                    1.0,
                    PolynomialDegree::Cubic,
                    CHUNK_IN_FRAMES,
                    1,
                )
                .unwrap(),
            )
        };
        Chain { state, resampler, out: vec![0.0; out_capacity(rate)] }
    }

    fn push(&mut self, samples: &[f32]) -> Vec<i16> {
        let mut done = Vec::new();
        for chunk in self.state.push(samples, average) {
            match self.resampler.as_mut() {
                None => done.extend(chunk.into_iter().map(to_i16)),
                Some(r) => {
                    let (_, n) = r
                        .process_into_buffer(&[&chunk[..]], &mut [&mut self.out[..]], None)
                        .unwrap();
                    done.extend(self.out[..n].iter().map(|&s| to_i16(s)));
                }
            }
        }
        done
    }
}

#[test]
fn passthrough_16k_mono() {
    let mut s = Chain::new(16_000, 1);
    // 1 second of 1.0 becomes the greatest i16.
    let input = vec![1.0f32; 16_000];
    let out = s.push(&input);
    assert_eq!(out.len(), 16_000);
    assert_eq!(out[0], 32767);
}

#[test]
fn stereo_collapse_to_mono() {
    let mut s = Chain::new(16_000, 2);
    let input = vec![1.0f32, -1.0, 1.0, -1.0];
    let out = s.push(&input);
    // 4 interleaved samples are 2 frames.
    assert_eq!(out.len(), 2);
    for s in out {
        assert_eq!(s, 0);
    }
}

#[test]
fn downsample_48k_to_16k_ratio() {
    let mut s = Chain::new(48_000, 1);
    let input = vec![0.0f32; 48_000];
    let out = s.push(&input);
    let diff = (out.len() as i64 - 16_000).abs();
    assert!(diff <= 5, "out.len()={} not ≈ 16000", out.len());
    // All silence in, all zero out.
    assert!(out.iter().all(|&s| s == 0));
}

#[test]
fn streamed_chunks_match_one_shot_count() {
    let big: Vec<f32> = (0..48_000).map(|i| (i as f32 * 0.001).sin()).collect();
    let one_shot = Chain::new(48_000, 1).push(&big);

    let mut s = Chain::new(48_000, 1);
    let mut streamed = Vec::new();
    for chunk in big.chunks(123) {
        streamed.extend(s.push(chunk));
    }
    assert_eq!(streamed.len(), one_shot.len());
    assert_eq!(streamed, one_shot);
}

#[test]
fn unaligned_tail_does_not_explode() {
    // A 49-sample stereo chunk is 24 full frames and 1 dangling sample.
    let mut s = Chain::new(16_000, 2);
    let input: Vec<f32> = vec![0.5; 49];
    let out = s.push(&input);
    assert_eq!(out.len(), 24);
}

#[test]
fn chunks_leave_whole_and_the_rest_waits() {
    let mut s: ResampleState<u32> = ResampleState::new(48_000, 0);
    assert_eq!((s.in_rate(), s.in_channels()), (48_000, 0));
    let input: Vec<u32> = (0..1000).collect();
    let chunks = s.push(&input, |f| f[0]);
    assert_eq!(chunks.len(), 2);
    assert_eq!(chunks[1], (480..960).collect::<Vec<u32>>());
    assert!(s.push(&[7; 439], |f| f[0]).is_empty());
    let chunks = s.push(&[8], |f| f[0]);
    assert_eq!(chunks.len(), 1);
    assert_eq!(chunks[0][39], 999);
    assert_eq!(chunks[0][479], 8);
}

#[test]
fn every_cut_gives_the_same_output() {
    let big: Vec<f32> = (0..5_000).map(|i| (i as f32 * 0.01).sin()).collect();
    for rate in [16_000, 44_100] {
        let whole = Chain::new(rate, 1).push(&big);
        for cut in [1, 7, 480, 481, 4_999] {
            let mut s = Chain::new(rate, 1);
            let mut parts = Vec::new();
            for chunk in big.chunks(cut) {
                parts.extend(s.push(chunk));
            }
            assert_eq!(parts, whole, "{rate} {cut}");
        }
    }
}

#[test]
fn three_channels_collapse() {
    assert_eq!(collapse(&[1, 2, 3, 10, 20, 30, 5], 3, |f: &[i32]| f[0] + f[1] + f[2]), vec![6, 60]);
    assert_eq!(collapse(&[4, 5], 1, |_: &[i32]| 0), vec![4, 5]);
}

#[test]
fn output_capacities() {
    assert_eq!(out_capacity(16_000), 480);
    assert_eq!(out_capacity(48_000), 352);
    assert_eq!(out_capacity(44_100), 380);
    assert_eq!(out_capacity(1), 15_360_032);
}
