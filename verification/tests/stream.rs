use audio_bridge::stream::{expand_mono, extract_mono, upsample_ratio, Resampler, Tap};

#[test]
fn first_channel_is_extracted() {
    let mut mono = vec![9; 2];
    assert_eq!(extract_mono(&[1, 2, 3, 4, 5, 6, 7], 2, &mut mono), 3);
    assert_eq!(mono, vec![1, 3, 5]);
    let mut mono = vec![9; 4];
    assert_eq!(extract_mono(&[1, 2, 3, 4, 5, 6], 3, &mut mono), 2);
    assert_eq!(mono, vec![1, 4, 9, 9]);
    let mut mono = Vec::new();
    assert_eq!(extract_mono(&[1, 2, 3], 1, &mut mono), 3);
    assert_eq!(mono, vec![1, 2, 3]);
    assert_eq!(extract_mono(&[1], 2, &mut mono), 0);
    assert_eq!(mono, vec![1, 2, 3]);
}

#[test]
fn mono_is_spread_over_channels() {
    let mut data = [9u32; 7];
    expand_mono(&[1, 2, 3, 4], 2, &mut data);
    assert_eq!(data, [1, 1, 2, 2, 3, 3, 9]);
    let mut data = [9u32; 3];
    expand_mono(&[1, 2, 3], 1, &mut data);
    assert_eq!(data, [1, 2, 3]);
    let mut data: [u32; 0] = [];
    expand_mono(&[], 2, &mut data);
}

#[test]
fn mono_round_trip() {
    let mut data = [0u32; 12];
    expand_mono(&[7, 8, 9], 4, &mut data);
    let mut mono = Vec::new();
    assert_eq!(extract_mono(&data, 4, &mut mono), 3);
    assert_eq!(mono, vec![7, 8, 9]);
}

#[test]
fn ratio_is_rounded() {
    assert_eq!(upsample_ratio(48_000, 24_000), 2);
    assert_eq!(upsample_ratio(44_100, 24_000), 2);
    assert_eq!(upsample_ratio(96_000, 24_000), 4);
    assert_eq!(upsample_ratio(16_000, 24_000), 1);
    assert_eq!(upsample_ratio(8_000, 24_000), 1);
    assert_eq!(upsample_ratio(5, 2), 3);
    assert_eq!(upsample_ratio(u32::MAX, 1), u32::MAX);
    assert_eq!(upsample_ratio(1, u32::MAX), 1);
    assert_eq!(upsample_ratio(0, 0), 1);
    assert_eq!(upsample_ratio(48_000, 0), u32::MAX);
}

#[test]
fn ratio_agrees_with_floating_point() {
    for hw in [1u32, 7, 8_000, 11_025, 44_100, 48_000, 192_000, u32::MAX] {
        for content in [0u32, 1, 2, 3, 16_000, 22_050, 24_000, 88_200, u32::MAX] {
            let expected = ((hw as f64 / content as f64).round() as u32).max(1);
            assert_eq!(upsample_ratio(hw, content), expected, "{} {}", hw, content);
        }
    }
}

fn tap(before: u32, after: u32, fraction: u32) -> Tap {
    Tap { before, after, fraction }
}

fn advance(resampler: &mut Resampler, frames: usize) -> Vec<Tap> {
    let mut taps = vec![tap(5, 5, 5)];
    let supplied = resampler.available() > 0;
    assert_eq!(resampler.advance(frames, &mut taps), supplied);
    taps
}

#[test]
fn frames_lie_between_neighbours() {
    let mut r = Resampler::new(2, 3);
    r.supply(&[1, 2, 3]);
    assert_eq!(r.available(), 3);
    assert_eq!(
        advance(&mut r, 4),
        vec![tap(0, 1, 0), tap(0, 1, 2), tap(1, 2, 1), tap(2, 3, 0)]
    );
    assert_eq!(r.available(), 0);
}

#[test]
fn supply_that_runs_out_ramps_to_silence() {
    let mut r = Resampler::new(1, 2);
    r.supply(&[7]);
    assert_eq!(
        advance(&mut r, 6),
        vec![
            tap(0, 7, 0),
            tap(0, 7, 1),
            tap(7, 0, 0),
            tap(7, 0, 1),
            tap(0, 0, 0),
            tap(0, 0, 1)
        ]
    );
}

#[test]
fn empty_resampler_starts_over() {
    let mut r = Resampler::new(1, 2);
    r.supply(&[7]);
    advance(&mut r, 2);
    assert_eq!(r.available(), 0);
    assert_eq!(advance(&mut r, 3), vec![tap(0, 0, 0); 3]);
    r.supply(&[9]);
    assert_eq!(advance(&mut r, 2), vec![tap(0, 9, 0), tap(0, 9, 1)]);
}

#[test]
fn faster_content_skips_samples() {
    let mut r = Resampler::new(5, 2);
    r.supply(&[1, 2, 3, 4, 5, 6]);
    assert_eq!(advance(&mut r, 3), vec![tap(0, 1, 0), tap(2, 3, 1), tap(5, 6, 0)]);
}

#[test]
fn unused_samples_carry_over() {
    let mut r = Resampler::new(1, 1);
    r.supply(&[1, 2, 3, 4]);
    advance(&mut r, 1);
    assert_eq!(r.available(), 3);
    r.supply(&[5]);
    assert_eq!(
        advance(&mut r, 4),
        vec![tap(1, 2, 0), tap(2, 3, 0), tap(3, 4, 0), tap(4, 5, 0)]
    );
}

#[test]
fn pulled_samples_are_enough() {
    for (content, hw) in [(24_000u32, 48_000u32), (24_000, 44_100), (48_000, 44_100), (3, 7)] {
        let mut r = Resampler::new(content, hw);
        for frames in [1usize, 480, 7, 0, 1024, 33] {
            let n = r.to_pull(frames);
            r.supply(&vec![1; n]);
            for t in advance(&mut r, frames).iter().skip(1) {
                assert_eq!(t.after, 1);
            }
        }
    }
    let mut r = Resampler::new(24_000, 48_000);
    // The position after ten frames is six samples on, and one is to spare.
    assert_eq!(r.to_pull(10), 7);
    r.supply(&[0; 3]);
    assert_eq!(r.to_pull(10), 4);
    r.supply(&[0; 9]);
    assert_eq!(r.to_pull(10), 0);
    assert_eq!(Resampler::new(u32::MAX, 1).to_pull(usize::MAX), usize::MAX);
}

#[test]
fn callbacks_join_without_a_seam() {
    let samples: Vec<u32> = (100..150).collect();
    let mut whole = Resampler::new(24_000, 44_100);
    whole.supply(&samples);
    let all = advance(&mut whole, 40);
    for cut in 0..=40 {
        let mut parts = Resampler::new(24_000, 44_100);
        parts.supply(&samples[..30]);
        let mut joined = advance(&mut parts, cut);
        parts.supply(&samples[30..]);
        joined.extend(advance(&mut parts, 40 - cut));
        assert_eq!(joined, all);
        assert_eq!(parts.available(), whole.available());
    }
}

#[test]
fn frames_follow_the_formula() {
    let samples: Vec<u32> = (1..2000).collect();
    for (content, hw) in [(24_000u64, 48_000u64), (24_000, 44_100), (22_050, 96_000), (7, 5)] {
        let mut r = Resampler::new(content as u32, hw as u32);
        r.supply(&samples);
        let mut k: u64 = 0;
        for frames in [1usize, 64, 3, 500, 128] {
            for t in advance(&mut r, frames) {
                let i = (k * content / hw) as usize;
                let before = if i == 0 { 0 } else { samples[i - 1] };
                assert_eq!(t, tap(before, samples[i], (k * content % hw) as u32));
                k += 1;
            }
        }
    }
}

#[test]
fn exact_position_agrees_with_floating_point() {
    let values: Vec<f32> = (0..40_000).map(|i| (i as f32 * 0.01).sin()).collect();
    let bits: Vec<u32> = values.iter().map(|v| v.to_bits()).collect();
    for (content, hw) in [(24_000u32, 48_000u32), (24_000, 44_100), (16_000, 96_000)] {
        let mut r = Resampler::new(content, hw);
        r.supply(&bits);
        let step = content as f64 / hw as f64;
        let (mut phase, mut s0, mut s1, mut next) = (1.0f64, 0.0f32, 0.0f32, 0usize);
        for _ in 0..50 {
            for t in advance(&mut r, 512) {
                while phase >= 1.0 {
                    phase -= 1.0;
                    s0 = s1;
                    s1 = values[next];
                    next += 1;
                }
                let expected = s0 + (s1 - s0) * phase as f32;
                phase += step;
                let (a, b) = (f32::from_bits(t.before), f32::from_bits(t.after));
                let got = a + (b - a) * (t.fraction as f64 / hw as f64) as f32;
                assert!((got - expected).abs() < 1e-4, "{} {}", got, expected);
            }
        }
    }
}
