use dictation_core::audio::{preprocess, AudioBuffer, FIXED_ONE, TARGET_SAMPLE_RATE};

fn buffer(samples: Vec<i32>, sample_rate: u32, bits_per_sample: u16, channels: u16) -> AudioBuffer {
    AudioBuffer { samples, sample_rate, bits_per_sample, channels }
}

/// Scale a 16-bit sample to the fixed-point range.
fn fx16(s: i32) -> i64 {
    (s as i64) * 131072
}

#[test]
fn output_is_16k_mono_for_every_format() {
    let samples: Vec<i32> = vec![100, -200, 300, -400, 500, -600];
    let rates = [8000u32, 16000, 22050, 44100, 48000];
    let bits = [16u16, 32];
    let chans = [1u16, 2];
    for &r in rates.iter() {
        for &b in bits.iter() {
            for &c in chans.iter() {
                let pcm = preprocess(buffer(samples.clone(), r, b, c));
                assert_eq!(pcm.sample_rate(), TARGET_SAMPLE_RATE);
                assert_eq!(pcm.channels(), 1);
                for &s in pcm.samples().iter() {
                    assert!(-FIXED_ONE <= s && s <= FIXED_ONE);
                }
            }
        }
    }
}

#[test]
fn bit_depth_16_scales_by_2_to_17() {
    let pcm = preprocess(buffer(vec![0, 1, -1, 32767, -32768], 16000, 16, 1));
    assert_eq!(pcm.samples(), &vec![0, 131072, -131072, 32767 * 131072, -32768 * 131072]);
    assert_eq!(-32768 * 131072, -FIXED_ONE);
}

#[test]
fn bit_depth_32_scales_by_2() {
    let pcm = preprocess(buffer(vec![0, 1, -1, i32::MAX, i32::MIN], 16000, 32, 1));
    assert_eq!(
        pcm.samples(),
        &vec![0, 2, -2, 2 * (i32::MAX as i64), 2 * (i32::MIN as i64)]
    );
}

#[test]
fn resampling_is_deterministic() {
    let samples: Vec<i32> = (0..1000).map(|i| (i * 7 % 1000) - 500).collect();
    let a = preprocess(buffer(samples.clone(), 44100, 16, 1));
    let b = preprocess(buffer(samples, 44100, 16, 1));
    assert_eq!(a.samples(), b.samples());
}

#[test]
fn resampled_length_is_rounded_ratio() {
    // 1000 samples at 44100 Hz: 1000 * 16000 / 44100 = 362.8... -> 363.
    let pcm = preprocess(buffer(vec![0; 1000], 44100, 16, 1));
    assert_eq!(pcm.len(), 363);
    // 1600 samples at 8000 Hz: exactly doubled.
    let pcm = preprocess(buffer(vec![0; 1600], 8000, 16, 1));
    assert_eq!(pcm.len(), 3200);
    // 3 samples at 48000 Hz: 3 / 3 = 1.
    let pcm = preprocess(buffer(vec![1000, 2000, 3000], 48000, 16, 1));
    assert_eq!(pcm.len(), 1);
    // A half rounds up: 1 sample at 32000 Hz gives 0.5 -> 1.
    let pcm = preprocess(buffer(vec![4000], 32000, 16, 1));
    assert_eq!(pcm.len(), 1);
    assert_eq!(pcm.samples()[0], fx16(4000));
}

#[test]
fn resampling_maps_nearest_neighbor_indices() {
    let samples: Vec<i32> = (0..50).collect();
    let pcm = preprocess(buffer(samples.clone(), 44100, 16, 1));
    for (i, &s) in pcm.samples().iter().enumerate() {
        let src = (i as u64 * 44100 / 16000) as usize;
        assert_eq!(s, fx16(samples[src]));
    }
    // Upsampling repeats source samples.
    let pcm = preprocess(buffer(vec![10, 20, 30], 8000, 16, 1));
    assert_eq!(
        pcm.samples(),
        &vec![fx16(10), fx16(10), fx16(20), fx16(20), fx16(30), fx16(30)]
    );
}

#[test]
fn stereo_folds_to_pair_averages() {
    // [(a0,b0),(a1,b1)] -> [(a0+b0)/2, (a1+b1)/2]
    let pcm = preprocess(buffer(vec![1000, 2000, -300, -500], 16000, 16, 2));
    assert_eq!(pcm.samples(), &vec![(fx16(1000) + fx16(2000)) / 2, (fx16(-300) + fx16(-500)) / 2]);
    assert_eq!(pcm.samples()[0], fx16(1500));
    assert_eq!(pcm.samples()[1], fx16(-400));
}

#[test]
fn odd_trailing_sample_averages_against_silence() {
    let pcm = preprocess(buffer(vec![1000, 2000, 3000], 16000, 16, 2));
    assert_eq!(pcm.samples(), &vec![fx16(1500), fx16(3000) / 2]);
    assert_eq!(pcm.samples()[1], fx16(1500));
}

#[test]
fn pipeline_resamples_before_folding() {
    // 8000 Hz stereo: the flat interleaved buffer is doubled first, then
    // folded, so each output sample is the average of two copies of one
    // source sample — the interleaved sequence itself, scaled.
    let samples: Vec<i32> = (0..100).map(|i| i * 11 - 550).collect();
    let pcm = preprocess(buffer(samples.clone(), 8000, 16, 2));
    assert_eq!(pcm.len(), 100);
    for (i, &s) in pcm.samples().iter().enumerate() {
        assert_eq!(s, fx16(samples[i]));
    }
}

#[test]
fn empty_buffer_stays_empty() {
    let pcm = preprocess(buffer(vec![], 44100, 16, 2));
    assert_eq!(pcm.len(), 0);
}
