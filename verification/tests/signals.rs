use lfm25_audio_onnx::config::MelConfig;
use lfm25_audio_onnx::error::NodeError;
use lfm25_audio_onnx::frontend::{
    check_frontend_rate, compute_mel, mel_filterbank, mel_layout, MelLayout,
};
use lfm25_audio_onnx::scalar::F32Bits;
use lfm25_audio_onnx::spectral::{
    finish_waveform, frame_count, frame_spectrum, overlap_add, peak_of, synthesize,
    NORM_FLOOR_BITS,
};

fn bits(value: f32) -> F32Bits {
    F32Bits { bits: value.to_bits() }
}

fn value(bits: F32Bits) -> f32 {
    f32::from_bits(bits.bits)
}

fn small() -> MelConfig {
    MelConfig { n_fft: 4, win_length: 2, hop_length: 2, n_mels: 2, ..MelConfig::default() }
}

#[test]
fn frontend_takes_one_sample_rate() {
    assert!(check_frontend_rate(&MelConfig::default(), 16_000).is_ok());
    assert!(matches!(
        check_frontend_rate(&MelConfig::default(), 8_000),
        Err(NodeError::FrontendRate { expected: 16_000, got: 8_000 })
    ));
}

#[test]
fn samples_are_cut_into_overlapping_frames() {
    let config = MelConfig::default();
    assert_eq!(
        mel_layout(16_000, &config),
        Some(MelLayout { pad: 256, frame_count: 101, pad_left: 56 })
    );
    assert_eq!(mel_layout(0, &config).unwrap().frame_count, 1);
    assert_eq!(mel_layout(159, &config).unwrap().frame_count, 1);
    assert_eq!(mel_layout(160, &config).unwrap().frame_count, 2);
}

#[test]
fn layouts_that_cannot_be_framed() {
    let config = MelConfig::default();
    assert_eq!(mel_layout(10, &MelConfig { hop_length: 0, ..config }), None);
    assert_eq!(mel_layout(10, &MelConfig { win_length: 513, ..config }), None);
    assert_eq!(mel_layout(0, &MelConfig { n_fft: 5, win_length: 5, ..config }), None);
    assert_eq!(mel_layout(usize::MAX, &config), None);
}

/// Features over whole numbers: every function handed in stays exact.
fn features(samples: Vec<i64>, normalize: fn(&Vec<i64>) -> Vec<i64>) -> (Vec<i64>, usize) {
    let filters: Vec<Vec<(usize, i64)>> = vec![vec![(0, 1), (1, 1)], vec![(2, 10)]];
    compute_mel(
        &samples,
        &small(),
        &filters,
        &vec![1, 2],
        0,
        |now: i64, before: i64| now - before,
        |sample: i64, weight: i64| sample * weight,
        |frame: &Vec<i64>| frame[..3].to_vec(),
        |sum: i64, weight: i64, power: i64| sum + weight * power,
        |energy: i64| energy + 1,
        move |band: &Vec<i64>| normalize(band),
    )
}

#[test]
fn mel_features_frame_by_frame() {
    // Emphasized: 1 1 1 1; padded by two zeros on both sides; the window
    // covers the two middle places of each frame of four.
    let (mel, frames) = features(vec![1, 2, 3, 4], |band| band.clone());
    assert_eq!(frames, 3);
    // Frames: [0 0 2 0] from 0 0 1 1, [0 1 2 0] from 1 1 1 1, [0 1 0 0] from 1 1 0 0.
    assert_eq!(mel, vec![1, 21, 2, 21, 2, 1]);
}

#[test]
fn mel_bands_are_normalized_over_the_frames() {
    let (mel, _) = features(vec![1, 2, 3, 4], |band| {
        let lowest = band.iter().min().copied().unwrap_or(0);
        band.iter().map(|v| v - lowest).collect()
    });
    assert_eq!(mel, vec![0, 20, 1, 20, 1, 0]);
}

#[test]
fn a_single_frame_is_not_normalized() {
    let (mel, frames) = features(vec![1], |_| vec![99]);
    assert_eq!(frames, 1);
    assert_eq!(mel, vec![1, 21]);
}

#[test]
fn silence_of_no_length_has_one_frame() {
    let (mel, frames) = features(Vec::new(), |band| band.clone());
    assert_eq!(frames, 1);
    assert_eq!(mel, vec![1, 1]);
}

#[test]
fn bands_rise_to_their_peak_and_fall() {
    let points: Vec<F32Bits> = [0.0, 2.0, 4.0, 6.0].iter().map(|v| bits(*v)).collect();
    let freqs: Vec<F32Bits> = (0..8).map(|v| bits(v as f32)).collect();
    let filters = mel_filterbank(
        2,
        &points,
        &freqs,
        |f: F32Bits, left: F32Bits, center: F32Bits, _right: F32Bits| {
            bits((value(f) - value(left)) / (value(center) - value(left)))
        },
        |f: F32Bits, _left: F32Bits, center: F32Bits, right: F32Bits| {
            bits((value(right) - value(f)) / (value(right) - value(center)))
        },
    );
    let seen: Vec<Vec<(usize, f32)>> = filters
        .iter()
        .map(|filter| filter.iter().map(|(bin, weight)| (*bin, value(*weight))).collect())
        .collect();
    assert_eq!(
        seen,
        vec![vec![(1, 0.5), (2, 1.0), (3, 0.5)], vec![(3, 0.5), (4, 1.0), (5, 0.5)]]
    );
}

#[test]
fn whole_frames_are_counted() {
    assert_eq!(frame_count(0), 0);
    assert_eq!(frame_count(1281), 0);
    assert_eq!(frame_count(1282), 1);
    assert_eq!(frame_count(1282 * 6 + 5), 6);
}

#[test]
fn spectra_are_completed_by_their_mirror_image() {
    // Two frames of magnitudes 0.. and angles 1000..; complex values are pairs.
    let mut features: Vec<i64> = Vec::new();
    for frame in 0..2 {
        features.extend((0..641).map(|bin| bin + 10_000 * frame));
        features.extend((0..641).map(|bin| bin + 1000 + 10_000 * frame));
    }
    let spectrum = frame_spectrum(
        &features,
        1,
        |magnitude: i64, angle: i64| (magnitude, angle),
        |c: (i64, i64)| (c.0, -c.1),
    );
    assert_eq!(spectrum.len(), 1280);
    assert_eq!(spectrum[0], (10_000, 11_000));
    assert_eq!(spectrum[640], (10_640, 11_640));
    assert_eq!(spectrum[641], (10_639, -11_639));
    assert_eq!(spectrum[1279], (10_001, -11_001));
}

#[test]
fn frames_overlap_by_their_step() {
    let frames: Vec<Vec<u32>> = vec![vec![1; 1280]; 3];
    let sums = overlap_add(&frames, 0, |a: u32, b: u32| a + b);
    assert_eq!(sums.len(), 1920);
    assert_eq!(sums[0], 1);
    assert_eq!(sums[319], 1);
    assert_eq!(sums[320], 2);
    assert_eq!(sums[640], 3);
    assert_eq!(sums[1279], 3);
    assert_eq!(sums[1280], 2);
    assert_eq!(sums[1919], 1);
    assert_eq!(overlap_add(&Vec::new(), 0, |a: u32, b: u32| a + b), vec![0; 1280]);
}

#[test]
fn peak_is_the_largest_absolute_value() {
    assert_eq!(value(peak_of(&Vec::new())), 0.0);
    assert_eq!(value(peak_of(&vec![bits(0.5), bits(-2.0), bits(1.0)])), 2.0);
    assert_eq!(value(peak_of(&vec![bits(f32::NAN), bits(-0.0)])), 0.0);
    assert_eq!(value(peak_of(&vec![bits(f32::NEG_INFINITY)])), f32::INFINITY);
}

fn finish(sums: Vec<f32>, norms: Vec<f32>) -> Vec<f32> {
    let sums: Vec<F32Bits> = sums.into_iter().map(bits).collect();
    let norms: Vec<F32Bits> = norms.into_iter().map(bits).collect();
    finish_waveform(
        &sums,
        &norms,
        |sample: F32Bits, norm: F32Bits| bits(value(sample) / value(norm)),
        |sample: F32Bits, peak: F32Bits| bits(value(sample) / value(peak) * 0.5),
    )
    .into_iter()
    .map(value)
    .collect()
}

#[test]
fn waveforms_are_evened_cut_and_leveled() {
    let mut sums = vec![1.0; 1600];
    sums[0] = 8.0;
    sums[600] = -2.0;
    let mut norms = vec![1.0; 1600];
    norms[0] = 2.0;
    norms[700] = 4.0;
    let waveform = finish(sums, norms);
    // Two frames of sound; the peak of four lies in the part that is cut off.
    assert_eq!(waveform.len(), 640);
    assert_eq!(waveform[0], 0.125);
    assert_eq!(waveform[120], -0.25);
    assert_eq!(waveform[220], 0.03125);
}

#[test]
fn samples_under_a_vanishing_window_are_left_alone() {
    assert_eq!(value(F32Bits { bits: NORM_FLOOR_BITS }), 1e-8);
    assert_eq!(finish(vec![1.0, 1.0], vec![1e-8, 0.5]), vec![0.25, 0.5]);
}

#[test]
fn silence_is_not_leveled() {
    assert_eq!(finish(vec![0.0, -0.0], vec![1.0, 1.0]), vec![0.0, -0.0]);
}

#[test]
fn short_waveforms_are_not_cut() {
    assert_eq!(finish(vec![1.0; 960], vec![1.0; 960]).len(), 960);
    assert_eq!(finish(vec![1.0; 961], vec![1.0; 961]).len(), 1);
}

#[test]
fn waveforms_are_made_of_features() {
    // Two frames; the sound of each is its first magnitude throughout, and the
    // window lets everything through.
    let mut features = vec![0u32; 2 * 1282 + 5];
    features[0] = 1;
    features[1282] = 3;
    let waveform = synthesize(
        &features,
        &vec![bits(1.0); 1280],
        |magnitude: u32, _angle: u32| magnitude,
        |value: u32| value,
        |spectrum: Vec<u32>| {
            assert_eq!(spectrum.len(), 1280);
            vec![bits(spectrum[0] as f32); 1280]
        },
        |a: F32Bits, b: F32Bits| bits(value(a) + value(b)),
        |sample: F32Bits, norm: F32Bits| bits(value(sample) / value(norm)),
        |sample: F32Bits, peak: F32Bits| bits(value(sample) / value(peak) * 0.9),
    );
    // Where both frames sound they are evened out to two; the peak of three is
    // that of the second frame alone, and is cut off.
    assert_eq!(waveform, vec![bits(2.0 / 3.0 * 0.9); 640]);
}
