use tone_detector::CSample;
use tone_detector::QSample;
use tone_detector::ReferenceWaveform;
use tone_detector::convert_block;
use tone_detector::detect_step;
use tone_detector::run_detect;

const SAMPLES: usize = 4096;
const AMPLITUDE: f64 = 2000.0;
const TONE_HZ: f64 = 10e3;
const SAMPLE_RATE_HZ: f64 = 520834.0;

/// The quantized reference tone: a complex exponential at the baseband
/// tone frequency, scaled by the amplitude constant and truncated.
fn quantized_tone() -> Vec<QSample> {
    let theta_step = TONE_HZ * std::f64::consts::PI * 2.0 / SAMPLE_RATE_HZ;
    let mut theta: f64 = 0.0;
    let mut tone = Vec::with_capacity(SAMPLES);
    for _ in 0..SAMPLES {
        tone.push(QSample {
            re: (f64::cos(theta) * AMPLITUDE) as i16,
            im: (f64::sin(theta) * AMPLITUDE) as i16,
        });
        theta += theta_step;
    }
    tone
}

#[test]
fn reference_waveform_holds_conjugated_wide_copy() {
    let tone = quantized_tone();
    let w = ReferenceWaveform::build(tone.clone());
    assert_eq!(w.tx_block, tone);
    assert_eq!(w.detect_ref.len(), tone.len());
    for k in 0..tone.len() {
        assert_eq!(w.detect_ref[k].re, tone[k].re as i64);
        assert_eq!(w.detect_ref[k].im, -(tone[k].im as i64));
    }
}

#[test]
fn self_correlation_magnitude_matches_block_energy() {
    let tone = quantized_tone();
    let w = ReferenceWaveform::build(tone.clone());
    let mut scratch = vec![CSample { re: 0, im: 0 }; SAMPLES];
    let mag_sq = detect_step(&tone, &w.detect_ref, &mut scratch);

    // Correlating a block against its own conjugate sums |sample|^2, so
    // the quadrature part of the sum vanishes and the magnitude is the
    // exact block energy.
    let energy: i128 = tone
        .iter()
        .map(|q| {
            let re = q.re as i128;
            let im = q.im as i128;
            re * re + im * im
        })
        .sum();
    assert_eq!(mag_sq, energy * energy);

    // And that energy sits at the analytic value N * amplitude^2 for a
    // unit-magnitude tone, up to quantization of the samples.
    let mag = (mag_sq as f64).sqrt();
    let expected = SAMPLES as f64 * AMPLITUDE * AMPLITUDE;
    let rel = (mag - expected).abs() / expected;
    assert!(rel < 0.01, "relative error {rel} too large: mag {mag} vs {expected}");
}

#[test]
fn echoed_stream_detects_at_self_correlation_every_iteration() {
    let tone = quantized_tone();
    let w = ReferenceWaveform::build(tone.clone());

    let mut scratch = vec![CSample { re: 0, im: 0 }; SAMPLES];
    let self_corr = detect_step(&tone, &w.detect_ref, &mut scratch);

    // A mock receive stream that echoes the transmitted block back.
    let iterations = 5;
    let blocks: Vec<Vec<QSample>> = (0..iterations).map(|_| tone.clone()).collect();
    let mags = run_detect(&blocks, &w.detect_ref);

    assert_eq!(mags.len(), iterations);
    for m in mags {
        assert_eq!(m, self_corr);
    }
}

#[test]
fn detect_step_on_a_single_sample_block() {
    // rx = 3 + 4i, reference = 2 + 1i:
    // product = (3*2 - 4*1) + (3*1 + 4*2)i = 2 + 11i, |sum|^2 = 125.
    let rx = vec![QSample { re: 3, im: 4 }];
    let reference = vec![CSample { re: 2, im: 1 }];
    let mut scratch = vec![CSample { re: 0, im: 0 }];
    let mag_sq = detect_step(&rx, &reference, &mut scratch);
    assert_eq!(mag_sq, 125);
    assert_eq!(scratch, vec![CSample { re: 2, im: 11 }]);
}

#[test]
fn detect_loop_with_no_blocks_reports_nothing() {
    let reference = vec![CSample { re: 1, im: 0 }];
    let blocks: Vec<Vec<QSample>> = Vec::new();
    let mags = run_detect(&blocks, &reference);
    assert!(mags.is_empty());
}

#[test]
fn convert_then_correlate_uses_exact_integer_values() {
    // An out-of-phase pair cancels exactly: the correlation of a block
    // against the conjugate of an orthogonal block is zero.
    let rx = vec![QSample { re: 100, im: 0 }, QSample { re: -100, im: 0 }];
    let reference_src = vec![QSample { re: 50, im: 0 }, QSample { re: 50, im: 0 }];
    let reference = convert_block(&reference_src);
    let mut scratch = vec![CSample { re: 0, im: 0 }; 2];
    let mag_sq = detect_step(&rx, &reference, &mut scratch);
    assert_eq!(mag_sq, 0);
}
