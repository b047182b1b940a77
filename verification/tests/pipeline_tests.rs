use stoilib::bands::{band_bin_range, band_edges};
use stoilib::batch::fill_failures;
use stoilib::error::StoiError;
use stoilib::pipeline::stoi_plan;
use stoilib::rates::ResamplePlan;

#[test]
fn mismatched_lengths_are_a_shape_error() {
    assert_eq!(stoi_plan(100, 101, 10000), Err(StoiError::ShapeMismatch));
    assert_eq!(stoi_plan(0, 1, 10000), Err(StoiError::ShapeMismatch));
}

#[test]
fn zero_rate_is_rejected_after_the_shape_check() {
    assert_eq!(stoi_plan(100, 100, 0), Err(StoiError::InvalidSampleRate));
    // The shape check comes first.
    assert_eq!(stoi_plan(100, 101, 0), Err(StoiError::ShapeMismatch));
}

#[test]
fn short_signals_are_rejected() {
    // One frame needs more than 256 samples at the analysis rate.
    assert_eq!(stoi_plan(100, 100, 10000), Err(StoiError::SignalTooShort));
    assert_eq!(stoi_plan(256, 256, 10000), Err(StoiError::SignalTooShort));
    // 512 samples at 20 kHz resample to 256: still too short.
    assert_eq!(stoi_plan(512, 512, 20000), Err(StoiError::SignalTooShort));
}

#[test]
fn plan_at_the_analysis_rate_passes_signals_through() {
    let plan = stoi_plan(10000, 10000, 10000).unwrap();
    assert_eq!(plan.resample, ResamplePlan::Identity);
    assert_eq!(plan.resampled_len, 10000);
    assert_eq!(plan.frame_count, 77);
}

#[test]
fn plan_resamples_a_cd_rate_second() {
    let plan = stoi_plan(44100, 44100, 44100).unwrap();
    match plan.resample {
        ResamplePlan::Polyphase(ratio) => {
            assert_eq!(ratio.up, 100);
            assert_eq!(ratio.down, 441);
        }
        ResamplePlan::Identity => panic!("equal rates were not requested"),
    }
    assert_eq!(plan.resampled_len, 10000);
    assert_eq!(plan.frame_count, 77);
}

#[test]
fn band_edges_are_the_fixed_table() {
    let edges = band_edges();
    assert_eq!(edges, vec![7, 9, 11, 14, 17, 22, 27, 34, 43, 55, 69, 87, 109, 138, 174, 219]);
}

#[test]
fn band_ranges_tile_the_spectrum() {
    assert_eq!(band_bin_range(0), (7, 9));
    assert_eq!(band_bin_range(14), (174, 219));
    for band in 0..14 {
        let (_, hi) = band_bin_range(band);
        let (lo, _) = band_bin_range(band + 1);
        assert_eq!(hi, lo);
    }
    for band in 0..15 {
        let (lo, hi) = band_bin_range(band);
        assert!(lo < hi && hi < 257);
    }
}

#[test]
fn batch_keeps_scores_and_substitutes_the_fallback() {
    let results: Vec<Result<f64, StoiError>> =
        vec![Ok(0.5), Err(StoiError::SignalTooShort), Ok(-0.1)];
    let merged = fill_failures(&results, 1e-5);
    assert_eq!(merged, vec![0.5, 1e-5, -0.1]);
}

#[test]
fn batch_of_nothing_is_nothing() {
    let results: Vec<Result<f64, StoiError>> = vec![];
    let merged = fill_failures(&results, 1e-5);
    assert!(merged.is_empty());
}

#[test]
fn batch_equals_sequential_single_calls() {
    // Score each pair alone, then as one batch; the outcomes agree pair by
    // pair, with the fallback standing in for the failing pair.
    let pairs = vec![(10000usize, 10000usize, 10000usize), (100, 100, 10000), (44100, 44100, 44100)];
    let single: Vec<Result<usize, StoiError>> =
        pairs.iter().map(|&(x, y, fs)| stoi_plan(x, y, fs).map(|p| p.frame_count)).collect();
    let merged = fill_failures(&single, 0);
    for (i, &(x, y, fs)) in pairs.iter().enumerate() {
        match stoi_plan(x, y, fs) {
            Ok(p) => assert_eq!(merged[i], p.frame_count),
            Err(_) => assert_eq!(merged[i], 0),
        }
    }
    assert_eq!(merged, vec![77, 0, 77]);
}
