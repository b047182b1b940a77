use stoilib::error::StoiError;
use stoilib::filter::filter_geometry;
use stoilib::rates::{output_len, resample_plan, ResamplePlan, ResampleRatio};

#[test]
fn ratio_reduces_rates() {
    let ratio = ResampleRatio::new(44100, 10000).unwrap();
    assert_eq!(ratio.up, 100);
    assert_eq!(ratio.down, 441);
}

#[test]
fn ratio_reduction_is_not_trivial() {
    // The reduction divides both rates by their greatest common divisor; a
    // gcd that simply echoed one argument would give (1, 0) or (1, 1) here.
    let ratio = ResampleRatio::new(12, 18).unwrap();
    assert_eq!(ratio.up, 3);
    assert_eq!(ratio.down, 2);
}

#[test]
fn ratio_rejects_zero_rates() {
    assert_eq!(ResampleRatio::new(0, 10000), Err(StoiError::InvalidSampleRate));
    assert_eq!(ResampleRatio::new(10000, 0), Err(StoiError::InvalidSampleRate));
    assert_eq!(ResampleRatio::new(0, 0), Err(StoiError::InvalidSampleRate));
}

#[test]
fn ratio_of_equal_rates_is_unit() {
    let ratio = ResampleRatio::new(48000, 48000).unwrap();
    assert_eq!(ratio.up, 1);
    assert_eq!(ratio.down, 1);
}

#[test]
fn plan_is_identity_exactly_for_equal_rates() {
    assert_eq!(resample_plan(10000, 10000), Ok(ResamplePlan::Identity));
    assert_eq!(resample_plan(1, 1), Ok(ResamplePlan::Identity));
    let plan = resample_plan(8000, 10000).unwrap();
    assert_eq!(plan, ResamplePlan::Polyphase(ResampleRatio { up: 5, down: 4 }));
    let plan = resample_plan(44100, 10000).unwrap();
    assert_eq!(plan, ResamplePlan::Polyphase(ResampleRatio { up: 100, down: 441 }));
}

#[test]
fn plan_rejects_zero_rates() {
    assert_eq!(resample_plan(0, 10000), Err(StoiError::InvalidSampleRate));
    assert_eq!(resample_plan(10000, 0), Err(StoiError::InvalidSampleRate));
}

#[test]
fn output_length_follows_the_ratio() {
    assert_eq!(output_len(44100, 100, 441), 10000);
    assert_eq!(output_len(8000, 5, 4), 10000);
    assert_eq!(output_len(0, 5, 4), 0);
    assert_eq!(output_len(7, 1, 2), 3);
}

#[test]
fn filter_geometry_for_cd_rate() {
    let g = filter_geometry(100, 441);
    assert_eq!(g.half_length, 15973);
    assert_eq!(g.filter_length, 31947);
    assert_eq!(g.phase_length, 320);
    assert_eq!(g.padding, 159);
}

#[test]
fn filter_geometry_for_unit_ratio() {
    let g = filter_geometry(1, 1);
    assert_eq!(g.half_length, 37);
    assert_eq!(g.filter_length, 75);
    assert_eq!(g.phase_length, 75);
    assert_eq!(g.padding, 37);
}

#[test]
fn filter_geometry_for_upsampling() {
    let g = filter_geometry(5, 4);
    assert_eq!(g.half_length, 182);
    assert_eq!(g.filter_length, 365);
    assert_eq!(g.phase_length, 73);
    assert_eq!(g.padding, 36);
}
