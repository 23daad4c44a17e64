use bbr::sampler::sampler_step;
use bbr::sampler::SampleResult;
use bbr::sampler::SamplerState;
use bbr::sampler::DISTANCE_SCALE;
use bbr::sampler::SAMPLER_TIMEOUT_LIMIT;
use bbr::sampler::SPEED_OF_SOUND;

/// Drive a round trip over a synthetic echo line: `readings(i)` is the
/// echo level at time unit `i`. Returns the outcome and how many readings
/// were consumed.
fn run<F: Fn(u32) -> bool>(readings: F) -> (SampleResult, u32) {
    let mut state = SamplerState::initial();
    let mut consumed: u32 = 0;
    loop {
        if let SamplerState::Done { result } = state {
            return (result, consumed);
        }
        state = sampler_step(state, readings(consumed));
        consumed += 1;
        assert!(consumed <= 2 * (SAMPLER_TIMEOUT_LIMIT + 1), "sampler failed to terminate");
    }
}

#[test]
fn echo_never_rises_times_out() {
    let (result, consumed) = run(|_| false);
    assert_eq!(result, SampleResult::RiseTimeout);
    assert_eq!(consumed, SAMPLER_TIMEOUT_LIMIT + 1);
}

#[test]
fn echo_never_falls_times_out() {
    let (result, _) = run(|_| true);
    assert_eq!(result, SampleResult::FallTimeout);
}

#[test]
fn echo_rises_late_then_never_falls() {
    let (result, _) = run(|i| i >= 5);
    assert_eq!(result, SampleResult::FallTimeout);
}

#[test]
fn round_trip_distance_is_scaled_elapsed() {
    // Echo rises at once and stays high for 1000 time units past the rise.
    let d: u32 = 1000;
    let (result, _) = run(|i| i < 1 + d);
    assert_eq!(result, SampleResult::Distance(d * SPEED_OF_SOUND));
}

#[test]
fn immediate_fall_gives_zero_distance() {
    // One high reading, then low: no time counted in the fall phase.
    let (result, _) = run(|i| i == 0);
    assert_eq!(result, SampleResult::Distance(0));
}

#[test]
fn scaled_distance_matches_physical_formula() {
    // distance = elapsed * 343 / 2000 in physical units; the scaled result
    // divided by the scale must agree with the floating-point formula.
    let d: u32 = 1000;
    let (result, _) = run(|i| i < 1 + d);
    match result {
        SampleResult::Distance(scaled) => {
            let physical = scaled as f64 / DISTANCE_SCALE as f64;
            let expected = d as f64 * 343.0 / 2000.0;
            assert!((physical - expected).abs() < 1e-9);
        }
        other => panic!("expected a distance, got {:?}", other),
    }
}
