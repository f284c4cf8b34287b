//! Temporal adaptation: exact step values, monotone convergence without
//! overshoot, asymmetric rates, range confinement, the compensation curve,
//! and configuration validation.

use auto_exposure::adapt::{adapt, exported_exposure, CompensationCurve, CurvePoint, ExposureState};
use auto_exposure::{AutoExposure, ConfigError, FP_ONE};

const MIN: i64 = -8 * FP_ONE;
const MAX: i64 = 8 * FP_ONE;

fn config() -> AutoExposure {
    AutoExposure::default()
}

#[test]
fn default_configuration_is_valid() {
    let c = config();
    assert_eq!(c.min, MIN);
    assert_eq!(c.max, MAX);
    assert_eq!(c.low_percent, 60);
    assert_eq!(c.high_percent, 95);
    assert_eq!(c.speed_up, 3 * FP_ONE);
    assert_eq!(c.speed_down, FP_ONE);
    assert!(c.validate().is_ok());
}

#[test]
fn adapt_closes_the_scaled_fraction_of_the_gap() {
    // Gap 1024 upward, factor 512/1024: exactly half the gap is closed.
    let up = adapt(0, FP_ONE, 2 * FP_ONE, FP_ONE, 256);
    assert_eq!(up, 512);
    // The same gap downward at half the rate closes a quarter.
    let down = adapt(0, -FP_ONE, 2 * FP_ONE, FP_ONE, 256);
    assert_eq!(down, -256);
}

#[test]
fn adaptation_is_asymmetric() {
    // Identical |target - current|: the fraction of the gap closed differs
    // with the direction, following speed_up upward and speed_down downward.
    let up = adapt(0, FP_ONE, 2 * FP_ONE, FP_ONE, 256);
    let down = adapt(0, -FP_ONE, 2 * FP_ONE, FP_ONE, 256);
    assert!(up > -down);
    assert_eq!(up, 2 * -down);
}

#[test]
fn adapt_never_overshoots() {
    // A factor at or above one whole gap lands exactly on the target.
    let r = adapt(0, FP_ONE, 2 * FP_ONE, FP_ONE, 512);
    assert_eq!(r, FP_ONE);
    let r2 = adapt(0, FP_ONE, 100 * FP_ONE, FP_ONE, FP_ONE);
    assert_eq!(r2, FP_ONE);
}

#[test]
fn half_steps_land_close_to_one_full_step() {
    // One second at rate 1/2 versus two half-second steps: both end
    // between start and target, a bucket's width apart (gap * (f/2)^2 / 4).
    let target: i64 = 10 * FP_ONE;
    let speed: i64 = FP_ONE / 2;
    let full = adapt(0, target, speed, speed, FP_ONE);
    let half1 = adapt(0, target, speed, speed, FP_ONE / 2);
    let half2 = adapt(half1, target, speed, speed, FP_ONE / 2);
    assert_eq!(full, 5120);
    assert_eq!(half2, 4480);
    assert!(0 <= half2 && half2 <= target);
    assert!(0 <= full && full <= target);
    assert_eq!(full - half2, 640);
}

#[test]
fn convergence_toward_constant_target_is_monotone() {
    let target: i64 = 4 * FP_ONE;
    let mut current: i64 = -4 * FP_ONE;
    for _ in 0..200 {
        let next = adapt(current, target, FP_ONE, FP_ONE, 17);
        assert!(current <= next && next <= target);
        current = next;
    }
    // After many frames the state has closed most of the gap.
    assert!(target - current < FP_ONE);
}

#[test]
fn state_stays_in_range_over_any_frame_sequence() {
    let c = config();
    let mut state = ExposureState::new();
    let instants = [MIN, MAX, 0, MAX, MIN, -3 * FP_ONE, MAX, MIN, MIN, MAX];
    for (i, &instant) in instants.iter().enumerate() {
        let dt = 1 + (i as i64) * 97;
        state.frame_update(instant, &c, dt);
        assert!(c.min <= state.current_log_luminance && state.current_log_luminance <= c.max);
    }
}

#[test]
fn curve_interpolates_between_control_points() {
    let curve = CompensationCurve {
        points: vec![
            CurvePoint { log_lum: -2 * FP_ONE, offset: -FP_ONE / 2 },
            CurvePoint { log_lum: 2 * FP_ONE, offset: FP_ONE / 2 },
        ],
    };
    assert!(curve.validate());
    assert_eq!(curve.eval(0), 0);
    assert_eq!(curve.eval(FP_ONE), 256);
    // The ends clamp.
    assert_eq!(curve.eval(-4 * FP_ONE), -512);
    assert_eq!(curve.eval(4 * FP_ONE), 512);
}

#[test]
fn curve_walks_to_the_right_segment() {
    let curve = CompensationCurve {
        points: vec![
            CurvePoint { log_lum: -2 * FP_ONE, offset: -FP_ONE / 2 },
            CurvePoint { log_lum: 0, offset: 0 },
            CurvePoint { log_lum: 2 * FP_ONE, offset: FP_ONE },
        ],
    };
    assert!(curve.validate());
    assert_eq!(curve.eval(-FP_ONE), -256);
    assert_eq!(curve.eval(FP_ONE), 512);
    assert_eq!(curve.eval(2 * FP_ONE), FP_ONE);
    assert_eq!(curve.eval(3 * FP_ONE), FP_ONE);
}

#[test]
fn single_point_curve_is_constant() {
    let curve = CompensationCurve { points: vec![CurvePoint { log_lum: 0, offset: 77 }] };
    assert!(curve.validate());
    assert_eq!(curve.eval(-FP_ONE), 77);
    assert_eq!(curve.eval(0), 77);
    assert_eq!(curve.eval(FP_ONE), 77);
}

#[test]
fn empty_curve_adds_nothing() {
    let curve = CompensationCurve { points: vec![] };
    assert!(curve.validate());
    assert_eq!(curve.eval(123), 0);
}

#[test]
fn curve_out_of_order_is_rejected() {
    let curve = CompensationCurve {
        points: vec![
            CurvePoint { log_lum: FP_ONE, offset: 0 },
            CurvePoint { log_lum: 0, offset: 0 },
        ],
    };
    assert!(!curve.validate());
    let mut c = config();
    c.compensation_curve = Some(curve);
    assert_eq!(c.validate(), Err(ConfigError::InvalidCurve));
}

#[test]
fn exported_value_adds_correction_and_curve() {
    let curve = CompensationCurve {
        points: vec![
            CurvePoint { log_lum: -2 * FP_ONE, offset: -FP_ONE / 2 },
            CurvePoint { log_lum: 2 * FP_ONE, offset: FP_ONE / 2 },
        ],
    };
    assert_eq!(exported_exposure(FP_ONE, 100, &Some(curve)), FP_ONE + 100 + 256);
    assert_eq!(exported_exposure(FP_ONE, 100, &None), FP_ONE + 100);
}

#[test]
fn malformed_configurations_are_rejected() {
    let mut c = config();
    c.min = c.max;
    assert_eq!(c.validate(), Err(ConfigError::EmptyRange));

    let mut c = config();
    c.low_percent = 95;
    c.high_percent = 60;
    assert_eq!(c.validate(), Err(ConfigError::InvalidPercentiles));

    let mut c = config();
    c.high_percent = 101;
    assert_eq!(c.validate(), Err(ConfigError::InvalidPercentiles));

    let mut c = config();
    c.speed_down = -1;
    assert_eq!(c.validate(), Err(ConfigError::NegativeRate));

    let mut c = config();
    c.correction = i64::MAX;
    assert_eq!(c.validate(), Err(ConfigError::OutOfRange));

    // The first violated rule names the error: an empty range outranks the
    // percentile check.
    let mut c = config();
    c.min = c.max;
    c.low_percent = 95;
    c.high_percent = 60;
    assert_eq!(c.validate(), Err(ConfigError::EmptyRange));
}
