use rppal_softpwm::duty::{
    DUTY_CYCLE_0_DEGREES, DUTY_CYCLE_180_DEGREES, DUTY_CYCLE_RANGE, DUTY_CYCLE_SCALE, MAX_DEGREES,
};
use rppal_softpwm::{degrees_to_duty_cycle, DutyCycle};

fn as_fraction(duty: DutyCycle) -> f64 {
    duty.numerator as f64 / duty.denominator as f64
}

fn by_interpolation(degrees: f64) -> f64 {
    (degrees * ((12.5 - 2.5) / 180.0) + 2.5) / 100.0
}

#[test]
fn duty_cycle_constants() {
    assert_eq!(DUTY_CYCLE_0_DEGREES, 25);
    assert_eq!(DUTY_CYCLE_180_DEGREES, 125);
    assert_eq!(DUTY_CYCLE_RANGE, 100);
    assert_eq!(DUTY_CYCLE_SCALE, 1000);
    assert_eq!(MAX_DEGREES, 180);
}

#[test]
fn duty_cycle_at_zero_degrees_is_the_minimum() {
    let duty = degrees_to_duty_cycle(0);
    assert_eq!(duty, DutyCycle { numerator: 4500, denominator: 180_000 });
    assert_eq!(duty.numerator * 1000, 25 * duty.denominator);
    assert_eq!(as_fraction(duty), 0.025);
}

#[test]
fn duty_cycle_at_180_degrees_is_the_maximum() {
    let duty = degrees_to_duty_cycle(180);
    assert_eq!(duty, DutyCycle { numerator: 22_500, denominator: 180_000 });
    assert_eq!(duty.numerator * 1000, 125 * duty.denominator);
    assert_eq!(as_fraction(duty), 0.125);
}

#[test]
fn duty_cycle_at_90_degrees_is_half_way() {
    let duty = degrees_to_duty_cycle(90);
    assert_eq!(duty, DutyCycle { numerator: 13_500, denominator: 180_000 });
    assert_eq!(as_fraction(duty), 0.075);
}

#[test]
fn duty_cycle_at_one_degree() {
    let duty = degrees_to_duty_cycle(1);
    assert_eq!(duty, DutyCycle { numerator: 4600, denominator: 180_000 });
}

#[test]
fn duty_cycle_never_falls_as_the_angle_rises() {
    for lower in 0..=180u64 {
        for higher in lower..=180u64 {
            let a = degrees_to_duty_cycle(lower);
            let b = degrees_to_duty_cycle(higher);
            assert!(a.numerator * b.denominator <= b.numerator * a.denominator);
            assert!(as_fraction(a) <= as_fraction(b));
        }
    }
}

#[test]
fn duty_cycle_stays_within_the_band() {
    for degrees in 0..=180u64 {
        let duty = degrees_to_duty_cycle(degrees);
        assert!(duty.denominator > 0);
        assert!(duty.numerator <= duty.denominator);
        assert!(25 * duty.denominator <= duty.numerator * 1000);
        assert!(duty.numerator * 1000 <= 125 * duty.denominator);
    }
}

#[test]
fn duty_cycle_follows_the_interpolation() {
    for degrees in 0..=180u64 {
        let exact = as_fraction(degrees_to_duty_cycle(degrees));
        let rounded = by_interpolation(degrees as f64);
        assert!((exact - rounded).abs() < 1e-15, "{} degrees", degrees);
    }
}
