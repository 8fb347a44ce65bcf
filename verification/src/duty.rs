//! Servo duty cycles as exact fractions of the PWM period.
//!
//! A hobby servo reads its target angle from the share of each PWM period
//! during which the signal is high. The share grows linearly with the angle,
//! from [`DUTY_CYCLE_0_DEGREES`] to [`DUTY_CYCLE_180_DEGREES`]. It is kept
//! here as a fraction of two integers, so that nothing is rounded before the
//! value reaches the pin.

use vstd::prelude::*;

verus! {

/// Duty cycle that holds a servo at 0 degrees, in thousandths of the period.
pub const DUTY_CYCLE_0_DEGREES: u64 = 25;

/// Duty cycle that holds a servo at 180 degrees, in thousandths of the period.
pub const DUTY_CYCLE_180_DEGREES: u64 = 125;

/// Width of the band of duty cycles that the full swing of a servo covers.
pub const DUTY_CYCLE_RANGE: u64 = DUTY_CYCLE_180_DEGREES - DUTY_CYCLE_0_DEGREES;

/// Number of parts of the period in which the three constants above count.
pub const DUTY_CYCLE_SCALE: u64 = 1000;

/// Largest angle, in degrees, that a servo can be sent to.
pub const MAX_DEGREES: u64 = 180;

/// The share of a PWM period during which the signal is high:
/// `numerator / denominator`.
#[derive(Clone, Copy, Debug, PartialEq, Eq, Structural)]
pub struct DutyCycle {
    pub numerator: u64,
    pub denominator: u64,
}

impl DutyCycle {
    /// The fraction is defined and lies between 0 and 1.
    pub open spec fn wf(self) -> bool {
        0 < self.denominator && self.numerator <= self.denominator
    }

    /// `self <= other`, as fractions.
    pub open spec fn at_most(self, other: DutyCycle) -> bool {
        self.numerator * other.denominator <= other.numerator * self.denominator
    }

    /// `self == other`, as fractions.
    pub open spec fn same_share(self, other: DutyCycle) -> bool {
        self.numerator * other.denominator == other.numerator * self.denominator
    }
}

/// The duty cycle of 0 degrees.
pub open spec fn min_duty_cycle() -> DutyCycle {
    DutyCycle { numerator: DUTY_CYCLE_0_DEGREES, denominator: DUTY_CYCLE_SCALE }
}

/// The duty cycle of 180 degrees.
pub open spec fn max_duty_cycle() -> DutyCycle {
    DutyCycle { numerator: DUTY_CYCLE_180_DEGREES, denominator: DUTY_CYCLE_SCALE }
}

/// The duty cycle of an angle: the point between the two ends of the band
/// that lies `degrees / 180` of the way up,
/// `(DUTY_CYCLE_0_DEGREES + degrees * DUTY_CYCLE_RANGE / 180) / 1000`,
/// written over the common denominator `180 * 1000`.
pub open spec fn duty_cycle_of(degrees: u64) -> DutyCycle
    recommends
        degrees <= MAX_DEGREES,
{
    DutyCycle {
        numerator: (MAX_DEGREES * DUTY_CYCLE_0_DEGREES + degrees * DUTY_CYCLE_RANGE) as u64,
        denominator: (MAX_DEGREES * DUTY_CYCLE_SCALE) as u64,
    }
}

/// Converts an angle in degrees to the duty cycle that sends a servo there.
pub fn degrees_to_duty_cycle(degrees: u64) -> (duty: DutyCycle)
    requires
        degrees <= MAX_DEGREES,
    ensures
        duty == duty_cycle_of(degrees),
        duty.wf(),
{
    proof {
        lemma_duty_cycle_in_numbers(degrees);
    }
    let offset: u64 = MAX_DEGREES * DUTY_CYCLE_0_DEGREES;
    let climb: u64 = degrees * DUTY_CYCLE_RANGE;
    DutyCycle { numerator: offset + climb, denominator: MAX_DEGREES * DUTY_CYCLE_SCALE }
}

/// The duty cycle of an angle within the swing, with the constants worked out.
pub proof fn lemma_duty_cycle_in_numbers(degrees: u64)
    requires
        degrees <= MAX_DEGREES,
    ensures
        duty_cycle_of(degrees).numerator == 4500 + 100 * degrees,
        duty_cycle_of(degrees).denominator == 180_000,
        duty_cycle_of(degrees).wf(),
{
    assert(MAX_DEGREES * DUTY_CYCLE_0_DEGREES == 4500);
    assert(MAX_DEGREES * DUTY_CYCLE_SCALE == 180_000);
    assert(degrees * DUTY_CYCLE_RANGE == 100 * degrees);
}

/// The duty cycle never falls as the angle rises: of two angles within the
/// swing, the larger has the larger or the same duty cycle.
pub proof fn lemma_duty_cycle_monotonic(lower: u64, higher: u64)
    requires
        lower <= higher <= MAX_DEGREES,
    ensures
        duty_cycle_of(lower).at_most(duty_cycle_of(higher)),
{
    lemma_duty_cycle_in_numbers(lower);
    lemma_duty_cycle_in_numbers(higher);
}

/// 0 degrees gives the least duty cycle of the band and 180 degrees the
/// greatest.
pub proof fn lemma_duty_cycle_ends()
    ensures
        duty_cycle_of(0).same_share(min_duty_cycle()),
        duty_cycle_of(MAX_DEGREES).same_share(max_duty_cycle()),
{
    lemma_duty_cycle_in_numbers(0);
    lemma_duty_cycle_in_numbers(MAX_DEGREES);
}

/// Every angle within the swing has a duty cycle within the band.
pub proof fn lemma_duty_cycle_within_band(degrees: u64)
    requires
        degrees <= MAX_DEGREES,
    ensures
        min_duty_cycle().at_most(duty_cycle_of(degrees)),
        duty_cycle_of(degrees).at_most(max_duty_cycle()),
{
    lemma_duty_cycle_in_numbers(degrees);
}

} // verus!
