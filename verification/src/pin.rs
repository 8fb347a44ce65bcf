//! The pins that a tool can drive, by their BCM numbers.

use vstd::prelude::*;

verus! {

/// Lowest BCM number of a pin that can be driven.
pub const FIRST_PIN: u8 = 1;

/// Highest BCM number of a pin that can be driven.
pub const LAST_PIN: u8 = 27;

/// A GPIO pin of the board, named by its BCM number.
#[derive(Clone, Copy, Debug, PartialEq, Eq, Structural)]
pub enum BcmPin {
    Pin1,
    Pin2,
    Pin3,
    Pin4,
    Pin5,
    Pin6,
    Pin7,
    Pin8,
    Pin9,
    Pin10,
    Pin11,
    Pin12,
    Pin13,
    Pin14,
    Pin15,
    Pin16,
    Pin17,
    Pin18,
    Pin19,
    Pin20,
    Pin21,
    Pin22,
    Pin23,
    Pin24,
    Pin25,
    Pin26,
    Pin27,
}

impl BcmPin {
    /// The BCM number of the pin.
    pub open spec fn bcm(self) -> u8 {
        match self {
            BcmPin::Pin1 => 1,
            BcmPin::Pin2 => 2,
            BcmPin::Pin3 => 3,
            BcmPin::Pin4 => 4,
            BcmPin::Pin5 => 5,
            BcmPin::Pin6 => 6,
            BcmPin::Pin7 => 7,
            BcmPin::Pin8 => 8,
            BcmPin::Pin9 => 9,
            BcmPin::Pin10 => 10,
            BcmPin::Pin11 => 11,
            BcmPin::Pin12 => 12,
            BcmPin::Pin13 => 13,
            BcmPin::Pin14 => 14,
            BcmPin::Pin15 => 15,
            BcmPin::Pin16 => 16,
            BcmPin::Pin17 => 17,
            BcmPin::Pin18 => 18,
            BcmPin::Pin19 => 19,
            BcmPin::Pin20 => 20,
            BcmPin::Pin21 => 21,
            BcmPin::Pin22 => 22,
            BcmPin::Pin23 => 23,
            BcmPin::Pin24 => 24,
            BcmPin::Pin25 => 25,
            BcmPin::Pin26 => 26,
            BcmPin::Pin27 => 27,
        }
    }

    /// The BCM number of the pin, by which the board knows it.
    pub fn number(self) -> (number: u8)
        ensures
            number == self.bcm(),
            FIRST_PIN <= number <= LAST_PIN,
    {
        match self {
            BcmPin::Pin1 => 1,
            BcmPin::Pin2 => 2,
            BcmPin::Pin3 => 3,
            BcmPin::Pin4 => 4,
            BcmPin::Pin5 => 5,
            BcmPin::Pin6 => 6,
            BcmPin::Pin7 => 7,
            BcmPin::Pin8 => 8,
            BcmPin::Pin9 => 9,
            BcmPin::Pin10 => 10,
            BcmPin::Pin11 => 11,
            BcmPin::Pin12 => 12,
            BcmPin::Pin13 => 13,
            BcmPin::Pin14 => 14,
            BcmPin::Pin15 => 15,
            BcmPin::Pin16 => 16,
            BcmPin::Pin17 => 17,
            BcmPin::Pin18 => 18,
            BcmPin::Pin19 => 19,
            BcmPin::Pin20 => 20,
            BcmPin::Pin21 => 21,
            BcmPin::Pin22 => 22,
            BcmPin::Pin23 => 23,
            BcmPin::Pin24 => 24,
            BcmPin::Pin25 => 25,
            BcmPin::Pin26 => 26,
            BcmPin::Pin27 => 27,
        }
    }

    /// The pin with the BCM number `number`; there is one for each number
    /// from 1 to 27 and for no other.
    pub fn from_number(number: u8) -> (pin: Option<BcmPin>)
        ensures
            pin is Some <==> FIRST_PIN <= number <= LAST_PIN,
            pin matches Some(found) ==> found.bcm() == number,
    {
        match number {
            1 => Some(BcmPin::Pin1),
            2 => Some(BcmPin::Pin2),
            3 => Some(BcmPin::Pin3),
            4 => Some(BcmPin::Pin4),
            5 => Some(BcmPin::Pin5),
            6 => Some(BcmPin::Pin6),
            7 => Some(BcmPin::Pin7),
            8 => Some(BcmPin::Pin8),
            9 => Some(BcmPin::Pin9),
            10 => Some(BcmPin::Pin10),
            11 => Some(BcmPin::Pin11),
            12 => Some(BcmPin::Pin12),
            13 => Some(BcmPin::Pin13),
            14 => Some(BcmPin::Pin14),
            15 => Some(BcmPin::Pin15),
            16 => Some(BcmPin::Pin16),
            17 => Some(BcmPin::Pin17),
            18 => Some(BcmPin::Pin18),
            19 => Some(BcmPin::Pin19),
            20 => Some(BcmPin::Pin20),
            21 => Some(BcmPin::Pin21),
            22 => Some(BcmPin::Pin22),
            23 => Some(BcmPin::Pin23),
            24 => Some(BcmPin::Pin24),
            25 => Some(BcmPin::Pin25),
            26 => Some(BcmPin::Pin26),
            27 => Some(BcmPin::Pin27),
            _ => None,
        }
    }
}

/// Two pins with one number are one pin.
pub proof fn lemma_pin_by_number(one: BcmPin, other: BcmPin)
    requires
        one.bcm() == other.bcm(),
    ensures
        one == other,
{
}

} // verus!
