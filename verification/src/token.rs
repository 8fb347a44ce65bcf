//! The `angle:time` tokens that name one step of a sequence.
//!
//! A token is a number of degrees, a colon and a number of milliseconds:
//! `90:1000` holds a servo at 90 degrees for one second. Both numbers are
//! written as std reads a `u64`: decimal digits, with one `+` allowed in
//! front. The grammar is stated over the bytes of the token.

use crate::duty::MAX_DEGREES;
use vstd::prelude::*;
use vstd::slice::slice_subrange;
use vstd::string::StringSliceAdditionalSpecFns;

verus! {

/// The byte `:`, which parts the angle from the time.
pub const COLON: u8 = 58;

/// The byte `+`, the sign that may stand in front of a number.
pub const PLUS: u8 = 43;

/// The byte `0`, the first of the ten digits.
pub const DIGIT_0: u8 = 48;

/// The byte `9`, the last of the ten digits.
pub const DIGIT_9: u8 = 57;

/// Why a token was refused.
#[derive(Clone, Copy, Debug, PartialEq, Eq, Structural)]
pub enum TokenError {
    /// The token does not hold exactly one colon.
    Format,
    /// What stands before the colon is not a number.
    Angle,
    /// The angle is a number above 180.
    Range,
    /// What stands after the colon is not a number.
    Time,
}

impl TokenError {
    /// The words that tell a user of this error.
    pub open spec fn text(self) -> Seq<char> {
        match self {
            TokenError::Format => "Invalid format"@,
            TokenError::Angle => "Invalid angle"@,
            TokenError::Range => "Angle must be between 0 and 180"@,
            TokenError::Time => "Invalid time"@,
        }
    }

    /// The words that tell a user of this error.
    pub fn message(&self) -> (words: &'static str)
        ensures
            words@ == self.text(),
    {
        match self {
            TokenError::Format => "Invalid format",
            TokenError::Angle => "Invalid angle",
            TokenError::Range => "Angle must be between 0 and 180",
            TokenError::Time => "Invalid time",
        }
    }
}

/// `byte` is one of the ten decimal digits.
pub open spec fn is_digit(byte: u8) -> bool {
    DIGIT_0 <= byte <= DIGIT_9
}

/// What a digit counts for; a byte that is no digit counts for nothing.
pub open spec fn digit_value(byte: u8) -> nat {
    if is_digit(byte) {
        (byte - DIGIT_0) as nat
    } else {
        0
    }
}

/// Every byte of `text` is a digit.
pub open spec fn all_digits(text: Seq<u8>) -> bool {
    forall|i: int| 0 <= i < text.len() ==> is_digit(#[trigger] text[i])
}

/// The number that a run of digits writes in base ten.
pub open spec fn decimal_value(digits: Seq<u8>) -> nat
    decreases digits.len(),
{
    if digits.len() == 0 {
        0
    } else {
        decimal_value(digits.drop_last()) * 10 + digit_value(digits.last())
    }
}

/// `text` without the one `+` that may stand in front of it.
pub open spec fn unsigned_part(text: Seq<u8>) -> Seq<u8> {
    if text.len() > 0 && text[0] == PLUS {
        text.drop_first()
    } else {
        text
    }
}

/// `text` is written as a number: at least one digit and nothing but
/// digits, after the `+` that may stand in front.
pub open spec fn is_numeral(text: Seq<u8>) -> bool {
    unsigned_part(text).len() > 0 && all_digits(unsigned_part(text))
}

/// The number that `text` is read as: that which its digits write, where it
/// is a numeral and the number fits 64 bits.
pub open spec fn number_of(text: Seq<u8>) -> Option<u64> {
    if is_numeral(text) && decimal_value(unsigned_part(text)) <= u64::MAX {
        Some(decimal_value(unsigned_part(text)) as u64)
    } else {
        None
    }
}

/// No byte of `text` is a colon.
pub open spec fn colon_free(text: Seq<u8>) -> bool {
    forall|i: int| 0 <= i < text.len() ==> #[trigger] text[i] != COLON
}

/// Where the first colon of `text` stands; the length of `text` where it
/// holds none.
pub open spec fn first_colon(text: Seq<u8>) -> int
    decreases text.len(),
{
    if text.len() == 0 || text[0] == COLON {
        0
    } else {
        1 + first_colon(text.drop_first())
    }
}

/// The step that an angle and a time name, once parted. The angle is looked
/// at first, and its range before the time.
pub open spec fn pair_of(angle: Seq<u8>, time: Seq<u8>) -> Result<(u64, u64), TokenError> {
    match number_of(angle) {
        None => Err(TokenError::Angle),
        Some(degrees) => if degrees > MAX_DEGREES {
            Err(TokenError::Range)
        } else {
            match number_of(time) {
                None => Err(TokenError::Time),
                Some(millis) => Ok((degrees, millis)),
            }
        },
    }
}

/// The step that a token names: it is parted at its colon, of which it must
/// hold exactly one.
pub open spec fn token_of(text: Seq<u8>) -> Result<(u64, u64), TokenError> {
    let at = first_colon(text);
    if at < text.len() && colon_free(text.skip(at + 1)) {
        pair_of(text.take(at), text.skip(at + 1))
    } else {
        Err(TokenError::Format)
    }
}

/// `first_colon` is the least position that holds a colon.
pub proof fn lemma_first_colon(text: Seq<u8>)
    ensures
        0 <= first_colon(text) <= text.len(),
        colon_free(text.take(first_colon(text))),
        first_colon(text) < text.len() ==> text[first_colon(text)] == COLON,
    decreases text.len(),
{
    if text.len() == 0 || text[0] == COLON {
    } else {
        let rest = text.drop_first();
        lemma_first_colon(rest);
        let at = first_colon(text);
        assert forall|i: int| 0 <= i < at implies #[trigger] text.take(at)[i] != COLON by {
            if i > 0 {
                assert(rest.take(at - 1)[i - 1] == text[i]);
            }
        }
    }
}

/// A position that holds a colon, with none before it, is the first colon.
pub proof fn lemma_first_colon_is(text: Seq<u8>, at: int)
    requires
        0 <= at <= text.len(),
        colon_free(text.take(at)),
        at < text.len() ==> text[at] == COLON,
    ensures
        first_colon(text) == at,
{
    lemma_first_colon(text);
    let first = first_colon(text);
    if first < at {
        assert(text.take(at)[first] == COLON);
    } else if at < first {
        assert(text.take(first)[at] == COLON);
    }
}

/// A run of digits writes no less than any run that it starts with.
pub proof fn lemma_decimal_value_grows(digits: Seq<u8>, upto: int)
    requires
        0 <= upto <= digits.len(),
    ensures
        decimal_value(digits.take(upto)) <= decimal_value(digits),
    decreases digits.len(),
{
    if upto == digits.len() {
        assert(digits.take(upto) == digits);
    } else {
        lemma_decimal_value_grows(digits.drop_last(), upto);
        assert(digits.drop_last().take(upto) == digits.take(upto));
    }
}

/// Reads a number as std reads a `u64` from a string.
pub fn parse_number(text: &[u8]) -> (number: Option<u64>)
    ensures
        number == number_of(text@),
{
    let len: usize = text.len();
    let start: usize = if len > 0 && text[0] == PLUS {
        1
    } else {
        0
    };
    let ghost digits = unsigned_part(text@);
    assert(digits == text@.skip(start as int));
    if start == len {
        return None;
    }
    let mut value: u64 = 0;
    let mut i: usize = start;
    while i < len
        invariant
            start <= i <= len,
            len == text@.len(),
            digits == unsigned_part(text@),
            digits == text@.skip(start as int),
            all_digits(digits.take(i - start)),
            value == decimal_value(digits.take(i - start)),
        decreases len - i,
    {
        let byte: u8 = text[i];
        assert(byte == digits[i - start]);
        if byte < DIGIT_0 || byte > DIGIT_9 {
            return None;
        }
        let digit: u64 = (byte - DIGIT_0) as u64;
        proof {
            let longer = digits.take(i - start + 1);
            assert(longer.drop_last() == digits.take(i - start));
            assert(longer.last() == byte);
            assert(decimal_value(longer) == value * 10 + digit);
            lemma_decimal_value_grows(digits, i - start + 1);
            assert forall|k: int| 0 <= k < longer.len() implies is_digit(#[trigger] longer[k]) by {
                if k < i - start {
                    assert(digits.take(i - start)[k] == longer[k]);
                }
            }
        }
        if value > (u64::MAX - digit) / 10 {
            return None;
        }
        value = value * 10 + digit;
        i += 1;
    }
    assert(digits.take(i - start) == digits);
    Some(value)
}

/// The first position from `from` on that holds a colon; the length of
/// `text` where none does.
fn find_colon(text: &[u8], from: usize) -> (at: usize)
    requires
        from <= text@.len(),
    ensures
        at == from + first_colon(text@.skip(from as int)),
        from <= at <= text@.len(),
{
    let len: usize = text.len();
    let mut at: usize = from;
    while at < len && text[at] != COLON
        invariant
            from <= at <= len,
            len == text@.len(),
            colon_free(text@.skip(from as int).take(at - from)),
        decreases len - at,
    {
        proof {
            let seen = text@.skip(from as int).take(at - from);
            let more = text@.skip(from as int).take(at - from + 1);
            assert forall|k: int| 0 <= k < more.len() implies #[trigger] more[k] != COLON by {
                if k < at - from {
                    assert(seen[k] == more[k]);
                }
            }
        }
        at += 1;
    }
    proof {
        lemma_first_colon_is(text@.skip(from as int), at - from);
    }
    at
}

/// Reads one token from its bytes.
pub fn parse_token(text: &[u8]) -> (step: Result<(u64, u64), TokenError>)
    ensures
        step == token_of(text@),
{
    let len: usize = text.len();
    let at: usize = find_colon(text, 0);
    assert(text@.skip(0) == text@);
    if at == len {
        return Err(TokenError::Format);
    }
    let next: usize = find_colon(text, at + 1);
    proof {
        lemma_first_colon(text@.skip(at + 1));
        if next == len {
            assert(text@.skip(at + 1).take(len - at - 1) == text@.skip(at + 1));
        }
    }
    if next != len {
        return Err(TokenError::Format);
    }
    let angle = slice_subrange(text, 0, at);
    let time = slice_subrange(text, at + 1, len);
    assert(angle@ == text@.take(at as int));
    assert(time@ == text@.skip(at + 1));
    let degrees: u64 = match parse_number(angle) {
        Some(degrees) => degrees,
        None => {
            return Err(TokenError::Angle);
        },
    };
    if degrees > MAX_DEGREES {
        return Err(TokenError::Range);
    }
    match parse_number(time) {
        Some(millis) => Ok((degrees, millis)),
        None => Err(TokenError::Time),
    }
}

/// Reads one token, such as `90:1000`: the angle in degrees, a colon, and
/// the time in milliseconds for which the angle is held. A token that is
/// refused comes back as the words that say why.
pub fn parse_angle_time(s: &str) -> (step: Result<(u64, u64), String>)
    ensures
        match token_of(s.spec_bytes()) {
            Ok(pair) => step == Ok::<(u64, u64), String>(pair),
            Err(error) => step is Err && step->Err_0@ == error.text(),
        },
{
    match parse_token(s.as_bytes()) {
        Ok(pair) => Ok(pair),
        Err(error) => Err(error.message().to_owned()),
    }
}

/// The token that is written as an angle, a colon and a time.
pub open spec fn joined(angle: Seq<u8>, time: Seq<u8>) -> Seq<u8> {
    angle.push(COLON) + time
}

/// A numeral holds no colon.
pub proof fn lemma_numeral_colon_free(text: Seq<u8>)
    requires
        is_numeral(text),
    ensures
        colon_free(text),
{
    let digits = unsigned_part(text);
    assert forall|i: int| 0 <= i < text.len() implies #[trigger] text[i] != COLON by {
        if text[0] == PLUS {
            if i > 0 {
                assert(is_digit(digits[i - 1]));
            }
        } else {
            assert(is_digit(digits[i]));
        }
    }
}

/// A token made of two parts without a colon is read as its two parts are.
pub proof fn lemma_token_of_parts(angle: Seq<u8>, time: Seq<u8>)
    requires
        colon_free(angle),
        colon_free(time),
    ensures
        token_of(joined(angle, time)) == pair_of(angle, time),
{
    let text = joined(angle, time);
    let at = angle.len() as int;
    assert(text.take(at) == angle);
    assert(text.skip(at + 1) == time);
    lemma_first_colon_is(text, at);
}

/// A colon inside the angle or the time spoils the format of the token.
pub proof fn lemma_second_colon_rejected(angle: Seq<u8>, time: Seq<u8>)
    requires
        !colon_free(angle) || !colon_free(time),
    ensures
        token_of(joined(angle, time)) == Err::<(u64, u64), TokenError>(TokenError::Format),
{
    let text = joined(angle, time);
    let at = angle.len() as int;
    if colon_free(angle) {
        assert(text.take(at) == angle);
        assert(text.skip(at + 1) == time);
        lemma_first_colon_is(text, at);
    } else {
        let i = choose|i: int| 0 <= i < angle.len() && angle[i] == COLON;
        lemma_first_colon(text);
        let first = first_colon(text);
        if i < first {
            assert(text.take(first)[i] == COLON);
        }
        assert(text.skip(first + 1)[at - first - 1] == COLON);
    }
}

/// A token whose angle or whose time is not written as a number is refused.
pub proof fn lemma_non_numeric_rejected(angle: Seq<u8>, time: Seq<u8>)
    requires
        !is_numeral(angle) || !is_numeral(time),
    ensures
        token_of(joined(angle, time)) is Err,
{
    if colon_free(angle) && colon_free(time) {
        lemma_token_of_parts(angle, time);
    } else {
        lemma_second_colon_rejected(angle, time);
    }
}

/// A token whose angle is a number above 180 is refused, whatever its time;
/// where nothing else is wrong with it, for the range of its angle.
pub proof fn lemma_wide_angle_rejected(angle: Seq<u8>, time: Seq<u8>)
    requires
        is_numeral(angle),
        decimal_value(unsigned_part(angle)) > MAX_DEGREES,
    ensures
        token_of(joined(angle, time)) is Err,
        colon_free(time) && decimal_value(unsigned_part(angle)) <= u64::MAX ==> token_of(
            joined(angle, time),
        ) == Err::<(u64, u64), TokenError>(TokenError::Range),
{
    lemma_numeral_colon_free(angle);
    if colon_free(time) {
        lemma_token_of_parts(angle, time);
    } else {
        lemma_second_colon_rejected(angle, time);
    }
}

/// A token of two numerals, the angle at most 180 and the time within 64
/// bits, is read as the two numbers that they write.
pub proof fn lemma_step_accepted(angle: Seq<u8>, time: Seq<u8>)
    requires
        is_numeral(angle),
        is_numeral(time),
        decimal_value(unsigned_part(angle)) <= MAX_DEGREES,
        decimal_value(unsigned_part(time)) <= u64::MAX,
    ensures
        token_of(joined(angle, time)) == Ok::<(u64, u64), TokenError>(
            (
                decimal_value(unsigned_part(angle)) as u64,
                decimal_value(unsigned_part(time)) as u64,
            ),
        ),
{
    lemma_numeral_colon_free(angle);
    lemma_numeral_colon_free(time);
    lemma_token_of_parts(angle, time);
}

/// The digits that write `number` in base ten, with no sign and no zero in
/// front of another digit.
pub open spec fn numeral_of(number: nat) -> Seq<u8>
    decreases number,
{
    if number < 10 {
        seq![(DIGIT_0 + number) as u8]
    } else {
        numeral_of(number / 10).push((DIGIT_0 + number % 10) as u8)
    }
}

/// What `numeral_of` writes is a numeral without a sign, and it writes the
/// number that it was made from.
pub proof fn lemma_numeral_of(number: nat)
    ensures
        numeral_of(number).len() > 0,
        all_digits(numeral_of(number)),
        unsigned_part(numeral_of(number)) == numeral_of(number),
        is_numeral(numeral_of(number)),
        decimal_value(numeral_of(number)) == number,
    decreases number,
{
    let text = numeral_of(number);
    if number < 10 {
        assert(text.drop_last().len() == 0);
        assert(decimal_value(text) == decimal_value(text.drop_last()) * 10 + digit_value(
            text.last(),
        ));
    } else {
        let front = numeral_of(number / 10);
        lemma_numeral_of(number / 10);
        assert(text.drop_last() == front);
        assert(text[0] == front[0]);
        assert(is_digit(front[0]));
        assert forall|i: int| 0 <= i < text.len() implies is_digit(#[trigger] text[i]) by {
            if i < front.len() {
                assert(text[i] == front[i]);
            }
        }
    }
}

/// Reading what was written gives the number back.
pub proof fn lemma_number_round_trip(number: u64)
    ensures
        number_of(numeral_of(number as nat)) == Some(number),
{
    lemma_numeral_of(number as nat);
}

/// The token written from a step within the swing is read as that step.
pub proof fn lemma_token_round_trip(degrees: u64, millis: u64)
    requires
        degrees <= MAX_DEGREES,
    ensures
        token_of(joined(numeral_of(degrees as nat), numeral_of(millis as nat))) == Ok::<
            (u64, u64),
            TokenError,
        >((degrees, millis)),
{
    lemma_numeral_of(degrees as nat);
    lemma_numeral_of(millis as nat);
    lemma_step_accepted(numeral_of(degrees as nat), numeral_of(millis as nat));
}

} // verus!
