//! The words that report the progress of a playback.

use crate::token::{numeral_of, DIGIT_0};
use vstd::prelude::*;
use vstd::string::StringExecFns;

verus! {

/// The characters that a run of ASCII bytes stands for.
pub open spec fn as_chars(bytes: Seq<u8>) -> Seq<char> {
    bytes.map_values(|byte: u8| byte as char)
}

/// The report of one step: the angle, the degree sign, and the time for
/// which the angle is held, as in `90° for 1000 ms`.
pub open spec fn progress_text(degrees: u64, millis: u64) -> Seq<char> {
    as_chars(numeral_of(degrees as nat)) + "° for "@ + as_chars(numeral_of(millis as nat))
        + " ms"@
}

/// The one character that writes a number below ten.
fn digit_str(digit: u64) -> (text: &'static str)
    requires
        digit < 10,
    ensures
        text@ == seq![((DIGIT_0 + digit) as u8) as char],
{
    proof {
        reveal_strlit("0");
        reveal_strlit("1");
        reveal_strlit("2");
        reveal_strlit("3");
        reveal_strlit("4");
        reveal_strlit("5");
        reveal_strlit("6");
        reveal_strlit("7");
        reveal_strlit("8");
        reveal_strlit("9");
    }
    let text = match digit {
        0 => "0",
        1 => "1",
        2 => "2",
        3 => "3",
        4 => "4",
        5 => "5",
        6 => "6",
        7 => "7",
        8 => "8",
        _ => "9",
    };
    assert(text@ =~= seq![((DIGIT_0 + digit) as u8) as char]);
    text
}

/// Writes `number` in base ten at the end of `text`.
pub fn append_number(text: &mut String, number: u64)
    ensures
        final(text)@ == old(text)@ + as_chars(numeral_of(number as nat)),
    decreases number,
{
    if number >= 10 {
        append_number(text, number / 10);
    }
    text.append(digit_str(number % 10));
    proof {
        let last = (DIGIT_0 + number % 10) as u8;
        if number >= 10 {
            let front = numeral_of((number / 10) as nat);
            assert(as_chars(front.push(last)) =~= as_chars(front) + seq![last as char]);
        } else {
            assert(as_chars(seq![last]) =~= seq![last as char]);
        }
        assert(final(text)@ =~= old(text)@ + as_chars(numeral_of(number as nat)));
    }
}

/// The report of one step, as in `90° for 1000 ms`.
pub fn progress_message(degrees: u64, millis: u64) -> (message: String)
    ensures
        message@ == progress_text(degrees, millis),
{
    let mut message = String::new();
    append_number(&mut message, degrees);
    message.append("° for ");
    append_number(&mut message, millis);
    message.append(" ms");
    assert(message@ =~= progress_text(degrees, millis));
    message
}

} // verus!
