//! The lines that a terminal shows for what the tool reports.
//!
//! Warnings are set in yellow and errors in red, with the escape sequences
//! of the `termion` crate. The lines are made here; showing them is left to
//! the program.

use vstd::prelude::*;
use vstd::string::StringExecFns;

verus! {

/// The escape sequence that turns the text of a terminal yellow.
pub open spec fn yellow_code() -> Seq<char> {
    "\x1B[38;5;3m"@
}

/// The escape sequence that turns the text of a terminal red.
pub open spec fn red_code() -> Seq<char> {
    "\x1B[38;5;1m"@
}

/// The line of a warning: the colour, the word, the message.
pub open spec fn warning_text(colour: Seq<char>, message: Seq<char>) -> Seq<char> {
    colour + "warning: "@ + message
}

/// The line of an error: the colour, the word, the message.
pub open spec fn error_text(colour: Seq<char>, message: Seq<char>) -> Seq<char> {
    colour + "error: "@ + message
}

/// What `termion::color::Fg(termion::color::Yellow)` writes through its
/// `Display`: the escape sequence `ESC [ 38;5;3 m`, or nothing at all where
/// the environment of the process has colours switched off, which termion
/// looks up by itself. Not proved: it is read off termion's source.
#[verifier::external_body]
fn yellow() -> (code: String)
    ensures
        code@ == yellow_code() || code@ == Seq::<char>::empty(),
{
    format!("{}", termion::color::Fg(termion::color::Yellow))
}

/// What `termion::color::Fg(termion::color::Red)` writes through its
/// `Display`: the escape sequence `ESC [ 38;5;1 m`, or nothing at all where
/// the environment of the process has colours switched off, which termion
/// looks up by itself. Not proved: it is read off termion's source.
#[verifier::external_body]
fn red() -> (code: String)
    ensures
        code@ == red_code() || code@ == Seq::<char>::empty(),
{
    format!("{}", termion::color::Fg(termion::color::Red))
}

/// Makes the line of a warning in the colour given.
pub fn warning_line(colour: &str, message: &str) -> (line: String)
    ensures
        line@ == warning_text(colour@, message@),
{
    let mut line = String::from_str(colour);
    line.append("warning: ");
    line.append(message);
    line
}

/// Makes the line of an error in the colour given.
pub fn error_line(colour: &str, message: &str) -> (line: String)
    ensures
        line@ == error_text(colour@, message@),
{
    let mut line = String::from_str(colour);
    line.append("error: ");
    line.append(message);
    line
}

/// The maker of the lines that the program shows on a terminal.
#[derive(Clone, Copy, Debug, PartialEq, Eq, Structural)]
pub struct RppalSoftpwmLogger {}

impl RppalSoftpwmLogger {
    /// A new maker of lines.
    pub fn new() -> (logger: RppalSoftpwmLogger)
        ensures
            logger == (RppalSoftpwmLogger {  }),
    {
        RppalSoftpwmLogger {  }
    }

    /// The line for ordinary output: the message as it is.
    pub fn output(&self, message: &str) -> (line: String)
        ensures
            line@ == message@,
    {
        String::from_str(message)
    }

    /// The line for a warning: in yellow, unless colours are switched off.
    pub fn warning(&self, message: &str) -> (line: String)
        ensures
            line@ == warning_text(yellow_code(), message@) || line@ == warning_text(
                Seq::<char>::empty(),
                message@,
            ),
    {
        let colour = yellow();
        warning_line(colour.as_str(), message)
    }

    /// The line for an error: in red, unless colours are switched off.
    pub fn error(&self, message: &str) -> (line: String)
        ensures
            line@ == error_text(red_code(), message@) || line@ == error_text(
                Seq::<char>::empty(),
                message@,
            ),
    {
        let colour = red();
        error_line(colour.as_str(), message)
    }

    /// The line for a warning where the user has a say in colours: plain
    /// where `colours` is off, else as [`RppalSoftpwmLogger::warning`]
    /// makes it.
    pub fn warning_for(&self, colours: bool, message: &str) -> (line: String)
        ensures
            !colours ==> line@ == warning_text(Seq::<char>::empty(), message@),
            colours ==> line@ == warning_text(yellow_code(), message@) || line@ == warning_text(
                Seq::<char>::empty(),
                message@,
            ),
    {
        if colours {
            self.warning(message)
        } else {
            let plain = String::new();
            warning_line(plain.as_str(), message)
        }
    }

    /// The line for an error where the user has a say in colours: plain
    /// where `colours` is off, else as [`RppalSoftpwmLogger::error`] makes
    /// it.
    pub fn error_for(&self, colours: bool, message: &str) -> (line: String)
        ensures
            !colours ==> line@ == error_text(Seq::<char>::empty(), message@),
            colours ==> line@ == error_text(red_code(), message@) || line@ == error_text(
                Seq::<char>::empty(),
                message@,
            ),
    {
        if colours {
            self.error(message)
        } else {
            let plain = String::new();
            error_line(plain.as_str(), message)
        }
    }
}

} // verus!
