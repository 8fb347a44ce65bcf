//! Playback of servo angle sequences as software PWM on a single GPIO pin.
//!
//! A sequence is a list of steps, each an angle in degrees and the time in
//! milliseconds for which a servo is held there. The library reads steps
//! from `angle:time` tokens, turns angles into duty cycles, and decides,
//! action by action, what a playback does to the pin. The pin itself, the
//! clock and the terminal belong to the program that uses the library.

pub mod duty;
pub mod logger;
pub mod message;
pub mod pin;
pub mod token;
pub mod tool;

pub use duty::{degrees_to_duty_cycle, DutyCycle};
pub use logger::RppalSoftpwmLogger;
pub use message::progress_message;
pub use pin::BcmPin;
pub use token::{parse_angle_time, parse_number, parse_token, TokenError};
pub use tool::{Action, Outcome, Playback, RppalSoftpwmLog, RppalSoftpwmTool, Start};
