use rppal_softpwm::message::append_number;
use rppal_softpwm::{parse_angle_time, progress_message};

#[test]
fn progress_message_of_a_step() {
    assert_eq!(progress_message(90, 1000), "90° for 1000 ms");
    assert_eq!(progress_message(0, 0), "0° for 0 ms");
    assert_eq!(progress_message(180, 5), "180° for 5 ms");
}

#[test]
fn progress_message_of_the_largest_numbers() {
    assert_eq!(
        progress_message(u64::MAX, u64::MAX),
        "18446744073709551615° for 18446744073709551615 ms"
    );
}

#[test]
fn progress_message_is_what_formatting_gives() {
    for degrees in [0u64, 1, 9, 10, 11, 99, 100, 101, 180] {
        for millis in [0u64, 7, 10, 1000, 65_535, 4_294_967_296, u64::MAX] {
            assert_eq!(progress_message(degrees, millis), format!("{}° for {} ms", degrees, millis));
        }
    }
}

#[test]
fn number_is_written_after_what_is_there() {
    let mut text = String::from("t=");
    append_number(&mut text, 1050);
    assert_eq!(text, "t=1050");
    append_number(&mut text, 0);
    assert_eq!(text, "t=10500");
}

#[test]
fn written_token_is_read_back() {
    for degrees in 0..=180u64 {
        for millis in [0u64, 1, 999, 1000, u64::MAX] {
            let mut token = String::new();
            append_number(&mut token, degrees);
            token.push(':');
            append_number(&mut token, millis);
            assert_eq!(parse_angle_time(&token), Ok((degrees, millis)));
        }
    }
}
