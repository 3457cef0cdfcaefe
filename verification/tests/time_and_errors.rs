use tw_econ::current_time;
use tw_econ::time::format_time;
use tw_econ::time::parse_time_text;
use tw_econ::EconError;
use tw_econ::Error;
use tw_econ::TimeOfDay;

#[test]
fn valid_timestamps_parse() {
    assert_eq!(parse_time_text("00:00:00"), Some(TimeOfDay::new(0, 0, 0)));
    assert_eq!(parse_time_text("23:59:59"), Some(TimeOfDay::new(23, 59, 59)));
    assert_eq!(parse_time_text("12:34:56"), Some(TimeOfDay::new(12, 34, 56)));
}

#[test]
fn invalid_timestamps_do_not_parse() {
    assert_eq!(parse_time_text("24:00:00"), None);
    assert_eq!(parse_time_text("12:60:00"), None);
    assert_eq!(parse_time_text("12:00:60"), None);
    assert_eq!(parse_time_text("1:02:03"), None);
    assert_eq!(parse_time_text("12-34-56"), None);
    assert_eq!(parse_time_text("12:34:5x"), None);
    assert_eq!(parse_time_text(""), None);
}

#[test]
fn formatting_round_trips() {
    let t = TimeOfDay::new(4, 5, 6);
    let s = format_time(&t);
    assert_eq!(s, "04:05:06");
    assert_eq!(parse_time_text(&s), Some(t));
}

#[test]
fn the_clock_reads_a_valid_time() {
    let t = current_time();
    assert!(t.hour < 24 && t.minute < 60 && t.second < 60);
}

#[test]
fn every_error_has_words() {
    let all = vec![
        Error::Timeout,
        Error::WrongPassword,
        Error::DisconnectedByServer,
        Error::NoResponse,
        Error::NoConnection,
        Error::UnableToRead,
        Error::UnableToWrite,
        Error::BufferExhausted,
    ];
    for e in all {
        assert!(!e.message().is_empty());
    }
}

#[test]
fn handshake_errors_compare_by_variant() {
    assert_eq!(EconError::WrongPassword, EconError::WrongPassword);
    assert_ne!(EconError::WrongPassword, EconError::NoResponse);
}

#[test]
fn only_a_rejection_reads_as_wrong_password() {
    assert_eq!(EconError::from_error(Error::WrongPassword), EconError::WrongPassword);
    assert_eq!(EconError::from_error(Error::Timeout), EconError::NoResponse);
    assert_eq!(EconError::from_error(Error::DisconnectedByServer), EconError::NoResponse);
    assert_eq!(EconError::from_error(Error::NoResponse), EconError::NoResponse);
}
