use tw_econ::EconMessage;
use tw_econ::TimeOfDay;

#[test]
fn full_form_line_parses() {
    let m = EconMessage::from_string("[12:34:56][chat]: hello").unwrap();
    let t = m.get_timestamp();
    assert_eq!((t.hour, t.minute, t.second), (12, 34, 56));
    assert_eq!(m.get_category(), "chat");
    assert_eq!(m.get_content(), "hello");
    assert_eq!(m.get_raw(), "[12:34:56][chat]: hello");
}

#[test]
fn category_form_line_parses_with_current_time() {
    let m = EconMessage::from_string_with_current_time("[chat]: hello").unwrap();
    assert_eq!(m.get_category(), "chat");
    assert_eq!(m.get_content(), "hello");
    let t = m.get_timestamp();
    assert!(t.hour < 24 && t.minute < 60 && t.second < 60);
}

#[test]
fn fallback_line_gets_sentinel_category() {
    let now = TimeOfDay::new(7, 8, 9);
    let m = EconMessage::parse_line("hello world", now, "tw-econ").unwrap();
    assert_eq!(m.get_category(), "tw-econ");
    assert_eq!(m.get_content(), "hello world");
    assert_eq!(m.get_timestamp(), now);
    assert_eq!(m.get_raw(), "hello world");
}

#[test]
fn empty_line_yields_no_message() {
    let now = TimeOfDay::new(0, 0, 0);
    assert!(EconMessage::parse_line("", now, "tw-econ").is_none());
}

#[test]
fn bad_timestamp_falls_through_to_category_form() {
    assert!(EconMessage::from_string("[99:88:77][chat]: hi").is_none());
    let now = TimeOfDay::new(1, 1, 1);
    let m = EconMessage::parse_line("[99:88:77][chat]: hi", now, "tw-econ").unwrap();
    assert_eq!(m.get_category(), "99:88:77][chat");
    assert_eq!(m.get_content(), "hi");
    assert_eq!(m.get_timestamp(), now);
}

#[test]
fn full_form_requires_nonempty_category_and_content() {
    assert!(EconMessage::from_string("[12:34:56][]: x").is_none());
    assert!(EconMessage::from_string("[12:34:56][chat]: ").is_none());
    assert!(EconMessage::from_string("[12:34:56][chat]").is_none());
}

#[test]
fn category_runs_to_first_close_mark() {
    let m = EconMessage::from_string("[12:34:56][a]: b]: c").unwrap();
    assert_eq!(m.get_category(), "a");
    assert_eq!(m.get_content(), "b]: c");
}

#[test]
fn rendering_is_zero_padded() {
    let m = EconMessage::new(TimeOfDay::new(1, 2, 3), "chat", "hello");
    assert_eq!(m.to_string(), "[01:02:03][chat]: hello");
    assert_eq!(m.get_raw(), "[01:02:03][chat]: hello");
}

#[test]
fn rendering_parses_back() {
    let m = EconMessage::new(TimeOfDay::new(23, 59, 59), "status", "all good");
    let back = EconMessage::from_string(&m.to_string()).unwrap();
    assert_eq!(back.get_timestamp(), m.get_timestamp());
    assert_eq!(back.get_category(), m.get_category());
    assert_eq!(back.get_content(), m.get_content());
}

#[test]
fn setters_replace_fields() {
    let mut m = EconMessage::new(TimeOfDay::new(0, 0, 0), "a", "b");
    m.set_timestamp(TimeOfDay::new(4, 5, 6));
    m.set_category(String::from("console"));
    m.set_content(String::from("done"));
    assert_eq!(m.get_timestamp(), TimeOfDay::new(4, 5, 6));
    assert_eq!(m.get_category(), "console");
    assert_eq!(m.get_content(), "done");
}
