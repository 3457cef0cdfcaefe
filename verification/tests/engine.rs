use tw_econ::EconMessage;
use tw_econ::EngineConfig;
use tw_econ::EngineState;
use tw_econ::Error;
use tw_econ::ProtocolEngine;
use tw_econ::TimeOfDay;

fn t() -> TimeOfDay {
    TimeOfDay::new(10, 20, 30)
}

fn authenticating(password: &str) -> ProtocolEngine {
    let mut e = ProtocolEngine::new(String::from(password), EngineConfig::default());
    assert_eq!(e.state(), EngineState::Connecting);
    e.on_connected();
    assert_eq!(e.state(), EngineState::Authenticating);
    e
}

fn running(password: &str) -> ProtocolEngine {
    let mut e = authenticating(password);
    e.on_chunk(b"Enter password:\n", t());
    assert_eq!(e.next_outgoing().as_deref(), Some(password));
    e.on_chunk(b"Authentication successful.\n", t());
    assert_eq!(e.state(), EngineState::Running);
    e
}

#[test]
fn wrong_password_fails_the_engine() {
    let mut e = authenticating("secret");
    e.on_chunk(b"Enter password:\n", t());
    assert_eq!(e.next_outgoing().as_deref(), Some("secret"));
    e.on_chunk(b"Wrong password 2/3 attempts left\n", t());
    assert_eq!(e.state(), EngineState::Failed);
    assert_eq!(e.last_error(), Some(Error::WrongPassword));
    assert_eq!(e.send(String::from("status")), Err(Error::WrongPassword));
    assert_eq!(e.receive(), Err(Error::WrongPassword));
}

#[test]
fn acceptance_starts_the_session() {
    let e = running("secret");
    assert_eq!(e.last_error(), None);
}

#[test]
fn connect_failure_is_no_response() {
    let mut e = ProtocolEngine::new(String::from("pw"), EngineConfig::default());
    e.on_connect_failed();
    assert_eq!(e.state(), EngineState::Failed);
    assert_eq!(e.last_error(), Some(Error::NoResponse));
    assert_eq!(e.receive(), Err(Error::NoResponse));
}

#[test]
fn auth_timeout_is_no_response() {
    let mut e = authenticating("pw");
    e.on_auth_timeout();
    assert_eq!(e.state(), EngineState::Failed);
    assert_eq!(e.last_error(), Some(Error::NoResponse));
}

#[test]
fn zero_read_closes_and_receive_reports_it() {
    let mut e = running("pw");
    e.on_zero_read();
    assert_eq!(e.state(), EngineState::Closed);
    assert_eq!(e.last_error(), Some(Error::DisconnectedByServer));
    assert_eq!(e.receive(), Err(Error::DisconnectedByServer));
    assert_eq!(e.send(String::from("x")), Err(Error::DisconnectedByServer));
}

#[test]
fn commands_leave_in_send_order() {
    let mut e = running("pw");
    e.send(String::from("A")).unwrap();
    e.send(String::from("B")).unwrap();
    e.send(String::from("C")).unwrap();
    assert_eq!(e.next_outgoing().as_deref(), Some("A"));
    assert_eq!(e.next_outgoing().as_deref(), Some("B"));
    assert_eq!(e.next_outgoing().as_deref(), Some("C"));
    assert_eq!(e.next_outgoing(), None);
}

#[test]
fn messages_arrive_in_wire_order() {
    let mut e = running("pw");
    e.on_chunk(b"X\nY\nZ\n", t());
    let contents: Vec<String> = (0..3)
        .map(|_| e.receive().unwrap().unwrap().get_content())
        .collect();
    assert_eq!(contents, vec!["X", "Y", "Z"]);
    assert_eq!(e.receive(), Ok(None));
}

#[test]
fn lines_split_across_reads_are_one_message() {
    let mut e = running("pw");
    e.on_chunk(b"[12:34:56][ch", t());
    assert_eq!(e.receive(), Ok(None));
    e.on_chunk(b"at]: hello\n", t());
    let m = e.receive().unwrap().unwrap();
    assert_eq!(m.get_category(), "chat");
    assert_eq!(m.get_content(), "hello");
    let ts = m.get_timestamp();
    assert_eq!((ts.hour, ts.minute, ts.second), (12, 34, 56));
}

#[test]
fn chatter_during_the_handshake_is_kept() {
    let mut e = authenticating("pw");
    e.on_chunk(b"Enter password:\n", t());
    assert_eq!(e.next_outgoing().as_deref(), Some("pw"));
    e.on_chunk(b"[server]: restart soon\n", t());
    assert_eq!(e.state(), EngineState::Authenticating);
    e.on_chunk(b"Authentication successful.\n", t());
    assert_eq!(e.state(), EngineState::Running);
    let m = e.receive().unwrap().unwrap();
    assert_eq!(m.get_category(), "server");
    assert_eq!(m.get_content(), "restart soon");
}

#[test]
fn oversized_line_exhausts_the_buffer() {
    let mut config = EngineConfig::default();
    config.buffer_size = 8;
    let mut e = ProtocolEngine::new(String::from("pw"), config);
    e.on_connected();
    e.on_chunk(b"Enter password:\n", t());
    e.next_outgoing();
    e.on_chunk(b"Authentication successful.\n", t());
    assert_eq!(e.state(), EngineState::Running);
    e.on_chunk(b"an unterminated line well past the buffer", t());
    assert_eq!(e.state(), EngineState::Closed);
    assert_eq!(e.last_error(), Some(Error::BufferExhausted));
    assert_eq!(e.receive(), Err(Error::BufferExhausted));
}

#[test]
fn oversized_chatter_during_the_handshake_fails_the_engine() {
    let mut config = EngineConfig::default();
    config.buffer_size = 8;
    let mut e = ProtocolEngine::new(String::from("pw"), config);
    e.on_connected();
    e.on_chunk(b"Enter password:\n", t());
    assert_eq!(e.next_outgoing().as_deref(), Some("pw"));
    e.on_chunk(b"chatter far longer than the buffer allows", t());
    assert_eq!(e.state(), EngineState::Failed);
    assert_eq!(e.last_error(), Some(Error::BufferExhausted));
}

#[test]
fn invalid_utf8_degrades_to_replacement_characters() {
    let mut e = running("pw");
    e.on_chunk(b"\xff\xfe hi\n", t());
    let m = e.receive().unwrap().unwrap();
    assert_eq!(m.get_content(), "\u{FFFD}\u{FFFD} hi");
    assert_eq!(m.get_category(), "tw-econ");
}

#[test]
fn disconnect_is_idempotent_and_drains_queues() {
    let mut e = running("pw");
    e.send(String::from("quit")).unwrap();
    e.on_chunk(b"[a]: b\n", t());
    e.disconnect();
    assert_eq!(e.state(), EngineState::Disconnecting);
    assert_eq!(e.next_outgoing(), None);
    assert_eq!(e.receive(), Err(Error::NoConnection));
    e.disconnect();
    assert_eq!(e.state(), EngineState::Disconnecting);
    e.on_pump_stopped();
    assert_eq!(e.state(), EngineState::Closed);
    e.disconnect();
    assert_eq!(e.state(), EngineState::Closed);
}

#[test]
fn input_after_close_is_ignored() {
    let mut e = running("pw");
    e.disconnect();
    e.on_pump_stopped();
    e.on_chunk(b"[a]: b\n", t());
    assert_eq!(e.state(), EngineState::Closed);
    assert_eq!(e.receive(), Err(Error::NoConnection));
}

#[test]
fn send_before_running_is_refused() {
    let mut e = authenticating("pw");
    assert_eq!(e.send(String::from("status")), Err(Error::NoConnection));
}

#[test]
fn default_config_knobs() {
    let e = ProtocolEngine::new(String::from("pw"), EngineConfig::default());
    assert_eq!(e.buffer_size(), 2048);
    assert_eq!(e.read_timeout_ms(), 1000);
    assert_eq!(e.connect_timeout_ms(), 5000);
}

#[test]
fn parsed_timestamp_beats_receipt_time() {
    let mut e = running("pw");
    e.on_chunk(b"[01:02:03][chat]: hi\n[other]: yo\n", t());
    let first = e.receive().unwrap().unwrap();
    assert_eq!(first.get_timestamp(), TimeOfDay::new(1, 2, 3));
    let second = e.receive().unwrap().unwrap();
    assert_eq!(second.get_timestamp(), t());
    assert_eq!(second.get_category(), "other");
}

#[test]
fn empty_lines_produce_no_messages() {
    let mut e = running("pw");
    e.on_chunk(b"\n\n\n", t());
    assert_eq!(e.receive(), Ok(None));
}

#[test]
fn message_equality_is_by_value() {
    let a = EconMessage::new(TimeOfDay::new(1, 2, 3), "c", "x");
    let b = EconMessage::new(TimeOfDay::new(1, 2, 3), "c", "x");
    assert_eq!(a, b);
}
