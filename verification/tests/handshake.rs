use tw_econ::AuthAction;
use tw_econ::AuthHandshake;
use tw_econ::AuthState;
use tw_econ::Error;

fn fresh(budget: u32) -> AuthHandshake {
    AuthHandshake::new(
        String::from("Enter password"),
        String::from("Wrong"),
        String::from("Authentication successful"),
        budget,
    )
}

#[test]
fn prompt_elicits_password() {
    let mut h = fresh(4);
    assert_eq!(h.state(), AuthState::Unauthenticated);
    assert_eq!(h.on_text("Enter password:"), AuthAction::SendPassword);
    assert_eq!(h.state(), AuthState::Challenged);
}

#[test]
fn chatter_before_prompt_is_ignored() {
    let mut h = fresh(4);
    assert_eq!(h.on_text("some banner line"), AuthAction::Wait);
    assert_eq!(h.state(), AuthState::Unauthenticated);
}

#[test]
fn rejection_fails_with_wrong_password() {
    let mut h = fresh(4);
    h.on_text("Enter password:");
    assert_eq!(
        h.on_text("Wrong password 2/3 attempts left"),
        AuthAction::Reject(Error::WrongPassword)
    );
    assert_eq!(h.state(), AuthState::Failed);
}

#[test]
fn acceptance_authenticates() {
    let mut h = fresh(4);
    h.on_text("Enter password:");
    assert_eq!(
        h.on_text("Authentication successful. External console access granted."),
        AuthAction::Accept
    );
    assert_eq!(h.state(), AuthState::Authenticated);
}

#[test]
fn chatter_is_rebuffered_until_the_budget_runs_out() {
    let mut h = fresh(1);
    h.on_text("Enter password:");
    assert_eq!(h.on_text("[server]: some log line"), AuthAction::Rebuffer);
    assert_eq!(h.state(), AuthState::Challenged);
    assert_eq!(h.on_text("[server]: more chatter"), AuthAction::Reject(Error::NoResponse));
    assert_eq!(h.state(), AuthState::Failed);
}

#[test]
fn timeout_before_prompt_gives_no_response() {
    let mut h = fresh(4);
    assert_eq!(h.on_timeout(), AuthAction::Reject(Error::NoResponse));
    assert_eq!(h.state(), AuthState::Failed);
}

#[test]
fn terminal_states_ignore_events() {
    let mut h = fresh(4);
    h.on_text("Enter password:");
    h.on_text("Authentication successful");
    assert_eq!(h.on_text("Wrong"), AuthAction::Wait);
    assert_eq!(h.state(), AuthState::Authenticated);
    assert_eq!(h.on_timeout(), AuthAction::Wait);
    assert_eq!(h.state(), AuthState::Authenticated);
}
