use vstd::prelude::*;

use crate::error::Error;
use crate::text::{contains_str, contains_text};

verus! {

/// Where the password exchange stands. Transitions are one-way:
/// `Unauthenticated` to `Challenged` when the prompt arrives, `Challenged`
/// to `Authenticated` or `Failed` on the server's verdict; the last two are
/// terminal for the life of the connection.
#[derive(Debug, Clone, Copy, PartialEq, Eq, Structural)]
pub enum AuthState {
    Unauthenticated,
    Challenged,
    Authenticated,
    Failed,
}

/// What the driver of the handshake must do after handing it one event.
#[derive(Debug, Clone, Copy, PartialEq, Eq, Structural)]
pub enum AuthAction {
    /// Write the password line to the socket now.
    SendPassword,
    /// Nothing to do; keep reading.
    Wait,
    /// The text was ordinary chatter: keep it for the message pump rather
    /// than discarding it.
    Rebuffer,
    /// The server accepted the password; the session is authenticated.
    Accept,
    /// The handshake is over and failed for this reason.
    Reject(Error),
}

/// The mathematical state of a handshake: its stage, how many more
/// non-authoritative replies it will tolerate before giving up, and the
/// three banner substrings it recognizes.
pub ghost struct AuthView {
    pub state: AuthState,
    pub reads_left: u32,
    pub prompt: Seq<char>,
    pub reject: Seq<char>,
    pub accept: Seq<char>,
}

/// The transition taken when a decoded text (a raw banner chunk or a logical
/// line) arrives. Waiting for the prompt, text containing the prompt
/// substring elicits the password; after the password, a text containing the
/// rejection substring fails the handshake with [`Error::WrongPassword`], one
/// containing the acceptance substring authenticates, and anything else is
/// chatter, re-buffered until the read budget runs out, after which the
/// handshake fails with [`Error::NoResponse`]. The rejection substring is
/// checked before the acceptance substring. Terminal stages ignore events.
pub open spec fn auth_text_step(v: AuthView, text: Seq<char>) -> (AuthView, AuthAction) {
    match v.state {
        AuthState::Unauthenticated => if contains_text(text, v.prompt) {
            (AuthView { state: AuthState::Challenged, ..v }, AuthAction::SendPassword)
        } else {
            (v, AuthAction::Wait)
        },
        AuthState::Challenged => if contains_text(text, v.reject) {
            (AuthView { state: AuthState::Failed, ..v }, AuthAction::Reject(Error::WrongPassword))
        } else if contains_text(text, v.accept) {
            (AuthView { state: AuthState::Authenticated, ..v }, AuthAction::Accept)
        } else if v.reads_left == 0 {
            (AuthView { state: AuthState::Failed, ..v }, AuthAction::Reject(Error::NoResponse))
        } else {
            (AuthView { reads_left: (v.reads_left - 1) as u32, ..v }, AuthAction::Rebuffer)
        },
        AuthState::Authenticated => (v, AuthAction::Wait),
        AuthState::Failed => (v, AuthAction::Wait),
    }
}

/// The transition taken when the wait for data outlasts the configured
/// bound: an unfinished handshake fails with [`Error::NoResponse`]; a
/// finished one is unmoved.
pub open spec fn auth_timeout_step(v: AuthView) -> (AuthView, AuthAction) {
    match v.state {
        AuthState::Unauthenticated => (
            AuthView { state: AuthState::Failed, ..v },
            AuthAction::Reject(Error::NoResponse),
        ),
        AuthState::Challenged => (
            AuthView { state: AuthState::Failed, ..v },
            AuthAction::Reject(Error::NoResponse),
        ),
        AuthState::Authenticated => (v, AuthAction::Wait),
        AuthState::Failed => (v, AuthAction::Wait),
    }
}

/// Drives the post-connect challenge/response exchange. The handshake never
/// touches the socket itself: its driver hands it each decoded text (or a
/// timeout) and performs the action it returns.
pub struct AuthHandshake {
    state: AuthState,
    reads_left: u32,
    prompt: String,
    reject: String,
    accept: String,
}

impl View for AuthHandshake {
    type V = AuthView;

    closed spec fn view(&self) -> AuthView {
        AuthView {
            state: self.state,
            reads_left: self.reads_left,
            prompt: self.prompt@,
            reject: self.reject@,
            accept: self.accept@,
        }
    }
}

impl AuthHandshake {
    /// A fresh handshake that recognizes the three given banner substrings
    /// and tolerates `read_budget` non-authoritative replies after the
    /// password before giving up.
    pub fn new(prompt: String, reject: String, accept: String, read_budget: u32) -> (r:
        AuthHandshake)
        ensures
            r@ == (AuthView {
                state: AuthState::Unauthenticated,
                reads_left: read_budget,
                prompt: prompt@,
                reject: reject@,
                accept: accept@,
            }),
    {
        AuthHandshake { state: AuthState::Unauthenticated, reads_left: read_budget, prompt, reject, accept }
    }

    /// The current stage of the exchange.
    pub fn state(&self) -> (r: AuthState)
        ensures
            r == self@.state,
    {
        self.state
    }

    /// Feeds one decoded text to the handshake and returns the action its
    /// driver must take; the transition is exactly [`auth_text_step`].
    pub fn on_text(&mut self, text: &str) -> (a: AuthAction)
        ensures
            final(self)@ == auth_text_step(old(self)@, text@).0,
            a == auth_text_step(old(self)@, text@).1,
    {
        match self.state {
            AuthState::Unauthenticated => {
                if contains_str(text, self.prompt.as_str()) {
                    self.state = AuthState::Challenged;
                    AuthAction::SendPassword
                } else {
                    AuthAction::Wait
                }
            },
            AuthState::Challenged => {
                if contains_str(text, self.reject.as_str()) {
                    self.state = AuthState::Failed;
                    AuthAction::Reject(Error::WrongPassword)
                } else if contains_str(text, self.accept.as_str()) {
                    self.state = AuthState::Authenticated;
                    AuthAction::Accept
                } else if self.reads_left == 0 {
                    self.state = AuthState::Failed;
                    AuthAction::Reject(Error::NoResponse)
                } else {
                    self.reads_left = self.reads_left - 1;
                    AuthAction::Rebuffer
                }
            },
            AuthState::Authenticated => AuthAction::Wait,
            AuthState::Failed => AuthAction::Wait,
        }
    }

    /// Tells the handshake that the wait for data timed out; the transition
    /// is exactly [`auth_timeout_step`].
    pub fn on_timeout(&mut self) -> (a: AuthAction)
        ensures
            final(self)@ == auth_timeout_step(old(self)@).0,
            a == auth_timeout_step(old(self)@).1,
    {
        match self.state {
            AuthState::Unauthenticated => {
                self.state = AuthState::Failed;
                AuthAction::Reject(Error::NoResponse)
            },
            AuthState::Challenged => {
                self.state = AuthState::Failed;
                AuthAction::Reject(Error::NoResponse)
            },
            AuthState::Authenticated => AuthAction::Wait,
            AuthState::Failed => AuthAction::Wait,
        }
    }
}

/// A handshake that sees the prompt, answers, and is then told its password
/// was wrong, ends `Failed` with [`Error::WrongPassword`]: first the prompt
/// elicits the password, then the rejection is final.
pub proof fn lemma_handshake_rejected(v: AuthView, banner: Seq<char>, reply: Seq<char>)
    requires
        v.state == AuthState::Unauthenticated,
        contains_text(banner, v.prompt),
        contains_text(reply, v.reject),
    ensures
        auth_text_step(v, banner).1 == AuthAction::SendPassword,
        auth_text_step(auth_text_step(v, banner).0, reply).1 == AuthAction::Reject(
            Error::WrongPassword,
        ),
        auth_text_step(auth_text_step(v, banner).0, reply).0.state == AuthState::Failed,
{
}

/// A handshake that sees the prompt, answers, and is then shown the
/// acceptance substring (and no rejection) ends `Authenticated`.
pub proof fn lemma_handshake_accepted(v: AuthView, banner: Seq<char>, reply: Seq<char>)
    requires
        v.state == AuthState::Unauthenticated,
        contains_text(banner, v.prompt),
        !contains_text(reply, v.reject),
        contains_text(reply, v.accept),
    ensures
        auth_text_step(v, banner).1 == AuthAction::SendPassword,
        auth_text_step(auth_text_step(v, banner).0, reply).1 == AuthAction::Accept,
        auth_text_step(auth_text_step(v, banner).0, reply).0.state == AuthState::Authenticated,
{
}

/// Once terminal, always terminal: no event moves a handshake out of
/// `Authenticated` or `Failed`.
pub proof fn lemma_handshake_terminal(v: AuthView, text: Seq<char>)
    requires
        v.state == AuthState::Authenticated || v.state == AuthState::Failed,
    ensures
        auth_text_step(v, text).0 == v,
        auth_timeout_step(v).0 == v,
{
}

} // verus!
