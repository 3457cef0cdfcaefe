use std::collections::VecDeque;

use vstd::prelude::*;

use crate::decode::{lossy_decode, lossy_of};
use crate::error::Error;
use crate::handshake::{
    auth_text_step, auth_timeout_step, AuthAction, AuthHandshake, AuthState, AuthView,
};
use crate::message::{parse_ladder, EconMessage, MessageView};
use crate::reassembly::{feed_step, strip_pad, strip_pad_bytes, LineReassembler};
use crate::time::TimeOfDay;

verus! {

/// The life of one connection: the engine is built `Connecting`, moves to
/// `Authenticating` once the socket is up, to `Running` when the handshake
/// succeeds, and to `Closed` by `disconnect` or a fatal read/write fault.
/// `Failed` absorbs handshake and connect failures. `Running` is the only
/// state in which `send` and `receive` succeed.
#[derive(Debug, Clone, Copy, PartialEq, Eq, Structural)]
pub enum EngineState {
    Connecting,
    Authenticating,
    Running,
    Disconnecting,
    Closed,
    Failed,
}

/// Everything the engine will use of its configuration: the read-buffer
/// size that bounds one logical line, the two timeouts its driver applies
/// to reads and to the connect, the handshake's banner substrings and read
/// budget, and the sentinel category of the parser's fallback layer.
pub struct EngineConfig {
    pub buffer_size: usize,
    pub read_timeout_ms: u64,
    pub connect_timeout_ms: u64,
    pub auth_read_budget: u32,
    pub prompt: String,
    pub reject: String,
    pub accept: String,
    pub sentinel: String,
}

impl Default for EngineConfig {
    /// The defaults of the remote-console dialect this client speaks.
    fn default() -> (r: EngineConfig)
        ensures
            r.buffer_size == 2048,
            r.read_timeout_ms == 1000,
            r.connect_timeout_ms == 5000,
            r.auth_read_budget == 8,
            r.prompt@ == "Enter password"@,
            r.reject@ == "Wrong"@,
            r.accept@ == "Authentication successful"@,
            r.sentinel@ == "tw-econ"@,
    {
        EngineConfig {
            buffer_size: 2048,
            read_timeout_ms: 1000,
            connect_timeout_ms: 5000,
            auth_read_budget: 8,
            prompt: "Enter password".to_owned(),
            reject: "Wrong".to_owned(),
            accept: "Authentication successful".to_owned(),
            sentinel: "tw-econ".to_owned(),
        }
    }
}

/// The mathematical state of the engine: its stage, the handshake, the
/// reassembly fragment, the two queues, and the configuration it acts on.
#[verifier::ext_equal]
pub ghost struct EngineView {
    pub state: EngineState,
    pub auth: AuthView,
    pub pending: Seq<u8>,
    pub buffer_size: usize,
    pub inbound: Seq<MessageView>,
    pub outbound: Seq<Seq<char>>,
    pub password: Seq<char>,
    pub sentinel: Seq<char>,
    pub last_error: Option<Error>,
    pub read_timeout_ms: u64,
    pub connect_timeout_ms: u64,
}

/// The views of a queue of parsed messages, in queue order.
pub open spec fn msg_views(s: Seq<EconMessage>) -> Seq<MessageView> {
    Seq::new(s.len(), |i: int| s[i]@)
}

/// The texts of a queue of command strings, in queue order.
pub open spec fn cmd_views(s: Seq<String>) -> Seq<Seq<char>> {
    Seq::new(s.len(), |i: int| s[i]@)
}

/// The messages that a batch of reassembled lines contributes to the
/// inbound queue: each line decoded and run through the parser ladder, in
/// arrival order; empty lines contribute nothing.
pub open spec fn parse_lines(
    lines: Seq<Seq<u8>>,
    now: TimeOfDay,
    sentinel: Seq<char>,
) -> Seq<MessageView>
    decreases lines.len(),
{
    if lines.len() == 0 {
        seq![]
    } else {
        let rest = parse_lines(lines.drop_last(), now, sentinel);
        match parse_ladder(lossy_of(lines.last()), now, sentinel) {
            Some(m) => rest.push(m),
            None => rest,
        }
    }
}

/// Whether this chunk would leave a trailing fragment larger than the
/// configured buffer: the one condition under which reading fails with
/// [`Error::BufferExhausted`].
pub open spec fn chunk_overflows(v: EngineView, chunk: Seq<u8>) -> bool {
    feed_step(v.pending, chunk).1.len() > v.buffer_size
}

/// The engine after absorbing one readable chunk: the reassembler advances
/// and every completed line's message joins the inbound queue in order.
pub open spec fn absorbed(v: EngineView, chunk: Seq<u8>, now: TimeOfDay) -> EngineView {
    let step = feed_step(v.pending, chunk);
    EngineView {
        pending: step.1,
        inbound: v.inbound + parse_lines(step.0, now, v.sentinel),
        ..v
    }
}

/// The error a call gets once the engine is no longer running: the fault
/// that ended the session, or [`Error::NoConnection`] if it simply is not
/// connected.
pub open spec fn closed_error(v: EngineView) -> Error {
    match v.last_error {
        Some(e) => e,
        None => Error::NoConnection,
    }
}

/// The transition taken when a raw read delivers bytes. While
/// authenticating, the decoded chunk drives the handshake: the prompt
/// elicits the password onto the outbound queue, a verdict moves the engine
/// to `Running` or `Failed`, and chatter is re-buffered through the
/// reassembler so no line is lost. While running, the chunk is absorbed
/// into lines and messages. A line outgrowing the buffer fails the engine
/// with [`Error::BufferExhausted`]. Any other state ignores input.
pub open spec fn chunk_step(v: EngineView, chunk: Seq<u8>, now: TimeOfDay) -> EngineView {
    match v.state {
        EngineState::Authenticating => {
            let text = lossy_of(strip_pad(chunk));
            let step = auth_text_step(v.auth, text);
            let v2 = EngineView { auth: step.0, ..v };
            match step.1 {
                AuthAction::SendPassword => EngineView {
                    outbound: v2.outbound.push(v2.password),
                    ..v2
                },
                AuthAction::Accept => EngineView { state: EngineState::Running, ..v2 },
                AuthAction::Reject(e) => EngineView {
                    state: EngineState::Failed,
                    last_error: Some(e),
                    ..v2
                },
                AuthAction::Rebuffer => if chunk_overflows(v2, chunk) {
                    EngineView {
                        state: EngineState::Failed,
                        last_error: Some(Error::BufferExhausted),
                        ..v2
                    }
                } else {
                    absorbed(v2, chunk, now)
                },
                AuthAction::Wait => v2,
            }
        },
        EngineState::Running => if chunk_overflows(v, chunk) {
            EngineView {
                state: EngineState::Closed,
                last_error: Some(Error::BufferExhausted),
                ..v
            }
        } else {
            absorbed(v, chunk, now)
        },
        _ => v,
    }
}

/// The transition taken when a read returns zero bytes: the peer closed the
/// stream, which is fatal to any live stage of the session.
pub open spec fn zero_read_step(v: EngineView) -> EngineView {
    match v.state {
        EngineState::Connecting | EngineState::Authenticating | EngineState::Running =>
            EngineView {
                state: EngineState::Closed,
                last_error: Some(Error::DisconnectedByServer),
                ..v
            },
        _ => v,
    }
}

/// The transition for a hard read fault not attributable to a clean close.
pub open spec fn read_error_step(v: EngineView) -> EngineView {
    match v.state {
        EngineState::Connecting | EngineState::Authenticating | EngineState::Running =>
            EngineView { state: EngineState::Closed, last_error: Some(Error::UnableToRead), ..v },
        _ => v,
    }
}

/// The transition for a hard write fault.
pub open spec fn write_error_step(v: EngineView) -> EngineView {
    match v.state {
        EngineState::Connecting | EngineState::Authenticating | EngineState::Running =>
            EngineView { state: EngineState::Closed, last_error: Some(Error::UnableToWrite), ..v },
        _ => v,
    }
}

/// The transition when the wait for the banner or the verdict outlasts the
/// configured bound: the handshake gives up with [`Error::NoResponse`].
pub open spec fn auth_timeout_engine_step(v: EngineView) -> EngineView {
    if v.state == EngineState::Authenticating {
        let step = auth_timeout_step(v.auth);
        match step.1 {
            AuthAction::Reject(e) => EngineView {
                auth: step.0,
                state: EngineState::Failed,
                last_error: Some(e),
                ..v
            },
            _ => EngineView { auth: step.0, ..v },
        }
    } else {
        v
    }
}

/// The transition of `send`: while running, the command joins the back of
/// the outbound queue; otherwise nothing changes and the caller learns why.
pub open spec fn send_step(v: EngineView, command: Seq<char>) -> (EngineView, Result<
    (),
    Error,
>) {
    if v.state == EngineState::Running {
        (EngineView { outbound: v.outbound.push(command), ..v }, Ok(()))
    } else {
        (v, Err(closed_error(v)))
    }
}

/// The transition of the writer's `next_outgoing`: the front of the
/// outbound queue leaves, in strict first-in-first-out order.
pub open spec fn pop_outgoing_step(v: EngineView) -> (EngineView, Option<Seq<char>>) {
    if v.outbound.len() > 0 {
        (EngineView { outbound: v.outbound.drop_first(), ..v }, Some(v.outbound.first()))
    } else {
        (v, None)
    }
}

/// The transition of `receive`: while running, the front of the inbound
/// queue leaves, in strict first-in-first-out order, or `None` when nothing
/// is waiting; once the engine is no longer running, the call fails with
/// the fault that ended the session.
pub open spec fn receive_step(v: EngineView) -> (EngineView, Result<
    Option<MessageView>,
    Error,
>) {
    if v.state == EngineState::Running {
        if v.inbound.len() > 0 {
            (EngineView { inbound: v.inbound.drop_first(), ..v }, Ok(Some(v.inbound.first())))
        } else {
            (v, Ok(None))
        }
    } else {
        (v, Err(closed_error(v)))
    }
}

/// The transition of `disconnect`: a live session moves to
/// `Disconnecting` with both queues drained and discarded — closing the
/// outbound queue is what lets the writer task stop — and a session
/// already ending or ended is left as it is, which makes the call
/// idempotent.
pub open spec fn disconnect_step(v: EngineView) -> EngineView {
    match v.state {
        EngineState::Connecting | EngineState::Authenticating | EngineState::Running =>
            EngineView {
                state: EngineState::Disconnecting,
                inbound: seq![],
                outbound: seq![],
                ..v
            },
        _ => v,
    }
}

/// The transition when the driver reports that both pump tasks have been
/// joined after a disconnect: the session is fully closed.
pub open spec fn pump_stopped_step(v: EngineView) -> EngineView {
    if v.state == EngineState::Disconnecting {
        EngineView { state: EngineState::Closed, ..v }
    } else {
        v
    }
}

/// The protocol engine: the pure heart of one remote-console session. It
/// owns no socket; its driver performs the reads, writes and waits, hands
/// every outcome to the engine, and obeys the queues. All decisions — the
/// handshake, line reassembly, parsing, ordering, shutdown — are made here.
pub struct ProtocolEngine {
    state: EngineState,
    handshake: AuthHandshake,
    reassembler: LineReassembler,
    inbound: VecDeque<EconMessage>,
    outbound: VecDeque<String>,
    password: String,
    sentinel: String,
    last_error: Option<Error>,
    read_timeout_ms: u64,
    connect_timeout_ms: u64,
}

impl View for ProtocolEngine {
    type V = EngineView;

    closed spec fn view(&self) -> EngineView {
        EngineView {
            state: self.state,
            auth: self.handshake@,
            pending: self.reassembler.pending_view(),
            buffer_size: self.reassembler.capacity_spec(),
            inbound: msg_views(self.inbound@),
            outbound: cmd_views(self.outbound@),
            password: self.password@,
            sentinel: self.sentinel@,
            last_error: self.last_error,
            read_timeout_ms: self.read_timeout_ms,
            connect_timeout_ms: self.connect_timeout_ms,
        }
    }
}

impl ProtocolEngine {
    /// The engine's internal soundness: the reassembler is well formed and
    /// every queued message carries a well-formed time of day.
    pub closed spec fn wf(self) -> bool {
        &&& self.reassembler.wf()
        &&& forall|i: int|
            0 <= i < self.inbound@.len() ==> (#[trigger] self.inbound@[i])@.timestamp.wf()
    }

    /// A new engine for one connection attempt, holding the password it
    /// will answer the prompt with.
    pub fn new(password: String, config: EngineConfig) -> (r: ProtocolEngine)
        ensures
            r.wf(),
            r@ == (EngineView {
                state: EngineState::Connecting,
                auth: AuthView {
                    state: AuthState::Unauthenticated,
                    reads_left: config.auth_read_budget,
                    prompt: config.prompt@,
                    reject: config.reject@,
                    accept: config.accept@,
                },
                pending: Seq::<u8>::empty(),
                buffer_size: config.buffer_size,
                inbound: Seq::<MessageView>::empty(),
                outbound: Seq::<Seq<char>>::empty(),
                password: password@,
                sentinel: config.sentinel@,
                last_error: None,
                read_timeout_ms: config.read_timeout_ms,
                connect_timeout_ms: config.connect_timeout_ms,
            }),
    {
        let r = ProtocolEngine {
            state: EngineState::Connecting,
            handshake: AuthHandshake::new(
                config.prompt,
                config.reject,
                config.accept,
                config.auth_read_budget,
            ),
            reassembler: LineReassembler::new(config.buffer_size),
            inbound: VecDeque::new(),
            outbound: VecDeque::new(),
            password,
            sentinel: config.sentinel,
            last_error: None,
            read_timeout_ms: config.read_timeout_ms,
            connect_timeout_ms: config.connect_timeout_ms,
        };
        proof {
            assert(msg_views(r.inbound@) =~= Seq::<MessageView>::empty());
            assert(cmd_views(r.outbound@) =~= Seq::<Seq<char>>::empty());
        }
        r
    }

    /// The engine's current stage.
    pub fn state(&self) -> (r: EngineState)
        ensures
            r == self@.state,
    {
        self.state
    }

    /// The fault that ended the session, if one has.
    pub fn last_error(&self) -> (r: Option<Error>)
        ensures
            r == self@.last_error,
    {
        self.last_error
    }

    /// The configured read-buffer size; reads should hand the engine chunks
    /// of at most this many bytes.
    pub fn buffer_size(&self) -> (r: usize)
        ensures
            r == self@.buffer_size,
    {
        self.reassembler.capacity()
    }

    /// The configured bound on one read's wait for data.
    pub fn read_timeout_ms(&self) -> (r: u64)
        ensures
            r == self@.read_timeout_ms,
    {
        self.read_timeout_ms
    }

    /// The configured bound on establishing the connection.
    pub fn connect_timeout_ms(&self) -> (r: u64)
        ensures
            r == self@.connect_timeout_ms,
    {
        self.connect_timeout_ms
    }

    /// Tells the engine its socket is connected: the handshake begins.
    pub fn on_connected(&mut self)
        requires
            old(self).wf(),
        ensures
            final(self).wf(),
            old(self)@.state == EngineState::Connecting ==> final(self)@ == (EngineView {
                state: EngineState::Authenticating,
                ..old(self)@
            }),
            old(self)@.state != EngineState::Connecting ==> final(self)@ == old(self)@,
    {
        if matches!(self.state, EngineState::Connecting) {
            self.state = EngineState::Authenticating;
        }
    }

    /// Tells the engine its connection attempt failed: terminal, with
    /// [`Error::NoResponse`], as a refused or unreachable server is
    /// indistinguishable from a silent one.
    pub fn on_connect_failed(&mut self)
        requires
            old(self).wf(),
        ensures
            final(self).wf(),
            old(self)@.state == EngineState::Connecting ==> final(self)@ == (EngineView {
                state: EngineState::Failed,
                last_error: Some(Error::NoResponse),
                ..old(self)@
            }),
            old(self)@.state != EngineState::Connecting ==> final(self)@ == old(self)@,
    {
        if matches!(self.state, EngineState::Connecting) {
            self.state = EngineState::Failed;
            self.last_error = Some(Error::NoResponse);
        }
    }

    /// Absorbs one readable chunk through the reassembler into the inbound
    /// queue. Returns false exactly when the trailing fragment would
    /// outgrow the buffer, leaving the engine untouched.
    fn absorb(&mut self, chunk: &[u8], now: TimeOfDay) -> (ok: bool)
        requires
            old(self).wf(),
            now.wf(),
        ensures
            final(self).wf(),
            ok <==> !chunk_overflows(old(self)@, chunk@),
            ok ==> final(self)@ == absorbed(old(self)@, chunk@, now),
            !ok ==> *final(self) == *old(self),
    {
        let ghost fed = feed_step(old(self)@.pending, chunk@);
        let lines = match self.reassembler.feed(chunk) {
            Ok(lines) => lines,
            Err(_) => {
                return false;
            },
        };
        let ghost old_inbound = msg_views(old(self).inbound@);
        proof {
            assert(fed.0.take(0) =~= Seq::<Seq<u8>>::empty());
            assert(old_inbound + parse_lines(fed.0.take(0), now, old(self)@.sentinel) =~= old_inbound);
        }
        let mut idx: usize = 0;
        while idx < lines.len()
            invariant
                idx <= lines.len(),
                now.wf(),
                lines.deep_view() == fed.0,
                self.state == old(self).state,
                self.handshake == old(self).handshake,
                self.reassembler.wf(),
                self.reassembler.pending_view() == fed.1,
                self.reassembler.capacity_spec() == old(self)@.buffer_size,
                self.outbound == old(self).outbound,
                self.password == old(self).password,
                self.sentinel == old(self).sentinel,
                self.last_error == old(self).last_error,
                self.read_timeout_ms == old(self).read_timeout_ms,
                self.connect_timeout_ms == old(self).connect_timeout_ms,
                forall|i: int|
                    0 <= i < self.inbound@.len() ==> (#[trigger] self.inbound@[i])@.timestamp.wf(),
                msg_views(self.inbound@) == old_inbound + parse_lines(
                    fed.0.take(idx as int),
                    now,
                    old(self)@.sentinel,
                ),
            decreases lines.len() - idx,
        {
            let ghost done = parse_lines(fed.0.take(idx as int), now, old(self)@.sentinel);
            proof {
                assert(fed.0.take(idx + 1).drop_last() =~= fed.0.take(idx as int));
                assert(fed.0.take(idx + 1).last() == fed.0[idx as int]);
                assert(lines@[idx as int].deep_view() =~= lines@[idx as int]@);
                assert(fed.0[idx as int] == lines@[idx as int]@);
            }
            let text = lossy_decode(lines[idx].as_slice());
            match EconMessage::parse_line(text.as_str(), now, self.sentinel.as_str()) {
                Some(m) => {
                    let ghost before = self.inbound@;
                    self.inbound.push_back(m);
                    proof {
                        assert(text@ == lossy_of(fed.0[idx as int]));
                        assert(parse_ladder(lossy_of(fed.0[idx as int]), now, old(self)@.sentinel)
                            is Some);
                        assert(self.sentinel@ == old(self)@.sentinel);
                        assert(m@ == parse_ladder(text@, now, self.sentinel@)->0);
                        assert(parse_ladder(lossy_of(fed.0[idx as int]), now, old(self)@.sentinel)
                            ->0 == m@);
                        assert(parse_lines(fed.0.take(idx + 1), now, old(self)@.sentinel)
                            == done.push(m@));
                        assert(msg_views(self.inbound@) =~= msg_views(before).push(m@));
                        assert(msg_views(self.inbound@) =~= old_inbound + parse_lines(
                            fed.0.take(idx + 1),
                            now,
                            old(self)@.sentinel,
                        ));
                    }
                },
                None => {
                    proof {
                        assert(parse_lines(fed.0.take(idx + 1), now, old(self)@.sentinel) =~= done);
                    }
                },
            }
            idx += 1;
        }
        proof {
            assert(fed.0.take(fed.0.len() as int) =~= fed.0);
            assert(self@ =~= absorbed(old(self)@, chunk@, now));
        }
        true
    }

    /// Hands the engine the bytes of one raw read, stamped with the
    /// wall-clock time of receipt; the transition is exactly [`chunk_step`].
    pub fn on_chunk(&mut self, chunk: &[u8], now: TimeOfDay)
        requires
            old(self).wf(),
            now.wf(),
        ensures
            final(self).wf(),
            final(self)@ == chunk_step(old(self)@, chunk@, now),
    {
        match self.state {
            EngineState::Authenticating => {
                let stripped = strip_pad_bytes(chunk);
                let text = lossy_decode(stripped.as_slice());
                let act = self.handshake.on_text(text.as_str());
                proof {
                    assert(text@ == lossy_of(strip_pad(chunk@)));
                }
                match act {
                    AuthAction::SendPassword => {
                        let ghost before = self.outbound@;
                        let pw = self.password.clone();
                        self.outbound.push_back(pw);
                        proof {
                            assert(cmd_views(self.outbound@) =~= cmd_views(before).push(
                                old(self)@.password,
                            ));
                            assert(self@ =~= chunk_step(old(self)@, chunk@, now));
                        }
                    },
                    AuthAction::Accept => {
                        self.state = EngineState::Running;
                        proof {
                            assert(self@ =~= chunk_step(old(self)@, chunk@, now));
                        }
                    },
                    AuthAction::Reject(e) => {
                        self.state = EngineState::Failed;
                        self.last_error = Some(e);
                        proof {
                            assert(self@ =~= chunk_step(old(self)@, chunk@, now));
                        }
                    },
                    AuthAction::Rebuffer => {
                        if !self.absorb(chunk, now) {
                            self.state = EngineState::Failed;
                            self.last_error = Some(Error::BufferExhausted);
                        }
                        proof {
                            assert(self@ =~= chunk_step(old(self)@, chunk@, now));
                        }
                    },
                    AuthAction::Wait => {
                        proof {
                            assert(self@ =~= chunk_step(old(self)@, chunk@, now));
                        }
                    },
                }
            },
            EngineState::Running => {
                if !self.absorb(chunk, now) {
                    self.state = EngineState::Closed;
                    self.last_error = Some(Error::BufferExhausted);
                }
                proof {
                    assert(self@ =~= chunk_step(old(self)@, chunk@, now));
                }
            },
            _ => {
                proof {
                    assert(self@ =~= chunk_step(old(self)@, chunk@, now));
                }
            },
        }
    }

    /// Tells the engine a read returned zero bytes: the peer closed the
    /// stream; the transition is exactly [`zero_read_step`].
    pub fn on_zero_read(&mut self)
        requires
            old(self).wf(),
        ensures
            final(self).wf(),
            final(self)@ == zero_read_step(old(self)@),
    {
        match self.state {
            EngineState::Connecting | EngineState::Authenticating | EngineState::Running => {
                self.state = EngineState::Closed;
                self.last_error = Some(Error::DisconnectedByServer);
            },
            _ => {},
        }
    }

    /// Tells the engine a read failed hard; the transition is exactly
    /// [`read_error_step`].
    pub fn on_read_error(&mut self)
        requires
            old(self).wf(),
        ensures
            final(self).wf(),
            final(self)@ == read_error_step(old(self)@),
    {
        match self.state {
            EngineState::Connecting | EngineState::Authenticating | EngineState::Running => {
                self.state = EngineState::Closed;
                self.last_error = Some(Error::UnableToRead);
            },
            _ => {},
        }
    }

    /// Tells the engine a write failed hard; the transition is exactly
    /// [`write_error_step`].
    pub fn on_write_error(&mut self)
        requires
            old(self).wf(),
        ensures
            final(self).wf(),
            final(self)@ == write_error_step(old(self)@),
    {
        match self.state {
            EngineState::Connecting | EngineState::Authenticating | EngineState::Running => {
                self.state = EngineState::Closed;
                self.last_error = Some(Error::UnableToWrite);
            },
            _ => {},
        }
    }

    /// Tells the engine the wait for a handshake response outlasted its
    /// bound; the transition is exactly [`auth_timeout_engine_step`].
    pub fn on_auth_timeout(&mut self)
        requires
            old(self).wf(),
        ensures
            final(self).wf(),
            final(self)@ == auth_timeout_engine_step(old(self)@),
    {
        if matches!(self.state, EngineState::Authenticating) {
            let act = self.handshake.on_timeout();
            match act {
                AuthAction::Reject(e) => {
                    self.state = EngineState::Failed;
                    self.last_error = Some(e);
                },
                _ => {},
            }
        }
    }

    /// Enqueues one command line for the writer, in strict order of calls;
    /// fails with the fault that ended the session once the engine is no
    /// longer running. The transition is exactly [`send_step`].
    pub fn send(&mut self, command: String) -> (r: Result<(), Error>)
        requires
            old(self).wf(),
        ensures
            final(self).wf(),
            final(self)@ == send_step(old(self)@, command@).0,
            r == send_step(old(self)@, command@).1,
    {
        match self.state {
            EngineState::Running => {
                let ghost before = self.outbound@;
                self.outbound.push_back(command);
                proof {
                    assert(cmd_views(self.outbound@) =~= cmd_views(before).push(command@));
                    assert(self@ =~= send_step(old(self)@, command@).0);
                }
                Ok(())
            },
            _ => {
                match self.last_error {
                    Some(e) => Err(e),
                    None => Err(Error::NoConnection),
                }
            },
        }
    }

    /// Hands the writer the next command to put on the wire, in strict
    /// first-in-first-out order; the transition is exactly
    /// [`pop_outgoing_step`].
    pub fn next_outgoing(&mut self) -> (r: Option<String>)
        requires
            old(self).wf(),
        ensures
            final(self).wf(),
            final(self)@ == pop_outgoing_step(old(self)@).0,
            r is Some <==> pop_outgoing_step(old(self)@).1 is Some,
            r is Some ==> r->0@ == pop_outgoing_step(old(self)@).1->0,
    {
        let r = self.outbound.pop_front();
        proof {
            if old(self).outbound@.len() > 0 {
                assert(cmd_views(self.outbound@) =~= cmd_views(old(self).outbound@).drop_first());
                assert(self@ =~= pop_outgoing_step(old(self)@).0);
            } else {
                assert(self@ =~= pop_outgoing_step(old(self)@).0);
            }
        }
        r
    }

    /// Dequeues the next parsed message, in strict first-in-first-out
    /// order, or `None` when nothing is waiting; fails with the fault that
    /// ended the session once the engine is no longer running. The
    /// transition is exactly [`receive_step`].
    pub fn receive(&mut self) -> (r: Result<Option<EconMessage>, Error>)
        requires
            old(self).wf(),
        ensures
            final(self).wf(),
            final(self)@ == receive_step(old(self)@).0,
            r matches Ok(Some(m)) ==> receive_step(old(self)@).1 == Ok::<
                Option<MessageView>,
                Error,
            >(Some(m@)) && m.wf(),
            r matches Ok(None::<EconMessage>) ==> receive_step(old(self)@).1 == Ok::<
                Option<MessageView>,
                Error,
            >(None),
            r matches Err(e) ==> receive_step(old(self)@).1 == Err::<
                Option<MessageView>,
                Error,
            >(e),
    {
        match self.state {
            EngineState::Running => {
                let r = self.inbound.pop_front();
                proof {
                    if old(self).inbound@.len() > 0 {
                        assert(msg_views(self.inbound@) =~= msg_views(
                            old(self).inbound@,
                        ).drop_first());
                        assert(self@ =~= receive_step(old(self)@).0);
                    } else {
                        assert(self@ =~= receive_step(old(self)@).0);
                    }
                }
                Ok(r)
            },
            _ => {
                match self.last_error {
                    Some(e) => Err(e),
                    None => Err(Error::NoConnection),
                }
            },
        }
    }

    /// Asks the engine to shut the session down: both queues are drained
    /// and discarded and the pump must stop. Idempotent, and a no-op once
    /// the engine has already left its live states. The transition is
    /// exactly [`disconnect_step`].
    pub fn disconnect(&mut self)
        requires
            old(self).wf(),
        ensures
            final(self).wf(),
            final(self)@ == disconnect_step(old(self)@),
    {
        match self.state {
            EngineState::Connecting | EngineState::Authenticating | EngineState::Running => {
                self.state = EngineState::Disconnecting;
                self.inbound.clear();
                self.outbound.clear();
                proof {
                    assert(msg_views(self.inbound@) =~= Seq::<MessageView>::empty());
                    assert(cmd_views(self.outbound@) =~= Seq::<Seq<char>>::empty());
                    assert(self@ =~= disconnect_step(old(self)@));
                }
            },
            _ => {
                proof {
                    assert(self@ =~= disconnect_step(old(self)@));
                }
            },
        }
    }

    /// Tells the engine that both pump tasks have stopped after a
    /// disconnect; the session is now fully closed. The transition is
    /// exactly [`pump_stopped_step`].
    pub fn on_pump_stopped(&mut self)
        requires
            old(self).wf(),
        ensures
            final(self).wf(),
            final(self)@ == pump_stopped_step(old(self)@),
    {
        if matches!(self.state, EngineState::Disconnecting) {
            self.state = EngineState::Closed;
        }
    }
}

/// Commands handed to `send` while running leave for the wire in exactly
/// the order they were sent: first in, first out, never stack order.
pub proof fn lemma_send_order_fifo(v: EngineView, a: Seq<char>, b: Seq<char>, c: Seq<char>)
    requires
        v.state == EngineState::Running,
        v.outbound.len() == 0,
    ensures
        ({
            let v3 = send_step(send_step(send_step(v, a).0, b).0, c).0;
            let p1 = pop_outgoing_step(v3);
            let p2 = pop_outgoing_step(p1.0);
            let p3 = pop_outgoing_step(p2.0);
            &&& send_step(v, a).1 == Ok::<(), Error>(())
            &&& v3.outbound == seq![a, b, c]
            &&& p1.1 == Some(a)
            &&& p2.1 == Some(b)
            &&& p3.1 == Some(c)
            &&& p3.0.outbound.len() == 0
        }),
{
    let v3 = send_step(send_step(send_step(v, a).0, b).0, c).0;
    assert(v3.outbound =~= seq![a, b, c]);
    let p1 = pop_outgoing_step(v3);
    assert(p1.0.outbound =~= seq![b, c]);
    let p2 = pop_outgoing_step(p1.0);
    assert(p2.0.outbound =~= seq![c]);
    let p3 = pop_outgoing_step(p2.0);
    assert(p3.0.outbound =~= Seq::<Seq<char>>::empty());
}

/// Messages queued inbound while running are handed to `receive` in exactly
/// the order they arrived: first in, first out, never stack order.
pub proof fn lemma_receive_order_fifo(
    v: EngineView,
    x: MessageView,
    y: MessageView,
    z: MessageView,
)
    requires
        v.state == EngineState::Running,
        v.inbound == seq![x, y, z],
    ensures
        ({
            let s1 = receive_step(v);
            let s2 = receive_step(s1.0);
            let s3 = receive_step(s2.0);
            &&& s1.1 == Ok::<Option<MessageView>, Error>(Some(x))
            &&& s2.1 == Ok::<Option<MessageView>, Error>(Some(y))
            &&& s3.1 == Ok::<Option<MessageView>, Error>(Some(z))
            &&& s3.0.inbound.len() == 0
        }),
{
    let s1 = receive_step(v);
    assert(s1.0.inbound =~= seq![y, z]);
    let s2 = receive_step(s1.0);
    assert(s2.0.inbound =~= seq![z]);
    let s3 = receive_step(s2.0);
    assert(s3.0.inbound =~= Seq::<MessageView>::empty());
}

/// A zero-byte read on a running connection closes the session with
/// [`Error::DisconnectedByServer`], and the next `receive` reports exactly
/// that fault instead of hanging or returning data.
pub proof fn lemma_disconnected_by_server(v: EngineView)
    requires
        v.state == EngineState::Running,
    ensures
        zero_read_step(v).state == EngineState::Closed,
        zero_read_step(v).last_error == Some(Error::DisconnectedByServer),
        receive_step(zero_read_step(v)).1 == Err::<Option<MessageView>, Error>(
            Error::DisconnectedByServer,
        ),
        send_step(zero_read_step(v), Seq::<char>::empty()).1 == Err::<(), Error>(
            Error::DisconnectedByServer,
        ),
{
}

/// `Closed` and `Failed` are terminal: no input, fault, timeout or queue
/// operation moves the engine out of them or alters what it holds, and
/// `send` and `receive` there only report the fault that ended the session.
pub proof fn lemma_engine_terminal(v: EngineView, chunk: Seq<u8>, now: TimeOfDay, cmd: Seq<char>)
    requires
        v.state == EngineState::Closed || v.state == EngineState::Failed,
    ensures
        chunk_step(v, chunk, now) == v,
        zero_read_step(v) == v,
        read_error_step(v) == v,
        write_error_step(v) == v,
        auth_timeout_engine_step(v) == v,
        disconnect_step(v) == v,
        pump_stopped_step(v) == v,
        send_step(v, cmd) == (v, Err::<(), Error>(closed_error(v))),
        receive_step(v) == (v, Err::<Option<MessageView>, Error>(closed_error(v))),
{
}

/// A handshake in which the server prompts, takes the password, and
/// answers with the rejection substring leaves the engine `Failed` with
/// [`Error::WrongPassword`] — after the password went out exactly once.
pub proof fn lemma_engine_rejects_wrong_password(
    v: EngineView,
    banner: Seq<u8>,
    reply: Seq<u8>,
    t1: TimeOfDay,
    t2: TimeOfDay,
)
    requires
        v.state == EngineState::Authenticating,
        v.auth.state == AuthState::Unauthenticated,
        crate::text::contains_text(lossy_of(strip_pad(banner)), v.auth.prompt),
        crate::text::contains_text(lossy_of(strip_pad(reply)), v.auth.reject),
    ensures
        ({
            let v1 = chunk_step(v, banner, t1);
            let v2 = chunk_step(v1, reply, t2);
            &&& v1.state == EngineState::Authenticating
            &&& v1.outbound == v.outbound.push(v.password)
            &&& v2.state == EngineState::Failed
            &&& v2.last_error == Some(Error::WrongPassword)
        }),
{
}

/// A handshake in which the server prompts, takes the password, and
/// answers with the acceptance substring (and no rejection) moves the
/// engine to `Running` with the handshake `Authenticated`.
pub proof fn lemma_engine_accepts_password(
    v: EngineView,
    banner: Seq<u8>,
    reply: Seq<u8>,
    t1: TimeOfDay,
    t2: TimeOfDay,
)
    requires
        v.state == EngineState::Authenticating,
        v.auth.state == AuthState::Unauthenticated,
        crate::text::contains_text(lossy_of(strip_pad(banner)), v.auth.prompt),
        !crate::text::contains_text(lossy_of(strip_pad(reply)), v.auth.reject),
        crate::text::contains_text(lossy_of(strip_pad(reply)), v.auth.accept),
    ensures
        ({
            let v1 = chunk_step(v, banner, t1);
            let v2 = chunk_step(v1, reply, t2);
            &&& v1.state == EngineState::Authenticating
            &&& v1.outbound == v.outbound.push(v.password)
            &&& v2.state == EngineState::Running
            &&& v2.auth.state == AuthState::Authenticated
        }),
{
}

} // verus!
