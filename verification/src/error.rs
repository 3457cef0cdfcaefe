use vstd::prelude::*;

verus! {

/// Everything that can go wrong while talking to the remote console.
///
/// `Timeout` — no data or response arrived within the configured bound.
/// `WrongPassword` — the server rejected the password during the handshake.
/// `DisconnectedByServer` — a zero-byte read: the peer closed the stream.
/// `NoResponse` — the connection could not be established, or the server
/// never sent a banner or a confirmation before the bound ran out.
/// `NoConnection` — an operation was attempted while no connection is open.
/// `UnableToRead` / `UnableToWrite` — an I/O failure not attributable to the
/// peer closing cleanly.
/// `BufferExhausted` — a logical line outgrew the configured read buffer
/// before a delimiter appeared.
#[derive(Debug, Clone, Copy, PartialEq, Eq, Structural)]
pub enum Error {
    Timeout,
    WrongPassword,
    DisconnectedByServer,
    NoResponse,
    NoConnection,
    UnableToRead,
    UnableToWrite,
    BufferExhausted,
}

/// The two ways the connection handshake can fail for a caller that only
/// wants a yes or no: the password was rejected, or the server never
/// answered in a recognizable way.
#[derive(Debug, Clone, Copy, PartialEq, Eq, Structural)]
pub enum EconError {
    WrongPassword,
    NoResponse,
}

impl EconError {
    /// How a failed connection attempt reads to a caller that only asks
    /// whether its password was wrong: a rejection is `WrongPassword`, and
    /// every other fault — no banner, no verdict, a refused or dead socket —
    /// is `NoResponse`.
    pub fn from_error(e: Error) -> (r: EconError)
        ensures
            e == Error::WrongPassword ==> r == EconError::WrongPassword,
            e != Error::WrongPassword ==> r == EconError::NoResponse,
    {
        match e {
            Error::WrongPassword => EconError::WrongPassword,
            _ => EconError::NoResponse,
        }
    }
}

impl Error {
    /// A human-readable description, since the engine's types carry no
    /// formatting machinery of their own.
    pub fn message(&self) -> (r: &'static str)
        ensures
            r@.len() > 0,
    {
        let r: &'static str = match self {
            Error::Timeout => "timed out",
            Error::WrongPassword => "wrong password",
            Error::DisconnectedByServer => "disconnected by server",
            Error::NoResponse => "no response",
            Error::NoConnection => "no connection",
            Error::UnableToRead => "unable to read",
            Error::UnableToWrite => "unable to write",
            Error::BufferExhausted => "buffer exhausted",
        };
        proof {
            reveal_strlit("timed out");
            reveal_strlit("wrong password");
            reveal_strlit("disconnected by server");
            reveal_strlit("no response");
            reveal_strlit("no connection");
            reveal_strlit("unable to read");
            reveal_strlit("unable to write");
            reveal_strlit("buffer exhausted");
        }
        r
    }
}

} // verus!
