use vstd::prelude::*;

pub mod decode;
pub mod engine;
pub mod error;
pub mod handshake;
pub mod message;
pub mod reassembly;
pub mod text;
pub mod time;

pub use engine::EngineConfig;
pub use engine::EngineState;
pub use engine::ProtocolEngine;
pub use error::EconError;
pub use error::Error;
pub use handshake::AuthAction;
pub use handshake::AuthHandshake;
pub use handshake::AuthState;
pub use message::EconMessage;
pub use reassembly::LineReassembler;
pub use time::TimeOfDay;

verus! {

/// The wall-clock time of day right now, for stamping received lines; all
/// that is known of the clock's reading is that it is a valid time of day.
pub fn current_time() -> (t: TimeOfDay)
    ensures
        t.wf(),
{
    time::wall_clock_time()
}

} // verus!
