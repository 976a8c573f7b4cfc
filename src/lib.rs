//! Event-loop dispatch for a windowed client.
//!
//! Two drivers feed one application handler with the same ordered stream of
//! lifecycle events: a native driver that owns a blocking loop, and a
//! cooperative driver whose body a host scheduler invokes once per tick. Both
//! are written as decision functions: the caller performs the action that a
//! driver asks for and hands back what came of it.

pub mod event;
pub mod native;
pub mod cooperative;
pub mod trace;

pub use event::LoopEvent;
pub use native::{on_fetched, on_handled, NativeAction};
pub use cooperative::{CoopDriver, HostAction, HostSignal, Phase};
