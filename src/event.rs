use vstd::prelude::*;

verus! {

/// A lifecycle event, as handed to the application's handler.
///
/// `I` is one raw input or window event of the platform; `Z` is a window
/// size as the platform reports it. Times are whole microseconds.
#[derive(Debug, Clone, PartialEq, Eq)]
pub enum LoopEvent<I, Z> {
    /// One raw input or window event.
    Input(I),
    /// Advance the simulation by `dt` microseconds.
    Update { dt: u64 },
    /// Paint a frame; `size` is the logical size, `draw_size` the drawable one.
    Render { ext_dt: u64, size: Z, draw_size: Z },
    /// The buffer swap for the previously rendered frame has completed.
    AfterRender,
}

/// Wraps each raw event as an `Input` event, keeping their order.
pub open spec fn wrap_inputs<I, Z>(raw: Seq<I>) -> Seq<LoopEvent<I, Z>> {
    raw.map_values(|i: I| LoopEvent::Input(i))
}

} // verus!
