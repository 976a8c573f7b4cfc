use vstd::prelude::*;
use crate::event::LoopEvent;

verus! {

/// What the host, or the window it owns, reports back to the cooperative driver.
#[derive(Debug, Clone, PartialEq, Eq)]
pub enum HostSignal<I, Z> {
    /// The host scheduler invoked the registered callback.
    Tick,
    /// The result of polling the window's input queue.
    Polled(Option<I>),
    /// Whether the window asks to close.
    CloseStatus(bool),
    /// The host clock, in microseconds.
    Now(u64),
    /// The window's logical and drawable sizes.
    Sizes(Z, Z),
}

/// What the cooperative driver asks its caller to do, in order.
#[derive(Debug, Clone, PartialEq, Eq)]
pub enum HostAction<I, Z> {
    /// Swap the buffers of the frame rendered on the previous tick.
    SwapBuffers,
    /// Hand this event to the handler.
    Dispatch(LoopEvent<I, Z>),
    /// Poll the window's input queue without blocking; answer `Polled`.
    PollInput,
    /// Ask the window whether it should close; answer `CloseStatus`.
    QueryClose,
    /// Cancel the host's recurring registration and release the loop state.
    CancelRegistration,
    /// Read the host clock; answer `Now`.
    ReadClock,
    /// Read the window's sizes; answer `Sizes`.
    QuerySizes,
}

/// Where the cooperative driver stands within a tick.
#[derive(Debug, Clone, Copy, PartialEq, Eq)]
pub enum Phase {
    /// Between ticks: waiting for the host to invoke the callback.
    Idle,
    /// Draining the input queue: waiting for `Polled`.
    Polling,
    /// Waiting for `CloseStatus`.
    CheckingClose,
    /// Waiting for `Now`.
    Timing,
    /// Waiting for `Sizes`.
    Sizing,
    /// The registration was cancelled: nothing more happens.
    Cancelled,
}

/// The state that the cooperative driver keeps from one invocation to the next.
///
/// The handler's answers are not consulted here: only the window's close
/// request ends this driver, by cancelling the host registration.
#[derive(Debug, Clone, Copy, PartialEq, Eq)]
pub struct CoopDriver {
    pub phase: Phase,
    /// Host clock at the last `Update`, or at registration before the first.
    pub last_updated: u64,
    /// The delta of the current tick's `Update`, repeated in its `Render`.
    pub last_dt: u64,
}

/// Elapsed time between two clock readings; a clock that went back counts as
/// no time at all.
pub open spec fn elapsed(last: u64, now: u64) -> u64 {
    if now >= last {
        (now - last) as u64
    } else {
        0
    }
}

/// One transition: the next state and the actions asked for, in order.
/// A signal that does not answer what the driver waits for changes nothing.
pub open spec fn step_spec<I, Z>(d: CoopDriver, sig: HostSignal<I, Z>) -> (CoopDriver, Seq<HostAction<I, Z>>) {
    match (d.phase, sig) {
        (Phase::Idle, HostSignal::Tick) => (
            CoopDriver { phase: Phase::Polling, ..d },
            seq![HostAction::SwapBuffers, HostAction::Dispatch(LoopEvent::AfterRender), HostAction::PollInput],
        ),
        (Phase::Polling, HostSignal::Polled(Some(i))) => (
            d,
            seq![HostAction::Dispatch(LoopEvent::Input(i)), HostAction::PollInput],
        ),
        (Phase::Polling, HostSignal::Polled(None)) => (
            CoopDriver { phase: Phase::CheckingClose, ..d },
            seq![HostAction::QueryClose],
        ),
        (Phase::CheckingClose, HostSignal::CloseStatus(true)) => (
            CoopDriver { phase: Phase::Cancelled, ..d },
            seq![HostAction::CancelRegistration],
        ),
        (Phase::CheckingClose, HostSignal::CloseStatus(false)) => (
            CoopDriver { phase: Phase::Timing, ..d },
            seq![HostAction::ReadClock],
        ),
        (Phase::Timing, HostSignal::Now(now)) => (
            CoopDriver { phase: Phase::Sizing, last_updated: now, last_dt: elapsed(d.last_updated, now) },
            seq![HostAction::Dispatch(LoopEvent::Update { dt: elapsed(d.last_updated, now) }), HostAction::QuerySizes],
        ),
        (Phase::Sizing, HostSignal::Sizes(size, draw_size)) => (
            CoopDriver { phase: Phase::Idle, ..d },
            seq![HostAction::Dispatch(LoopEvent::Render { ext_dt: d.last_dt, size, draw_size })],
        ),
        _ => (d, Seq::empty()),
    }
}

impl CoopDriver {
    /// A driver registered with the host when its clock read `registered_at`.
    /// The first tick's delta is measured from that reading, not clamped.
    pub fn new(registered_at: u64) -> (r: CoopDriver)
        ensures
            r.phase == Phase::Idle,
            r.last_updated == registered_at,
            r.last_dt == 0,
    {
        CoopDriver { phase: Phase::Idle, last_updated: registered_at, last_dt: 0 }
    }

    /// Takes one signal from the host and returns the actions to perform, in order.
    pub fn step<I, Z>(&mut self, sig: HostSignal<I, Z>) -> (r: Vec<HostAction<I, Z>>)
        ensures
            (*final(self), r@) == step_spec(*old(self), sig),
    {
        let mut out: Vec<HostAction<I, Z>> = Vec::new();
        match (self.phase, sig) {
            (Phase::Idle, HostSignal::Tick) => {
                self.phase = Phase::Polling;
                out.push(HostAction::SwapBuffers);
                out.push(HostAction::Dispatch(LoopEvent::AfterRender));
                out.push(HostAction::PollInput);
            },
            (Phase::Polling, HostSignal::Polled(Some(i))) => {
                out.push(HostAction::Dispatch(LoopEvent::Input(i)));
                out.push(HostAction::PollInput);
            },
            (Phase::Polling, HostSignal::Polled(None)) => {
                self.phase = Phase::CheckingClose;
                out.push(HostAction::QueryClose);
            },
            (Phase::CheckingClose, HostSignal::CloseStatus(close)) => {
                if close {
                    self.phase = Phase::Cancelled;
                    out.push(HostAction::CancelRegistration);
                } else {
                    self.phase = Phase::Timing;
                    out.push(HostAction::ReadClock);
                }
            },
            (Phase::Timing, HostSignal::Now(now)) => {
                let dt: u64 = if now >= self.last_updated { now - self.last_updated } else { 0 };
                self.phase = Phase::Sizing;
                self.last_updated = now;
                self.last_dt = dt;
                out.push(HostAction::Dispatch(LoopEvent::Update { dt }));
                out.push(HostAction::QuerySizes);
            },
            (Phase::Sizing, HostSignal::Sizes(size, draw_size)) => {
                self.phase = Phase::Idle;
                out.push(HostAction::Dispatch(LoopEvent::Render { ext_dt: self.last_dt, size, draw_size }));
            },
            _ => {},
        }
        proof {
            assert(out@ =~= step_spec(*old(self), sig).1);
        }
        out
    }
}

} // verus!
