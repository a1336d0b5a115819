use vstd::prelude::*;

verus! {

/// Where the ping loop stands.
#[derive(Debug, Clone, Copy, PartialEq, Eq, Structural)]
pub enum LoopState {
    /// Between ticks; the only state in which a cancellation ends the loop.
    Waiting,
    /// One send/receive/report cycle is running. A cancellation that comes
    /// meanwhile is kept in `cancel_pending` and taken when the cycle ends.
    Exchanging { cancel_pending: bool },
    /// The loop has ended.
    Stopped,
}

/// What the loop observes.
#[derive(Debug, Clone, Copy, PartialEq, Eq, Structural)]
pub enum LoopEvent {
    /// The periodic timer fired.
    Tick,
    /// The operator asked to stop.
    Cancel,
    /// The running cycle has completed, or failed in a way that concerns it
    /// alone.
    ExchangeDone,
    /// The running cycle failed in a way no later cycle can get past (no
    /// socket could be made).
    Fatal,
}

/// The loop's next state after `event` in `state`. A tick while waiting
/// starts a cycle; a cancellation while waiting stops the loop at once; a
/// cancellation during a cycle stops it only once the cycle is done; a tick
/// during a cycle is dropped; a fatal failure stops the loop; a stopped loop
/// stays stopped.
pub fn next_state(state: LoopState, event: LoopEvent) -> (r: LoopState)
    ensures
        state is Stopped ==> r is Stopped,
        event is Fatal ==> r is Stopped,
        state is Waiting ==> r == match event {
            LoopEvent::Tick => LoopState::Exchanging { cancel_pending: false },
            LoopEvent::Cancel => LoopState::Stopped,
            LoopEvent::ExchangeDone => LoopState::Waiting,
            LoopEvent::Fatal => LoopState::Stopped,
        },
        state matches LoopState::Exchanging { cancel_pending } ==> r == match event {
            LoopEvent::Tick => state,
            LoopEvent::Cancel => LoopState::Exchanging { cancel_pending: true },
            LoopEvent::ExchangeDone => if cancel_pending {
                LoopState::Stopped
            } else {
                LoopState::Waiting
            },
            LoopEvent::Fatal => LoopState::Stopped,
        },
{
    match state {
        LoopState::Waiting => match event {
            LoopEvent::Tick => LoopState::Exchanging { cancel_pending: false },
            LoopEvent::Cancel => LoopState::Stopped,
            LoopEvent::ExchangeDone => LoopState::Waiting,
            LoopEvent::Fatal => LoopState::Stopped,
        },
        LoopState::Exchanging { cancel_pending } => match event {
            LoopEvent::Tick => state,
            LoopEvent::Cancel => LoopState::Exchanging { cancel_pending: true },
            LoopEvent::ExchangeDone => if cancel_pending {
                LoopState::Stopped
            } else {
                LoopState::Waiting
            },
            LoopEvent::Fatal => LoopState::Stopped,
        },
        LoopState::Stopped => LoopState::Stopped,
    }
}

} // verus!
