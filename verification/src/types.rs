//! Enums and value types referenced by engine invariants.

use vstd::prelude::*;

verus! {

/// Handler disposition returned by command handlers.
///
/// Controls how the engine's two-pass dispatch chain proceeds after each
/// handler executes.
#[derive(Clone, Copy, Debug, PartialEq, Eq, Structural)]
pub enum Disposition {
    /// Stop evaluation: this handler produced the definitive response.
    Final,
    /// Apply this handler's effects as a layer and continue to lower-priority
    /// handlers.
    Continue,
    /// This handler did not handle the command. Keep looking.
    Fail,
}

/// Container reload state machine.
///
/// The only legal transition sequence is
/// `Active -> Staged -> Draining -> Swapped`.
#[derive(Clone, Copy, Debug, PartialEq, Eq, Structural)]
pub enum ReloadState {
    /// The container is live and serving normally. Default state.
    Active,
    /// A replacement container has been prepared but not yet activated.
    Staged,
    /// The old container is emptying its occupants before swap.
    /// Transition to `Swapped` is blocked while occupancy > 0.
    Draining,
    /// The swap is complete. The old container entity will be despawned.
    Swapped,
}

/// Policy decision returned by mudlib drain callbacks.
#[derive(Clone, Copy, Debug, PartialEq, Eq, Structural)]
pub enum SwapDecision {
    /// Proceed with the drain/swap step.
    Proceed,
    /// Defer this step: try again next tick.
    Defer,
    /// Force the step regardless of occupancy or other conditions.
    Force,
}

/// The effect declaration returned by a command handler.
///
/// Handlers return effects rather than mutating world state directly. The
/// engine applies all effects atomically after the handler chain completes.
#[derive(Clone, Debug, Default)]
pub struct Effects {
    /// Output text to send to the acting player.
    pub output: Vec<String>,
    /// Output text to broadcast to other entities in the room.
    pub broadcast: Vec<String>,
}

} // verus!
