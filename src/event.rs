use vstd::prelude::*;

verus! {

/// A decoded message from the remote surface.
///
/// Deltas arrive as whole units: the sender's fractional motion deltas are
/// truncated toward zero before they reach this type, a scroll delta is turned
/// into whole wheel steps (a tenth of it, rounded), and a scroll axis whose raw
/// delta is within the dead zone arrives as `None`.
#[derive(Debug)]
pub enum RemoteEvent {
    Move { dx: i64, dy: i64 },
    Click { button: String },
    /// `dx_steps` / `dy_steps`: the raw delta divided by ten, rounded.
    Scroll { dx_steps: Option<i64>, dy_steps: Option<i64> },
    DragStart,
    DragEnd,
    Swipe { direction: String },
    ArrowKey { key: String },
    Clipboard { content: String },
}

} // verus!
