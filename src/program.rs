pub mod add;
pub mod moving;

use vstd::prelude::*;

use crate::model::vec2::Vec2;

verus! {

/// Whether a gesture handler used a pointer event.
#[derive(Debug, Clone, Copy, PartialEq, Eq, Structural)]
pub enum Status {
    Ignored,
    Captured,
}

/// A pointer event on the canvas, with positions already in world
/// coordinates; `None` where the pointer is outside the canvas.
#[derive(Debug, Clone, Copy, PartialEq, Eq, Structural)]
pub enum PointerEvent {
    LeftPressed(Option<Vec2>),
    LeftReleased,
    RightPressed,
    CursorMoved(Option<Vec2>),
    Other,
}

} // verus!
