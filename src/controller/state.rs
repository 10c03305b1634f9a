use vstd::prelude::*;

verus! {

/// The interaction mode, which decides the messages that have an effect.
#[derive(Debug, Default, Clone, Copy, PartialEq, Eq, Structural)]
pub enum ControllerState {
    #[default]
    Idle,
    AddingShape(ShapeType),
    MovingShapes,
}

/// The kind of shape being added.
#[derive(Debug, Clone, Copy, PartialEq, Eq, Structural)]
pub enum ShapeType {
    Circle,
    Rectangle,
}

} // verus!
