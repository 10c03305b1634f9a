use vstd::prelude::*;

use crate::model::plan::ShapeId;
use crate::model::shape::Shape;

verus! {

/// What the presentation layer asks of the controller.
#[derive(Debug, Clone, Copy)]
pub enum Message {
    AddRectangleButton,
    AddCircleButton,
    MoveButton,
    AddShape(Shape),
    UpdateShape(ShapeId, Shape),
    ScaleUp,
    ScaleDown,
    Cancel,
    Undo,
    Redo,
}

} // verus!
