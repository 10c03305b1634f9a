use vstd::prelude::*;

use crate::controller::command::Command;
use crate::model::plan::{Plan, ShapeId};
use crate::model::shape::Shape;

verus! {

/// Adds a shape under an id; undoing takes the id's entries out again.
#[derive(Debug, Clone, Copy)]
pub struct AddShape {
    shape_id: ShapeId,
    shape: Shape,
}

/// The command that adds `shape` under `shape_id`.
pub fn add_shape(shape_id: ShapeId, shape: Shape) -> (r: Command)
    ensures
        match r {
            Command::Add(a) => a.id() == shape_id && a.added() == shape,
            Command::Update(_) => false,
        },
{
    Command::Add(AddShape { shape_id, shape })
}

impl AddShape {
    /// The id the shape is added under.
    pub closed spec fn id(self) -> ShapeId {
        self.shape_id
    }

    /// The shape that is added.
    pub closed spec fn added(self) -> Shape {
        self.shape
    }

    pub fn apply(&self, plan: &mut Plan)
        ensures
            final(plan)@ == old(plan)@.push((self.id(), self.added())),
            final(plan).next() == old(plan).next(),
    {
        plan.add_shape(self.shape_id, self.shape);
    }

    pub fn undo(&self, plan: &mut Plan)
        ensures
            final(plan)@ == crate::model::plan::without(old(plan)@, self.id()),
            final(plan).next() == old(plan).next(),
    {
        plan.remove_shape(self.shape_id);
    }
}

} // verus!
