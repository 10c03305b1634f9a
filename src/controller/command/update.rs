use vstd::prelude::*;

use crate::controller::command::Command;
use crate::model::plan::{without, Plan, ShapeId};
use crate::model::shape::Shape;

verus! {

/// Replaces the shape of an id; both directions move the entry to the back.
#[derive(Debug, Clone, Copy)]
pub struct UpdateShape {
    new: Shape,
    old: Shape,
    shape_id: ShapeId,
}

/// The command that turns the shape of `shape_id` from `old` into `new`.
pub fn update_shape(shape_id: ShapeId, old: Shape, new: Shape) -> (r: Command)
    ensures
        match r {
            Command::Update(u) => u.id() == shape_id && u.before() == old && u.after() == new,
            Command::Add(_) => false,
        },
{
    Command::Update(UpdateShape { shape_id, old, new })
}

impl UpdateShape {
    /// The id whose shape is replaced.
    pub closed spec fn id(self) -> ShapeId {
        self.shape_id
    }

    /// The shape before the update.
    pub closed spec fn before(self) -> Shape {
        self.old
    }

    /// The shape after the update.
    pub closed spec fn after(self) -> Shape {
        self.new
    }

    pub fn apply(&self, plan: &mut Plan)
        ensures
            final(plan)@ == without(old(plan)@, self.id()).push((self.id(), self.after())),
            final(plan).next() == old(plan).next(),
    {
        plan.replace_shape(self.shape_id, self.new);
    }

    pub fn undo(&self, plan: &mut Plan)
        ensures
            final(plan)@ == without(old(plan)@, self.id()).push((self.id(), self.before())),
            final(plan).next() == old(plan).next(),
    {
        plan.replace_shape(self.shape_id, self.old);
    }
}

} // verus!
