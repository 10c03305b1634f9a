use vstd::prelude::*;

use crate::message::Message;
use crate::model::plan::{disjoint_from_all, first_where, holds_point, Plan, ShapeId};
use crate::model::shape::Shape;
use crate::program::{PointerEvent, Status};

verus! {

/// Progress of the gesture that moves a shape: first a shape is picked, then
/// it is dragged while the pointer moves.
#[derive(Debug, Default, Clone, Copy, PartialEq, Eq, Structural)]
pub enum State {
    #[default]
    Chosing,
    Moving { shape: Shape, shape_id: ShapeId },
}

/// What `update` does on `plan`: `pre` and `ev` lead to `post` and the answer `out`.
pub open spec fn move_step(
    plan: Plan,
    pre: State,
    ev: PointerEvent,
    post: State,
    out: (Status, Option<Message>),
) -> bool {
    match (pre, ev) {
        (State::Chosing, PointerEvent::LeftPressed(Some(p))) => {
            &&& out == (Status::Captured, None::<Message>)
            &&& post == match first_where(plan@, holds_point(p)) {
                Some(e) => State::Moving { shape: e.1.moved(p), shape_id: e.0 },
                None => pre,
            }
        },
        (State::Moving { shape, shape_id }, PointerEvent::CursorMoved(Some(p))) => {
            &&& out == (Status::Captured, None::<Message>)
            &&& post == if disjoint_from_all(plan@, shape.moved(p), Some(shape_id)) {
                State::Moving { shape: shape.moved(p), shape_id }
            } else {
                pre
            }
        },
        (State::Moving { shape, shape_id }, PointerEvent::LeftReleased) => {
            &&& post == State::Chosing
            &&& out == if disjoint_from_all(plan@, shape, Some(shape_id)) {
                (Status::Captured, Some(Message::UpdateShape(shape_id, shape)))
            } else {
                (Status::Captured, None::<Message>)
            }
        },
        (_, PointerEvent::RightPressed) => {
            &&& post == pre
            &&& out == (Status::Captured, Some(Message::Cancel))
        },
        _ => post == pre && out == (Status::Ignored, None::<Message>),
    }
}

/// Handles one pointer event of the gesture that moves a shape of `plan`. A
/// dragged shape only follows the pointer to places where it overlaps no other
/// shape, and the release only hands on a position that overlaps no other
/// shape (the press that picks the shape moves it to the pointer unchecked).
pub fn update(plan: &Plan, state: &mut State, event: PointerEvent) -> (r: (
    Status,
    Option<Message>,
))
    ensures
        move_step(*plan, *old(state), event, *final(state), r),
{
    match (*state, event) {
        (State::Chosing, PointerEvent::LeftPressed(Some(p))) => {
            if let Some(entry) = plan.get_shape_at(&p) {
                let mut shape = entry.1;
                shape.move_to(p);
                *state = State::Moving { shape, shape_id: entry.0 };
            }
            (Status::Captured, None)
        },
        (State::Moving { shape, shape_id }, PointerEvent::CursorMoved(Some(p))) => {
            let mut new_shape = shape;
            new_shape.move_to(p);
            if plan.is_disjoint(&new_shape, Some(shape_id)) {
                *state = State::Moving { shape: new_shape, shape_id };
            }
            (Status::Captured, None)
        },
        (State::Moving { shape, shape_id }, PointerEvent::LeftReleased) => {
            *state = State::Chosing;
            if plan.is_disjoint(&shape, Some(shape_id)) {
                (Status::Captured, Some(Message::UpdateShape(shape_id, shape)))
            } else {
                (Status::Captured, None)
            }
        },
        (_, PointerEvent::RightPressed) => (Status::Captured, Some(Message::Cancel)),
        _ => (Status::Ignored, None),
    }
}

} // verus!
