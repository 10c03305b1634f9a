use vstd::prelude::*;

use crate::controller::state::ShapeType;
use crate::message::Message;
use crate::model::plan::{disjoint_from_all, Plan};
use crate::model::shape::{Circle, Rectangle, Shape};
use crate::model::vec2::{dist, Vec2};
use crate::program::{PointerEvent, Status};

verus! {

/// Progress of the gesture that adds a shape: first the anchor point is
/// placed, then the shape is sized by moving the pointer.
#[derive(Debug, Default, Clone, Copy, PartialEq, Eq, Structural)]
pub enum State {
    #[default]
    Positioning,
    Sizing { first_point: Vec2, shape: Shape },
}

/// `a - b` as a magnitude.
pub open spec fn gap(a: int, b: int) -> int {
    if a >= b {
        a - b
    } else {
        b - a
    }
}

/// `s` is the shape of kind `kind` drawn from `first` to `second`: a circle
/// centered at `first` through `second` (its radius capped at `u32::MAX`), or
/// the rectangle with those two opposite corners.
pub open spec fn sized_from(kind: ShapeType, first: Vec2, second: Vec2, s: Shape) -> bool {
    match (kind, s) {
        (ShapeType::Circle, Shape::Circle(c)) => {
            &&& c.center() == first
            &&& c.spec_radius() == vstd::math::min(dist(first, second), u32::MAX as int)
        },
        (ShapeType::Rectangle, Shape::Rectangle(r)) => {
            &&& r.corner() == Vec2 {
                x: vstd::math::min(first.x as int, second.x as int) as i32,
                y: vstd::math::min(first.y as int, second.y as int) as i32,
            }
            &&& r.spec_width() == gap(first.x as int, second.x as int)
            &&& r.spec_height() == gap(first.y as int, second.y as int)
        },
        _ => false,
    }
}

/// What `update` does on `plan`: `pre` and `ev` lead to `post` and the answer
/// `out`.
pub open spec fn add_step(
    plan: Plan,
    kind: ShapeType,
    pre: State,
    ev: PointerEvent,
    post: State,
    out: (Status, Option<Message>),
) -> bool {
    match (pre, ev) {
        (State::Positioning, PointerEvent::LeftPressed(Some(p))) => {
            &&& out == (Status::Captured, None::<Message>)
            &&& match post {
                State::Sizing { first_point, shape } => first_point == p && sized_from(
                    kind,
                    p,
                    p,
                    shape,
                ),
                State::Positioning => false,
            }
        },
        (State::Sizing { first_point, .. }, PointerEvent::CursorMoved(Some(p))) => {
            &&& out == (Status::Captured, None::<Message>)
            &&& match post {
                State::Sizing { first_point: f, shape } => f == first_point && sized_from(
                    kind,
                    first_point,
                    p,
                    shape,
                ),
                State::Positioning => false,
            }
        },
        (State::Sizing { shape, .. }, PointerEvent::LeftPressed(Some(_))) => {
            &&& post == State::Positioning
            &&& out == if disjoint_from_all(plan@, shape, None) {
                (Status::Captured, Some(Message::AddShape(shape)))
            } else {
                (Status::Captured, None::<Message>)
            }
        },
        (State::Sizing { .. }, PointerEvent::RightPressed) => {
            &&& post == pre
            &&& out == (Status::Captured, Some(Message::Cancel))
        },
        _ => post == pre && out == (Status::Ignored, None::<Message>),
    }
}

/// Handles one pointer event of the gesture that adds a shape of kind `kind`
/// to `plan`. The press that ends sizing always starts the gesture over; the
/// sized shape is only handed on when it overlaps no shape of the plan.
pub fn update(plan: &Plan, kind: ShapeType, state: &mut State, event: PointerEvent) -> (r: (
    Status,
    Option<Message>,
))
    ensures
        add_step(*plan, kind, *old(state), event, *final(state), r),
{
    match (*state, event) {
        (State::Positioning, PointerEvent::LeftPressed(Some(p))) => {
            *state = State::Sizing { shape: generate_shape(kind, p, p), first_point: p };
            (Status::Captured, None)
        },
        (State::Sizing { first_point, .. }, PointerEvent::CursorMoved(Some(p))) => {
            *state = State::Sizing {
                shape: generate_shape(kind, first_point, p),
                first_point,
            };
            (Status::Captured, None)
        },
        (State::Sizing { shape, .. }, PointerEvent::LeftPressed(Some(_))) => {
            *state = State::Positioning;
            if plan.is_disjoint(&shape, None) {
                (Status::Captured, Some(Message::AddShape(shape)))
            } else {
                (Status::Captured, None)
            }
        },
        (State::Sizing { .. }, PointerEvent::RightPressed) => {
            (Status::Captured, Some(Message::Cancel))
        },
        _ => (Status::Ignored, None),
    }
}

/// The shape of kind `kind` drawn from `first_point` to `second_point`.
pub fn generate_shape(kind: ShapeType, first_point: Vec2, second_point: Vec2) -> (r: Shape)
    ensures
        sized_from(kind, first_point, second_point, r),
{
    match kind {
        ShapeType::Circle => generate_circle(first_point, second_point),
        ShapeType::Rectangle => generate_rectangle(first_point, second_point),
    }
}

/// The circle centered at `center` whose edge passes through `second_point`.
pub fn generate_circle(center: Vec2, second_point: Vec2) -> (r: Shape)
    ensures
        sized_from(ShapeType::Circle, center, second_point, r),
{
    let d = center.distance(&second_point);
    let radius: u32 = if d > u32::MAX as u64 {
        u32::MAX
    } else {
        d as u32
    };
    Shape::Circle(Circle::new(center, radius))
}

/// The rectangle with opposite corners `first_point` and `second_point`.
pub fn generate_rectangle(first_point: Vec2, second_point: Vec2) -> (r: Shape)
    ensures
        sized_from(ShapeType::Rectangle, first_point, second_point, r),
{
    let top_left_x = if first_point.x < second_point.x {
        first_point.x
    } else {
        second_point.x
    };
    let top_left_y = if first_point.y < second_point.y {
        first_point.y
    } else {
        second_point.y
    };
    let dx: i64 = first_point.x as i64 - second_point.x as i64;
    let dy: i64 = first_point.y as i64 - second_point.y as i64;
    let width: u32 = if dx < 0 {
        (-dx) as u32
    } else {
        dx as u32
    };
    let height: u32 = if dy < 0 {
        (-dy) as u32
    } else {
        dy as u32
    };
    Shape::Rectangle(Rectangle::new(Vec2::new(top_left_x, top_left_y), width, height))
}

} // verus!
