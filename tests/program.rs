use placo::controller::state::ShapeType;
use placo::message::Message;
use placo::model::plan::Plan;
use placo::model::shape::{Circle, Rectangle, Shape};
use placo::model::vec2::Vec2;
use placo::program::add::{self, generate_circle, generate_rectangle, generate_shape};
use placo::program::moving;
use placo::program::{PointerEvent, Status};

fn rect(x: i32, y: i32, w: u32, h: u32) -> Shape {
    Rectangle::new(Vec2::new(x, y), w, h).into()
}

fn circle(x: i32, y: i32, r: u32) -> Shape {
    Circle::new(Vec2::new(x, y), r).into()
}

fn is_add_shape(m: Option<Message>, expected: Shape) -> bool {
    matches!(m, Some(Message::AddShape(s)) if s == expected)
}

#[test]
fn rectangle_from_any_two_corners() {
    assert_eq!(generate_rectangle(Vec2::new(5, 5), Vec2::new(2, 9)), rect(2, 5, 3, 4));
    assert_eq!(generate_rectangle(Vec2::new(2, 9), Vec2::new(5, 5)), rect(2, 5, 3, 4));
    assert_eq!(
        generate_rectangle(Vec2::new(i32::MIN, 0), Vec2::new(i32::MAX, 0)),
        rect(i32::MIN, 0, u32::MAX, 0)
    );
}

#[test]
fn circle_through_the_second_point() {
    assert_eq!(generate_circle(Vec2::new(0, 0), Vec2::new(3, 4)), circle(0, 0, 5));
    assert_eq!(generate_shape(ShapeType::Circle, Vec2::new(1, 1), Vec2::new(1, 1)), circle(1, 1, 0));
    assert_eq!(
        generate_circle(Vec2::new(i32::MIN, i32::MIN), Vec2::new(i32::MAX, i32::MAX)),
        circle(i32::MIN, i32::MIN, u32::MAX)
    );
}

#[test]
fn add_gesture_sizes_then_commits() {
    let plan = Plan::default();
    let mut state = add::State::default();

    let out = add::update(&plan, ShapeType::Rectangle, &mut state, PointerEvent::LeftPressed(Some(Vec2::new(5, 5))));
    assert_eq!(out.0, Status::Captured);
    assert!(out.1.is_none());
    assert_eq!(state, add::State::Sizing { first_point: Vec2::new(5, 5), shape: rect(5, 5, 0, 0) });

    let out = add::update(&plan, ShapeType::Rectangle, &mut state, PointerEvent::CursorMoved(Some(Vec2::new(2, 9))));
    assert_eq!(out.0, Status::Captured);
    assert_eq!(state, add::State::Sizing { first_point: Vec2::new(5, 5), shape: rect(2, 5, 3, 4) });

    let out = add::update(&plan, ShapeType::Rectangle, &mut state, PointerEvent::CursorMoved(None));
    assert_eq!(out.0, Status::Ignored);

    let out = add::update(&plan, ShapeType::Rectangle, &mut state, PointerEvent::LeftPressed(Some(Vec2::new(0, 0))));
    assert_eq!(out.0, Status::Captured);
    assert!(is_add_shape(out.1, rect(2, 5, 3, 4)));
    assert_eq!(state, add::State::Positioning);
}

#[test]
fn add_gesture_ignores_presses_outside_and_cancels_on_right() {
    let plan = Plan::default();
    let mut state = add::State::default();
    let out = add::update(&plan, ShapeType::Circle, &mut state, PointerEvent::LeftPressed(None));
    assert_eq!(out.0, Status::Ignored);
    assert_eq!(state, add::State::Positioning);

    let out = add::update(&plan, ShapeType::Circle, &mut state, PointerEvent::RightPressed);
    assert_eq!(out.0, Status::Ignored);

    add::update(&plan, ShapeType::Circle, &mut state, PointerEvent::LeftPressed(Some(Vec2::new(0, 0))));
    let out = add::update(&plan, ShapeType::Circle, &mut state, PointerEvent::RightPressed);
    assert_eq!(out.0, Status::Captured);
    assert!(matches!(out.1, Some(Message::Cancel)));
}

#[test]
fn move_gesture_picks_drags_and_releases() {
    let mut plan = Plan::default();
    let a = plan.generate_shape_id();
    let b = plan.generate_shape_id();
    plan.add_shape(a, rect(0, 0, 4, 4));
    plan.add_shape(b, rect(10, 0, 4, 4));
    let mut state = moving::State::default();

    let out = moving::update(&plan, &mut state, PointerEvent::LeftPressed(Some(Vec2::new(1, 1))));
    assert_eq!(out.0, Status::Captured);
    assert_eq!(state, moving::State::Moving { shape: rect(1, 1, 4, 4), shape_id: a });

    // would overlap the other rectangle: the shape stays where it was
    let out = moving::update(&plan, &mut state, PointerEvent::CursorMoved(Some(Vec2::new(8, 0))));
    assert_eq!(out.0, Status::Captured);
    assert_eq!(state, moving::State::Moving { shape: rect(1, 1, 4, 4), shape_id: a });

    moving::update(&plan, &mut state, PointerEvent::CursorMoved(Some(Vec2::new(20, 20))));
    assert_eq!(state, moving::State::Moving { shape: rect(20, 20, 4, 4), shape_id: a });

    let out = moving::update(&plan, &mut state, PointerEvent::LeftReleased);
    assert_eq!(out.0, Status::Captured);
    assert!(matches!(out.1, Some(Message::UpdateShape(id, s)) if id == a && s == rect(20, 20, 4, 4)));
    assert_eq!(state, moving::State::Chosing);
}

#[test]
fn move_gesture_on_empty_space_picks_nothing() {
    let plan = Plan::default();
    let mut state = moving::State::default();
    let out = moving::update(&plan, &mut state, PointerEvent::LeftPressed(Some(Vec2::new(1, 1))));
    assert_eq!(out.0, Status::Captured);
    assert_eq!(state, moving::State::Chosing);

    let out = moving::update(&plan, &mut state, PointerEvent::LeftReleased);
    assert_eq!(out.0, Status::Ignored);
    let out = moving::update(&plan, &mut state, PointerEvent::RightPressed);
    assert!(matches!(out.1, Some(Message::Cancel)));
}

#[test]
fn add_gesture_withholds_an_overlapping_shape() {
    let mut plan = Plan::default();
    let a = plan.generate_shape_id();
    plan.add_shape(a, rect(0, 0, 10, 10));
    let mut state = add::State::default();

    add::update(&plan, ShapeType::Rectangle, &mut state, PointerEvent::LeftPressed(Some(Vec2::new(2, 2))));
    add::update(&plan, ShapeType::Rectangle, &mut state, PointerEvent::CursorMoved(Some(Vec2::new(5, 5))));
    let out = add::update(&plan, ShapeType::Rectangle, &mut state, PointerEvent::LeftPressed(Some(Vec2::new(5, 5))));
    assert_eq!(out.0, Status::Captured);
    assert!(out.1.is_none());
    assert_eq!(state, add::State::Positioning);
}

#[test]
fn add_gesture_commits_a_shape_touching_another() {
    let mut plan = Plan::default();
    let a = plan.generate_shape_id();
    plan.add_shape(a, rect(0, 0, 10, 10));
    let mut state = add::State::default();

    add::update(&plan, ShapeType::Rectangle, &mut state, PointerEvent::LeftPressed(Some(Vec2::new(10, 0))));
    add::update(&plan, ShapeType::Rectangle, &mut state, PointerEvent::CursorMoved(Some(Vec2::new(20, 10))));
    let out = add::update(&plan, ShapeType::Rectangle, &mut state, PointerEvent::LeftPressed(Some(Vec2::new(20, 10))));
    assert!(is_add_shape(out.1, rect(10, 0, 10, 10)));
    assert_eq!(state, add::State::Positioning);
}

#[test]
fn move_gesture_withholds_an_overlapping_release() {
    let mut plan = Plan::default();
    let a = plan.generate_shape_id();
    let b = plan.generate_shape_id();
    plan.add_shape(a, rect(0, 0, 4, 4));
    plan.add_shape(b, rect(5, 0, 4, 4));
    let mut state = moving::State::default();

    // the press moves the picked rectangle onto the other one
    moving::update(&plan, &mut state, PointerEvent::LeftPressed(Some(Vec2::new(3, 0))));
    assert_eq!(state, moving::State::Moving { shape: rect(3, 0, 4, 4), shape_id: a });

    let out = moving::update(&plan, &mut state, PointerEvent::LeftReleased);
    assert_eq!(out.0, Status::Captured);
    assert!(out.1.is_none());
    assert_eq!(state, moving::State::Chosing);
}
