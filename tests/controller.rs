use placo::controller::command::{add_shape, update_shape};
use placo::controller::state::{ControllerState, ShapeType};
use placo::controller::Controller;
use placo::message::Message;
use placo::model::plan::{Plan, ShapeId};
use placo::model::shape::{Circle, Rectangle, Shape};
use placo::model::vec2::Vec2;

fn circle(x: i32, y: i32, r: u32) -> Shape {
    Circle::new(Vec2::new(x, y), r).into()
}

fn rect(x: i32, y: i32, w: u32, h: u32) -> Shape {
    Rectangle::new(Vec2::new(x, y), w, h).into()
}

fn entries(plan: &Plan) -> Vec<(ShapeId, Shape)> {
    plan.iter().to_vec()
}

#[test]
fn add_command_apply_then_undo_restores_plan() {
    let mut plan = Plan::default();
    let other = plan.generate_shape_id();
    plan.add_shape(other, rect(20, 20, 2, 2));
    let before = entries(&plan);

    let id = plan.generate_shape_id();
    let cmd = add_shape(id, circle(0, 0, 5));
    cmd.apply(&mut plan);
    assert_eq!(plan.get_shape(id), Some(&circle(0, 0, 5)));
    cmd.undo(&mut plan);

    assert_eq!(plan.get_shape(id), None);
    assert_eq!(entries(&plan), before);
}

#[test]
fn update_command_apply_then_undo_restores_shape() {
    let mut plan = Plan::default();
    let a = plan.generate_shape_id();
    let b = plan.generate_shape_id();
    plan.add_shape(a, rect(0, 0, 2, 2));
    plan.add_shape(b, circle(30, 30, 3));

    let cmd = update_shape(a, rect(0, 0, 2, 2), rect(10, 10, 2, 2));
    cmd.apply(&mut plan);
    assert_eq!(plan.get_shape(a), Some(&rect(10, 10, 2, 2)));
    cmd.undo(&mut plan);

    assert_eq!(plan.get_shape(a), Some(&rect(0, 0, 2, 2)));
    // both directions move the entry to the back
    assert_eq!(entries(&plan), vec![(b, circle(30, 30, 3)), (a, rect(0, 0, 2, 2))]);
}

#[test]
fn starts_idle_at_scale_twenty_with_empty_history() {
    let c = Controller::default();
    assert_eq!(*c.state(), ControllerState::Idle);
    assert!(c.idle());
    assert_eq!(c.scale(), 20);
    assert!(!c.can_undo());
    assert!(!c.can_redo());
    assert!(c.plan().iter().is_empty());
}

#[test]
fn zoom_out_stops_at_five() {
    let mut c = Controller::default();
    for expected in [15, 10, 5] {
        c.update(Message::ScaleDown);
        assert_eq!(c.scale(), expected);
    }
    c.update(Message::ScaleDown);
    assert_eq!(c.scale(), 5);
    c.update(Message::ScaleDown);
    assert_eq!(c.scale(), 5);
}

#[test]
fn zoom_in_adds_five_in_any_mode() {
    let mut c = Controller::default();
    c.update(Message::MoveButton);
    c.update(Message::ScaleUp);
    assert_eq!(c.scale(), 25);
    assert_eq!(*c.state(), ControllerState::MovingShapes);
}

#[test]
fn add_buttons_only_act_from_idle() {
    let mut c = Controller::default();
    c.update(Message::AddCircleButton);
    assert_eq!(*c.state(), ControllerState::AddingShape(ShapeType::Circle));
    c.update(Message::AddRectangleButton);
    assert_eq!(*c.state(), ControllerState::AddingShape(ShapeType::Circle));
    c.update(Message::MoveButton);
    assert_eq!(*c.state(), ControllerState::AddingShape(ShapeType::Circle));
    c.update(Message::Cancel);
    assert_eq!(*c.state(), ControllerState::Idle);
    c.update(Message::AddRectangleButton);
    assert_eq!(*c.state(), ControllerState::AddingShape(ShapeType::Rectangle));
}

#[test]
fn shape_added_returns_to_idle_and_records_history() {
    let mut c = Controller::default();
    c.update(Message::AddCircleButton);
    c.update(Message::AddShape(circle(0, 0, 5)));

    assert_eq!(*c.state(), ControllerState::Idle);
    assert_eq!(c.plan().iter().len(), 1);
    assert!(c.can_undo());
    assert!(!c.can_redo());
}

#[test]
fn can_undo_is_false_outside_idle() {
    let mut c = Controller::default();
    c.update(Message::AddShape(circle(0, 0, 5)));
    assert!(c.can_undo());

    c.update(Message::MoveButton);
    assert!(!c.can_undo());
    c.update(Message::Cancel);
    c.update(Message::AddRectangleButton);
    assert!(!c.can_undo());
}

#[test]
fn undo_and_redo_requests_are_ignored_outside_idle() {
    let mut c = Controller::default();
    c.update(Message::AddShape(circle(0, 0, 5)));
    c.update(Message::MoveButton);
    c.update(Message::Undo);
    assert_eq!(c.plan().iter().len(), 1);

    c.update(Message::Cancel);
    c.update(Message::Undo);
    assert!(c.plan().iter().is_empty());
    c.update(Message::MoveButton);
    c.update(Message::Redo);
    assert!(c.plan().iter().is_empty());
    c.update(Message::Cancel);
    c.update(Message::Redo);
    assert_eq!(c.plan().iter().len(), 1);
}

#[test]
fn execute_after_undo_discards_redo() {
    let mut c = Controller::default();
    c.update(Message::AddShape(circle(0, 0, 1)));
    c.update(Message::AddShape(circle(10, 0, 1)));
    c.update(Message::Undo);
    assert!(c.can_redo());
    c.update(Message::AddShape(circle(20, 0, 1)));
    assert!(!c.can_redo());

    let before = entries(c.plan());
    c.update(Message::Redo);
    assert_eq!(entries(c.plan()), before);
    let shapes: Vec<Shape> = before.iter().map(|(_, s)| *s).collect();
    assert_eq!(shapes, vec![circle(0, 0, 1), circle(20, 0, 1)]);
}

#[test]
fn shape_updated_keeps_mode_and_can_be_undone() {
    let mut c = Controller::default();
    c.update(Message::AddShape(rect(0, 0, 4, 4)));
    let id = c.plan().iter()[0].0;
    c.update(Message::MoveButton);
    c.update(Message::UpdateShape(id, rect(10, 10, 4, 4)));

    assert_eq!(*c.state(), ControllerState::MovingShapes);
    assert_eq!(c.plan().get_shape(id), Some(&rect(10, 10, 4, 4)));

    c.update(Message::Cancel);
    c.update(Message::Undo);
    assert_eq!(c.plan().get_shape(id), Some(&rect(0, 0, 4, 4)));
    c.update(Message::Redo);
    assert_eq!(c.plan().get_shape(id), Some(&rect(10, 10, 4, 4)));
}

#[test]
fn shape_updated_for_unknown_id_does_nothing() {
    let mut c = Controller::default();
    c.update(Message::AddShape(rect(0, 0, 4, 4)));
    let id = c.plan().iter()[0].0;
    c.update(Message::Undo);
    c.update(Message::UpdateShape(id, rect(10, 10, 4, 4)));

    assert!(c.plan().iter().is_empty());
    assert!(!c.can_undo());
    assert!(c.can_redo());
}

#[test]
fn do_command_clears_redo_stack() {
    let mut c = Controller::default();
    c.update(Message::AddShape(rect(0, 0, 4, 4)));
    c.undo();
    assert!(c.can_redo());
    let mut scratch = Plan::default();
    let id = scratch.generate_shape_id();
    c.do_command(add_shape(id, circle(40, 40, 1)));
    assert!(!c.can_redo());
    c.redo();
    assert_eq!(c.plan().iter().len(), 1);
}
