use placo::model::shape::{Circle, Rectangle, Shape};
use placo::model::vec2::Vec2;

#[test]
fn disjoint_rect_rect_1() {
    let r1: Shape = Rectangle::new((4, 5).into(), 2, 4).into();
    let r2: Shape = Rectangle::new((10, 12).into(), 1, 3).into();

    assert!(r1.is_disjoint(&r2));
    assert!(r2.is_disjoint(&r1));
}

#[test]
fn disjoint_rect_rect_2() {
    let r1: Shape = Rectangle::new((4, 5).into(), 12, 14).into();
    let r2: Shape = Rectangle::new((10, 12).into(), 1, 3).into();

    assert!(!r1.is_disjoint(&r2));
    assert!(!r2.is_disjoint(&r1));
}

#[test]
fn disjoint_rect_circle_1() {
    let r1: Shape = Circle::new((4, 5).into(), 2).into();
    let r2: Shape = Rectangle::new((10, 12).into(), 3, 4).into();

    assert!(r1.is_disjoint(&r2));
    assert!(r2.is_disjoint(&r1));
}

#[test]
fn disjoint_rect_circle_2() {
    let r1: Shape = Circle::new((4, 5).into(), 3).into();
    let r2: Shape = Rectangle::new((6, 5).into(), 3, 4).into();

    assert!(!r1.is_disjoint(&r2));
    assert!(!r2.is_disjoint(&r1));
}

#[test]
fn disjoint_circle_circle_1() {
    let r1: Shape = Circle::new((4, 5).into(), 2).into();
    let r2: Shape = Circle::new((10, 12).into(), 3).into();

    assert!(r1.is_disjoint(&r2));
    assert!(r2.is_disjoint(&r1));
}

#[test]
fn disjoint_circle_circle_2() {
    let r1: Shape = Circle::new((4, 5).into(), 2).into();
    let r2: Shape = Circle::new((9, 5).into(), 4).into();

    assert!(!r1.is_disjoint(&r2));
    assert!(!r2.is_disjoint(&r1));
}

#[test]
fn touching_rectangles_are_disjoint() {
    let r1: Shape = Rectangle::new((0, 0).into(), 10, 10).into();
    let r2: Shape = Rectangle::new((10, 0).into(), 10, 10).into();

    assert!(r1.is_disjoint(&r2));
    assert!(r2.is_disjoint(&r1));
}

#[test]
fn overlapping_rectangles_by_one_unit() {
    let r1: Shape = Rectangle::new((0, 0).into(), 10, 10).into();
    let r2: Shape = Rectangle::new((9, 9).into(), 10, 10).into();

    assert!(!r1.is_disjoint(&r2));
    assert!(!r2.is_disjoint(&r1));
}

#[test]
fn touching_circles_are_disjoint() {
    let c1: Shape = Circle::new((0, 0).into(), 5).into();
    let c2: Shape = Circle::new((10, 0).into(), 5).into();

    assert!(c1.is_disjoint(&c2));
    assert!(c2.is_disjoint(&c1));
}

#[test]
fn overlapping_circles_are_not_disjoint() {
    let c1: Shape = Circle::new((0, 0).into(), 5).into();
    let c2: Shape = Circle::new((9, 0).into(), 5).into();

    assert!(!c1.is_disjoint(&c2));
    assert!(!c2.is_disjoint(&c1));
}

#[test]
fn circle_touching_rectangle_edge_is_disjoint() {
    let c: Shape = Circle::new((0, 5).into(), 5).into();
    let r: Shape = Rectangle::new((5, 0).into(), 10, 10).into();

    assert!(c.is_disjoint(&r));
    assert!(r.is_disjoint(&c));
}

#[test]
fn circle_inside_rectangle_is_not_disjoint() {
    let c: Shape = Circle::new((5, 5).into(), 1).into();
    let r: Shape = Rectangle::new((0, 0).into(), 10, 10).into();

    assert!(!c.is_disjoint(&r));
    assert!(!r.is_disjoint(&c));
}

#[test]
fn rectangle_contains_its_edges() {
    let r = Rectangle::new((2, 3).into(), 4, 5);

    assert!(r.contains(&Vec2::new(2, 3)));
    assert!(r.contains(&Vec2::new(6, 8)));
    assert!(r.contains(&Vec2::new(4, 5)));
    assert!(!r.contains(&Vec2::new(7, 5)));
    assert!(!r.contains(&Vec2::new(4, 2)));
}

#[test]
fn circle_contains_up_to_its_radius() {
    let c = Circle::new((0, 0).into(), 5);

    assert!(c.contains(&Vec2::new(3, 4)));
    assert!(c.contains(&Vec2::new(5, 0)));
    // distance sqrt(40) = 6.32.. truncates to 6
    assert!(!c.contains(&Vec2::new(6, 2)));
    // distance sqrt(34) = 5.83.. truncates to 5
    assert!(c.contains(&Vec2::new(5, 3)));
}

#[test]
fn move_to_keeps_extent() {
    let mut s: Shape = Rectangle::new((0, 0).into(), 3, 4).into();
    s.move_to(Vec2::new(10, 20));
    match s {
        Shape::Rectangle(r) => {
            assert_eq!(r.pos(), Vec2::new(10, 20));
            assert_eq!(r.width(), 3);
            assert_eq!(r.height(), 4);
        }
        Shape::Circle(_) => panic!("kind changed"),
    }

    let mut c: Shape = Circle::new((1, 1).into(), 7).into();
    c.move_to(Vec2::new(-4, 2));
    match c {
        Shape::Circle(c) => {
            assert_eq!(c.pos(), Vec2::new(-4, 2));
            assert_eq!(c.radius(), 7);
        }
        Shape::Rectangle(_) => panic!("kind changed"),
    }
}

#[test]
fn shape_contains_dispatches() {
    let s: Shape = Circle::new((0, 0).into(), 2).into();
    assert!(s.contains(&Vec2::new(1, 1)));
    assert!(!s.contains(&Vec2::new(2, 3)));
}
