pub mod circle;
pub mod rectangle;

pub use self::circle::Circle;
pub use self::rectangle::Rectangle;

use vstd::prelude::*;

use vstd::math::{max, min};

use crate::model::vec2::{dist, lemma_dist_symmetric, Vec2};

verus! {

/// A shape placed on the canvas.
#[derive(Debug, Clone, Copy, PartialEq, Eq, Structural)]
pub enum Shape {
    Circle(Circle),
    Rectangle(Rectangle),
}

/// `v` brought into `[lo, hi]`.
pub open spec fn clamp(v: int, lo: int, hi: int) -> int {
    if v < lo {
        lo
    } else if v > hi {
        hi
    } else {
        v
    }
}

/// Two rectangles overlap on no positive length along some axis.
pub open spec fn rects_disjoint(r1: Rectangle, r2: Rectangle) -> bool {
    let x_overlap = min(r1.right(), r2.right()) - max(r1.corner().x as int, r2.corner().x as int);
    let y_overlap = min(r1.bottom(), r2.bottom()) - max(r1.corner().y as int, r2.corner().y as int);
    x_overlap <= 0 || y_overlap <= 0
}

/// Two circles are at least as far apart as the sum of their radii.
pub open spec fn circles_disjoint(c1: Circle, c2: Circle) -> bool {
    dist(c1.center(), c2.center()) >= c1.spec_radius() + c2.spec_radius()
}

/// The point of `rect`, edges included, that is nearest to `p`.
pub open spec fn nearest_point(rect: Rectangle, p: Vec2) -> Vec2 {
    Vec2 {
        x: clamp(p.x as int, rect.corner().x as int, rect.right()) as i32,
        y: clamp(p.y as int, rect.corner().y as int, rect.bottom()) as i32,
    }
}

/// The point of `rect` nearest to the circle's center is no closer than its radius.
pub open spec fn rect_circle_disjoint(rect: Rectangle, circle: Circle) -> bool {
    dist(circle.center(), nearest_point(rect, circle.center())) >= circle.spec_radius()
}

/// The two shapes share no area; touching edges count as disjoint.
pub open spec fn disjoint(s1: Shape, s2: Shape) -> bool {
    match (s1, s2) {
        (Shape::Circle(c1), Shape::Circle(c2)) => circles_disjoint(c1, c2),
        (Shape::Rectangle(r1), Shape::Rectangle(r2)) => rects_disjoint(r1, r2),
        (Shape::Circle(c), Shape::Rectangle(r)) => rect_circle_disjoint(r, c),
        (Shape::Rectangle(r), Shape::Circle(c)) => rect_circle_disjoint(r, c),
    }
}

/// Disjointness does not depend on the order of the two shapes.
pub proof fn lemma_disjoint_symmetric(s1: Shape, s2: Shape)
    ensures
        disjoint(s1, s2) == disjoint(s2, s1),
{
    if let (Shape::Circle(c1), Shape::Circle(c2)) = (s1, s2) {
        lemma_dist_symmetric(c1.center(), c2.center());
    }
}

/// Clamps `v` into `[lo, lo + extent]`; the result always fits in `i32`.
fn clamp_coordinate(v: i32, lo: i32, extent: u32) -> (r: i32)
    ensures
        r == clamp(v as int, lo as int, lo + extent),
{
    let hi: i64 = lo as i64 + extent as i64;
    if v < lo {
        lo
    } else if v as i64 > hi {
        hi as i32
    } else {
        v
    }
}

impl Shape {
    /// The shape holds `p`.
    pub open spec fn holds(self, p: Vec2) -> bool {
        match self {
            Shape::Circle(c) => c.holds(p),
            Shape::Rectangle(r) => r.holds(p),
        }
    }

    /// The same shape standing at `to`: a circle centered there, a rectangle
    /// with its top-left corner there, with the same radius or extent.
    pub open spec fn moved(self, to: Vec2) -> Shape {
        match self {
            Shape::Circle(c) => Shape::Circle(c.moved(to)),
            Shape::Rectangle(r) => Shape::Rectangle(r.moved(to)),
        }
    }

    pub fn is_disjoint(&self, other: &Shape) -> (r: bool)
        ensures
            r == disjoint(*self, *other),
    {
        match (self, other) {
            (Shape::Circle(circle1), Shape::Circle(circle2)) => {
                Self::is_disjoint_circles(circle1, circle2)
            },
            (Shape::Rectangle(rect1), Shape::Rectangle(rect2)) => {
                Self::is_disjoint_rects(rect1, rect2)
            },
            (Shape::Circle(circle), Shape::Rectangle(rect)) => {
                Self::is_disjoint_rect_circle(rect, circle)
            },
            (Shape::Rectangle(rect), Shape::Circle(circle)) => {
                Self::is_disjoint_rect_circle(rect, circle)
            },
        }
    }

    fn is_disjoint_rects(rect1: &Rectangle, rect2: &Rectangle) -> (r: bool)
        ensures
            r == rects_disjoint(*rect1, *rect2),
    {
        let p1 = rect1.pos();
        let p2 = rect2.pos();
        let right1: i64 = p1.x as i64 + rect1.width() as i64;
        let right2: i64 = p2.x as i64 + rect2.width() as i64;
        let bottom1: i64 = p1.y as i64 + rect1.height() as i64;
        let bottom2: i64 = p2.y as i64 + rect2.height() as i64;
        let left: i64 = if p1.x > p2.x { p1.x as i64 } else { p2.x as i64 };
        let top: i64 = if p1.y > p2.y { p1.y as i64 } else { p2.y as i64 };
        let right: i64 = if right1 < right2 { right1 } else { right2 };
        let bottom: i64 = if bottom1 < bottom2 { bottom1 } else { bottom2 };
        let x_overlap: i64 = right - left;
        let y_overlap: i64 = bottom - top;
        x_overlap <= 0 || y_overlap <= 0
    }

    fn is_disjoint_circles(circle1: &Circle, circle2: &Circle) -> (r: bool)
        ensures
            r == circles_disjoint(*circle1, *circle2),
    {
        let dist = circle1.pos().distance(&circle2.pos());
        dist >= circle1.radius() as u64 + circle2.radius() as u64
    }

    fn is_disjoint_rect_circle(rect: &Rectangle, circle: &Circle) -> (r: bool)
        ensures
            r == rect_circle_disjoint(*rect, *circle),
    {
        let center = circle.pos();
        let corner = rect.pos();
        let nearest_x = clamp_coordinate(center.x, corner.x, rect.width());
        let nearest_y = clamp_coordinate(center.y, corner.y, rect.height());
        let nearest_point: Vec2 = (nearest_x, nearest_y).into();
        center.distance(&nearest_point) >= circle.radius() as u64
    }

    pub fn contains(&self, point: &Vec2) -> (r: bool)
        ensures
            r == self.holds(*point),
    {
        match self {
            Shape::Circle(c) => c.contains(point),
            Shape::Rectangle(r) => r.contains(point),
        }
    }

    /// Moves the shape so that it stands at `to`; its extent is kept.
    pub fn move_to(&mut self, to: Vec2)
        ensures
            *final(self) == old(self).moved(to),
    {
        match self {
            Shape::Circle(c) => c.move_to(to),
            Shape::Rectangle(r) => r.move_to(to),
        }
    }
}

impl From<Rectangle> for Shape {
    fn from(value: Rectangle) -> (r: Self) {
        Self::Rectangle(value)
    }
}

impl vstd::std_specs::convert::FromSpecImpl<Rectangle> for Shape {
    open spec fn obeys_from_spec() -> bool {
        true
    }

    open spec fn from_spec(v: Rectangle) -> Shape {
        Shape::Rectangle(v)
    }
}

impl From<Circle> for Shape {
    fn from(value: Circle) -> (r: Self) {
        Self::Circle(value)
    }
}

impl vstd::std_specs::convert::FromSpecImpl<Circle> for Shape {
    open spec fn obeys_from_spec() -> bool {
        true
    }

    open spec fn from_spec(v: Circle) -> Shape {
        Shape::Circle(v)
    }
}

} // verus!
