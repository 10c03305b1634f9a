use vstd::prelude::*;

use crate::model::vec2::Vec2;

verus! {

/// An axis-aligned rectangle given by its top-left corner and its extent.
#[derive(Debug, Clone, Copy, PartialEq, Eq, Structural)]
pub struct Rectangle {
    pos: Vec2,
    width: u32,
    height: u32,
}

impl Rectangle {
    /// The top-left corner.
    pub closed spec fn corner(self) -> Vec2 {
        self.pos
    }

    pub closed spec fn spec_width(self) -> nat {
        self.width as nat
    }

    pub closed spec fn spec_height(self) -> nat {
        self.height as nat
    }

    /// The same rectangle with its top-left corner at `to`.
    pub closed spec fn moved(self, to: Vec2) -> Rectangle {
        Rectangle { pos: to, ..self }
    }

    /// Right edge, `x + width`.
    pub open spec fn right(self) -> int {
        self.corner().x + self.spec_width()
    }

    /// Bottom edge, `y + height`.
    pub open spec fn bottom(self) -> int {
        self.corner().y + self.spec_height()
    }

    /// The rectangle, edges included, holds `p`.
    pub open spec fn holds(self, p: Vec2) -> bool {
        &&& self.corner().x <= p.x <= self.right()
        &&& self.corner().y <= p.y <= self.bottom()
    }

    /// A rectangle is determined by its corner and extent.
    pub proof fn lemma_eq(a: Rectangle, b: Rectangle)
        requires
            a.corner() == b.corner(),
            a.spec_width() == b.spec_width(),
            a.spec_height() == b.spec_height(),
        ensures
            a == b,
    {
    }

    /// Moving keeps the extent and puts the corner at `to`.
    pub proof fn lemma_moved(self, to: Vec2)
        ensures
            self.moved(to).corner() == to,
            self.moved(to).spec_width() == self.spec_width(),
            self.moved(to).spec_height() == self.spec_height(),
    {
    }

    pub fn new(pos: Vec2, width: u32, height: u32) -> (r: Self)
        ensures
            r.corner() == pos,
            r.spec_width() == width,
            r.spec_height() == height,
    {
        Self { pos, width, height }
    }

    pub fn pos(&self) -> (r: Vec2)
        ensures
            r == self.corner(),
    {
        self.pos
    }

    pub fn width(&self) -> (r: u32)
        ensures
            r == self.spec_width(),
    {
        self.width
    }

    pub fn height(&self) -> (r: u32)
        ensures
            r == self.spec_height(),
    {
        self.height
    }

    /// Moves the top-left corner to `to`; the extent is kept.
    pub fn move_to(&mut self, to: Vec2)
        ensures
            *final(self) == old(self).moved(to),
            final(self).corner() == to,
            final(self).spec_width() == old(self).spec_width(),
            final(self).spec_height() == old(self).spec_height(),
    {
        self.pos = to;
    }

    pub fn contains(&self, point: &Vec2) -> (r: bool)
        ensures
            r == self.holds(*point),
    {
        point.x >= self.pos.x && point.x as i64 <= self.pos.x as i64 + self.width as i64
            && point.y >= self.pos.y && point.y as i64 <= self.pos.y as i64 + self.height as i64
    }
}

} // verus!
