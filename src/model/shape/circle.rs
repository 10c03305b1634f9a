use vstd::prelude::*;

use crate::model::vec2::{dist, Vec2};

verus! {

/// A disc given by its center and radius.
#[derive(Debug, Clone, Copy, PartialEq, Eq, Structural)]
pub struct Circle {
    pos: Vec2,
    radius: u32,
}

impl Circle {
    /// The center.
    pub closed spec fn center(self) -> Vec2 {
        self.pos
    }

    /// The radius.
    pub closed spec fn spec_radius(self) -> nat {
        self.radius as nat
    }

    /// The same disc centered at `to`.
    pub closed spec fn moved(self, to: Vec2) -> Circle {
        Circle { pos: to, ..self }
    }

    /// The disc holds `p`: its distance to the center, truncated, is at most the radius.
    pub open spec fn holds(self, p: Vec2) -> bool {
        dist(p, self.center()) <= self.spec_radius()
    }

    /// A disc is determined by its center and radius.
    pub proof fn lemma_eq(a: Circle, b: Circle)
        requires
            a.center() == b.center(),
            a.spec_radius() == b.spec_radius(),
        ensures
            a == b,
    {
    }

    /// Moving keeps the radius and puts the center at `to`.
    pub proof fn lemma_moved(self, to: Vec2)
        ensures
            self.moved(to).center() == to,
            self.moved(to).spec_radius() == self.spec_radius(),
    {
    }

    pub fn new(pos: Vec2, radius: u32) -> (r: Self)
        ensures
            r.center() == pos,
            r.spec_radius() == radius,
    {
        Self { pos, radius }
    }

    pub fn pos(&self) -> (r: Vec2)
        ensures
            r == self.center(),
    {
        self.pos
    }

    pub fn radius(&self) -> (r: u32)
        ensures
            r == self.spec_radius(),
    {
        self.radius
    }

    /// Moves the center to `to`; the radius is kept.
    pub fn move_to(&mut self, to: Vec2)
        ensures
            *final(self) == old(self).moved(to),
            final(self).center() == to,
            final(self).spec_radius() == old(self).spec_radius(),
    {
        self.pos = to;
    }

    pub fn contains(&self, point: &Vec2) -> (r: bool)
        ensures
            r == self.holds(*point),
    {
        point.distance(&self.pos) <= self.radius() as u64
    }
}

} // verus!
