use vstd::prelude::*;

verus! {

/// A point or a displacement on the integer canvas.
#[derive(Debug, Default, Clone, Copy, PartialEq, Eq, Structural, PartialOrd, Ord, Hash)]
pub struct Vec2 {
    pub x: i32,
    pub y: i32,
}

/// Squared euclidean distance between two points.
pub open spec fn sq_dist(a: Vec2, b: Vec2) -> int {
    let dx = a.x - b.x;
    let dy = a.y - b.y;
    dx * dx + dy * dy
}

/// `r` is the integer square root of `n`, rounded down.
pub open spec fn is_floor_sqrt(r: int, n: int) -> bool {
    0 <= r && r * r <= n && n < (r + 1) * (r + 1)
}

/// The integer square root of `n`, rounded down.
pub open spec fn floor_sqrt(n: int) -> int {
    choose|r: int| is_floor_sqrt(r, n)
}

/// Euclidean distance between two points, truncated to an integer.
pub open spec fn dist(a: Vec2, b: Vec2) -> int {
    floor_sqrt(sq_dist(a, b))
}

proof fn lemma_square_monotone(a: int, b: int)
    requires
        0 <= a <= b,
    ensures
        a * a <= b * b,
{
    assert(a * a <= b * b) by (nonlinear_arith)
        requires
            0 <= a <= b,
    ;
}

/// At most one integer is the rounded-down square root of `n`.
pub proof fn lemma_floor_sqrt_unique(r1: int, r2: int, n: int)
    requires
        is_floor_sqrt(r1, n),
        is_floor_sqrt(r2, n),
    ensures
        r1 == r2,
{
    if r1 < r2 {
        lemma_square_monotone(r1 + 1, r2);
    } else if r2 < r1 {
        lemma_square_monotone(r2 + 1, r1);
    }
}

/// Whenever a rounded-down square root exists, `floor_sqrt` is that root.
pub proof fn lemma_floor_sqrt_is(r: int, n: int)
    requires
        is_floor_sqrt(r, n),
    ensures
        floor_sqrt(n) == r,
{
    let c = floor_sqrt(n);
    assert(is_floor_sqrt(c, n));
    lemma_floor_sqrt_unique(c, r, n);
}

/// The distance does not depend on the order of the two points.
pub proof fn lemma_dist_symmetric(a: Vec2, b: Vec2)
    ensures
        sq_dist(a, b) == sq_dist(b, a),
        dist(a, b) == dist(b, a),
{
    let dx = a.x - b.x;
    let dy = a.y - b.y;
    assert((-dx) * (-dx) == dx * dx) by (nonlinear_arith);
    assert((-dy) * (-dy) == dy * dy) by (nonlinear_arith);
}

/// Integer square root of `n`, rounded down, by bisection.
fn floor_sqrt_u128(n: u128) -> (r: u64)
    requires
        n < 0x4_0000_0000_0000_0000u128,
    ensures
        is_floor_sqrt(r as int, n as int),
{
    let mut lo: u128 = 0;
    let mut hi: u128 = 0x2_0000_0000;
    assert(0x2_0000_0000u128 * 0x2_0000_0000u128 == 0x4_0000_0000_0000_0000u128) by (nonlinear_arith);
    while hi - lo > 1
        invariant
            lo < hi <= 0x2_0000_0000,
            lo * lo <= n,
            n < hi * hi,
        decreases hi - lo,
    {
        let mid: u128 = lo + (hi - lo) / 2;
        assert(mid * mid <= 0x4_0000_0000_0000_0000u128) by (nonlinear_arith)
            requires
                mid <= 0x2_0000_0000,
        ;
        if mid * mid <= n {
            lo = mid;
        } else {
            hi = mid;
        }
    }
    lo as u64
}

impl Vec2 {
    pub fn new(x: i32, y: i32) -> (r: Self)
        ensures
            r == (Vec2 { x, y }),
    {
        Self { x, y }
    }

    /// Euclidean distance to `rhs`, truncated towards zero. The square root is
    /// taken exactly on integers; across the whole `i32` plane the result needs
    /// more than 32 bits.
    pub fn distance(&self, rhs: &Self) -> (r: u64)
        ensures
            r == dist(*self, *rhs),
            is_floor_sqrt(r as int, sq_dist(*self, *rhs)),
    {
        let dx: i64 = self.x as i64 - rhs.x as i64;
        let dy: i64 = self.y as i64 - rhs.y as i64;
        let ax: u128 = if dx < 0 { (-dx) as u128 } else { dx as u128 };
        let ay: u128 = if dy < 0 { (-dy) as u128 } else { dy as u128 };
        assert(ax * ax <= 0xffff_ffff_ffff_ffffu128 * 0x1_0000_0000u128) by (nonlinear_arith)
            requires
                ax <= 0xffff_ffff,
        ;
        assert(ay * ay <= 0xffff_ffff_ffff_ffffu128 * 0x1_0000_0000u128) by (nonlinear_arith)
            requires
                ay <= 0xffff_ffff,
        ;
        let n: u128 = ax * ax + ay * ay;
        assert(n as int == sq_dist(*self, *rhs)) by (nonlinear_arith)
            requires
                ax as int == dx as int || ax as int == -(dx as int),
                ay as int == dy as int || ay as int == -(dy as int),
                dx as int == self.x - rhs.x,
                dy as int == self.y - rhs.y,
                n as int == ax * ax + ay * ay,
        ;
        assert(n < 0x4_0000_0000_0000_0000u128) by (nonlinear_arith)
            requires
                ax <= 0xffff_ffff,
                ay <= 0xffff_ffff,
                n as int == ax * ax + ay * ay,
        ;
        let r = floor_sqrt_u128(n);
        proof {
            lemma_floor_sqrt_is(r as int, n as int);
        }
        r
    }
}

impl From<(i32, i32)> for Vec2 {
    fn from(value: (i32, i32)) -> (r: Self) {
        let (x, y) = value;
        Self { x, y }
    }
}

impl vstd::std_specs::convert::FromSpecImpl<(i32, i32)> for Vec2 {
    open spec fn obeys_from_spec() -> bool {
        true
    }

    open spec fn from_spec(v: (i32, i32)) -> Vec2 {
        Vec2 { x: v.0, y: v.1 }
    }
}

/// Componentwise sum, when both components fit in `i32`.
pub open spec fn sum_fits(a: Vec2, b: Vec2) -> bool {
    i32::MIN <= a.x + b.x <= i32::MAX && i32::MIN <= a.y + b.y <= i32::MAX
}

/// Componentwise difference, when both components fit in `i32`.
pub open spec fn diff_fits(a: Vec2, b: Vec2) -> bool {
    i32::MIN <= a.x - b.x <= i32::MAX && i32::MIN <= a.y - b.y <= i32::MAX
}

impl std::ops::Add for Vec2 {
    type Output = Vec2;

    fn add(self, rhs: Self) -> (r: Self::Output) {
        Self { x: self.x + rhs.x, y: self.y + rhs.y }
    }
}

impl vstd::std_specs::ops::AddSpecImpl for Vec2 {
    open spec fn obeys_add_spec() -> bool {
        true
    }

    open spec fn add_req(self, rhs: Vec2) -> bool {
        sum_fits(self, rhs)
    }

    open spec fn add_spec(self, rhs: Vec2) -> Vec2 {
        Vec2 { x: (self.x + rhs.x) as i32, y: (self.y + rhs.y) as i32 }
    }
}

impl std::ops::Sub for Vec2 {
    type Output = Vec2;

    fn sub(self, rhs: Self) -> (r: Self::Output) {
        Self { x: self.x - rhs.x, y: self.y - rhs.y }
    }
}

impl vstd::std_specs::ops::SubSpecImpl for Vec2 {
    open spec fn obeys_sub_spec() -> bool {
        true
    }

    open spec fn sub_req(self, rhs: Vec2) -> bool {
        diff_fits(self, rhs)
    }

    open spec fn sub_spec(self, rhs: Vec2) -> Vec2 {
        Vec2 { x: (self.x - rhs.x) as i32, y: (self.y - rhs.y) as i32 }
    }
}

impl std::ops::Neg for Vec2 {
    type Output = Vec2;

    fn neg(self) -> (r: Self::Output) {
        Self { x: -self.x, y: -self.y }
    }
}

impl vstd::std_specs::ops::NegSpecImpl for Vec2 {
    open spec fn obeys_neg_spec() -> bool {
        true
    }

    open spec fn neg_req(self) -> bool {
        self.x != i32::MIN && self.y != i32::MIN
    }

    open spec fn neg_spec(self) -> Vec2 {
        Vec2 { x: -self.x as i32, y: -self.y as i32 }
    }
}

/// In-place sum. A trait method cannot ask its caller to rule out overflow,
/// so a component that leaves the `i32` range wraps around instead.
impl std::ops::AddAssign for Vec2 {
    fn add_assign(&mut self, rhs: Self)
        ensures
            sum_fits(*old(self), rhs) ==> *final(self) == (Vec2 {
                x: (old(self).x + rhs.x) as i32,
                y: (old(self).y + rhs.y) as i32,
            }),
            *final(self) == (Vec2 {
                x: old(self).x.wrapping_add(rhs.x),
                y: old(self).y.wrapping_add(rhs.y),
            }),
    {
        self.x = self.x.wrapping_add(rhs.x);
        self.y = self.y.wrapping_add(rhs.y);
    }
}

/// In-place difference, wrapping around where a component leaves the `i32` range.
impl std::ops::SubAssign for Vec2 {
    fn sub_assign(&mut self, rhs: Self)
        ensures
            diff_fits(*old(self), rhs) ==> *final(self) == (Vec2 {
                x: (old(self).x - rhs.x) as i32,
                y: (old(self).y - rhs.y) as i32,
            }),
            *final(self) == (Vec2 {
                x: old(self).x.wrapping_sub(rhs.x),
                y: old(self).y.wrapping_sub(rhs.y),
            }),
    {
        self.x = self.x.wrapping_sub(rhs.x);
        self.y = self.y.wrapping_sub(rhs.y);
    }
}

} // verus!
