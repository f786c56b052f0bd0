//! Fixed-point plane geometry.
//!
//! World coordinates are whole numbers of sub-units, `UNIT` of them to one
//! world unit. Every coordinate the sandbox keeps lies within `WORLD_LIMIT` of
//! the origin, which leaves room for all the arithmetic below in 64 and 128
//! bits. A rotation is kept as the direction in which the local +X axis
//! points, so that no angle and no trigonometry is needed.

use vstd::prelude::*;

verus! {

/// Sub-units in one world unit.
pub const UNIT: i64 = 1000;

/// Largest magnitude of a coordinate inside the modelled world, in sub-units.
pub const WORLD_LIMIT: i64 = 100_000_000;

/// Largest magnitude of a difference of two coordinates of the world.
pub const SPAN_LIMIT: i64 = 200_000_000;

/// Magnitude of an integer.
pub open spec fn magnitude(a: int) -> int {
    if a < 0 {
        -a
    } else {
        a
    }
}

/// The midpoint of two coordinates. Where it falls between two sub-units the
/// lower one is taken.
pub open spec fn midpoint(a: int, b: int) -> int {
    (a + b) / 2
}

/// The full extent of a span that is centred on `center` and reaches `corner`.
pub open spec fn extent(corner: int, center: int) -> int {
    2 * magnitude(corner - center)
}

/// A point or a displacement of the plane, in sub-units.
#[derive(Clone, Copy, Debug, PartialEq, Eq, Structural)]
pub struct Vec2 {
    pub x: i64,
    pub y: i64,
}

impl Vec2 {
    /// Both coordinates lie inside the modelled world.
    pub open spec fn in_world(self) -> bool {
        &&& -WORLD_LIMIT <= self.x <= WORLD_LIMIT
        &&& -WORLD_LIMIT <= self.y <= WORLD_LIMIT
    }

    /// Both coordinates are at most `bound` in magnitude.
    pub open spec fn within(self, bound: int) -> bool {
        &&& -bound <= self.x <= bound
        &&& -bound <= self.y <= bound
    }

    /// The origin.
    pub open spec fn origin() -> Vec2 {
        Vec2 { x: 0, y: 0 }
    }

    /// The point halfway between `self` and `other`.
    pub open spec fn midpoint_with(self, other: Vec2) -> Vec2 {
        Vec2 {
            x: midpoint(self.x as int, other.x as int) as i64,
            y: midpoint(self.y as int, other.y as int) as i64,
        }
    }

    /// The size of the axis-aligned rectangle centred on `center` that has
    /// `self` as one corner.
    pub open spec fn extent_around(self, center: Vec2) -> Vec2 {
        Vec2 {
            x: extent(self.x as int, center.x as int) as i64,
            y: extent(self.y as int, center.y as int) as i64,
        }
    }

    /// The displacement that leads from `from` to `self`.
    pub open spec fn minus(self, from: Vec2) -> Vec2 {
        Vec2 { x: (self.x - from.x) as i64, y: (self.y - from.y) as i64 }
    }

    /// The displacement stretched by a whole factor.
    pub open spec fn times(self, factor: int) -> Vec2 {
        Vec2 { x: (self.x * factor) as i64, y: (self.y * factor) as i64 }
    }

    pub fn new(x: i64, y: i64) -> (v: Vec2)
        ensures
            v == (Vec2 { x, y }),
    {
        Vec2 { x, y }
    }

    /// A point given in whole world units, or `None` where it would lie
    /// outside the modelled world.
    pub fn from_units(x: i64, y: i64) -> (v: Option<Vec2>)
        ensures
            v is Some <==> (Vec2 { x, y }).within(WORLD_LIMIT / UNIT),
            v matches Some(p) ==> p.x == x * UNIT && p.y == y * UNIT && p.in_world(),
    {
        let limit: i64 = WORLD_LIMIT / UNIT;
        if -limit <= x && x <= limit && -limit <= y && y <= limit {
            Some(Vec2 { x: x * UNIT, y: y * UNIT })
        } else {
            None
        }
    }

    pub fn zero() -> (v: Vec2)
        ensures
            v == Vec2::origin(),
    {
        Vec2 { x: 0, y: 0 }
    }

    pub fn is_in_world(&self) -> (b: bool)
        ensures
            b == self.in_world(),
    {
        -WORLD_LIMIT <= self.x && self.x <= WORLD_LIMIT && -WORLD_LIMIT <= self.y && self.y
            <= WORLD_LIMIT
    }

    pub fn midpoint(&self, other: Vec2) -> (m: Vec2)
        requires
            self.in_world(),
            other.in_world(),
        ensures
            m == self.midpoint_with(other),
            m.in_world(),
    {
        Vec2 { x: halve(self.x + other.x), y: halve(self.y + other.y) }
    }

    pub fn extent_from(&self, center: Vec2) -> (e: Vec2)
        requires
            self.in_world(),
            center.in_world(),
        ensures
            e == self.extent_around(center),
            0 <= e.x <= 2 * SPAN_LIMIT,
            0 <= e.y <= 2 * SPAN_LIMIT,
    {
        Vec2 { x: 2 * absolute(self.x - center.x), y: 2 * absolute(self.y - center.y) }
    }

    pub fn displacement_from(&self, from: Vec2) -> (d: Vec2)
        requires
            self.in_world(),
            from.in_world(),
        ensures
            d == self.minus(from),
            d.within(SPAN_LIMIT as int),
    {
        Vec2 { x: self.x - from.x, y: self.y - from.y }
    }
}

/// Half of `a`, rounded down.
pub fn halve(a: i64) -> (h: i64)
    ensures
        h == a / 2,
{
    if a >= 0 {
        a / 2
    } else {
        -((-(a + 1)) / 2 + 1)
    }
}

/// A thousandth of `a`, rounded towards zero.
pub open spec fn thousandth(a: int) -> int {
    if a >= 0 {
        a / 1000
    } else {
        -((-a) / 1000)
    }
}

/// A thousandth of `a`, rounded towards zero.
pub fn thousandth_of(a: i64) -> (q: i64)
    requires
        a > i64::MIN,
    ensures
        q == thousandth(a as int),
{
    if a >= 0 {
        a / 1000
    } else {
        -((-a) / 1000)
    }
}

/// Magnitude of `a`.
pub fn absolute(a: i64) -> (m: i64)
    requires
        a > i64::MIN,
    ensures
        m == magnitude(a as int),
{
    if a < 0 {
        -a
    } else {
        a
    }
}

/// A rotation about the Z axis, kept as the direction in which it turns the
/// local +X axis. Two directions that differ by a positive factor are the
/// same rotation; the null vector is no rotation at all.
#[derive(Clone, Copy, Debug, PartialEq, Eq, Structural)]
pub struct Rotation {
    pub x: i64,
    pub y: i64,
}

impl Rotation {
    pub open spec fn wf(self) -> bool {
        &&& -SPAN_LIMIT <= self.x <= SPAN_LIMIT
        &&& -SPAN_LIMIT <= self.y <= SPAN_LIMIT
        &&& !(self.x == 0 && self.y == 0)
    }

    /// The rotation that turns nothing.
    pub open spec fn identity() -> Rotation {
        Rotation { x: 1, y: 0 }
    }

    /// Squared length of the direction.
    pub open spec fn len_sq(self) -> int {
        self.x * self.x + self.y * self.y
    }

    /// Cross product of the direction with a displacement: zero exactly when
    /// the two are parallel.
    pub open spec fn cross(self, d: Vec2) -> int {
        self.x * d.y - self.y * d.x
    }

    /// Dot product of the direction with a displacement: positive when the
    /// two point into the same half-plane.
    pub open spec fn dot(self, d: Vec2) -> int {
        self.x * d.x + self.y * d.y
    }

    /// The image of the local +X axis points along `d`.
    pub open spec fn points_along(self, d: Vec2) -> bool {
        self.cross(d) == 0 && self.dot(d) > 0
    }
}

/// Position, rotation and size of a shape. The unscaled shape is the square
/// that spans [-0.5, 0.5] on both local axes, so `scale` is its full size.
#[derive(Clone, Copy, Debug, PartialEq, Eq, Structural)]
pub struct Transform {
    pub translation: Vec2,
    pub rotation: Rotation,
    pub scale: Vec2,
}

impl Transform {
    pub open spec fn wf(self) -> bool {
        &&& self.translation.in_world()
        &&& self.rotation.wf()
        &&& 0 <= self.scale.x <= 2 * SPAN_LIMIT
        &&& 0 <= self.scale.y <= 2 * SPAN_LIMIT
    }

    /// An unrotated square of the given size at the origin.
    pub open spec fn square_at_origin(size: i64) -> Transform {
        Transform {
            translation: Vec2::origin(),
            rotation: Rotation::identity(),
            scale: Vec2 { x: size, y: size },
        }
    }
}

/// The product of two bounded integers is bounded by the product of the
/// bounds.
pub proof fn lemma_product_bound(a: int, b: int, bound_a: int, bound_b: int)
    by (nonlinear_arith)
    requires
        -bound_a <= a <= bound_a,
        -bound_b <= b <= bound_b,
    ensures
        -(bound_a * bound_b) <= a * b <= bound_a * bound_b,
{
}

} // verus!
