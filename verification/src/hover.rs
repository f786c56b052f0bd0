//! Which part of a shape the pointer is over.
//!
//! The pointer is taken into the shape's own frame, in which the shape is the
//! square that spans [-0.5, 0.5] on both axes, and each local coordinate is
//! held against the centre threshold of 0.45. With `d` the direction of the
//! shape's rotation, `v` the displacement from the shape to the pointer and
//! `s` the shape's size on one axis, the local coordinate on that axis is
//! `n / (|d| * s)`, where `n` is `d . v` for the X axis and `d x v` for the Y
//! axis. `|n| / (|d| * s) < 9/20` is decided exactly, without a root or a
//! division, as `400 * n * n < 81 * (d . d) * s * s`.

use vstd::prelude::*;
use crate::geometry::{lemma_product_bound, Rotation, Transform, Vec2, SPAN_LIMIT};

verus! {

/// The part of a shape under the pointer.
#[derive(Clone, Copy, Debug, PartialEq, Eq, Structural)]
pub enum HoverPosition {
    Center,
    Edge,
    Corner,
}

/// What a shape knows of the pointer: the part it is over, if any. It is
/// worked out anew on every tick.
#[derive(Clone, Copy, Debug, PartialEq, Eq, Structural)]
pub struct Hoverable {
    pub position: Option<HoverPosition>,
}

/// The pointer's local X coordinate, multiplied by the length of the
/// rotation's direction and by the shape's size along X.
pub open spec fn local_x_numer(t: Transform, pointer: Vec2) -> int {
    t.rotation.x * (pointer.x - t.translation.x) + t.rotation.y * (pointer.y - t.translation.y)
}

/// The pointer's local Y coordinate, multiplied by the length of the
/// rotation's direction and by the shape's size along Y.
pub open spec fn local_y_numer(t: Transform, pointer: Vec2) -> int {
    t.rotation.x * (pointer.y - t.translation.y) - t.rotation.y * (pointer.x - t.translation.x)
}

/// `|numer| / (sqrt(len_sq) * size) < 0.45`, stated over whole numbers.
pub open spec fn below_center_threshold(numer: int, len_sq: int, size: int) -> bool {
    400 * (numer * numer) < 81 * (len_sq * (size * size))
}

/// The pointer's local X coordinate is below the centre threshold.
pub open spec fn x_is_center(t: Transform, pointer: Vec2) -> bool {
    below_center_threshold(local_x_numer(t, pointer), t.rotation.len_sq(), t.scale.x as int)
}

/// The pointer's local Y coordinate is below the centre threshold.
pub open spec fn y_is_center(t: Transform, pointer: Vec2) -> bool {
    below_center_threshold(local_y_numer(t, pointer), t.rotation.len_sq(), t.scale.y as int)
}

/// The part of the shape with transform `t` that `pointer` is over: the
/// centre where both local coordinates are below the threshold, an edge where
/// exactly one is, a corner where neither is.
pub open spec fn hover_region(t: Transform, pointer: Vec2) -> HoverPosition {
    if x_is_center(t, pointer) && y_is_center(t, pointer) {
        HoverPosition::Center
    } else if x_is_center(t, pointer) || y_is_center(t, pointer) {
        HoverPosition::Edge
    } else {
        HoverPosition::Corner
    }
}

/// Twice the square of `SPAN_LIMIT`: the largest magnitude of a dot or cross
/// product of two displacements of the world.
pub const PRODUCT_LIMIT: i64 = 80_000_000_000_000_000;

fn decide_below_threshold(numer: i64, len_sq: i64, size: i64) -> (b: bool)
    requires
        -PRODUCT_LIMIT <= numer <= PRODUCT_LIMIT,
        0 <= len_sq <= PRODUCT_LIMIT,
        0 <= size <= 2 * SPAN_LIMIT,
    ensures
        b == below_center_threshold(numer as int, len_sq as int, size as int),
{
    let n: i128 = numer as i128;
    let l: i128 = len_sq as i128;
    let s: i128 = size as i128;
    proof {
        lemma_product_bound(
            n as int,
            n as int,
            80_000_000_000_000_000,
            80_000_000_000_000_000,
        );
        lemma_product_bound(s as int, s as int, 400_000_000, 400_000_000);
        lemma_product_bound(
            l as int,
            s * s,
            80_000_000_000_000_000,
            160_000_000_000_000_000,
        );
        assert(n * n >= 0) by (nonlinear_arith);
        assert(s * s >= 0) by (nonlinear_arith);
        assert(l * (s * s) >= 0) by (nonlinear_arith)
            requires
                l >= 0,
                s * s >= 0,
        ;
    }
    400 * (n * n) < 81 * (l * (s * s))
}

/// Classifies the pointer against a shape.
pub fn classify(t: &Transform, pointer: Vec2) -> (region: HoverPosition)
    requires
        t.wf(),
        pointer.in_world(),
    ensures
        region == hover_region(*t, pointer),
{
    let vx: i64 = pointer.x - t.translation.x;
    let vy: i64 = pointer.y - t.translation.y;
    let dx: i64 = t.rotation.x;
    let dy: i64 = t.rotation.y;
    proof {
        lemma_product_bound(dx as int, vx as int, 200_000_000, 200_000_000);
        lemma_product_bound(dy as int, vy as int, 200_000_000, 200_000_000);
        lemma_product_bound(dx as int, vy as int, 200_000_000, 200_000_000);
        lemma_product_bound(dy as int, vx as int, 200_000_000, 200_000_000);
        lemma_product_bound(dx as int, dx as int, 200_000_000, 200_000_000);
        lemma_product_bound(dy as int, dy as int, 200_000_000, 200_000_000);
        assert(dx * dx >= 0) by (nonlinear_arith);
        assert(dy * dy >= 0) by (nonlinear_arith);
    }
    let x_numer: i64 = dx * vx + dy * vy;
    let y_numer: i64 = dx * vy - dy * vx;
    let len_sq: i64 = dx * dx + dy * dy;
    let x_center = decide_below_threshold(x_numer, len_sq, t.scale.x);
    let y_center = decide_below_threshold(y_numer, len_sq, t.scale.y);
    if x_center && y_center {
        HoverPosition::Center
    } else if x_center || y_center {
        HoverPosition::Edge
    } else {
        HoverPosition::Corner
    }
}

/// For a shape that is not rotated, the centre test on an axis is the plain
/// comparison of the pointer's distance from the shape's position with 0.45
/// of the shape's size on that axis.
pub proof fn lemma_unrotated_center(t: Transform, pointer: Vec2)
    requires
        t.rotation.y == 0,
        t.rotation.x > 0,
        t.scale.x >= 0,
        t.scale.y >= 0,
    ensures
        x_is_center(t, pointer) <==> 20 * crate::geometry::magnitude(pointer.x - t.translation.x)
            < 9 * t.scale.x,
        y_is_center(t, pointer) <==> 20 * crate::geometry::magnitude(pointer.y - t.translation.y)
            < 9 * t.scale.y,
{
    let k: int = t.rotation.x as int;
    lemma_scaled_threshold(k, pointer.x - t.translation.x, t.scale.x as int);
    lemma_scaled_threshold(k, pointer.y - t.translation.y, t.scale.y as int);
    assert(t.rotation.len_sq() == k * k + 0 * 0);
    assert(local_x_numer(t, pointer) == k * (pointer.x - t.translation.x) + 0 * (pointer.y
        - t.translation.y));
    assert(local_y_numer(t, pointer) == k * (pointer.y - t.translation.y) - 0 * (pointer.x
        - t.translation.x));
}

proof fn lemma_scaled_threshold(k: int, v: int, s: int)
    by (nonlinear_arith)
    requires
        k > 0,
        s >= 0,
    ensures
        below_center_threshold(k * v, k * k, s) <==> 20 * crate::geometry::magnitude(v) < 9 * s,
{
    let m = crate::geometry::magnitude(v);
    assert(m * m == v * v);
    assert((k * v) * (k * v) == (k * k) * (m * m));
    assert(400 * ((k * v) * (k * v)) == (k * k) * ((20 * m) * (20 * m)));
    assert(81 * ((k * k) * (s * s)) == (k * k) * ((9 * s) * (9 * s)));
    assert(k * k > 0);
    assert((20 * m < 9 * s) <==> ((20 * m) * (20 * m) < (9 * s) * (9 * s)));
}

/// The classification depends on the rotation only, not on the length of the
/// direction that stands for it.
pub proof fn lemma_direction_length_is_irrelevant(t: Transform, factor: int, pointer: Vec2)
    requires
        factor > 0,
        i64::MIN <= t.rotation.x * factor <= i64::MAX,
        i64::MIN <= t.rotation.y * factor <= i64::MAX,
    ensures
        hover_region(
            Transform {
                rotation: Rotation {
                    x: (t.rotation.x * factor) as i64,
                    y: (t.rotation.y * factor) as i64,
                },
                ..t
            },
            pointer,
        ) == hover_region(t, pointer),
{
    let stretched = Transform {
        rotation: Rotation { x: (t.rotation.x * factor) as i64, y: (t.rotation.y * factor) as i64 },
        ..t
    };
    lemma_stretched_threshold(
        factor,
        t.rotation.x as int,
        t.rotation.y as int,
        pointer.x - t.translation.x,
        pointer.y - t.translation.y,
        t.scale.x as int,
    );
    lemma_stretched_threshold(
        factor,
        t.rotation.x as int,
        -t.rotation.y as int,
        pointer.y - t.translation.y,
        pointer.x - t.translation.x,
        t.scale.y as int,
    );
    assert(stretched.rotation.len_sq() == (t.rotation.x * factor) * (t.rotation.x * factor) + (
    t.rotation.y * factor) * (t.rotation.y * factor));
    assert((-t.rotation.y) * (-t.rotation.y) == t.rotation.y * t.rotation.y) by (nonlinear_arith);
    assert((-t.rotation.y * factor) * (-t.rotation.y * factor) == (t.rotation.y * factor) * (
    t.rotation.y * factor)) by (nonlinear_arith);
    assert((-t.rotation.y) * (pointer.x - t.translation.x) == -(t.rotation.y * (pointer.x
        - t.translation.x))) by (nonlinear_arith);
    assert((-t.rotation.y * factor) * (pointer.x - t.translation.x) == -((t.rotation.y * factor)
        * (pointer.x - t.translation.x))) by (nonlinear_arith);
}

proof fn lemma_stretched_threshold(k: int, dx: int, dy: int, vx: int, vy: int, s: int)
    by (nonlinear_arith)
    requires
        k > 0,
    ensures
        below_center_threshold(
            (dx * k) * vx + (dy * k) * vy,
            (dx * k) * (dx * k) + (dy * k) * (dy * k),
            s,
        ) <==> below_center_threshold(dx * vx + dy * vy, dx * dx + dy * dy, s),
{
    let n = dx * vx + dy * vy;
    let l = dx * dx + dy * dy;
    assert((dx * k) * vx + (dy * k) * vy == k * n);
    assert((dx * k) * (dx * k) + (dy * k) * (dy * k) == (k * k) * l);
    assert(400 * ((k * n) * (k * n)) == (k * k) * (400 * (n * n)));
    assert(81 * (((k * k) * l) * (s * s)) == (k * k) * (81 * (l * (s * s))));
    assert(k * k > 0);
}

} // verus!
