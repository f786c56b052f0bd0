//! The pointer, and the systems that carry shapes along with it: a shape that
//! is being placed sits under the pointer, one that is being scaled spans
//! from where it was put down to the pointer, one that is being moved runs
//! after the pointer, and one that is being rotated turns towards it.

use vstd::prelude::*;
use crate::geometry::{Rotation, Transform, Vec2};
use crate::model::{Body, Modifying, PointerFallback, Shape, PURSUIT_GAIN};
use super::{lemma_reshaped_wf, Sandbox, SandboxView};

verus! {

/// Where the pointer is after a tick on which the cursor was seen at
/// `cursor`. A cursor that is away, or outside the world, leaves the pointer
/// to its fallback.
pub open spec fn pointer_after(v: SandboxView, cursor: Option<Vec2>) -> Vec2 {
    match cursor {
        Some(position) if position.in_world() => position,
        _ => match v.fallback {
            PointerFallback::Origin => Vec2::origin(),
            PointerFallback::LastKnown => v.mouse,
        },
    }
}

/// A shape that is being placed sits at the pointer.
pub open spec fn placed(shape: Shape, mouse: Vec2) -> Shape {
    if shape.modifying == Some(Modifying::Placing) {
        shape.moved_to(mouse)
    } else {
        shape
    }
}

/// The velocity with which a shape at `translation` runs after the pointer.
pub open spec fn pursuit_velocity(translation: Vec2, mouse: Vec2) -> Vec2 {
    mouse.minus(translation).times(PURSUIT_GAIN as int)
}

/// A shape that is being moved runs after the pointer, where it has a body
/// to move.
pub open spec fn pursuing(shape: Shape, mouse: Vec2) -> Shape {
    match (shape.modifying, shape.body) {
        (Some(Modifying::Moving { .. }), Some(_)) => Shape {
            body: Some(Body { velocity: pursuit_velocity(shape.transform.translation, mouse) }),
            ..shape
        },
        _ => shape,
    }
}

/// A shape that is being scaled is the rectangle with one corner where it was
/// put down and the opposite corner at the pointer.
pub open spec fn scaled(shape: Shape, mouse: Vec2) -> Shape {
    match shape.modifying {
        Some(Modifying::Scaling { start }) => {
            let center = mouse.midpoint_with(start);
            Shape {
                transform: Transform {
                    translation: center,
                    scale: mouse.extent_around(center),
                    ..shape.transform
                },
                ..shape
            }
        },
        _ => shape,
    }
}

/// The rotation that turns the local +X axis of a shape at `translation`
/// towards the pointer.
pub open spec fn facing(translation: Vec2, mouse: Vec2) -> Rotation {
    Rotation { x: (mouse.x - translation.x) as i64, y: (mouse.y - translation.y) as i64 }
}

/// A shape that is being rotated points its local +X axis at the pointer.
/// While the pointer is exactly at the shape's position there is no
/// direction to point in, and the shape keeps its rotation.
pub open spec fn rotated(shape: Shape, mouse: Vec2) -> Shape {
    match shape.modifying {
        Some(Modifying::Rotating { .. }) if mouse != shape.transform.translation => Shape {
            transform: Transform {
                rotation: facing(shape.transform.translation, mouse),
                ..shape.transform
            },
            ..shape
        },
        _ => shape,
    }
}

/// Pointer tracker. Takes over the cursor's position in the world, where the
/// window and the camera gave one.
pub fn calculate_mouse_position(sandbox: &mut Sandbox, cursor: Option<Vec2>)
    requires
        old(sandbox).wf(),
    ensures
        final(sandbox).wf(),
        final(sandbox)@ == (SandboxView {
            mouse: pointer_after(old(sandbox)@, cursor),
            ..old(sandbox)@
        }),
{
    let seen = match cursor {
        Some(position) => if position.is_in_world() {
            Some(position)
        } else {
            None
        },
        None => None,
    };
    match seen {
        Some(position) => {
            sandbox.mouse = position;
        },
        None => {
            match sandbox.fallback {
                PointerFallback::Origin => {
                    sandbox.mouse = Vec2 { x: 0, y: 0 };
                },
                PointerFallback::LastKnown => {},
            }
        },
    }
}

/// Puts every shape that is being placed under the pointer.
pub fn move_to_mouse(sandbox: &mut Sandbox)
    requires
        old(sandbox).wf(),
    ensures
        final(sandbox).wf(),
        final(sandbox)@ == old(sandbox)@.with_shapes(
            old(sandbox)@.shapes.map_values(|s: Shape| placed(s, old(sandbox)@.mouse)),
        ),
{
    let mouse = sandbox.mouse;
    let mut i: usize = 0;
    while i < sandbox.shapes.len()
        invariant
            old(sandbox).wf(),
            mouse == old(sandbox)@.mouse,
            i <= sandbox.shapes.len(),
            sandbox.shapes@.len() == old(sandbox)@.shapes.len(),
            sandbox@ == old(sandbox)@.with_shapes(sandbox.shapes@),
            forall|k: int|
                0 <= k < sandbox.shapes@.len() ==> #[trigger] sandbox.shapes@[k] == if k < i {
                    placed(old(sandbox)@.shapes[k], mouse)
                } else {
                    old(sandbox)@.shapes[k]
                },
        decreases sandbox.shapes.len() - i,
    {
        let shape = sandbox.shapes[i];
        match shape.modifying {
            Some(Modifying::Placing) => {
                sandbox.shapes[i].transform.translation = mouse;
            },
            _ => {},
        }
        i = i + 1;
    }
    proof {
        let target = old(sandbox)@.shapes.map_values(|s: Shape| placed(s, old(sandbox)@.mouse));
        assert(sandbox.shapes@ =~= target);
        lemma_reshaped_wf(old(sandbox)@, old(sandbox)@.mode, target);
    }
}

/// Gives every shape that is being moved the velocity that carries it
/// towards the pointer.
pub fn move_towards_mouse(sandbox: &mut Sandbox)
    requires
        old(sandbox).wf(),
    ensures
        final(sandbox).wf(),
        final(sandbox)@ == old(sandbox)@.with_shapes(
            old(sandbox)@.shapes.map_values(|s: Shape| pursuing(s, old(sandbox)@.mouse)),
        ),
{
    let mouse = sandbox.mouse;
    let mut i: usize = 0;
    while i < sandbox.shapes.len()
        invariant
            old(sandbox).wf(),
            mouse == old(sandbox)@.mouse,
            i <= sandbox.shapes.len(),
            sandbox.shapes@.len() == old(sandbox)@.shapes.len(),
            sandbox@ == old(sandbox)@.with_shapes(sandbox.shapes@),
            forall|k: int|
                0 <= k < sandbox.shapes@.len() ==> #[trigger] sandbox.shapes@[k] == if k < i {
                    pursuing(old(sandbox)@.shapes[k], mouse)
                } else {
                    old(sandbox)@.shapes[k]
                },
        decreases sandbox.shapes.len() - i,
    {
        let shape = sandbox.shapes[i];
        match (shape.modifying, shape.body) {
            (Some(Modifying::Moving { .. }), Some(_)) => {
                let gap = mouse.displacement_from(shape.transform.translation);
                let velocity = Vec2 { x: gap.x * PURSUIT_GAIN, y: gap.y * PURSUIT_GAIN };
                sandbox.shapes[i].body = Some(Body { velocity });
            },
            _ => {},
        }
        i = i + 1;
    }
    proof {
        let target = old(sandbox)@.shapes.map_values(|s: Shape| pursuing(s, old(sandbox)@.mouse));
        assert(sandbox.shapes@ =~= target);
        lemma_reshaped_wf(old(sandbox)@, old(sandbox)@.mode, target);
    }
}

/// Sizes every shape that is being scaled: its centre is halfway between the
/// place where it was put down and the pointer, and it reaches from the one
/// to the other.
pub fn scale(sandbox: &mut Sandbox)
    requires
        old(sandbox).wf(),
    ensures
        final(sandbox).wf(),
        final(sandbox)@ == old(sandbox)@.with_shapes(
            old(sandbox)@.shapes.map_values(|s: Shape| scaled(s, old(sandbox)@.mouse)),
        ),
{
    let mouse = sandbox.mouse;
    let mut i: usize = 0;
    while i < sandbox.shapes.len()
        invariant
            old(sandbox).wf(),
            mouse == old(sandbox)@.mouse,
            i <= sandbox.shapes.len(),
            sandbox.shapes@.len() == old(sandbox)@.shapes.len(),
            sandbox@ == old(sandbox)@.with_shapes(sandbox.shapes@),
            forall|k: int|
                0 <= k < sandbox.shapes@.len() ==> #[trigger] sandbox.shapes@[k] == if k < i {
                    scaled(old(sandbox)@.shapes[k], mouse)
                } else {
                    old(sandbox)@.shapes[k]
                },
        decreases sandbox.shapes.len() - i,
    {
        let shape = sandbox.shapes[i];
        match shape.modifying {
            Some(Modifying::Scaling { start }) => {
                let center = mouse.midpoint(start);
                let size = mouse.extent_from(center);
                sandbox.shapes[i].transform.translation = center;
                sandbox.shapes[i].transform.scale = size;
            },
            _ => {},
        }
        i = i + 1;
    }
    proof {
        let target = old(sandbox)@.shapes.map_values(|s: Shape| scaled(s, old(sandbox)@.mouse));
        assert(sandbox.shapes@ =~= target);
        lemma_reshaped_wf(old(sandbox)@, old(sandbox)@.mode, target);
    }
}

/// Turns every shape that is being rotated towards the pointer.
pub fn rotate(sandbox: &mut Sandbox)
    requires
        old(sandbox).wf(),
    ensures
        final(sandbox).wf(),
        final(sandbox)@ == old(sandbox)@.with_shapes(
            old(sandbox)@.shapes.map_values(|s: Shape| rotated(s, old(sandbox)@.mouse)),
        ),
{
    let mouse = sandbox.mouse;
    let mut i: usize = 0;
    while i < sandbox.shapes.len()
        invariant
            old(sandbox).wf(),
            mouse == old(sandbox)@.mouse,
            i <= sandbox.shapes.len(),
            sandbox.shapes@.len() == old(sandbox)@.shapes.len(),
            sandbox@ == old(sandbox)@.with_shapes(sandbox.shapes@),
            forall|k: int|
                0 <= k < sandbox.shapes@.len() ==> #[trigger] sandbox.shapes@[k] == if k < i {
                    rotated(old(sandbox)@.shapes[k], mouse)
                } else {
                    old(sandbox)@.shapes[k]
                },
        decreases sandbox.shapes.len() - i,
    {
        let shape = sandbox.shapes[i];
        match shape.modifying {
            Some(Modifying::Rotating { .. }) => {
                let gap = mouse.displacement_from(shape.transform.translation);
                if gap.x != 0 || gap.y != 0 {
                    sandbox.shapes[i].transform.rotation = Rotation { x: gap.x, y: gap.y };
                }
            },
            _ => {},
        }
        i = i + 1;
    }
    proof {
        let target = old(sandbox)@.shapes.map_values(|s: Shape| rotated(s, old(sandbox)@.mouse));
        assert(sandbox.shapes@ =~= target);
        lemma_reshaped_wf(old(sandbox)@, old(sandbox)@.mode, target);
    }
}

} // verus!
