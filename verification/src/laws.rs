//! What holds of the sandbox in every state, and of its rules on every
//! input. Each system keeps the sandbox well formed, so what is proved here
//! of a well-formed sandbox holds on every tick.

use vstd::prelude::*;
use crate::geometry::{magnitude, Vec2};
use crate::model::{Ball, Body, Collider, Command, Modifying, Resolution, Shape};
use crate::sandbox::balls::ball_goes;
use crate::sandbox::events::lemma_commands_keep_identities;
use crate::sandbox::pointer::{rotated, scaled};
use crate::sandbox::{
    lemma_ball_selection, lemma_selection, lemma_selection_of_all, lemma_selection_of_none,
    SandboxView,
};

verus! {

/// The sandbox is in one mode at a time, and the mode tells what a shape may
/// carry: in `Default` mode no shape carries anything, and in `Create` mode
/// a shape carries nothing or is being placed. So a shape that carries
/// something is found outside `Default` mode only, and one that is being
/// scaled, moved or rotated in `Modify` mode only.
pub proof fn lemma_mode_exclusive(v: SandboxView, i: int)
    requires
        v.wf(),
        0 <= i < v.shapes.len(),
    ensures
        !(v.mode is Create && v.mode is Modify),
        !(v.mode is Default && (v.mode is Create || v.mode is Modify)),
        v.mode is Default ==> v.shapes[i].modifying is None,
        v.mode is Create ==> v.shapes[i].modifying is None || v.shapes[i].modifying == Some(
            Modifying::Placing,
        ),
        v.shapes[i].modifying is Some && v.shapes[i].modifying != Some(Modifying::Placing)
            ==> v.mode is Modify,
{
}

/// At most one shape is being placed at any time, and while the sandbox is
/// in `Create` mode no other shape carries anything.
pub proof fn lemma_single_placement(v: SandboxView, i: int, j: int)
    requires
        v.wf(),
        0 <= i < v.shapes.len(),
        0 <= j < v.shapes.len(),
        v.shapes[i].modifying == Some(Modifying::Placing),
        v.shapes[j].modifying == Some(Modifying::Placing) || (v.mode is Create
            && v.shapes[j].modifying is Some),
    ensures
        i == j,
{
}

/// Activating a tool sets `Create` exactly when it spawns a shape: in
/// `Default` mode, while the counters have not run out. In any other mode it
/// changes nothing. The new shape is being placed and has neither body nor
/// collider, and every shape that was there is as it was.
pub proof fn lemma_tool_sets_create(
    v: SandboxView,
    tool: crate::model::Tool,
    mesh: Option<crate::textures::Mesh>,
)
    ensures
        v.mode is Default && v.next_id < u64::MAX && v.z_counter < u64::MAX ==> {
            let after = v.tool_activated(tool, mesh);
            &&& after.mode is Create
            &&& after.shapes.len() == v.shapes.len() + 1
            &&& after.shapes.last().modifying == Some(Modifying::Placing)
            &&& after.shapes.last().body is None
            &&& after.shapes.last().collider is None
            &&& forall|i: int| 0 <= i < v.shapes.len() ==> after.shapes[i] == v.shapes[i]
        },
        !(v.mode is Default) ==> v.tool_activated(tool, mesh) == v,
        v.tool_activated(tool, mesh).mode is Create || v.tool_activated(tool, mesh).mode == v.mode,
{
}

/// The mode after the commands that wait are handled is the one that the
/// last of them sets: `Default` after `Scaled`, `Modify` after `Created`,
/// `Move` or `Rotate`, whatever the mode was before. With nothing waiting
/// the mode stays. A `Move` or `Rotate` sets its mode where its shape
/// exists.
pub proof fn lemma_last_command_sets_mode(v: SandboxView)
    requires
        v.wf(),
        v.command_events.len() > 0 ==> match v.command_events.last().command {
            Command::Move { entity, .. } => v.index_of(entity) is Some,
            Command::Rotate { entity, .. } => v.index_of(entity) is Some,
            _ => true,
        },
    ensures
        (SandboxView { command_events: Seq::empty(), ..v }).commands_applied(
            v.command_events,
        ).mode == if v.command_events.len() == 0 {
            v.mode
        } else {
            v.command_events.last().command.mode_after()
        },
{
    if v.command_events.len() > 0 {
        let emptied = SandboxView { command_events: Seq::empty(), ..v };
        let last = v.command_events.last().command;
        lemma_commands_keep_identities(emptied, v.command_events.drop_last());
        assert(last.in_world());
        match last {
            Command::Move { entity, .. } => {
                assert(emptied.index_of(entity) is Some);
            },
            Command::Rotate { entity, .. } => {
                assert(emptied.index_of(entity) is Some);
            },
            _ => {},
        }
    }
}

/// `Scaled` finishes every shape that carries something, whatever it
/// carries and whatever the mode: afterwards the shape carries nothing, its
/// body is at rest and it has the one collider of a shape that was put
/// down. A shape that carried nothing is left as it was.
pub proof fn lemma_scaled_commits(v: SandboxView, i: int)
    requires
        0 <= i < v.shapes.len(),
    ensures
        ({
            let after = v.command_applied(Command::Scaled);
            &&& after.mode is Default
            &&& after.shapes.len() == v.shapes.len()
            &&& after.shapes[i].modifying is None
            &&& v.shapes[i].modifying is Some ==> after.shapes[i] == (Shape {
                modifying: None,
                body: Some(Body { velocity: Vec2::origin() }),
                collider: Some(Collider { sensor: v.shapes[i].solid is ForceField }),
                ..v.shapes[i]
            })
            &&& v.shapes[i].modifying is None ==> after.shapes[i] == v.shapes[i]
        }),
{
}

/// A shape has its collider exactly when it carries nothing.
pub proof fn lemma_collider_apart_from_modifying(v: SandboxView, i: int)
    requires
        v.wf(),
        0 <= i < v.shapes.len(),
    ensures
        v.shapes[i].collider is Some <==> v.shapes[i].modifying is None,
{
}

/// Picking a shape up takes its collider off, and finishing puts it on
/// again: after `Move` or `Rotate` the shape carries something and has no
/// collider, and after `Scaled` it carries nothing and has one.
pub proof fn lemma_collider_goes_and_comes(v: SandboxView, i: int, start: Vec2)
    requires
        v.wf(),
        0 <= i < v.shapes.len(),
        start.in_world(),
    ensures
        ({
            let id = v.shapes[i].id;
            let moved = v.command_applied(Command::Move { entity: id, start });
            let turned = v.command_applied(Command::Rotate { entity: id, start });
            &&& moved.shapes[i].modifying == Some(Modifying::Moving { start })
            &&& moved.shapes[i].collider is None
            &&& turned.shapes[i].modifying == Some(Modifying::Rotating { start })
            &&& turned.shapes[i].collider is None
            &&& moved.command_applied(Command::Scaled).shapes[i].collider is Some
            &&& moved.command_applied(Command::Scaled).shapes[i].modifying is None
        }),
{
    crate::sandbox::lemma_index_of(v, v.shapes[i].id, i);
}

/// At most one shape is hovered: the shapes that are hovered number none or
/// one.
pub proof fn lemma_hover_unique(v: SandboxView)
    requires
        v.wf(),
    ensures
        v.shapes.filter(|s: Shape| s.hoverable.position is Some).len() <= 1,
{
    let hovered = |s: Shape| s.hoverable.position is Some;
    let found = v.shapes.filter(hovered);
    lemma_selection(v.shapes, hovered);
    if found.len() >= 2 {
        // Two hovered shapes would be two different shapes of the sandbox.
        let i = choose|i: int| 0 <= i < v.shapes.len() && v.shapes[i] == found[0];
        let j = choose|j: int| 0 <= j < v.shapes.len() && v.shapes[j] == found[1];
        assert(found[0].id < found[1].id);
        assert(i == j);
    }
}

/// Scaling is symmetric about the midpoint: the centre of a shape that is
/// being scaled is halfway between the place where it was put down and the
/// pointer, and on each axis its size is twice the distance from the centre
/// to the pointer, so the pointer is at a corner of it. Where the two
/// coordinates on an axis add up to an even number, the midpoint is exact
/// and the size is the distance between them.
pub proof fn lemma_scale_symmetry(shape: Shape, start: Vec2, mouse: Vec2)
    requires
        shape.modifying == Some(Modifying::Scaling { start }),
        start.in_world(),
        mouse.in_world(),
    ensures
        ({
            let t = scaled(shape, mouse).transform;
            &&& t.translation.x == (mouse.x + start.x) / 2
            &&& t.translation.y == (mouse.y + start.y) / 2
            &&& t.scale.x == 2 * magnitude(mouse.x - t.translation.x)
            &&& t.scale.y == 2 * magnitude(mouse.y - t.translation.y)
            &&& t.rotation == shape.transform.rotation
            &&& (mouse.x + start.x) % 2 == 0 ==> 2 * t.translation.x == mouse.x + start.x
                && t.scale.x == magnitude(mouse.x - start.x)
            &&& (mouse.y + start.y) % 2 == 0 ==> 2 * t.translation.y == mouse.y + start.y
                && t.scale.y == magnitude(mouse.y - start.y)
        }),
{
}

/// Rotation points the shape at the pointer: the direction into which the
/// local +X axis of a shape that is being rotated is turned is parallel to
/// the way from the shape to the pointer, and points the same way. Position
/// and size are left alone.
pub proof fn lemma_rotation_faces_pointer(shape: Shape, mouse: Vec2)
    requires
        shape.modifying matches Some(Modifying::Rotating { .. }),
        shape.transform.translation.in_world(),
        mouse.in_world(),
        mouse != shape.transform.translation,
    ensures
        rotated(shape, mouse).transform.rotation.points_along(
            mouse.minus(shape.transform.translation),
        ),
        rotated(shape, mouse).transform.translation == shape.transform.translation,
        rotated(shape, mouse).transform.scale == shape.transform.scale,
{
    let dx = mouse.x - shape.transform.translation.x;
    let dy = mouse.y - shape.transform.translation.y;
    assert(dx * dy - dy * dx == 0) by (nonlinear_arith);
    assert(dx * dx + dy * dy > 0) by (nonlinear_arith)
        requires
            dx != 0 || dy != 0,
    ;
}

/// A cancellation in `Default` mode does nothing: the sandbox is as it was,
/// and no shape is despawned.
pub proof fn lemma_cancel_in_default(v: SandboxView)
    requires
        v.wf(),
        v.mode is Default,
    ensures
        v.cancelled() == v,
        v.in_modification() == Seq::<crate::model::EntityId>::empty(),
{
    lemma_selection_of_all(v.shapes, |s: Shape| s.modifying is None);
    lemma_selection_of_none(v.shapes, |s: Shape| s.modifying is Some);
}

/// A second cancellation adds nothing to the first.
pub proof fn lemma_cancel_twice(v: SandboxView)
    requires
        v.wf(),
    ensures
        v.cancelled().cancelled() == v.cancelled(),
{
    let keep = |s: Shape| s.modifying is None;
    lemma_selection(v.shapes, keep);
    lemma_selection_of_all(v.shapes.filter(keep), keep);
}

/// The bounds check removes the particles that have left the bounds, and
/// every particle beyond the window's full size; it keeps every particle
/// inside the bounds. Afterwards each particle is inside the bounds or has
/// not been inside yet, and none is beyond the window's full size. No shape
/// is touched.
pub proof fn lemma_sweep_removes_outside(v: SandboxView, window: Resolution)
    requires
        v.wf(),
    ensures
        forall|k: int|
            0 <= k < v.swept(window).balls.len() ==> {
                let ball = #[trigger] v.swept(window).balls[k];
                &&& ball.entered == !window.excludes(ball.position)
                &&& !window.is_beyond(ball.position)
            },
        forall|i: int|
            0 <= i < v.balls.len() && (v.balls[i].entered || window.is_beyond(
                v.balls[i].position,
            )) && window.excludes(v.balls[i].position) ==> !has_ball(
                v.swept(window).balls,
                (#[trigger] v.balls[i]).id,
            ),
        forall|i: int|
            0 <= i < v.balls.len() && !window.excludes(v.balls[i].position) ==> v.swept(
                window,
            ).balls.contains(Ball { entered: true, ..#[trigger] v.balls[i] }),
        v.swept(window).shapes == v.shapes,
{
    let keep = |b: Ball| !ball_goes(window, b);
    let kept = v.balls.filter(keep);
    let after = v.swept(window).balls;
    lemma_ball_selection(v.balls, v.next_id, keep);
    assert forall|k: int| 0 <= k < after.len() implies {
        let ball = #[trigger] after[k];
        &&& ball.entered == !window.excludes(ball.position)
        &&& !window.is_beyond(ball.position)
    } by {
        assert(keep(kept[k]));
    }
    assert forall|i: int|
        0 <= i < v.balls.len() && (v.balls[i].entered || window.is_beyond(v.balls[i].position))
            && window.excludes(v.balls[i].position) implies !has_ball(
        after,
        (#[trigger] v.balls[i]).id,
    ) by {
        if has_ball(after, v.balls[i].id) {
            let k = choose|k: int| 0 <= k < after.len() && (#[trigger] after[k]).id == v.balls[i].id;
            assert(keep(kept[k]));
            let j = choose|j: int| 0 <= j < v.balls.len() && v.balls[j] == kept[k];
            if j < i {
                assert(v.balls[j].id < v.balls[i].id);
            } else if i < j {
                assert(v.balls[i].id < v.balls[j].id);
            }
        }
    }
    assert forall|i: int|
        0 <= i < v.balls.len() && !window.excludes(v.balls[i].position) implies after.contains(
        Ball { entered: true, ..#[trigger] v.balls[i] },
    ) by {
        v.balls.lemma_filter_contains(keep, i);
        let k = choose|k: int| 0 <= k < kept.len() && kept[k] == v.balls[i];
        assert(after[k] == Ball { entered: true, ..v.balls[i] });
    }
}

/// Some particle among `balls` has the identity `id`.
pub open spec fn has_ball(balls: Seq<Ball>, id: crate::model::EntityId) -> bool {
    exists|k: int| 0 <= k < balls.len() && (#[trigger] balls[k]).id == id
}

} // verus!
