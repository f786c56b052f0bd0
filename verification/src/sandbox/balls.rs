//! Particles: where a new one appears, and the sweep that removes whatever
//! has left the world.

use vstd::prelude::*;
use crate::geometry::{halve, lemma_product_bound, thousandth, thousandth_of, Vec2, UNIT};
use crate::model::{Ball, Color, EntityId, Resolution, SPAWN_HEIGHT};
use super::{lemma_ball_selection_wf, Sandbox, SandboxView};

verus! {

/// Where a particle appears: above the upper edge of the window, at the
/// fraction `offset` of the window's width, counted in thousandths from the
/// left edge of a window that is centred on the origin. Where that place
/// falls between two sub-units, the one nearer to the middle is taken.
pub open spec fn spawn_position(window: Resolution, offset: i64) -> Vec2 {
    Vec2 {
        x: thousandth(window.width * (offset - UNIT / 2)) as i64,
        y: (window.height / 2 + SPAWN_HEIGHT) as i64,
    }
}

/// The sweep removes the particle: it has left the bounds, that is, it has
/// been inside them and is outside now; or it is beyond the window's full
/// size, where nothing is kept. A particle that is still on its way into the
/// bounds is left alone.
pub open spec fn ball_goes(window: Resolution, ball: Ball) -> bool {
    window.excludes(ball.position) && (ball.entered || window.is_beyond(ball.position))
}

/// A particle that the sweep leaves, with a note of whether it is inside
/// the bounds now.
pub open spec fn ball_seen(window: Resolution, ball: Ball) -> Ball {
    Ball { entered: !window.excludes(ball.position), ..ball }
}

impl SandboxView {
    /// A particle can be spawned: there is a window of a size that the world
    /// can hold, the offset is a fraction, and the identities have not run
    /// out.
    pub open spec fn can_spawn_ball(self, window: Option<Resolution>, offset: i64) -> bool {
        &&& window matches Some(w) && w.wf()
        &&& 0 <= offset < UNIT
        &&& self.next_id < u64::MAX
    }

    /// The sandbox after a particle was spawned.
    pub open spec fn ball_spawned(self, window: Resolution, offset: i64, color: Color)
        -> SandboxView {
        SandboxView {
            balls: self.balls.push(
                Ball {
                    id: self.next_id,
                    position: spawn_position(window, offset),
                    color,
                    entered: false,
                },
            ),
            next_id: (self.next_id + 1) as u64,
            ..self
        }
    }

    /// The sandbox after the sweep: the particles that do not go are left,
    /// each with a note of whether it is inside the bounds. Shapes are not
    /// swept; they go by cancellation only.
    pub open spec fn swept(self, window: Resolution) -> SandboxView {
        SandboxView {
            balls: self.balls.filter(|b: Ball| !ball_goes(window, b)).map_values(
                |b: Ball| ball_seen(window, b),
            ),
            ..self
        }
    }

    /// The identities that the sweep removes: those of the particles that
    /// go.
    pub open spec fn swept_away(self, window: Resolution) -> Seq<EntityId> {
        self.balls.filter(|b: Ball| ball_goes(window, b)).map_values(|b: Ball| b.id)
    }
}

/// In a window that is at least two hundred units high a new particle is
/// outside the bounds and within the window's full size: the sweep leaves it
/// alone until it has come in.
pub proof fn lemma_new_ball_stays(window: Resolution, offset: i64, id: EntityId, color: Color)
    requires
        window.wf(),
        window.height >= 2 * SPAWN_HEIGHT,
        0 <= offset < UNIT,
    ensures
        !ball_goes(
            window,
            Ball { id, position: spawn_position(window, offset), color, entered: false },
        ),
{
    lemma_product_bound(window.width as int, offset - UNIT / 2, window.width as int, 500);
}

/// Leaving out the particles that go and noting of the others whether they
/// are inside keeps the sandbox well formed.
pub proof fn lemma_swept_wf(v: SandboxView, window: Resolution)
    requires
        v.wf(),
    ensures
        v.swept(window).wf(),
{
    let keep = |b: Ball| !ball_goes(window, b);
    lemma_ball_selection_wf(v, keep);
}

/// Spawns a particle of the given colour above the window. `offset` says
/// where along the window's width, in thousandths. Returns the particle's
/// identity; without a window nothing is spawned.
pub fn spawn_balls(
    sandbox: &mut Sandbox,
    window: Option<Resolution>,
    offset: i64,
    color: Color,
) -> (spawned: Option<EntityId>)
    requires
        old(sandbox).wf(),
    ensures
        final(sandbox).wf(),
        match spawned {
            Some(id) => {
                &&& old(sandbox)@.can_spawn_ball(window, offset)
                &&& id == old(sandbox)@.next_id
                &&& final(sandbox)@ == old(sandbox)@.ball_spawned(window->0, offset, color)
            },
            None => {
                &&& !old(sandbox)@.can_spawn_ball(window, offset)
                &&& final(sandbox)@ == old(sandbox)@
            },
        },
{
    let resolution = match window {
        Some(w) => w,
        None => {
            return None;
        },
    };
    if !(0 <= resolution.width && resolution.width <= crate::geometry::WORLD_LIMIT && 0
        <= resolution.height && resolution.height <= crate::geometry::WORLD_LIMIT) {
        return None;
    }
    if !(0 <= offset && offset < UNIT) || sandbox.next_id == u64::MAX {
        return None;
    }
    proof {
        lemma_product_bound(resolution.width as int, offset - UNIT / 2, 100_000_000, 500);
    }
    let position = Vec2 {
        x: thousandth_of(resolution.width * (offset - UNIT / 2)),
        y: halve(resolution.height) + SPAWN_HEIGHT,
    };
    let id = sandbox.next_id;
    sandbox.balls.push(Ball { id, position, color, entered: false });
    sandbox.next_id = sandbox.next_id + 1;
    Some(id)
}

/// Whether `position` lies outside the bounds.
pub fn is_outside(window: &Resolution, position: Vec2) -> (outside: bool)
    ensures
        outside == window.excludes(position),
{
    let x: i128 = 2 * (position.x as i128);
    let y: i128 = 2 * (position.y as i128);
    let width: i128 = window.width as i128;
    let height: i128 = window.height as i128;
    x < -width || x > width || y < -height || y > height
}

/// Whether `position` lies beyond the window's full size.
pub fn is_beyond(window: &Resolution, position: Vec2) -> (beyond: bool)
    ensures
        beyond == window.is_beyond(position),
{
    let x: i128 = position.x as i128;
    let y: i128 = position.y as i128;
    let width: i128 = window.width as i128;
    let height: i128 = window.height as i128;
    x < -width || x > width || y < -height || y > height
}

/// The bounds check. The bounds reach half the window's width to either
/// side of the origin and half its height above and below it. A particle is
/// removed once it has left them: it was inside at an earlier check and is
/// outside now. A particle that has not been inside yet, as a new one that
/// appears above the window, is left to come in, unless it is beyond the
/// window's full size, where every particle is removed. Returns the
/// identities of the particles that were removed; without a window nothing
/// is removed.
pub fn despawn_outside_world(sandbox: &mut Sandbox, window: Option<Resolution>) -> (despawned: Vec<
    EntityId,
>)
    requires
        old(sandbox).wf(),
    ensures
        final(sandbox).wf(),
        match window {
            Some(w) => final(sandbox)@ == old(sandbox)@.swept(w) && despawned@ == old(
                sandbox,
            )@.swept_away(w),
            None => final(sandbox)@ == old(sandbox)@ && despawned@.len() == 0,
        },
{
    let mut despawned: Vec<EntityId> = Vec::new();
    let resolution = match window {
        Some(w) => w,
        None => {
            return despawned;
        },
    };
    let ghost keep = |b: Ball| !ball_goes(resolution, b);
    let ghost gone = |b: Ball| ball_goes(resolution, b);
    let ghost seen = |b: Ball| ball_seen(resolution, b);
    let ghost id_of = |b: Ball| b.id;
    let mut balls: Vec<Ball> = Vec::new();
    let mut k: usize = 0;
    while k < sandbox.balls.len()
        invariant
            k <= sandbox.balls.len(),
            sandbox@ == old(sandbox)@,
            keep == |b: Ball| !ball_goes(resolution, b),
            gone == |b: Ball| ball_goes(resolution, b),
            seen == |b: Ball| ball_seen(resolution, b),
            id_of == |b: Ball| b.id,
            balls@ == sandbox.balls@.take(k as int).filter(keep).map_values(seen),
            despawned@ == sandbox.balls@.take(k as int).filter(gone).map_values(id_of),
        decreases sandbox.balls.len() - k,
    {
        let ball = sandbox.balls[k];
        proof {
            reveal(Seq::filter);
            assert(sandbox.balls@.take(k + 1).drop_last() =~= sandbox.balls@.take(k as int));
        }
        let outside = is_outside(&resolution, ball.position);
        if outside && (ball.entered || is_beyond(&resolution, ball.position)) {
            despawned.push(ball.id);
        } else {
            balls.push(
                Ball { id: ball.id, position: ball.position, color: ball.color, entered: !outside },
            );
        }
        k = k + 1;
    }
    proof {
        let v = old(sandbox)@;
        assert(v.balls.take(v.balls.len() as int) =~= v.balls);
        lemma_swept_wf(v, resolution);
    }
    sandbox.balls = balls;
    despawned
}

} // verus!
