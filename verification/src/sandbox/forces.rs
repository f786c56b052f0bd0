//! Force fields. Every tick each particle is first relieved of any force;
//! then each force field pushes whatever its collider touches.
//!
//! Which entities a field touches is for the physics to say, and the field's
//! force arrives here already turned by the field's rotation.

use vstd::prelude::*;
use crate::model::EntityId;
use crate::geometry::Vec2;
use crate::model::{Ball, Shape};
use super::{Sandbox, SandboxView};

verus! {

/// A force to set on an entity.
#[derive(Clone, Copy, Debug, PartialEq, Eq, Structural)]
pub struct ExternalForce {
    pub entity: EntityId,
    pub force: Vec2,
}

/// What a force field touches, with its force in the world's frame.
#[derive(Debug)]
pub struct FieldHits {
    pub force: Vec2,
    pub hits: Vec<EntityId>,
}

/// The shape is a force field with its collider on.
pub open spec fn is_force_field(shape: Shape) -> bool {
    shape.solid is ForceField && shape.collider is Some
}

/// Every particle is relieved of any force.
pub open spec fn forces_reset(balls: Seq<Ball>) -> Seq<ExternalForce> {
    balls.map_values(|b: Ball| ExternalForce { entity: b.id, force: Vec2::origin() })
}

/// The forces that the fields set, field after field; within a field in
/// the order in which the physics reported what it touches. An identity that
/// no entity has is passed over.
pub open spec fn field_forces(v: SandboxView, fields: Seq<FieldHits>) -> Seq<ExternalForce>
    decreases fields.len(),
{
    if fields.len() == 0 {
        Seq::empty()
    } else {
        field_forces(v, fields.drop_last()) + forces_of_field(
            v,
            fields.last().force,
            fields.last().hits@,
        )
    }
}

/// The forces that one field sets.
pub open spec fn forces_of_field(v: SandboxView, force: Vec2, hits: Seq<EntityId>) -> Seq<
    ExternalForce,
>
    decreases hits.len(),
{
    if hits.len() == 0 {
        Seq::empty()
    } else {
        let before = forces_of_field(v, force, hits.drop_last());
        if v.has_entity(hits.last()) {
            before.push(ExternalForce { entity: hits.last(), force })
        } else {
            before
        }
    }
}

/// Whether some shape or particle has the identity `id`.
pub fn has_entity(sandbox: &Sandbox, id: EntityId) -> (found: bool)
    ensures
        found == sandbox@.has_entity(id),
{
    if sandbox.find_shape(id).is_some() {
        return true;
    }
    let mut i: usize = 0;
    while i < sandbox.balls.len()
        invariant
            i <= sandbox.balls.len(),
            forall|k: int| 0 <= k < i ==> (#[trigger] sandbox.balls@[k]).id != id,
        decreases sandbox.balls.len() - i,
    {
        if sandbox.balls[i].id == id {
            assert(sandbox@.balls[i as int].id == id);
            return true;
        }
        i = i + 1;
    }
    false
}

/// The force fields that have their collider on, in the order of the shapes.
pub fn force_fields(sandbox: &Sandbox) -> (fields: Vec<Shape>)
    ensures
        fields@ == sandbox@.shapes.filter(|s: Shape| is_force_field(s)),
{
    let mut fields: Vec<Shape> = Vec::new();
    let ghost keep = |s: Shape| is_force_field(s);
    let mut i: usize = 0;
    while i < sandbox.shapes.len()
        invariant
            i <= sandbox.shapes.len(),
            keep == |s: Shape| is_force_field(s),
            fields@ == sandbox.shapes@.take(i as int).filter(keep),
        decreases sandbox.shapes.len() - i,
    {
        let shape = sandbox.shapes[i];
        proof {
            reveal(Seq::filter);
            assert(sandbox.shapes@.take(i + 1).drop_last() =~= sandbox.shapes@.take(i as int));
        }
        let is_field = match shape.solid {
            crate::model::Solid::ForceField { .. } => shape.collider.is_some(),
            crate::model::Solid::Box => false,
        };
        if is_field {
            fields.push(shape);
        }
        i = i + 1;
    }
    proof {
        assert(sandbox.shapes@.take(sandbox.shapes@.len() as int) =~= sandbox.shapes@);
    }
    fields
}

/// The forces to set on this tick, in the order in which they are to be
/// set: a later force on an entity replaces an earlier one.
pub fn apply_force_field(sandbox: &Sandbox, fields: &Vec<FieldHits>) -> (forces: Vec<ExternalForce>)
    ensures
        forces@ == forces_reset(sandbox@.balls) + field_forces(sandbox@, fields@),
{
    let mut forces: Vec<ExternalForce> = Vec::new();
    let mut b: usize = 0;
    while b < sandbox.balls.len()
        invariant
            b <= sandbox.balls.len(),
            forces@ == forces_reset(sandbox.balls@.take(b as int)),
        decreases sandbox.balls.len() - b,
    {
        forces.push(ExternalForce { entity: sandbox.balls[b].id, force: Vec2 { x: 0, y: 0 } });
        b = b + 1;
    }
    let ghost reset = forces@;
    let mut f: usize = 0;
    while f < fields.len()
        invariant
            f <= fields.len(),
            reset == forces_reset(sandbox@.balls),
            forces@ == reset + field_forces(sandbox@, fields@.take(f as int)),
        decreases fields.len() - f,
    {
        let field = &fields[f];
        let ghost done = forces@;
        proof {
            assert(fields@.take(f + 1).drop_last() =~= fields@.take(f as int));
        }
        let mut h: usize = 0;
        while h < field.hits.len()
            invariant
                h <= field.hits.len(),
                forces@ == done + forces_of_field(sandbox@, field.force, field.hits@.take(h as int)),
            decreases field.hits.len() - h,
        {
            let entity = field.hits[h];
            proof {
                assert(field.hits@.take(h + 1).drop_last() =~= field.hits@.take(h as int));
            }
            if has_entity(sandbox, entity) {
                forces.push(ExternalForce { entity, force: field.force });
            }
            h = h + 1;
        }
        proof {
            assert(field.hits@.take(field.hits@.len() as int) =~= field.hits@);
        }
        f = f + 1;
    }
    proof {
        assert(fields@.take(fields@.len() as int) =~= fields@);
    }
    forces
}

} // verus!
