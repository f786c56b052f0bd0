//! Hover resolution: which shape the pointer is over, which part of it, and
//! how that shows.
//!
//! Of the shapes whose collider holds the pointer only the topmost is
//! hovered; every other shape is not.

use vstd::prelude::*;
use crate::entity_set::{collect_entities, entity_set_contains, entity_set_contents};
use crate::geometry::Vec2;
use crate::hover::{classify, hover_region, HoverPosition, Hoverable};
use crate::model::{Color, EntityId, Mode, Modifying, Shape, HIGHLIGHT_ALPHA};
use super::{Sandbox, SandboxView};

verus! {

/// The shape has a collider and the physics reported it under the pointer.
pub open spec fn is_hit(shape: Shape, hits: Set<EntityId>) -> bool {
    shape.collider is Some && hits.contains(shape.id)
}

/// The place of the topmost shape under the pointer: of the shapes that are
/// hit, the one with the highest stacking order.
pub open spec fn topmost_hit(shapes: Seq<Shape>, hits: Set<EntityId>) -> Option<int>
    decreases shapes.len(),
{
    if shapes.len() == 0 {
        None
    } else {
        let below = topmost_hit(shapes.drop_last(), hits);
        let last = shapes.len() - 1;
        if is_hit(shapes[last], hits) && (below matches Some(b) ==> shapes[b].z < shapes[last].z) {
            Some(last)
        } else {
            below
        }
    }
}

/// A shape after hover resolution. The topmost shape under the pointer
/// learns which of its parts the pointer is over; every other shape is not
/// hovered.
pub open spec fn hover_resolved(shape: Shape, on_top: bool, mouse: Vec2) -> Shape {
    if on_top {
        Shape {
            hoverable: Hoverable { position: Some(hover_region(shape.transform, mouse)) },
            ..shape
        }
    } else {
        Shape { hoverable: Hoverable { position: None }, ..shape }
    }
}

/// The shapes after hover resolution.
pub open spec fn hovers_resolved(shapes: Seq<Shape>, hits: Set<EntityId>, mouse: Vec2) -> Seq<
    Shape,
> {
    Seq::new(
        shapes.len(),
        |k: int| hover_resolved(shapes[k], topmost_hit(shapes, hits) == Some(k), mouse),
    )
}

/// The topmost hit is a shape that is hit, and no shape that is hit lies
/// above it; there is none exactly when no shape is hit.
pub proof fn lemma_topmost_hit(shapes: Seq<Shape>, hits: Set<EntityId>)
    ensures
        match topmost_hit(shapes, hits) {
            Some(t) => {
                &&& 0 <= t < shapes.len()
                &&& is_hit(shapes[t], hits)
                &&& forall|j: int|
                    0 <= j < shapes.len() && is_hit(#[trigger] shapes[j], hits) ==> shapes[j].z
                        <= shapes[t].z
            },
            None => forall|j: int| 0 <= j < shapes.len() ==> !is_hit(#[trigger] shapes[j], hits),
        },
    decreases shapes.len(),
{
    if shapes.len() > 0 {
        let front = shapes.drop_last();
        lemma_topmost_hit(front, hits);
        let last = shapes.len() - 1;
        match topmost_hit(shapes, hits) {
            Some(t) => {
                assert forall|j: int|
                    0 <= j < shapes.len() && is_hit(#[trigger] shapes[j], hits) implies shapes[j].z
                    <= shapes[t].z by {
                    if j < last {
                        assert(front[j] == shapes[j]);
                    }
                }
            },
            None => {
                assert forall|j: int| 0 <= j < shapes.len() implies !is_hit(
                    #[trigger] shapes[j],
                    hits,
                ) by {
                    if j < last {
                        assert(front[j] == shapes[j]);
                    }
                }
            },
        }
    }
}

/// Hover resolver. `hits` are the entities whose collider holds the
/// pointer, as the physics reports them.
pub fn set_hover(sandbox: &mut Sandbox, hits: &Vec<EntityId>)
    requires
        old(sandbox).wf(),
    ensures
        final(sandbox).wf(),
        final(sandbox)@ == old(sandbox)@.with_shapes(
            hovers_resolved(old(sandbox)@.shapes, hits@.to_set(), old(sandbox)@.mouse),
        ),
{
    let entities = collect_entities(hits);
    let ghost hit_set = hits@.to_set();
    let mouse = sandbox.mouse;
    // The shape with the highest stacking order among those hit.
    let mut highest: Option<usize> = None;
    let mut highest_z: u64 = 0;
    let mut i: usize = 0;
    while i < sandbox.shapes.len()
        invariant
            i <= sandbox.shapes.len(),
            sandbox@ == old(sandbox)@,
            entity_set_contents(entities) == hit_set,
            match highest {
                Some(t) => topmost_hit(sandbox.shapes@.take(i as int), hit_set) == Some(t as int)
                    && t < i && highest_z == sandbox.shapes@[t as int].z,
                None => topmost_hit(sandbox.shapes@.take(i as int), hit_set) is None,
            },
        decreases sandbox.shapes.len() - i,
    {
        let shape = sandbox.shapes[i];
        proof {
            assert(sandbox.shapes@.take(i + 1).drop_last() =~= sandbox.shapes@.take(i as int));
        }
        if shape.collider.is_some() && entity_set_contains(&entities, shape.id) {
            if highest.is_none() || shape.z > highest_z {
                highest_z = shape.z;
                highest = Some(i);
            }
        }
        i = i + 1;
    }
    let ghost before = sandbox.shapes@;
    proof {
        assert(before.take(before.len() as int) =~= before);
        lemma_topmost_hit(before, hit_set);
    }
    let mut k: usize = 0;
    while k < sandbox.shapes.len()
        invariant
            old(sandbox).wf(),
            before == old(sandbox)@.shapes,
            mouse == old(sandbox)@.mouse,
            k <= sandbox.shapes.len(),
            sandbox.shapes@.len() == before.len(),
            sandbox@ == old(sandbox)@.with_shapes(sandbox.shapes@),
            match highest {
                Some(t) => topmost_hit(before, hit_set) == Some(t as int),
                None => topmost_hit(before, hit_set) is None,
            },
            forall|j: int|
                0 <= j < before.len() ==> #[trigger] sandbox.shapes@[j] == if j < k {
                    hover_resolved(before[j], topmost_hit(before, hit_set) == Some(j), mouse)
                } else {
                    before[j]
                },
        decreases sandbox.shapes.len() - k,
    {
        let shape = sandbox.shapes[k];
        let on_top = match highest {
            Some(t) => t == k,
            None => false,
        };
        if on_top {
            let region = classify(&shape.transform, mouse);
            sandbox.shapes[k].hoverable = Hoverable { position: Some(region) };
        } else {
            sandbox.shapes[k].hoverable = Hoverable { position: None };
        }
        k = k + 1;
    }
    proof {
        let target = hovers_resolved(before, hit_set, mouse);
        assert(sandbox.shapes@ =~= target);
        lemma_hovers_resolved_wf(old(sandbox)@, hit_set);
    }
}

/// Hover resolution keeps the sandbox well formed.
pub proof fn lemma_hovers_resolved_wf(v: SandboxView, hits: Set<EntityId>)
    requires
        v.wf(),
    ensures
        v.with_shapes(hovers_resolved(v.shapes, hits, v.mouse)).wf(),
{
    lemma_topmost_hit(v.shapes, hits);
}

/// The shape of the pointer on the screen.
#[derive(Clone, Copy, Debug, PartialEq, Eq, Structural)]
pub enum CursorIcon {
    Grab,
    Grabbing,
    ResizeVertical,
    ResizeSouthEast,
}

/// The colour in which a shape is to be drawn.
#[derive(Clone, Copy, Debug, PartialEq, Eq, Structural)]
pub struct Appearance {
    pub entity: EntityId,
    pub color: Color,
}

/// How the shapes and the pointer are to be shown.
#[derive(Debug)]
pub struct Highlights {
    /// One entry for each shape, in the order of the shapes.
    pub appearances: Vec<Appearance>,
    /// The icon to give the pointer, where a shape asks for one.
    pub cursor: Option<CursorIcon>,
}

/// The icon that a shape asks for. In `Default` mode the hovered shape shows
/// what a click on it would begin; in `Modify` mode a shape that is moved or
/// rotated shows that. A shape that asks for an icon is highlighted.
pub open spec fn cursor_for(mode: Mode, shape: Shape) -> Option<CursorIcon> {
    match mode {
        Mode::Default => match shape.hoverable.position {
            Some(HoverPosition::Center) => Some(CursorIcon::Grab),
            Some(HoverPosition::Edge) => Some(CursorIcon::ResizeVertical),
            Some(HoverPosition::Corner) => Some(CursorIcon::ResizeSouthEast),
            None => None,
        },
        Mode::Modify => match shape.modifying {
            Some(Modifying::Moving { .. }) => Some(CursorIcon::Grabbing),
            Some(Modifying::Rotating { .. }) => Some(CursorIcon::ResizeVertical),
            _ => None,
        },
        Mode::Create => None,
    }
}

/// How a shape is to be drawn: slightly transparent where it is highlighted,
/// in its own colour where it is not.
pub open spec fn appearance_of(mode: Mode, shape: Shape) -> Appearance {
    Appearance {
        entity: shape.id,
        color: if cursor_for(mode, shape) is Some {
            shape.base_color().with_alpha(HIGHLIGHT_ALPHA)
        } else {
            shape.base_color()
        },
    }
}

/// The icon that the pointer ends up with: that of the last shape that asks
/// for one.
pub open spec fn cursor_shown(mode: Mode, shapes: Seq<Shape>) -> Option<CursorIcon>
    decreases shapes.len(),
{
    if shapes.len() == 0 {
        None
    } else {
        match cursor_for(mode, shapes.last()) {
            Some(icon) => Some(icon),
            None => cursor_shown(mode, shapes.drop_last()),
        }
    }
}

fn cursor_of(mode: Mode, shape: &Shape) -> (icon: Option<CursorIcon>)
    ensures
        icon == cursor_for(mode, *shape),
{
    match mode {
        Mode::Default => match shape.hoverable.position {
            Some(HoverPosition::Center) => Some(CursorIcon::Grab),
            Some(HoverPosition::Edge) => Some(CursorIcon::ResizeVertical),
            Some(HoverPosition::Corner) => Some(CursorIcon::ResizeSouthEast),
            None => None,
        },
        Mode::Modify => match shape.modifying {
            Some(Modifying::Moving { .. }) => Some(CursorIcon::Grabbing),
            Some(Modifying::Rotating { .. }) => Some(CursorIcon::ResizeVertical),
            _ => None,
        },
        Mode::Create => None,
    }
}

/// Decides how every shape is drawn and which icon the pointer gets.
pub fn highlight_hover(sandbox: &Sandbox) -> (shown: Highlights)
    ensures
        shown.appearances@ == sandbox@.shapes.map_values(
            |s: Shape| appearance_of(sandbox@.mode, s),
        ),
        shown.cursor == cursor_shown(sandbox@.mode, sandbox@.shapes),
{
    let mode = sandbox.mode;
    let mut appearances: Vec<Appearance> = Vec::new();
    let mut cursor: Option<CursorIcon> = None;
    let mut i: usize = 0;
    while i < sandbox.shapes.len()
        invariant
            i <= sandbox.shapes.len(),
            mode == sandbox@.mode,
            appearances@.len() == i,
            forall|k: int|
                0 <= k < i ==> #[trigger] appearances@[k] == appearance_of(
                    mode,
                    sandbox.shapes@[k],
                ),
            cursor == cursor_shown(mode, sandbox.shapes@.take(i as int)),
        decreases sandbox.shapes.len() - i,
    {
        let shape = sandbox.shapes[i];
        proof {
            assert(sandbox.shapes@.take(i + 1).drop_last() =~= sandbox.shapes@.take(i as int));
        }
        let base = match shape.original_color {
            Some(c) => c,
            None => Color { red: 1000, green: 1000, blue: 1000, alpha: 1000 },
        };
        let icon = cursor_of(mode, &shape);
        let color = match icon {
            Some(wanted) => {
                cursor = Some(wanted);
                Color { red: base.red, green: base.green, blue: base.blue, alpha: HIGHLIGHT_ALPHA }
            },
            None => base,
        };
        appearances.push(Appearance { entity: shape.id, color });
        i = i + 1;
    }
    proof {
        assert(sandbox.shapes@.take(sandbox.shapes@.len() as int) =~= sandbox.shapes@);
    }
    Highlights { appearances, cursor }
}

} // verus!
