//! The simulation context: the interaction mode, the pointer, the shapes and
//! particles, and the two event queues.
//!
//! The context is passed explicitly to every system. Its fields are private:
//! a value of it can only be made by `Sandbox::new` and changed by the
//! systems, and each of them keeps it well formed.

use vstd::prelude::*;
use crate::model::EntityId;
use crate::geometry::Vec2;
use crate::model::{Ball, CommandEvent, Mode, Modifying, PointerFallback, Shape, Tool, ToolEvent};

pub mod balls;
pub mod events;
pub mod forces;
pub mod input;
pub mod pointer;
pub mod resolver;
pub mod ui;

verus! {

/// The simulation context.
#[derive(Debug)]
pub struct Sandbox {
    mode: Mode,
    mouse: Vec2,
    fallback: PointerFallback,
    z_counter: u64,
    next_id: EntityId,
    shapes: Vec<Shape>,
    balls: Vec<Ball>,
    tool_events: Vec<ToolEvent>,
    command_events: Vec<CommandEvent>,
}

/// What a `Sandbox` holds, as mathematical values.
pub ghost struct SandboxView {
    pub mode: Mode,
    /// The pointer, in world coordinates.
    pub mouse: Vec2,
    pub fallback: PointerFallback,
    /// The stacking order that the next shape gets.
    pub z_counter: u64,
    /// The identity that the next entity gets.
    pub next_id: EntityId,
    /// The shapes, oldest first.
    pub shapes: Seq<Shape>,
    /// The particles, oldest first.
    pub balls: Seq<Ball>,
    /// Tool activations that have not been handled yet.
    pub tool_events: Seq<ToolEvent>,
    /// Commands that have not been handled yet.
    pub command_events: Seq<CommandEvent>,
}

/// What a shape may carry while the sandbox is in `mode`: nothing in
/// `Default`, at most `Placing` in `Create`, anything in `Modify`.
pub open spec fn mode_admits(mode: Mode, modifying: Option<Modifying>) -> bool {
    match mode {
        Mode::Default => modifying is None,
        Mode::Create => modifying is None || modifying == Some(Modifying::Placing),
        Mode::Modify => true,
    }
}

/// Every shape is well formed by itself.
pub open spec fn shapes_wf(shapes: Seq<Shape>) -> bool {
    forall|i: int| 0 <= i < shapes.len() ==> (#[trigger] shapes[i]).wf()
}

/// Identities and stacking orders grow along the sequence, so no two shapes
/// share either.
pub open spec fn shapes_ordered(shapes: Seq<Shape>) -> bool {
    forall|i: int, j: int|
        0 <= i < j < shapes.len() ==> (#[trigger] shapes[i]).id < (#[trigger] shapes[j]).id
            && shapes[i].z < shapes[j].z
}

/// Every identity and stacking order in use is below the counters.
pub open spec fn shapes_below(shapes: Seq<Shape>, next_id: EntityId, z_counter: u64) -> bool {
    forall|i: int|
        0 <= i < shapes.len() ==> (#[trigger] shapes[i]).id < next_id && shapes[i].z < z_counter
}

/// At most one shape is being placed.
pub open spec fn at_most_one_placing(shapes: Seq<Shape>) -> bool {
    forall|i: int, j: int|
        0 <= i < shapes.len() && 0 <= j < shapes.len() && (#[trigger] shapes[i]).modifying == Some(
            Modifying::Placing,
        ) && (#[trigger] shapes[j]).modifying == Some(Modifying::Placing) ==> i == j
}

/// At most one shape is hovered.
pub open spec fn at_most_one_hovered(shapes: Seq<Shape>) -> bool {
    forall|i: int, j: int|
        0 <= i < shapes.len() && 0 <= j < shapes.len() && (
        #[trigger] shapes[i]).hoverable.position is Some && (
        #[trigger] shapes[j]).hoverable.position is Some ==> i == j
}

/// What the shapes carry agrees with the mode.
pub open spec fn mode_agrees(mode: Mode, shapes: Seq<Shape>) -> bool {
    forall|i: int| 0 <= i < shapes.len() ==> mode_admits(mode, (#[trigger] shapes[i]).modifying)
}

/// Identities grow along the sequence of particles and are below the counter.
pub open spec fn balls_ordered(balls: Seq<Ball>, next_id: EntityId) -> bool {
    &&& forall|i: int, j: int|
        0 <= i < j < balls.len() ==> (#[trigger] balls[i]).id < (#[trigger] balls[j]).id
    &&& forall|i: int| 0 <= i < balls.len() ==> (#[trigger] balls[i]).id < next_id
}

/// Every command that waits carries a pointer position inside the world.
pub open spec fn commands_in_world(commands: Seq<CommandEvent>) -> bool {
    forall|i: int| 0 <= i < commands.len() ==> (#[trigger] commands[i]).command.in_world()
}

/// No particle shares its identity with a shape.
pub open spec fn identities_apart(shapes: Seq<Shape>, balls: Seq<Ball>) -> bool {
    forall|i: int, j: int|
        0 <= i < shapes.len() && 0 <= j < balls.len() ==> (#[trigger] shapes[i]).id != (
        #[trigger] balls[j]).id
}

impl SandboxView {
    /// The invariant of the sandbox. Every system keeps it.
    pub open spec fn wf(self) -> bool {
        &&& self.mouse.in_world()
        &&& shapes_wf(self.shapes)
        &&& shapes_ordered(self.shapes)
        &&& shapes_below(self.shapes, self.next_id, self.z_counter)
        &&& at_most_one_placing(self.shapes)
        &&& at_most_one_hovered(self.shapes)
        &&& mode_agrees(self.mode, self.shapes)
        &&& balls_ordered(self.balls, self.next_id)
        &&& identities_apart(self.shapes, self.balls)
        &&& commands_in_world(self.command_events)
    }

    /// The sandbox before anything has happened.
    pub open spec fn initial(fallback: PointerFallback) -> SandboxView {
        SandboxView {
            mode: Mode::Default,
            mouse: Vec2::origin(),
            fallback,
            z_counter: 0,
            next_id: 0,
            shapes: Seq::empty(),
            balls: Seq::empty(),
            tool_events: Seq::empty(),
            command_events: Seq::empty(),
        }
    }

    /// The same sandbox with other shapes.
    pub open spec fn with_shapes(self, shapes: Seq<Shape>) -> SandboxView {
        SandboxView { shapes, ..self }
    }

    /// The place of the shape with identity `id` among the shapes, if there
    /// is such a shape.
    pub open spec fn index_of(self, id: EntityId) -> Option<int> {
        if exists|i: int| 0 <= i < self.shapes.len() && (#[trigger] self.shapes[i]).id == id {
            Some(choose|i: int| 0 <= i < self.shapes.len() && (#[trigger] self.shapes[i]).id == id)
        } else {
            None
        }
    }

    /// Some shape or particle has the identity `id`.
    pub open spec fn has_entity(self, id: EntityId) -> bool {
        ||| exists|i: int| 0 <= i < self.shapes.len() && (#[trigger] self.shapes[i]).id == id
        ||| exists|i: int| 0 <= i < self.balls.len() && (#[trigger] self.balls[i]).id == id
    }
}

impl View for Sandbox {
    type V = SandboxView;

    closed spec fn view(&self) -> SandboxView {
        SandboxView {
            mode: self.mode,
            mouse: self.mouse,
            fallback: self.fallback,
            z_counter: self.z_counter,
            next_id: self.next_id,
            shapes: self.shapes@,
            balls: self.balls@,
            tool_events: self.tool_events@,
            command_events: self.command_events@,
        }
    }
}

impl Sandbox {
    /// The invariant of the sandbox, on its view.
    pub open spec fn wf(&self) -> bool {
        self@.wf()
    }

    /// An empty sandbox in `Default` mode, whose pointer snaps to the origin
    /// when the cursor is away.
    pub fn new() -> (sandbox: Sandbox)
        ensures
            sandbox@ == SandboxView::initial(PointerFallback::Origin),
            sandbox.wf(),
    {
        Sandbox::with_pointer_fallback(PointerFallback::Origin)
    }

    /// An empty sandbox in `Default` mode.
    pub fn with_pointer_fallback(fallback: PointerFallback) -> (sandbox: Sandbox)
        ensures
            sandbox@ == SandboxView::initial(fallback),
            sandbox.wf(),
    {
        Sandbox {
            mode: Mode::Default,
            mouse: Vec2 { x: 0, y: 0 },
            fallback,
            z_counter: 0,
            next_id: 0,
            shapes: Vec::new(),
            balls: Vec::new(),
            tool_events: Vec::new(),
            command_events: Vec::new(),
        }
    }

    pub fn mode(&self) -> (mode: Mode)
        ensures
            mode == self@.mode,
    {
        self.mode
    }

    pub fn mouse(&self) -> (mouse: Vec2)
        ensures
            mouse == self@.mouse,
    {
        self.mouse
    }

    pub fn z_counter(&self) -> (z: u64)
        ensures
            z == self@.z_counter,
    {
        self.z_counter
    }

    pub fn shapes(&self) -> (shapes: &Vec<Shape>)
        ensures
            shapes@ == self@.shapes,
    {
        &self.shapes
    }

    pub fn balls(&self) -> (balls: &Vec<Ball>)
        ensures
            balls@ == self@.balls,
    {
        &self.balls
    }

    pub fn tool_events(&self) -> (events: &Vec<ToolEvent>)
        ensures
            events@ == self@.tool_events,
    {
        &self.tool_events
    }

    pub fn command_events(&self) -> (events: &Vec<CommandEvent>)
        ensures
            events@ == self@.command_events,
    {
        &self.command_events
    }

    /// The place of the shape with identity `id` among the shapes.
    pub fn find_shape(&self, id: EntityId) -> (found: Option<usize>)
        ensures
            match found {
                Some(i) => i < self@.shapes.len() && self@.shapes[i as int].id == id,
                None => forall|i: int|
                    0 <= i < self@.shapes.len() ==> (#[trigger] self@.shapes[i]).id != id,
            },
    {
        let mut i: usize = 0;
        while i < self.shapes.len()
            invariant
                i <= self.shapes.len(),
                forall|k: int| 0 <= k < i ==> (#[trigger] self.shapes@[k]).id != id,
            decreases self.shapes.len() - i,
        {
            if self.shapes[i].id == id {
                return Some(i);
            }
            i = i + 1;
        }
        None
    }

    /// The shape with identity `id`.
    pub fn shape(&self, id: EntityId) -> (shape: Option<Shape>)
        ensures
            match shape {
                Some(s) => s.id == id && self@.shapes.contains(s),
                None => forall|i: int|
                    0 <= i < self@.shapes.len() ==> (#[trigger] self@.shapes[i]).id != id,
            },
    {
        match self.find_shape(id) {
            Some(i) => Some(self.shapes[i]),
            None => None,
        }
    }

    /// Puts a tool activation into the queue, as a key press or a button of
    /// the user interface does.
    pub fn send_tool_event(&mut self, tool: Tool)
        ensures
            final(self)@ == (SandboxView {
                tool_events: old(self)@.tool_events.push(ToolEvent { tool }),
                ..old(self)@
            }),
    {
        self.tool_events.push(ToolEvent { tool });
    }

    /// Takes over where the physics has carried a shape to. A position
    /// outside the world, or an identity that no shape has, changes nothing.
    pub fn set_translation(&mut self, id: EntityId, translation: Vec2)
        requires
            old(self).wf(),
        ensures
            final(self).wf(),
            final(self)@ == match old(self)@.index_of(id) {
                Some(i) if translation.in_world() => old(self)@.with_shapes(
                    old(self)@.shapes.update(i, old(self)@.shapes[i].moved_to(translation)),
                ),
                _ => old(self)@,
            },
    {
        if !translation.is_in_world() {
            return ;
        }
        match self.find_shape(id) {
            Some(i) => {
                proof {
                    lemma_index_of(self@, id, i as int);
                }
                self.shapes[i].transform.translation = translation;
            },
            None => {},
        }
    }

    /// Takes over where the physics has carried a particle to. An identity
    /// that no particle has changes nothing.
    pub fn set_ball_position(&mut self, id: EntityId, position: Vec2)
        requires
            old(self).wf(),
        ensures
            final(self).wf(),
            final(self)@.balls.len() == old(self)@.balls.len(),
            forall|i: int|
                0 <= i < old(self)@.balls.len() ==> #[trigger] final(self)@.balls[i] == if old(
                    self,
                )@.balls[i].id == id {
                    Ball { position, ..old(self)@.balls[i] }
                } else {
                    old(self)@.balls[i]
                },
            final(self)@ == (SandboxView { balls: final(self)@.balls, ..old(self)@ }),
    {
        let mut i: usize = 0;
        while i < self.balls.len()
            invariant
                i <= self.balls.len(),
                self.balls@.len() == old(self)@.balls.len(),
                self@ == (SandboxView { balls: self@.balls, ..old(self)@ }),
                forall|k: int|
                    0 <= k < self.balls@.len() ==> #[trigger] self.balls@[k] == if k < i && old(
                        self,
                    )@.balls[k].id == id {
                        Ball { position, ..old(self)@.balls[k] }
                    } else {
                        old(self)@.balls[k]
                    },
            decreases self.balls.len() - i,
        {
            if self.balls[i].id == id {
                self.balls[i].position = position;
            }
            i = i + 1;
        }
    }
}

impl Shape {
    /// The same shape at another place.
    pub open spec fn moved_to(self, translation: Vec2) -> Shape {
        Shape {
            transform: crate::geometry::Transform { translation, ..self.transform },
            ..self
        }
    }
}

/// Where identities are not shared, the place of a shape is the place at
/// which its identity is found.
pub proof fn lemma_index_of(v: SandboxView, id: EntityId, i: int)
    requires
        shapes_ordered(v.shapes),
        0 <= i < v.shapes.len(),
        v.shapes[i].id == id,
    ensures
        v.index_of(id) == Some(i),
{
}

/// Replacing each shape by one that is well formed, agrees with it in
/// identity, stacking order and hover state, is being placed only where the
/// old one was, and carries what `mode` admits, keeps the sandbox well formed
/// in that mode.
pub proof fn lemma_reshaped_wf(v: SandboxView, mode: Mode, shapes: Seq<Shape>)
    requires
        v.wf(),
        shapes.len() == v.shapes.len(),
        forall|i: int|
            0 <= i < shapes.len() ==> {
                &&& (#[trigger] shapes[i]).wf()
                &&& shapes[i].id == v.shapes[i].id
                &&& shapes[i].z == v.shapes[i].z
                &&& shapes[i].hoverable == v.shapes[i].hoverable
                &&& shapes[i].modifying == Some(Modifying::Placing) ==> v.shapes[i].modifying
                    == Some(Modifying::Placing)
                &&& mode_admits(mode, shapes[i].modifying)
            },
    ensures
        (SandboxView { mode, shapes, ..v }).wf(),
{
}

/// Every shape that a selection keeps is one of the shapes and is kept for
/// a reason, and the selection is in the order of the shapes.
pub proof fn lemma_selection(shapes: Seq<Shape>, keep: spec_fn(Shape) -> bool)
    requires
        shapes_ordered(shapes),
    ensures
        shapes_ordered(shapes.filter(keep)),
        forall|k: int|
            0 <= k < shapes.filter(keep).len() ==> keep(#[trigger] shapes.filter(keep)[k])
                && shapes.contains(shapes.filter(keep)[k]),
    decreases shapes.len(),
{
    reveal(Seq::filter);
    if shapes.len() > 0 {
        lemma_selection(shapes.drop_last(), keep);
    }
}

/// Every particle that a selection keeps is one of the particles and is kept
/// for a reason, and the selection is in the order of the particles.
pub proof fn lemma_ball_selection(balls: Seq<Ball>, next_id: EntityId, keep: spec_fn(Ball) -> bool)
    requires
        balls_ordered(balls, next_id),
    ensures
        balls_ordered(balls.filter(keep), next_id),
        forall|k: int|
            0 <= k < balls.filter(keep).len() ==> keep(#[trigger] balls.filter(keep)[k])
                && balls.contains(balls.filter(keep)[k]),
    decreases balls.len(),
{
    reveal(Seq::filter);
    if balls.len() > 0 {
        lemma_ball_selection(balls.drop_last(), next_id, keep);
    }
}

/// Keeping only some of the particles keeps the sandbox well formed.
pub proof fn lemma_ball_selection_wf(v: SandboxView, keep: spec_fn(Ball) -> bool)
    requires
        v.wf(),
    ensures
        (SandboxView { balls: v.balls.filter(keep), ..v }).wf(),
{
    lemma_ball_selection(v.balls, v.next_id, keep);
}

/// A selection that every shape passes keeps them all.
pub proof fn lemma_selection_of_all(shapes: Seq<Shape>, keep: spec_fn(Shape) -> bool)
    requires
        forall|i: int| 0 <= i < shapes.len() ==> keep(#[trigger] shapes[i]),
    ensures
        shapes.filter(keep) == shapes,
    decreases shapes.len(),
{
    reveal(Seq::filter);
    if shapes.len() > 0 {
        lemma_selection_of_all(shapes.drop_last(), keep);
    }
}

/// A selection that no shape passes keeps none.
pub proof fn lemma_selection_of_none(shapes: Seq<Shape>, keep: spec_fn(Shape) -> bool)
    requires
        forall|i: int| 0 <= i < shapes.len() ==> !keep(#[trigger] shapes[i]),
    ensures
        shapes.filter(keep).len() == 0,
    decreases shapes.len(),
{
    reveal(Seq::filter);
    if shapes.len() > 0 {
        lemma_selection_of_none(shapes.drop_last(), keep);
    }
}

/// Keeping only some of the shapes keeps the sandbox well formed, in a mode
/// that admits what the remaining shapes carry.
pub proof fn lemma_selection_wf(v: SandboxView, mode: Mode, keep: spec_fn(Shape) -> bool)
    requires
        v.wf(),
        forall|i: int|
            0 <= i < v.shapes.len() && keep(#[trigger] v.shapes[i]) ==> mode_admits(
                mode,
                v.shapes[i].modifying,
            ),
    ensures
        (SandboxView { mode, shapes: v.shapes.filter(keep), ..v }).wf(),
{
    lemma_selection(v.shapes, keep);
}

} // verus!
