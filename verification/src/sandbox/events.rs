//! The two event handlers of the state machine. Tool activations spawn a new
//! shape; commands carry a shape from one stage to the next.
//!
//! A tool is honoured in `Default` mode only. A command is applied whatever
//! the mode is: it is the click handler that decides, by the mode, which
//! command a click gives rise to. `Created` puts down whatever is in
//! progress, `Scaled` finishes whatever is in progress, `Move` and `Rotate`
//! pick a shape up; each sets the mode that goes with it.

use vstd::prelude::*;
use crate::geometry::Vec2;
use crate::model::{Command, CommandEvent, EntityId, Mode, Modifying, Shape, Tool, ToolEvent};
use crate::textures::{Mesh, Meshes};
use super::{lemma_index_of, lemma_reshaped_wf, Sandbox, SandboxView};

verus! {

/// A shape that is in progress is put down at `position`: it is sized next,
/// starting from there.
pub open spec fn put_down(shape: Shape, position: Vec2) -> Shape {
    if shape.modifying is Some {
        Shape { modifying: Some(Modifying::Scaling { start: position }), ..shape }
    } else {
        shape
    }
}

/// What is being done to the shape is finished: it carries nothing any more,
/// its body is at rest and its collider is put on.
pub open spec fn committed(shape: Shape) -> Shape {
    if shape.modifying is Some {
        Shape {
            modifying: None,
            body: Some(Shape::committed_body()),
            collider: Some(shape.committed_collider()),
            ..shape
        }
    } else {
        shape
    }
}

/// The shape starts to carry `modifying`, and its collider is taken off.
pub open spec fn picked_up(shape: Shape, modifying: Modifying) -> Shape {
    Shape { modifying: Some(modifying), collider: None, ..shape }
}

impl SandboxView {
    /// A tool can spawn a shape: the mode is `Default`, and the counters have
    /// not run out.
    pub open spec fn can_spawn(self) -> bool {
        self.mode is Default && self.next_id < u64::MAX && self.z_counter < u64::MAX
    }

    /// The sandbox after `tool` was activated, with `mesh` drawn for a box.
    pub open spec fn tool_activated(self, tool: Tool, mesh: Option<Mesh>) -> SandboxView {
        if self.can_spawn() {
            SandboxView {
                mode: Mode::Create,
                shapes: self.shapes.push(Shape::spawned(self.next_id, self.z_counter, tool, mesh)),
                next_id: (self.next_id + 1) as u64,
                z_counter: (self.z_counter + 1) as u64,
                ..self
            }
        } else {
            self
        }
    }

    /// The sandbox after the shape with identity `entity` was picked up to do
    /// `modifying` to it: the mode is `Modify`. Where no shape has that
    /// identity the operation is skipped, and nothing changes.
    pub open spec fn picked_up_by(self, entity: EntityId, modifying: Modifying) -> SandboxView {
        match self.index_of(entity) {
            Some(i) => SandboxView {
                mode: Mode::Modify,
                shapes: self.shapes.update(i, picked_up(self.shapes[i], modifying)),
                ..self
            },
            None => self,
        }
    }

    /// The sandbox after one command. `Created` puts down every shape that
    /// carries something and sets `Modify`; `Scaled` finishes every shape
    /// that carries something and sets `Default`; `Move` and `Rotate` pick
    /// their shape up, where there is such a shape, and set `Modify`. A
    /// command whose pointer position lies outside the world changes nothing.
    pub open spec fn command_applied(self, command: Command) -> SandboxView {
        if !command.in_world() {
            self
        } else {
            match command {
                Command::Created { position } => SandboxView {
                    mode: Mode::Modify,
                    shapes: self.shapes.map_values(|s: Shape| put_down(s, position)),
                    ..self
                },
                Command::Scaled => SandboxView {
                    mode: Mode::Default,
                    shapes: self.shapes.map_values(|s: Shape| committed(s)),
                    ..self
                },
                Command::Move { entity, start } => self.picked_up_by(
                    entity,
                    Modifying::Moving { start },
                ),
                Command::Rotate { entity, start } => self.picked_up_by(
                    entity,
                    Modifying::Rotating { start },
                ),
            }
        }
    }

    /// The sandbox after a run of commands, applied in their order.
    pub open spec fn commands_applied(self, commands: Seq<CommandEvent>) -> SandboxView
        decreases commands.len(),
    {
        if commands.len() == 0 {
            self
        } else {
            self.commands_applied(commands.drop_last()).command_applied(commands.last().command)
        }
    }
}

/// Commands change the mode and the shapes, and nothing else: neither the
/// pointer nor the counters, the particles or the queues. No shape appears
/// or disappears.
pub proof fn lemma_commands_change_mode_and_shapes(v: SandboxView, commands: Seq<CommandEvent>)
    ensures
        v.commands_applied(commands) == (SandboxView {
            mode: v.commands_applied(commands).mode,
            shapes: v.commands_applied(commands).shapes,
            ..v
        }),
        v.commands_applied(commands).shapes.len() == v.shapes.len(),
    decreases commands.len(),
{
    if commands.len() > 0 {
        lemma_commands_change_mode_and_shapes(v, commands.drop_last());
    }
}

/// Commands leave every shape in its place with its identity.
pub proof fn lemma_commands_keep_identities(v: SandboxView, commands: Seq<CommandEvent>)
    ensures
        v.commands_applied(commands).shapes.len() == v.shapes.len(),
        forall|i: int|
            0 <= i < v.shapes.len() ==> (#[trigger] v.commands_applied(commands).shapes[i]).id
                == v.shapes[i].id,
        forall|id: EntityId| v.commands_applied(commands).index_of(id) is Some <==> v.index_of(id)
            is Some,
    decreases commands.len(),
{
    if commands.len() > 0 {
        lemma_commands_keep_identities(v, commands.drop_last());
        let before = v.commands_applied(commands.drop_last());
        let after = v.commands_applied(commands);
        assert forall|i: int| 0 <= i < v.shapes.len() implies (#[trigger] after.shapes[i]).id
            == v.shapes[i].id by {
            assert(before.shapes[i].id == v.shapes[i].id);
        }
        assert forall|id: EntityId| after.index_of(id) is Some <==> v.index_of(id) is Some by {
            if after.index_of(id) is Some {
                let i = after.index_of(id)->0;
                assert(v.shapes[i].id == id);
            }
            if v.index_of(id) is Some {
                let i = v.index_of(id)->0;
                assert(after.shapes[i].id == id);
            }
        }
    }
}

/// A command leaves a well-formed sandbox well formed.
pub proof fn lemma_command_applied_wf(v: SandboxView, command: Command)
    requires
        v.wf(),
    ensures
        v.command_applied(command).wf(),
{
    let after = v.command_applied(command);
    if command.in_world() {
        match command {
            Command::Created { .. } => {
                lemma_reshaped_wf(v, Mode::Modify, after.shapes);
            },
            Command::Scaled => {
                lemma_reshaped_wf(v, Mode::Default, after.shapes);
            },
            _ => {},
        }
    }
}

/// Activating a tool leaves a well-formed sandbox well formed.
pub proof fn lemma_tool_activated_wf(v: SandboxView, tool: Tool, mesh: Option<Mesh>)
    requires
        v.wf(),
    ensures
        v.tool_activated(tool, mesh).wf(),
{
}

impl Sandbox {
    /// Whether a tool can spawn a shape now.
    pub fn can_spawn(&self) -> (can: bool)
        ensures
            can == self@.can_spawn(),
    {
        self.mode == Mode::Default && self.next_id < u64::MAX && self.z_counter < u64::MAX
    }
}

/// Activates a tool: in `Default` mode a new shape is spawned that follows
/// the pointer, and the mode becomes `Create`. In any other mode nothing
/// happens. `mesh` is the mesh of the shape where the tool makes a box.
/// Returns the identity of the new shape.
pub fn activate_tool(sandbox: &mut Sandbox, tool: Tool, mesh: Option<Mesh>) -> (spawned: Option<
    EntityId,
>)
    requires
        old(sandbox).wf(),
    ensures
        final(sandbox).wf(),
        final(sandbox)@ == old(sandbox)@.tool_activated(tool, mesh),
        spawned == if old(sandbox)@.can_spawn() {
            Some(old(sandbox)@.next_id)
        } else {
            None
        },
{
    proof {
        lemma_tool_activated_wf(sandbox@, tool, mesh);
    }
    match sandbox.mode {
        Mode::Default => {
            if sandbox.next_id < u64::MAX && sandbox.z_counter < u64::MAX {
                let id = sandbox.next_id;
                let shape = match tool {
                    Tool::Box => Shape {
                        id,
                        z: sandbox.z_counter,
                        solid: crate::model::Solid::Box,
                        transform: spawn_transform(),
                        hoverable: crate::hover::Hoverable { position: None },
                        modifying: Some(Modifying::Placing),
                        body: None,
                        collider: None,
                        mesh,
                        original_color: None,
                    },
                    Tool::ForceField => Shape {
                        id,
                        z: sandbox.z_counter,
                        solid: crate::model::Solid::ForceField {
                            force: Vec2 { x: 0, y: crate::model::FIELD_FORCE },
                        },
                        transform: spawn_transform(),
                        hoverable: crate::hover::Hoverable { position: None },
                        modifying: Some(Modifying::Placing),
                        body: None,
                        collider: None,
                        mesh: None,
                        original_color: Some(
                            crate::model::Color { red: 0, green: 0, blue: 1000, alpha: 100 },
                        ),
                    },
                };
                sandbox.shapes.push(shape);
                sandbox.next_id = sandbox.next_id + 1;
                sandbox.z_counter = sandbox.z_counter + 1;
                sandbox.mode = Mode::Create;
                Some(id)
            } else {
                None
            }
        },
        _ => None,
    }
}

fn spawn_transform() -> (t: crate::geometry::Transform)
    ensures
        t == crate::geometry::Transform::square_at_origin(crate::model::SPAWN_SCALE),
{
    crate::geometry::Transform {
        translation: Vec2 { x: 0, y: 0 },
        rotation: crate::geometry::Rotation { x: 1, y: 0 },
        scale: Vec2 { x: crate::model::SPAWN_SCALE, y: crate::model::SPAWN_SCALE },
    }
}

/// Handles the tool activations that are waiting, in their order, and
/// empties the queue. Only the first can take effect, and only in `Default`
/// mode: once a shape is spawned the mode is `Create`. The mesh of a new box
/// is drawn at random from `meshes`. Returns the identities of the shapes
/// that were spawned.
pub fn handle_tool_events(sandbox: &mut Sandbox, meshes: &Meshes) -> (spawned: Vec<EntityId>)
    requires
        old(sandbox).wf(),
    ensures
        final(sandbox).wf(),
        final(sandbox)@.tool_events.len() == 0,
        ({
            let emptied = SandboxView { tool_events: Seq::empty(), ..old(sandbox)@ };
            if old(sandbox)@.tool_events.len() > 0 && old(sandbox)@.can_spawn() {
                &&& spawned@ == seq![old(sandbox)@.next_id]
                &&& final(sandbox)@.mode is Create
                &&& match old(sandbox)@.tool_events[0].tool {
                    Tool::Box => exists|mesh: Mesh| #[trigger]
                        meshes@.contains(mesh) && final(sandbox)@ == emptied.tool_activated(
                            Tool::Box,
                            Some(mesh),
                        ),
                    Tool::ForceField => final(sandbox)@ == emptied.tool_activated(
                        Tool::ForceField,
                        None,
                    ),
                }
            } else {
                &&& spawned@.len() == 0
                &&& final(sandbox)@ == emptied
            }
        }),
{
    let mut events: Vec<ToolEvent> = Vec::new();
    std::mem::swap(&mut sandbox.tool_events, &mut events);
    let ghost emptied = sandbox@;
    let mut spawned: Vec<EntityId> = Vec::new();
    let mut i: usize = 0;
    while i < events.len()
        invariant
            i <= events.len(),
            events@ == old(sandbox)@.tool_events,
            emptied == (SandboxView { tool_events: Seq::empty(), ..old(sandbox)@ }),
            emptied.wf(),
            sandbox.wf(),
            if i > 0 && emptied.can_spawn() {
                &&& spawned@ == seq![emptied.next_id]
                &&& !sandbox@.can_spawn()
                &&& match events@[0].tool {
                    Tool::Box => exists|mesh: Mesh| #[trigger]
                        meshes@.contains(mesh) && sandbox@ == emptied.tool_activated(
                            Tool::Box,
                            Some(mesh),
                        ),
                    Tool::ForceField => sandbox@ == emptied.tool_activated(
                        Tool::ForceField,
                        None,
                    ),
                }
            } else {
                &&& spawned@.len() == 0
                &&& sandbox@ == emptied
            },
        decreases events.len() - i,
    {
        let tool = events[i].tool;
        let spawns = sandbox.can_spawn();
        let mesh = match tool {
            Tool::Box => if spawns {
                Some(meshes.get_random())
            } else {
                None
            },
            Tool::ForceField => None,
        };
        match activate_tool(sandbox, tool, mesh) {
            Some(id) => {
                spawned.push(id);
            },
            None => {},
        }
        i = i + 1;
    }
    spawned
}

/// Applies one command to the sandbox.
pub fn apply_command(sandbox: &mut Sandbox, command: Command)
    requires
        old(sandbox).wf(),
    ensures
        final(sandbox).wf(),
        final(sandbox)@ == old(sandbox)@.command_applied(command),
{
    proof {
        lemma_command_applied_wf(sandbox@, command);
    }
    match command {
        Command::Created { position } => {
            if position.is_in_world() {
                let mut i: usize = 0;
                while i < sandbox.shapes.len()
                    invariant
                        i <= sandbox.shapes.len(),
                        sandbox.shapes@.len() == old(sandbox)@.shapes.len(),
                        sandbox@ == old(sandbox)@.with_shapes(sandbox.shapes@),
                        forall|k: int|
                            0 <= k < sandbox.shapes@.len() ==> #[trigger] sandbox.shapes@[k]
                                == if k < i {
                                put_down(old(sandbox)@.shapes[k], position)
                            } else {
                                old(sandbox)@.shapes[k]
                            },
                    decreases sandbox.shapes.len() - i,
                {
                    if sandbox.shapes[i].modifying.is_some() {
                        sandbox.shapes[i].modifying = Some(Modifying::Scaling { start: position });
                    }
                    i = i + 1;
                }
                sandbox.mode = Mode::Modify;
                proof {
                    assert(sandbox.shapes@ =~= old(sandbox)@.shapes.map_values(
                        |s: Shape| put_down(s, position),
                    ));
                }
            }
        },
        Command::Scaled => {
            let mut i: usize = 0;
            while i < sandbox.shapes.len()
                invariant
                    i <= sandbox.shapes.len(),
                    sandbox.shapes@.len() == old(sandbox)@.shapes.len(),
                    sandbox@ == old(sandbox)@.with_shapes(sandbox.shapes@),
                    forall|k: int|
                        0 <= k < sandbox.shapes@.len() ==> #[trigger] sandbox.shapes@[k] == if k
                            < i {
                            committed(old(sandbox)@.shapes[k])
                        } else {
                            old(sandbox)@.shapes[k]
                        },
                decreases sandbox.shapes.len() - i,
            {
                let shape = sandbox.shapes[i];
                if shape.modifying.is_some() {
                    let sensor = match shape.solid {
                        crate::model::Solid::Box => false,
                        crate::model::Solid::ForceField { .. } => true,
                    };
                    sandbox.shapes[i].modifying = None;
                    sandbox.shapes[i].body = Some(
                        crate::model::Body { velocity: Vec2 { x: 0, y: 0 } },
                    );
                    sandbox.shapes[i].collider = Some(crate::model::Collider { sensor });
                }
                i = i + 1;
            }
            sandbox.mode = Mode::Default;
            proof {
                assert(sandbox.shapes@ =~= old(sandbox)@.shapes.map_values(
                    |s: Shape| committed(s),
                ));
            }
        },
        Command::Move { entity, start } => {
            if start.is_in_world() {
                pick_up(sandbox, entity, Modifying::Moving { start });
            }
        },
        Command::Rotate { entity, start } => {
            if start.is_in_world() {
                pick_up(sandbox, entity, Modifying::Rotating { start });
            }
        },
    }
}

fn pick_up(sandbox: &mut Sandbox, entity: EntityId, modifying: Modifying)
    requires
        old(sandbox).wf(),
    ensures
        final(sandbox)@ == old(sandbox)@.picked_up_by(entity, modifying),
{
    match sandbox.find_shape(entity) {
        Some(i) => {
            proof {
                lemma_index_of(sandbox@, entity, i as int);
            }
            let ghost before = sandbox.shapes@;
            sandbox.shapes[i].modifying = Some(modifying);
            sandbox.shapes[i].collider = None;
            sandbox.mode = Mode::Modify;
            proof {
                assert(sandbox.shapes@ =~= before.update(
                    i as int,
                    picked_up(before[i as int], modifying),
                ));
            }
        },
        None => {},
    }
}

/// Handles the commands that are waiting, in their order, and empties the
/// queue.
pub fn handle_command_events(sandbox: &mut Sandbox)
    requires
        old(sandbox).wf(),
    ensures
        final(sandbox).wf(),
        final(sandbox)@ == (SandboxView {
            command_events: Seq::empty(),
            ..old(sandbox)@
        }).commands_applied(old(sandbox)@.command_events),
        final(sandbox)@.command_events.len() == 0,
{
    let mut events: Vec<CommandEvent> = Vec::new();
    std::mem::swap(&mut sandbox.command_events, &mut events);
    let ghost emptied = sandbox@;
    let mut i: usize = 0;
    while i < events.len()
        invariant
            i <= events.len(),
            events@ == old(sandbox)@.command_events,
            emptied == (SandboxView { command_events: Seq::empty(), ..old(sandbox)@ }),
            sandbox.wf(),
            sandbox@ == emptied.commands_applied(events@.take(i as int)),
        decreases events.len() - i,
    {
        proof {
            assert(events@.take(i + 1).drop_last() =~= events@.take(i as int));
        }
        apply_command(sandbox, events[i].command);
        i = i + 1;
    }
    proof {
        assert(events@.take(events@.len() as int) =~= events@);
        lemma_commands_change_mode_and_shapes(emptied, events@);
    }
}

} // verus!
