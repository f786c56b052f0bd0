//! Keys and clicks. A key press asks for a tool or cancels what is going on;
//! a click becomes a command, according to the mode and to what is hovered.

use vstd::prelude::*;
use crate::model::EntityId;
use crate::geometry::Vec2;
use crate::hover::HoverPosition;
use crate::model::{Command, CommandEvent, Key, Mode, Shape, Tool, ToolEvent};
use super::{lemma_selection_wf, Sandbox, SandboxView};

verus! {

/// The command that a click sends for a shape in `Default` mode: the centre
/// of a shape is a handle to move it by, an edge a handle to rotate it by.
pub open spec fn hover_command(shape: Shape, mouse: Vec2) -> Option<Command> {
    match shape.hoverable.position {
        Some(HoverPosition::Center) => Some(Command::Move { entity: shape.id, start: mouse }),
        Some(HoverPosition::Edge) => Some(Command::Rotate { entity: shape.id, start: mouse }),
        _ => None,
    }
}

/// The commands that a click sends for the shapes in `Default` mode, in the
/// order of the shapes.
pub open spec fn hover_commands(shapes: Seq<Shape>, mouse: Vec2) -> Seq<CommandEvent>
    decreases shapes.len(),
{
    if shapes.len() == 0 {
        Seq::empty()
    } else {
        let before = hover_commands(shapes.drop_last(), mouse);
        match hover_command(shapes.last(), mouse) {
            Some(command) => before.push(CommandEvent { command }),
            None => before,
        }
    }
}

/// The tool activations that the keys ask for, in the order of `tools`.
pub open spec fn tool_requests(tools: Seq<Tool>, keys: Seq<Key>) -> Seq<ToolEvent>
    decreases tools.len(),
{
    if tools.len() == 0 {
        Seq::empty()
    } else {
        let before = tool_requests(tools.drop_last(), keys);
        if keys.contains(tools.last().key_of()) {
            before.push(ToolEvent { tool: tools.last() })
        } else {
            before
        }
    }
}

impl SandboxView {
    /// The commands that a click sends.
    pub open spec fn click_commands(self) -> Seq<CommandEvent> {
        match self.mode {
            Mode::Default => hover_commands(self.shapes, self.mouse),
            Mode::Create => seq![
                CommandEvent { command: Command::Created { position: self.mouse } },
            ],
            Mode::Modify => seq![CommandEvent { command: Command::Scaled }],
        }
    }

    /// The identities of the shapes that are being created or modified.
    pub open spec fn in_modification(self) -> Seq<EntityId> {
        self.shapes.filter(|s: Shape| s.modifying is Some).map_values(|s: Shape| s.id)
    }

    /// The sandbox after a cancellation: every shape that was being created
    /// or modified is gone, and the mode is `Default`.
    pub open spec fn cancelled(self) -> SandboxView {
        SandboxView {
            mode: Mode::Default,
            shapes: self.shapes.filter(|s: Shape| s.modifying is None),
            ..self
        }
    }
}

/// Whether `key` is among the keys that were pressed.
pub fn key_pressed(keys: &Vec<Key>, key: Key) -> (pressed: bool)
    ensures
        pressed == keys@.contains(key),
{
    let mut i: usize = 0;
    while i < keys.len()
        invariant
            i <= keys.len(),
            forall|k: int| 0 <= k < i ==> keys@[k] != key,
        decreases keys.len() - i,
    {
        if keys[i] == key {
            return true;
        }
        i = i + 1;
    }
    false
}

/// Cancels what is going on: despawns every shape that is being created or
/// modified and returns to `Default` mode. Returns the identities of the
/// shapes that are gone.
pub fn cancel(sandbox: &mut Sandbox) -> (despawned: Vec<EntityId>)
    requires
        old(sandbox).wf(),
    ensures
        final(sandbox).wf(),
        final(sandbox)@ == old(sandbox)@.cancelled(),
        despawned@ == old(sandbox)@.in_modification(),
{
    let mut kept: Vec<Shape> = Vec::new();
    let mut despawned: Vec<EntityId> = Vec::new();
    let ghost keep = |s: Shape| s.modifying is None;
    let ghost gone = |s: Shape| s.modifying is Some;
    let ghost id_of = |s: Shape| s.id;
    let mut i: usize = 0;
    while i < sandbox.shapes.len()
        invariant
            i <= sandbox.shapes.len(),
            sandbox@ == old(sandbox)@,
            keep == |s: Shape| s.modifying is None,
            gone == |s: Shape| s.modifying is Some,
            id_of == |s: Shape| s.id,
            kept@ == sandbox.shapes@.take(i as int).filter(keep),
            despawned@ == sandbox.shapes@.take(i as int).filter(gone).map_values(id_of),
        decreases sandbox.shapes.len() - i,
    {
        let shape = sandbox.shapes[i];
        proof {
            reveal(Seq::filter);
            assert(sandbox.shapes@.take(i + 1).drop_last() =~= sandbox.shapes@.take(i as int));
        }
        if shape.modifying.is_some() {
            despawned.push(shape.id);
        } else {
            kept.push(shape);
        }
        i = i + 1;
    }
    proof {
        assert(sandbox.shapes@.take(sandbox.shapes@.len() as int) =~= sandbox.shapes@);
        lemma_selection_wf(old(sandbox)@, Mode::Default, keep);
    }
    sandbox.shapes = kept;
    sandbox.mode = Mode::Default;
    despawned
}

/// Keyboard handler. Escape cancels what is going on; the key of a tool asks
/// for that tool. Returns the identities of the shapes that a cancellation
/// despawned.
pub fn handle_input(sandbox: &mut Sandbox, keys: &Vec<Key>) -> (despawned: Vec<EntityId>)
    requires
        old(sandbox).wf(),
    ensures
        final(sandbox).wf(),
        ({
            let escaped = keys@.contains(Key::Escape);
            let base = if escaped {
                old(sandbox)@.cancelled()
            } else {
                old(sandbox)@
            };
            &&& final(sandbox)@ == (SandboxView {
                tool_events: base.tool_events + tool_requests(Tool::all_tools(), keys@),
                ..base
            })
            &&& despawned@ == if escaped {
                old(sandbox)@.in_modification()
            } else {
                Seq::<EntityId>::empty()
            }
        }),
{
    let despawned = if key_pressed(keys, Key::Escape) {
        cancel(sandbox)
    } else {
        Vec::new()
    };
    let ghost base = sandbox@;
    let tools = Tool::all();
    let mut i: usize = 0;
    while i < tools.len()
        invariant
            i <= tools.len(),
            tools@ == Tool::all_tools(),
            sandbox.wf(),
            sandbox@ == (SandboxView {
                tool_events: base.tool_events + tool_requests(tools@.take(i as int), keys@),
                ..base
            }),
        decreases tools.len() - i,
    {
        let tool = tools[i];
        proof {
            assert(tools@.take(i + 1).drop_last() =~= tools@.take(i as int));
        }
        if key_pressed(keys, tool.key()) {
            sandbox.send_tool_event(tool);
        }
        i = i + 1;
    }
    proof {
        assert(tools@.take(tools@.len() as int) =~= tools@);
    }
    despawned
}

/// Click handler. With the left button just pressed, sends the command that
/// the mode calls for: in `Default` mode one for the hovered shape, if its
/// centre or an edge is hovered; in `Create` mode the new shape is put down
/// at the pointer; in `Modify` mode what is being modified is finished.
pub fn handle_left_click(sandbox: &mut Sandbox, pressed: bool)
    requires
        old(sandbox).wf(),
    ensures
        final(sandbox).wf(),
        final(sandbox)@ == (SandboxView {
            command_events: if pressed {
                old(sandbox)@.command_events + old(sandbox)@.click_commands()
            } else {
                old(sandbox)@.command_events
            },
            ..old(sandbox)@
        }),
{
    if !pressed {
        return ;
    }
    let mouse = sandbox.mouse;
    match sandbox.mode {
        Mode::Default => {
            let mut i: usize = 0;
            while i < sandbox.shapes.len()
                invariant
                    i <= sandbox.shapes.len(),
                    mouse == old(sandbox)@.mouse,
                    sandbox.wf(),
                    sandbox@ == (SandboxView {
                        command_events: old(sandbox)@.command_events + hover_commands(
                            old(sandbox)@.shapes.take(i as int),
                            mouse,
                        ),
                        ..old(sandbox)@
                    }),
                decreases sandbox.shapes.len() - i,
            {
                let shape = sandbox.shapes[i];
                proof {
                    let shapes = old(sandbox)@.shapes;
                    assert(shapes.take(i + 1).drop_last() =~= shapes.take(i as int));
                }
                match shape.hoverable.position {
                    Some(HoverPosition::Center) => {
                        sandbox.command_events.push(
                            CommandEvent { command: Command::Move { entity: shape.id, start: mouse } },
                        );
                    },
                    Some(HoverPosition::Edge) => {
                        sandbox.command_events.push(
                            CommandEvent {
                                command: Command::Rotate { entity: shape.id, start: mouse },
                            },
                        );
                    },
                    _ => {},
                }
                i = i + 1;
            }
            proof {
                let shapes = old(sandbox)@.shapes;
                assert(shapes.take(shapes.len() as int) =~= shapes);
            }
        },
        Mode::Create => {
            sandbox.command_events.push(
                CommandEvent { command: Command::Created { position: mouse } },
            );
            assert(sandbox@.command_events =~= old(sandbox)@.command_events + old(
                sandbox,
            )@.click_commands());
        },
        Mode::Modify => {
            sandbox.command_events.push(CommandEvent { command: Command::Scaled });
            assert(sandbox@.command_events =~= old(sandbox)@.command_events + old(
                sandbox,
            )@.click_commands());
        },
    }
}

/// Whether the debug rendering of the physics is on after the keys were
/// seen: F1 switches it.
pub fn toggle_debug_rendering(enabled: bool, keys: &Vec<Key>) -> (now: bool)
    ensures
        now == if keys@.contains(Key::F1) {
            !enabled
        } else {
            enabled
        },
{
    if key_pressed(keys, Key::F1) {
        !enabled
    } else {
        enabled
    }
}

} // verus!
