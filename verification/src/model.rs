//! The data of the sandbox: shapes, particles, tools and the events that
//! pass between the input handlers and the state machine.

use vstd::prelude::*;
use crate::geometry::{Transform, Vec2, UNIT, WORLD_LIMIT};
use crate::hover::Hoverable;
use crate::textures::Mesh;

verus! {

/// Identity of an entity of the sandbox.
pub type EntityId = u64;

/// Size of a shape when it is spawned, on both axes.
pub const SPAWN_SCALE: i64 = 10_000;

/// How fast a shape that is being moved runs after the pointer: its velocity
/// is this many times its distance from the pointer.
pub const PURSUIT_GAIN: i64 = 10;

/// Largest magnitude of a component of a pursuit velocity.
pub const VELOCITY_LIMIT: i64 = 2_000_000_000;

/// Strength of a force field: half a unit, along the field's own Y axis.
pub const FIELD_FORCE: i64 = 500;

/// Opacity of a shape that is highlighted, in thousandths.
pub const HIGHLIGHT_ALPHA: u16 = 900;

/// The phase of interaction that the whole sandbox is in.
#[derive(Clone, Copy, Debug, PartialEq, Eq, Structural)]
pub enum Mode {
    /// No tool is active; shapes can be hovered and picked.
    Default,
    /// A new shape follows the pointer and waits to be put down.
    Create,
    /// A shape is being scaled, moved or rotated.
    Modify,
}

/// What is being done to a shape, with the pointer position at which that
/// began.
#[derive(Clone, Copy, Debug, PartialEq, Eq, Structural)]
pub enum Modifying {
    Placing,
    Scaling { start: Vec2 },
    Moving { start: Vec2 },
    Rotating { start: Vec2 },
}

impl Modifying {
    /// The pointer position that the state holds lies inside the world.
    pub open spec fn wf(self) -> bool {
        match self {
            Modifying::Placing => true,
            Modifying::Scaling { start } => start.in_world(),
            Modifying::Moving { start } => start.in_world(),
            Modifying::Rotating { start } => start.in_world(),
        }
    }
}

/// The kind of a shape.
#[derive(Clone, Copy, Debug, PartialEq, Eq, Structural)]
pub enum Solid {
    Box,
    /// A region that pushes what is inside it with `force`, given in the
    /// region's own frame.
    ForceField { force: Vec2 },
}

/// A colour, each channel in thousandths.
#[derive(Clone, Copy, Debug, PartialEq, Eq, Structural)]
pub struct Color {
    pub red: u16,
    pub green: u16,
    pub blue: u16,
    pub alpha: u16,
}

impl Color {
    pub open spec fn white() -> Color {
        Color { red: 1000, green: 1000, blue: 1000, alpha: 1000 }
    }

    /// The colour of a force field: a faint blue.
    pub open spec fn force_field() -> Color {
        Color { red: 0, green: 0, blue: 1000, alpha: 100 }
    }

    /// The same colour with another opacity.
    pub open spec fn with_alpha(self, alpha: u16) -> Color {
        Color { alpha, ..self }
    }

    pub fn new(red: u16, green: u16, blue: u16, alpha: u16) -> (c: Color)
        ensures
            c == (Color { red, green, blue, alpha }),
    {
        Color { red, green, blue, alpha }
    }
}

/// The rigid body of a shape that has been put down: a kinematic body,
/// driven by its velocity.
#[derive(Clone, Copy, Debug, PartialEq, Eq, Structural)]
pub struct Body {
    pub velocity: Vec2,
}

/// The collider of a shape: the unit square, stretched with the shape.
#[derive(Clone, Copy, Debug, PartialEq, Eq, Structural)]
pub struct Collider {
    /// The collider only reports what it touches and stops nothing.
    pub sensor: bool,
}

/// A shape of the sandbox.
#[derive(Clone, Copy, Debug, PartialEq, Eq, Structural)]
pub struct Shape {
    pub id: EntityId,
    /// Stacking order: the value of the sandbox's counter when the shape was
    /// spawned. Of two shapes under the pointer the one with the higher
    /// value is on top.
    pub z: u64,
    pub solid: Solid,
    pub transform: Transform,
    pub hoverable: Hoverable,
    pub modifying: Option<Modifying>,
    pub body: Option<Body>,
    pub collider: Option<Collider>,
    pub mesh: Option<Mesh>,
    pub original_color: Option<Color>,
}

impl Shape {
    /// A shape has its collider exactly while it carries nothing: the
    /// collider is taken off when the shape is picked up and put on again
    /// when what is done to it is finished. The collider is a sensor exactly
    /// where the shape is a force field. A shape that carries nothing has its
    /// body, at rest; a shape that is being placed has none yet.
    pub open spec fn wf(self) -> bool {
        &&& self.transform.wf()
        &&& self.modifying matches Some(m) ==> m.wf()
        &&& self.collider is Some <==> self.modifying is None
        &&& self.collider matches Some(c) ==> c.sensor == (self.solid is ForceField)
        &&& self.modifying is None ==> self.body == Some(Body { velocity: Vec2::origin() })
        &&& self.modifying == Some(Modifying::Placing) ==> self.body is None
        &&& self.body matches Some(b) ==> b.velocity.within(VELOCITY_LIMIT as int)
    }

    /// The colour in which the shape is drawn when nothing highlights it.
    pub open spec fn base_color(self) -> Color {
        match self.original_color {
            Some(c) => c,
            None => Color::white(),
        }
    }

    /// The shape that a tool spawns: at the origin, of the spawn size, not
    /// rotated, following the pointer, without body and collider. A box is
    /// drawn with `mesh`; a force field has none.
    pub open spec fn spawned(id: EntityId, z: u64, tool: Tool, mesh: Option<Mesh>) -> Shape {
        Shape {
            id,
            z,
            solid: match tool {
                Tool::Box => Solid::Box,
                Tool::ForceField => Solid::ForceField { force: Vec2 { x: 0, y: FIELD_FORCE } },
            },
            transform: Transform::square_at_origin(SPAWN_SCALE),
            hoverable: Hoverable { position: None },
            modifying: Some(Modifying::Placing),
            body: None,
            collider: None,
            mesh: match tool {
                Tool::Box => mesh,
                Tool::ForceField => None,
            },
            original_color: match tool {
                Tool::Box => None,
                Tool::ForceField => Some(Color::force_field()),
            },
        }
    }

    /// The body of a shape that has been put down: at rest.
    pub open spec fn committed_body() -> Body {
        Body { velocity: Vec2::origin() }
    }

    /// The collider that a shape gets when it is put down: a sensor where
    /// the shape is a force field.
    pub open spec fn committed_collider(self) -> Collider {
        Collider { sensor: self.solid is ForceField }
    }
}

/// A key that the sandbox reacts to.
#[derive(Clone, Copy, Debug, PartialEq, Eq, Structural)]
pub enum Key {
    B,
    F,
    Escape,
    F1,
}

/// A tool that creates a shape.
#[derive(Clone, Copy, Debug, PartialEq, Eq, Structural)]
pub enum Tool {
    Box,
    ForceField,
}

impl Tool {
    pub open spec fn key_of(self) -> Key {
        match self {
            Tool::Box => Key::B,
            Tool::ForceField => Key::F,
        }
    }

    pub open spec fn label_of(self) -> Seq<char> {
        match self {
            Tool::Box => "Box"@,
            Tool::ForceField => "Force Field"@,
        }
    }

    /// The tools, in the order in which they are offered.
    pub open spec fn all_tools() -> Seq<Tool> {
        seq![Tool::Box, Tool::ForceField]
    }

    /// The key that activates the tool.
    pub fn key(&self) -> (k: Key)
        ensures
            k == self.key_of(),
    {
        match self {
            Tool::Box => Key::B,
            Tool::ForceField => Key::F,
        }
    }

    /// The name under which the tool is offered.
    pub fn label(&self) -> (l: &'static str)
        ensures
            l@ == self.label_of(),
    {
        match self {
            Tool::Box => "Box",
            Tool::ForceField => "Force Field",
        }
    }

    /// Every tool, in the order in which they are offered.
    pub fn all() -> (tools: Vec<Tool>)
        ensures
            tools@ == Tool::all_tools(),
    {
        let mut tools: Vec<Tool> = Vec::new();
        tools.push(Tool::Box);
        tools.push(Tool::ForceField);
        tools
    }
}

/// A request to activate a tool.
#[derive(Clone, Copy, Debug, PartialEq, Eq, Structural)]
pub struct ToolEvent {
    pub tool: Tool,
}

/// What a click asks of the state machine.
#[derive(Clone, Copy, Debug, PartialEq, Eq, Structural)]
pub enum Command {
    /// The new shape is put down at `position` and is sized next.
    Created { position: Vec2 },
    /// Whatever is being modified is finished.
    Scaled,
    /// `entity` starts to follow the pointer.
    Move { entity: EntityId, start: Vec2 },
    /// `entity` starts to turn towards the pointer.
    Rotate { entity: EntityId, start: Vec2 },
}

impl Command {
    /// The pointer position that the command carries lies inside the world.
    /// A command whose position lies outside cannot be taken up, and changes
    /// nothing.
    pub open spec fn in_world(self) -> bool {
        match self {
            Command::Created { position } => position.in_world(),
            Command::Scaled => true,
            Command::Move { start, .. } => start.in_world(),
            Command::Rotate { start, .. } => start.in_world(),
        }
    }

    /// The mode that the command sets: `Default` once everything is
    /// finished, `Modify` when something is put down or picked up.
    pub open spec fn mode_after(self) -> Mode {
        match self {
            Command::Scaled => Mode::Default,
            _ => Mode::Modify,
        }
    }
}

/// A command on its way to the state machine.
#[derive(Clone, Copy, Debug, PartialEq, Eq, Structural)]
pub struct CommandEvent {
    pub command: Command,
}

/// What the pointer falls back to on a tick without a cursor position.
#[derive(Clone, Copy, Debug, PartialEq, Eq, Structural)]
pub enum PointerFallback {
    /// The pointer snaps to the origin.
    Origin,
    /// The pointer stays where it was last seen.
    LastKnown,
}

/// The size of the window, in sub-units.
#[derive(Clone, Copy, Debug, PartialEq, Eq, Structural)]
pub struct Resolution {
    pub width: i64,
    pub height: i64,
}

impl Resolution {
    /// A position lies outside the bounds: more than half the window's width
    /// to the left or right of the origin, or more than half its height
    /// above or below it.
    pub open spec fn excludes(self, position: Vec2) -> bool {
        ||| 2 * position.x < -self.width
        ||| 2 * position.x > self.width
        ||| 2 * position.y < -self.height
        ||| 2 * position.y > self.height
    }

    /// A position lies beyond the window's full size: more than its width to
    /// the left or right of the origin, or more than its height above or
    /// below it.
    pub open spec fn is_beyond(self, position: Vec2) -> bool {
        ||| position.x < -self.width
        ||| position.x > self.width
        ||| position.y < -self.height
        ||| position.y > self.height
    }

    pub open spec fn wf(self) -> bool {
        0 <= self.width <= WORLD_LIMIT && 0 <= self.height <= WORLD_LIMIT
    }
}

/// A free-falling particle.
#[derive(Clone, Copy, Debug, PartialEq, Eq, Structural)]
pub struct Ball {
    pub id: EntityId,
    pub position: Vec2,
    pub color: Color,
    /// The particle was inside the bounds at the last bounds check. A new
    /// particle appears above the bounds and has yet to enter them.
    pub entered: bool,
}

/// Radius of a particle.
pub const BALL_RADIUS: i64 = UNIT;

/// How far above the upper edge of the window particles appear.
pub const SPAWN_HEIGHT: i64 = 100_000;

} // verus!
