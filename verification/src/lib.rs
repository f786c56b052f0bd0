//! The interaction core of a 2D physics sandbox: the state machine that
//! turns pointer and keyboard input into the creation and modification of
//! shapes, and the resolution of what the pointer hovers over.

pub mod entity_set;
pub mod geometry;
pub mod hover;
pub mod laws;
pub mod model;
pub mod sandbox;
pub mod textures;

pub use geometry::{Rotation, Transform, Vec2, UNIT, WORLD_LIMIT};
pub use hover::{classify, HoverPosition, Hoverable};
pub use model::{
    Ball, Body, Collider, Color, Command, CommandEvent, EntityId, Key, Mode, Modifying,
    PointerFallback, Resolution, Shape, Solid, Tool, ToolEvent,
};
pub use sandbox::balls::{despawn_outside_world, spawn_balls};
pub use sandbox::events::{activate_tool, apply_command, handle_command_events, handle_tool_events};
pub use sandbox::forces::{apply_force_field, force_fields, ExternalForce, FieldHits};
pub use sandbox::input::{cancel, handle_input, handle_left_click, toggle_debug_rendering};
pub use sandbox::pointer::{
    calculate_mouse_position, move_to_mouse, move_towards_mouse, rotate, scale,
};
pub use sandbox::resolver::{highlight_hover, set_hover, Appearance, CursorIcon, Highlights};
pub use sandbox::ui::{update_ui, ToolButton, ToolWindow};
pub use sandbox::Sandbox;
pub use textures::{generate_textures, white_pixels, Mesh, Meshes, Paint, TEXTURE_SIZE};
