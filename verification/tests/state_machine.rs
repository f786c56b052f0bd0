use physics_sandbox::{
    activate_tool, apply_command, calculate_mouse_position, cancel, generate_textures,
    handle_command_events, handle_input, handle_left_click, handle_tool_events, move_to_mouse,
    move_towards_mouse, rotate, scale, set_hover, Body, Collider, Color, Command, CommandEvent, HoverPosition,
    Key, Meshes, Mode, Modifying, PointerFallback, Rotation, Sandbox, Solid, Tool, ToolEvent, Vec2,
    UNIT,
};

fn press(sandbox: &mut Sandbox, meshes: &Meshes, key: Key) -> Vec<u64> {
    handle_input(sandbox, &vec![key]);
    handle_tool_events(sandbox, meshes)
}

fn point_at(sandbox: &mut Sandbox, x: i64, y: i64) {
    calculate_mouse_position(sandbox, Some(Vec2::new(x, y)));
    move_to_mouse(sandbox);
    move_towards_mouse(sandbox);
    scale(sandbox);
    rotate(sandbox);
}

fn click(sandbox: &mut Sandbox) {
    handle_left_click(sandbox, true);
    handle_command_events(sandbox);
}

fn committed_box(sandbox: &mut Sandbox, meshes: &Meshes, from: (i64, i64), to: (i64, i64)) -> u64 {
    let spawned = press(sandbox, meshes, Key::B);
    point_at(sandbox, from.0, from.1);
    click(sandbox);
    point_at(sandbox, to.0, to.1);
    click(sandbox);
    spawned[0]
}

#[test]
fn a_new_sandbox_is_empty_and_idle() {
    let sandbox = Sandbox::new();
    assert_eq!(sandbox.mode(), Mode::Default);
    assert_eq!(sandbox.mouse(), Vec2::new(0, 0));
    assert_eq!(sandbox.z_counter(), 0);
    assert!(sandbox.shapes().is_empty());
    assert!(sandbox.balls().is_empty());
    assert!(sandbox.tool_events().is_empty());
    assert!(sandbox.command_events().is_empty());
}

#[test]
fn box_is_created_placed_scaled_and_committed() {
    let meshes = generate_textures();
    let mut sandbox = Sandbox::new();

    let spawned = press(&mut sandbox, &meshes, Key::B);
    assert_eq!(spawned.len(), 1);
    assert_eq!(sandbox.shapes().len(), 1);
    assert_eq!(sandbox.mode(), Mode::Create);
    let shape = sandbox.shapes()[0];
    assert_eq!(shape.id, spawned[0]);
    assert_eq!(shape.modifying, Some(Modifying::Placing));
    assert_eq!(shape.body, None);
    assert_eq!(shape.collider, None);
    assert_eq!(shape.solid, Solid::Box);
    assert_eq!(shape.transform.translation, Vec2::new(0, 0));
    assert_eq!(shape.transform.scale, Vec2::new(10 * UNIT, 10 * UNIT));
    assert_eq!(shape.transform.rotation, Rotation { x: 1, y: 0 });
    assert_eq!(shape.z, 0);
    assert_eq!(sandbox.z_counter(), 1);

    point_at(&mut sandbox, 100, 50);
    assert_eq!(sandbox.shapes()[0].transform.translation, Vec2::new(100, 50));
    assert_eq!(sandbox.shapes()[0].modifying, Some(Modifying::Placing));
    assert_eq!(sandbox.mode(), Mode::Create);

    click(&mut sandbox);
    assert_eq!(
        sandbox.shapes()[0].modifying,
        Some(Modifying::Scaling { start: Vec2::new(100, 50) })
    );
    assert_eq!(sandbox.mode(), Mode::Modify);
    assert_eq!(sandbox.shapes()[0].body, None);
    assert_eq!(sandbox.shapes()[0].collider, None);

    point_at(&mut sandbox, 140, 90);
    assert_eq!(sandbox.shapes()[0].transform.translation, Vec2::new(120, 70));
    assert_eq!(sandbox.shapes()[0].transform.scale, Vec2::new(40, 40));

    click(&mut sandbox);
    assert_eq!(sandbox.shapes()[0].modifying, None);
    assert_eq!(sandbox.shapes()[0].body, Some(Body { velocity: Vec2::new(0, 0) }));
    assert_eq!(sandbox.shapes()[0].collider, Some(Collider { sensor: false }));
    assert_eq!(sandbox.mode(), Mode::Default);
    assert_eq!(sandbox.shapes()[0].transform.translation, Vec2::new(120, 70));
    assert_eq!(sandbox.shapes()[0].transform.scale, Vec2::new(40, 40));
}

#[test]
fn box_is_created_in_world_units() {
    let meshes = generate_textures();
    let mut sandbox = Sandbox::new();
    press(&mut sandbox, &meshes, Key::B);
    let from = Vec2::from_units(100, 50).unwrap();
    let to = Vec2::from_units(140, 90).unwrap();
    point_at(&mut sandbox, from.x, from.y);
    click(&mut sandbox);
    point_at(&mut sandbox, to.x, to.y);
    click(&mut sandbox);
    let shape = sandbox.shapes()[0];
    assert_eq!(shape.transform.translation, Vec2::from_units(120, 70).unwrap());
    assert_eq!(shape.transform.scale, Vec2::from_units(40, 40).unwrap());
    assert!(shape.body.is_some());
    assert!(shape.collider.is_some());
    assert_eq!(sandbox.mode(), Mode::Default);
}

#[test]
fn force_field_is_spawned_as_a_faint_blue_sensor() {
    let meshes = generate_textures();
    let mut sandbox = Sandbox::new();
    let spawned = press(&mut sandbox, &meshes, Key::F);
    assert_eq!(spawned.len(), 1);
    let shape = sandbox.shapes()[0];
    assert_eq!(shape.solid, Solid::ForceField { force: Vec2::new(0, UNIT / 2) });
    assert_eq!(shape.original_color, Some(Color::new(0, 0, 1000, 100)));
    assert_eq!(shape.mesh, None);
    assert_eq!(shape.modifying, Some(Modifying::Placing));
    point_at(&mut sandbox, -2000, -1000);
    click(&mut sandbox);
    point_at(&mut sandbox, 2000, 1000);
    click(&mut sandbox);
    let shape = sandbox.shapes()[0];
    assert_eq!(shape.body, Some(Body { velocity: Vec2::new(0, 0) }));
    assert_eq!(shape.collider, Some(Collider { sensor: true }));
    assert_eq!(shape.transform.scale, Vec2::new(4000, 2000));
}

#[test]
fn a_box_gets_one_of_the_meshes() {
    let meshes = generate_textures();
    for _ in 0..40 {
        let mut sandbox = Sandbox::new();
        press(&mut sandbox, &meshes, Key::B);
        let mesh = sandbox.shapes()[0].mesh.unwrap();
        assert!((0..meshes.len()).any(|i| meshes.get(i) == Some(mesh)));
    }
}

#[test]
fn tool_is_ignored_unless_mode_is_default() {
    let meshes = generate_textures();
    let mut sandbox = Sandbox::new();
    press(&mut sandbox, &meshes, Key::B);
    assert_eq!(sandbox.mode(), Mode::Create);
    let spawned = press(&mut sandbox, &meshes, Key::F);
    assert!(spawned.is_empty());
    assert_eq!(sandbox.shapes().len(), 1);
    assert!(sandbox.tool_events().is_empty());
    click(&mut sandbox);
    assert_eq!(sandbox.mode(), Mode::Modify);
    let spawned = press(&mut sandbox, &meshes, Key::B);
    assert!(spawned.is_empty());
    assert_eq!(sandbox.shapes().len(), 1);
    assert_eq!(activate_tool(&mut sandbox, Tool::Box, meshes.get(0)), None);
    assert_eq!(sandbox.shapes().len(), 1);
    assert_eq!(sandbox.mode(), Mode::Modify);
    assert!(!sandbox.can_spawn());
}

#[test]
fn two_tools_in_one_tick_spawn_one_shape() {
    let meshes = generate_textures();
    let mut sandbox = Sandbox::new();
    handle_input(&mut sandbox, &vec![Key::F, Key::B]);
    assert_eq!(
        sandbox.tool_events().clone(),
        vec![ToolEvent { tool: Tool::Box }, ToolEvent { tool: Tool::ForceField }]
    );
    let spawned = handle_tool_events(&mut sandbox, &meshes);
    assert_eq!(spawned, vec![0]);
    assert_eq!(sandbox.shapes().len(), 1);
    assert_eq!(sandbox.shapes()[0].solid, Solid::Box);
    assert_eq!(sandbox.mode(), Mode::Create);
    assert!(sandbox.tool_events().is_empty());
}

#[test]
fn stacking_order_grows_with_every_shape() {
    let meshes = generate_textures();
    let mut sandbox = Sandbox::new();
    let first = committed_box(&mut sandbox, &meshes, (0, 0), (1000, 1000));
    let second = committed_box(&mut sandbox, &meshes, (0, 0), (1000, 1000));
    assert!(first < second);
    assert_eq!(sandbox.shape(first).unwrap().z, 0);
    assert_eq!(sandbox.shape(second).unwrap().z, 1);
    assert_eq!(sandbox.z_counter(), 2);
    assert_eq!(sandbox.shape(99), None);
    assert_eq!(sandbox.find_shape(second), Some(1));
}

#[test]
fn escape_despawns_the_shape_in_progress() {
    let meshes = generate_textures();
    let mut sandbox = Sandbox::new();
    let kept = committed_box(&mut sandbox, &meshes, (0, 0), (1000, 1000));
    let spawned = press(&mut sandbox, &meshes, Key::B);
    assert_eq!(sandbox.shapes().len(), 2);
    let despawned = handle_input(&mut sandbox, &vec![Key::Escape]);
    assert_eq!(despawned, spawned);
    assert_eq!(sandbox.mode(), Mode::Default);
    assert_eq!(sandbox.shapes().len(), 1);
    assert_eq!(sandbox.shapes()[0].id, kept);

    press(&mut sandbox, &meshes, Key::B);
    click(&mut sandbox);
    assert_eq!(sandbox.mode(), Mode::Modify);
    let despawned = cancel(&mut sandbox);
    assert_eq!(despawned.len(), 1);
    assert_eq!(sandbox.mode(), Mode::Default);
    assert_eq!(sandbox.shapes().len(), 1);
}

#[test]
fn cancel_in_default_mode_changes_nothing() {
    let meshes = generate_textures();
    let mut sandbox = Sandbox::new();
    committed_box(&mut sandbox, &meshes, (0, 0), (1000, 1000));
    committed_box(&mut sandbox, &meshes, (5000, 0), (6000, 1000));
    let before = sandbox.shapes().clone();
    let despawned = cancel(&mut sandbox);
    assert!(despawned.is_empty());
    assert_eq!(sandbox.mode(), Mode::Default);
    assert_eq!(sandbox.shapes().clone(), before);
    let despawned = handle_input(&mut sandbox, &vec![Key::Escape]);
    assert!(despawned.is_empty());
    assert_eq!(sandbox.shapes().clone(), before);
    assert!(sandbox.tool_events().is_empty());
}

#[test]
fn escape_and_a_tool_key_in_one_tick() {
    let meshes = generate_textures();
    let mut sandbox = Sandbox::new();
    press(&mut sandbox, &meshes, Key::B);
    let despawned = handle_input(&mut sandbox, &vec![Key::Escape, Key::F]);
    assert_eq!(despawned, vec![0]);
    assert_eq!(sandbox.mode(), Mode::Default);
    assert_eq!(sandbox.tool_events().clone(), vec![ToolEvent { tool: Tool::ForceField }]);
    let spawned = handle_tool_events(&mut sandbox, &meshes);
    assert_eq!(spawned, vec![1]);
    assert_eq!(sandbox.mode(), Mode::Create);
}

#[test]
fn scaling_is_symmetric_about_the_midpoint() {
    let meshes = generate_textures();
    let mut sandbox = Sandbox::new();
    press(&mut sandbox, &meshes, Key::B);
    point_at(&mut sandbox, -300, 200);
    click(&mut sandbox);
    point_at(&mut sandbox, 500, -1000);
    let t = sandbox.shapes()[0].transform;
    assert_eq!(t.translation, Vec2::new(100, -400));
    assert_eq!(t.scale, Vec2::new(800, 1200));
    // An odd sum: the centre is taken at the lower sub-unit, and the pointer
    // stays at the corner.
    point_at(&mut sandbox, 4, -1);
    let t = sandbox.shapes()[0].transform;
    assert_eq!(t.translation, Vec2::new(-148, 99));
    assert_eq!(t.scale, Vec2::new(304, 200));
    // The pointer on the starting point: a shape without extent.
    point_at(&mut sandbox, -300, 200);
    let t = sandbox.shapes()[0].transform;
    assert_eq!(t.translation, Vec2::new(-300, 200));
    assert_eq!(t.scale, Vec2::new(0, 0));
    assert_eq!(t.rotation, Rotation { x: 1, y: 0 });
}

#[test]
fn click_on_the_centre_moves_the_shape() {
    let meshes = generate_textures();
    let mut sandbox = Sandbox::new();
    let id = committed_box(&mut sandbox, &meshes, (-500, -500), (500, 500));
    point_at(&mut sandbox, 100, 100);
    set_hover(&mut sandbox, &vec![id]);
    assert_eq!(sandbox.shapes()[0].hoverable.position, Some(HoverPosition::Center));
    handle_left_click(&mut sandbox, true);
    assert_eq!(
        sandbox.command_events().clone(),
        vec![CommandEvent { command: Command::Move { entity: id, start: Vec2::new(100, 100) } }]
    );
    handle_command_events(&mut sandbox);
    assert!(sandbox.command_events().is_empty());
    assert_eq!(sandbox.mode(), Mode::Modify);
    assert_eq!(
        sandbox.shapes()[0].modifying,
        Some(Modifying::Moving { start: Vec2::new(100, 100) })
    );
    // Its collider is off while the shape is moved; its body runs after the
    // pointer.
    assert_eq!(sandbox.shapes()[0].collider, None);
    point_at(&mut sandbox, 130, -40);
    assert_eq!(sandbox.shapes()[0].body, Some(Body { velocity: Vec2::new(1300, -400) }));
    assert_eq!(sandbox.shapes()[0].collider, None);
    assert_eq!(sandbox.shapes()[0].transform.translation, Vec2::new(0, 0));
    // The physics carries it along.
    sandbox.set_translation(id, Vec2::new(65, -20));
    point_at(&mut sandbox, 130, -40);
    assert_eq!(sandbox.shapes()[0].body, Some(Body { velocity: Vec2::new(650, -200) }));
    click(&mut sandbox);
    assert_eq!(sandbox.mode(), Mode::Default);
    assert_eq!(sandbox.shapes()[0].modifying, None);
    assert_eq!(sandbox.shapes()[0].body, Some(Body { velocity: Vec2::new(0, 0) }));
    assert_eq!(sandbox.shapes()[0].collider, Some(Collider { sensor: false }));
    assert_eq!(sandbox.shapes()[0].transform.translation, Vec2::new(65, -20));
}

#[test]
fn click_on_an_edge_rotates_the_shape() {
    let meshes = generate_textures();
    let mut sandbox = Sandbox::new();
    let id = committed_box(&mut sandbox, &meshes, (-500, -500), (500, 500));
    point_at(&mut sandbox, 480, 100);
    set_hover(&mut sandbox, &vec![id]);
    assert_eq!(sandbox.shapes()[0].hoverable.position, Some(HoverPosition::Edge));
    click(&mut sandbox);
    assert_eq!(sandbox.mode(), Mode::Modify);
    assert_eq!(
        sandbox.shapes()[0].modifying,
        Some(Modifying::Rotating { start: Vec2::new(480, 100) })
    );
    assert_eq!(sandbox.shapes()[0].collider, None);
    point_at(&mut sandbox, -300, 400);
    let t = sandbox.shapes()[0].transform;
    assert_eq!(t.rotation, Rotation { x: -300, y: 400 });
    assert_eq!(t.translation, Vec2::new(0, 0));
    assert_eq!(t.scale, Vec2::new(1000, 1000));
    // With the pointer on the shape's position there is nowhere to turn to.
    point_at(&mut sandbox, 0, 0);
    assert_eq!(sandbox.shapes()[0].transform.rotation, Rotation { x: -300, y: 400 });
    click(&mut sandbox);
    assert_eq!(sandbox.mode(), Mode::Default);
    assert_eq!(sandbox.shapes()[0].modifying, None);
    assert_eq!(sandbox.shapes()[0].transform.rotation, Rotation { x: -300, y: 400 });
}

#[test]
fn rotation_points_the_local_x_axis_at_the_pointer() {
    let meshes = generate_textures();
    let mut sandbox = Sandbox::new();
    let id = committed_box(&mut sandbox, &meshes, (1000, 1000), (3000, 2000));
    assert!(apply_rotate(&mut sandbox, id));
    for pointer in [(2500, 1500), (2000, 9000), (-7000, 1500), (1990, 1490), (2000, -3)] {
        point_at(&mut sandbox, pointer.0, pointer.1);
        let t = sandbox.shapes()[0].transform;
        let to_pointer = (pointer.0 - t.translation.x, pointer.1 - t.translation.y);
        let cross = t.rotation.x * to_pointer.1 - t.rotation.y * to_pointer.0;
        let dot = t.rotation.x * to_pointer.0 + t.rotation.y * to_pointer.1;
        assert_eq!(cross, 0);
        assert!(dot > 0);
    }
}

fn apply_rotate(sandbox: &mut Sandbox, id: u64) -> bool {
    apply_command(sandbox, Command::Rotate { entity: id, start: Vec2::new(0, 0) });
    sandbox.mode() == Mode::Modify
}

#[test]
fn click_on_a_corner_or_on_nothing_sends_no_command() {
    let meshes = generate_textures();
    let mut sandbox = Sandbox::new();
    let id = committed_box(&mut sandbox, &meshes, (-500, -500), (500, 500));
    point_at(&mut sandbox, 480, 480);
    set_hover(&mut sandbox, &vec![id]);
    assert_eq!(sandbox.shapes()[0].hoverable.position, Some(HoverPosition::Corner));
    click(&mut sandbox);
    assert_eq!(sandbox.mode(), Mode::Default);
    assert_eq!(sandbox.shapes()[0].modifying, None);
    point_at(&mut sandbox, 5000, 5000);
    set_hover(&mut sandbox, &vec![]);
    handle_left_click(&mut sandbox, true);
    assert!(sandbox.command_events().is_empty());
    assert_eq!(sandbox.mode(), Mode::Default);
}

#[test]
fn no_click_sends_no_command() {
    let meshes = generate_textures();
    let mut sandbox = Sandbox::new();
    press(&mut sandbox, &meshes, Key::B);
    handle_left_click(&mut sandbox, false);
    assert!(sandbox.command_events().is_empty());
    assert_eq!(sandbox.mode(), Mode::Create);
}

#[test]
fn a_command_is_applied_whatever_the_mode() {
    let meshes = generate_textures();
    let mut sandbox = Sandbox::new();
    let at_rest = Some(Body { velocity: Vec2::new(0, 0) });

    // `Scaled` in `Create` mode finishes the shape that is being placed.
    let first = press(&mut sandbox, &meshes, Key::B)[0];
    assert_eq!(sandbox.mode(), Mode::Create);
    apply_command(&mut sandbox, Command::Scaled);
    assert_eq!(sandbox.mode(), Mode::Default);
    assert_eq!(sandbox.shapes()[0].modifying, None);
    assert_eq!(sandbox.shapes()[0].body, at_rest);
    assert_eq!(sandbox.shapes()[0].collider, Some(Collider { sensor: false }));
    assert_eq!(sandbox.shapes()[0].transform.scale, Vec2::new(10 * UNIT, 10 * UNIT));

    // `Created` in `Default` mode finds nothing to put down and sets `Modify`.
    let before = sandbox.shapes().clone();
    apply_command(&mut sandbox, Command::Created { position: Vec2::new(1, 1) });
    assert_eq!(sandbox.mode(), Mode::Modify);
    assert_eq!(sandbox.shapes().clone(), before);
    // `Scaled` with nothing in progress only sets `Default`.
    apply_command(&mut sandbox, Command::Scaled);
    assert_eq!(sandbox.mode(), Mode::Default);
    assert_eq!(sandbox.shapes().clone(), before);

    // `Move` in `Create` mode picks its shape up beside the one being placed.
    let second = press(&mut sandbox, &meshes, Key::F)[0];
    apply_command(&mut sandbox, Command::Move { entity: first, start: Vec2::new(3, 4) });
    assert_eq!(sandbox.mode(), Mode::Modify);
    assert_eq!(
        sandbox.shape(first).unwrap().modifying,
        Some(Modifying::Moving { start: Vec2::new(3, 4) })
    );
    assert_eq!(sandbox.shape(first).unwrap().body, at_rest);
    assert_eq!(sandbox.shape(first).unwrap().collider, None);
    assert_eq!(sandbox.shape(second).unwrap().modifying, Some(Modifying::Placing));
    assert_eq!(sandbox.shape(second).unwrap().body, None);
    assert_eq!(sandbox.shape(second).unwrap().collider, None);

    // `Created` puts down whatever is in progress, of any kind.
    apply_command(&mut sandbox, Command::Created { position: Vec2::new(7, 7) });
    assert_eq!(sandbox.mode(), Mode::Modify);
    let scaling = Some(Modifying::Scaling { start: Vec2::new(7, 7) });
    assert_eq!(sandbox.shape(first).unwrap().modifying, scaling);
    assert_eq!(sandbox.shape(first).unwrap().collider, None);
    assert_eq!(sandbox.shape(second).unwrap().modifying, scaling);
    assert_eq!(sandbox.shape(second).unwrap().collider, None);

    // `Rotate` replaces what a shape carries.
    apply_command(&mut sandbox, Command::Rotate { entity: second, start: Vec2::new(9, 9) });
    assert_eq!(
        sandbox.shape(second).unwrap().modifying,
        Some(Modifying::Rotating { start: Vec2::new(9, 9) })
    );
    assert_eq!(sandbox.shape(second).unwrap().collider, None);

    // `Scaled` finishes every shape that carries something.
    apply_command(&mut sandbox, Command::Scaled);
    assert_eq!(sandbox.mode(), Mode::Default);
    assert_eq!(sandbox.shape(first).unwrap().modifying, None);
    assert_eq!(sandbox.shape(first).unwrap().body, at_rest);
    assert_eq!(sandbox.shape(first).unwrap().collider, Some(Collider { sensor: false }));
    assert_eq!(sandbox.shape(second).unwrap().modifying, None);
    assert_eq!(sandbox.shape(second).unwrap().body, at_rest);
    assert_eq!(sandbox.shape(second).unwrap().collider, Some(Collider { sensor: true }));
}

#[test]
fn a_command_for_a_missing_shape_is_skipped() {
    let meshes = generate_textures();
    let mut sandbox = Sandbox::new();
    let id = committed_box(&mut sandbox, &meshes, (-500, -500), (500, 500));
    let before = sandbox.shapes().clone();
    apply_command(&mut sandbox, Command::Move { entity: id + 1, start: Vec2::new(1, 1) });
    assert_eq!(sandbox.mode(), Mode::Default);
    assert_eq!(sandbox.shapes().clone(), before);
    apply_command(&mut sandbox, Command::Rotate { entity: id + 1, start: Vec2::new(1, 1) });
    assert_eq!(sandbox.mode(), Mode::Default);
    assert_eq!(sandbox.shapes().clone(), before);
    // While a shape is placed, the mode stays `Create`.
    press(&mut sandbox, &meshes, Key::B);
    apply_command(&mut sandbox, Command::Move { entity: 99, start: Vec2::new(1, 1) });
    assert_eq!(sandbox.mode(), Mode::Create);
}

#[test]
fn a_command_from_outside_the_world_changes_nothing() {
    let meshes = generate_textures();
    let mut sandbox = Sandbox::new();
    let id = committed_box(&mut sandbox, &meshes, (-500, -500), (500, 500));
    let before = sandbox.shapes().clone();
    apply_command(&mut sandbox, Command::Rotate { entity: id, start: Vec2::new(i64::MAX, 0) });
    apply_command(&mut sandbox, Command::Move { entity: id, start: Vec2::new(0, -100_000_001) });
    apply_command(&mut sandbox, Command::Created { position: Vec2::new(100_000_001, 0) });
    assert_eq!(sandbox.mode(), Mode::Default);
    assert_eq!(sandbox.shapes().clone(), before);
}

#[test]
fn the_last_command_sets_the_mode() {
    let meshes = generate_textures();
    let mut sandbox = Sandbox::new();
    // Nothing waiting: the mode stays.
    press(&mut sandbox, &meshes, Key::B);
    handle_command_events(&mut sandbox);
    assert_eq!(sandbox.mode(), Mode::Create);
    // Two clicks before the commands are handled: `Created` twice.
    handle_left_click(&mut sandbox, true);
    point_at(&mut sandbox, 20, 30);
    handle_left_click(&mut sandbox, true);
    assert_eq!(
        sandbox.command_events().clone(),
        vec![
            CommandEvent { command: Command::Created { position: Vec2::new(0, 0) } },
            CommandEvent { command: Command::Created { position: Vec2::new(20, 30) } },
        ]
    );
    handle_command_events(&mut sandbox);
    assert_eq!(sandbox.mode(), Mode::Modify);
    assert_eq!(
        sandbox.shapes()[0].modifying,
        Some(Modifying::Scaling { start: Vec2::new(20, 30) })
    );
    // A click in `Modify` mode and one more before it is handled: `Scaled`
    // twice.
    handle_left_click(&mut sandbox, true);
    handle_left_click(&mut sandbox, true);
    handle_command_events(&mut sandbox);
    assert_eq!(sandbox.mode(), Mode::Default);
    assert!(sandbox.command_events().is_empty());
    assert_eq!(sandbox.shapes()[0].modifying, None);
    assert!(sandbox.shapes()[0].body.is_some());
    assert!(sandbox.shapes()[0].collider.is_some());
}

#[test]
fn collider_goes_with_carrying_nothing() {
    let meshes = generate_textures();
    let mut sandbox = Sandbox::new();
    let check = |sandbox: &Sandbox| {
        for shape in sandbox.shapes() {
            assert_eq!(shape.collider.is_some(), shape.modifying.is_none());
            if shape.modifying.is_none() {
                assert_eq!(shape.body, Some(Body { velocity: Vec2::new(0, 0) }));
            }
        }
        let in_progress = sandbox.shapes().iter().filter(|s| s.modifying.is_some()).count();
        match sandbox.mode() {
            Mode::Default => assert_eq!(in_progress, 0),
            _ => assert!(in_progress <= 1),
        }
    };
    check(&sandbox);
    let id = committed_box(&mut sandbox, &meshes, (-500, -500), (500, 500));
    check(&sandbox);
    press(&mut sandbox, &meshes, Key::F);
    check(&sandbox);
    point_at(&mut sandbox, 50, 50);
    click(&mut sandbox);
    check(&sandbox);
    point_at(&mut sandbox, 250, 350);
    click(&mut sandbox);
    check(&sandbox);
    point_at(&mut sandbox, 0, 0);
    set_hover(&mut sandbox, &vec![id]);
    click(&mut sandbox);
    assert_eq!(sandbox.mode(), Mode::Modify);
    check(&sandbox);
    handle_input(&mut sandbox, &vec![Key::Escape]);
    check(&sandbox);
    assert_eq!(sandbox.shapes().len(), 1);
}

#[test]
fn pointer_falls_back_when_the_cursor_is_away() {
    let mut snapping = Sandbox::new();
    calculate_mouse_position(&mut snapping, Some(Vec2::new(300, -200)));
    assert_eq!(snapping.mouse(), Vec2::new(300, -200));
    calculate_mouse_position(&mut snapping, None);
    assert_eq!(snapping.mouse(), Vec2::new(0, 0));

    let mut staying = Sandbox::with_pointer_fallback(PointerFallback::LastKnown);
    calculate_mouse_position(&mut staying, Some(Vec2::new(300, -200)));
    calculate_mouse_position(&mut staying, None);
    assert_eq!(staying.mouse(), Vec2::new(300, -200));
    // A cursor outside the world counts as away.
    calculate_mouse_position(&mut staying, Some(Vec2::new(100_000_001, 0)));
    assert_eq!(staying.mouse(), Vec2::new(300, -200));
    calculate_mouse_position(&mut staying, Some(Vec2::new(100_000_000, -100_000_000)));
    assert_eq!(staying.mouse(), Vec2::new(100_000_000, -100_000_000));
}

#[test]
fn physics_feedback_outside_the_world_is_dropped() {
    let meshes = generate_textures();
    let mut sandbox = Sandbox::new();
    let id = committed_box(&mut sandbox, &meshes, (-500, -500), (500, 500));
    sandbox.set_translation(id, Vec2::new(0, i64::MIN));
    assert_eq!(sandbox.shapes()[0].transform.translation, Vec2::new(0, 0));
    sandbox.set_translation(id + 5, Vec2::new(7, 7));
    assert_eq!(sandbox.shapes()[0].transform.translation, Vec2::new(0, 0));
    sandbox.set_translation(id, Vec2::new(7, -7));
    assert_eq!(sandbox.shapes()[0].transform.translation, Vec2::new(7, -7));
}

#[test]
fn the_mode_tells_what_shapes_carry() {
    let meshes = generate_textures();
    let mut sandbox = Sandbox::new();
    let carried = |sandbox: &Sandbox| -> Vec<Modifying> {
        sandbox.shapes().iter().filter_map(|s| s.modifying).collect()
    };
    let id = committed_box(&mut sandbox, &meshes, (-500, -500), (500, 500));
    assert_eq!(sandbox.mode(), Mode::Default);
    assert_eq!(carried(&sandbox), vec![]);
    press(&mut sandbox, &meshes, Key::B);
    assert_eq!(sandbox.mode(), Mode::Create);
    assert_eq!(carried(&sandbox), vec![Modifying::Placing]);
    point_at(&mut sandbox, 30, 40);
    click(&mut sandbox);
    assert_eq!(sandbox.mode(), Mode::Modify);
    assert_eq!(carried(&sandbox), vec![Modifying::Scaling { start: Vec2::new(30, 40) }]);
    click(&mut sandbox);
    assert_eq!(sandbox.mode(), Mode::Default);
    assert_eq!(carried(&sandbox), vec![]);
    point_at(&mut sandbox, -100, 0);
    set_hover(&mut sandbox, &vec![id]);
    click(&mut sandbox);
    assert_eq!(sandbox.mode(), Mode::Modify);
    assert_eq!(carried(&sandbox), vec![Modifying::Moving { start: Vec2::new(-100, 0) }]);
    // A second click on a hovered shape finishes the move; it picks nothing up.
    set_hover(&mut sandbox, &vec![id]);
    click(&mut sandbox);
    assert_eq!(sandbox.mode(), Mode::Default);
    assert_eq!(carried(&sandbox), vec![]);
}
