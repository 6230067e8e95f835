use platform_game::components::{Camera, Parent, SpriteRef, Transform};
use platform_game::game::{Game, Key, Screen, StateEvent, Trans, WindowEvent, ARENA_HEIGHT, ARENA_WIDTH};
use platform_game::hierarchy::HierarchyError;
use platform_game::kinds::{GUnitAttributes, PlatformAttributes, PlatformType, ResourceAttributes, ResourceType};
use platform_game::screens::ScreenStack;
use platform_game::store::Entity;
use platform_game::world::World;

fn started() -> (ScreenStack, World) {
    let mut world = World::new();
    let mut game = Game::default();
    game.on_start(&mut world, 3);
    (ScreenStack::new(game), world)
}

fn snapshot(world: &World) -> Vec<Option<Transform>> {
    (0..world.next_id).map(|id| world.transforms.get(Entity { id })).collect()
}

#[test]
fn entering_playing_builds_the_initial_layout() {
    let (stack, world) = started();
    let s = SpriteRef { sheet: 3, index: 0 };
    assert_eq!(world.next_id, 5);
    assert_eq!(
        world.cameras.get(Entity { id: 0 }),
        Some(Camera { width: ARENA_WIDTH, height: ARENA_HEIGHT })
    );
    assert_eq!(world.transforms.get(Entity { id: 0 }).map(|t| (t.x, t.y, t.z)), Some((800, 450, 10)));
    assert_eq!(world.platforms.get(Entity { id: 1 }), Some(PlatformAttributes(PlatformType::Blank)));
    assert_eq!(world.transforms.get(Entity { id: 2 }).map(|t| (t.x, t.y)), Some((800, 600)));
    assert_eq!(world.resources.get(Entity { id: 3 }), Some(ResourceAttributes { kind: ResourceType::Perl }));
    assert_eq!(world.units.get(Entity { id: 4 }), Some(GUnitAttributes { vx: 1, vy: 1 }));
    assert_eq!(world.sprites.get(Entity { id: 4 }), Some(s));
    assert!(stack.game.dispatcher.is_some());
    assert_eq!(stack.active(), Screen::Playing);
}

#[test]
fn escape_pushes_pause_without_touching_entities() {
    let (mut stack, world) = started();
    let before = snapshot(&world);
    let t = stack.handle_event(StateEvent::Window(WindowEvent::KeyDown(Key::Escape)));
    assert_eq!(t, Trans::Push(Screen::Paused));
    assert_eq!(stack.screens, vec![Screen::Playing, Screen::Paused]);
    assert!(stack.game.paused);
    assert_eq!(world.next_id, 5);
    assert_eq!(snapshot(&world), before);
}

#[test]
fn close_request_pushes_pause() {
    let (mut stack, _world) = started();
    let t = stack.handle_event(StateEvent::Window(WindowEvent::CloseRequested));
    assert_eq!(t, Trans::Push(Screen::Paused));
    assert_eq!(stack.active(), Screen::Paused);
}

#[test]
fn other_events_change_nothing() {
    let (mut stack, _world) = started();
    for ev in [
        StateEvent::Window(WindowEvent::KeyDown(Key::Other(32))),
        StateEvent::Window(WindowEvent::KeyUp(Key::Escape)),
        StateEvent::Window(WindowEvent::Other),
        StateEvent::Ui,
        StateEvent::Input,
    ] {
        assert_eq!(stack.handle_event(ev), Trans::Stay);
    }
    assert_eq!(stack.screens, vec![Screen::Playing]);
    assert!(!stack.game.paused);
}

#[test]
fn events_on_the_overlay_are_not_seen_by_playing() {
    let (mut stack, _world) = started();
    stack.handle_event(StateEvent::Window(WindowEvent::KeyDown(Key::Escape)));
    let t = stack.handle_event(StateEvent::Window(WindowEvent::KeyDown(Key::Escape)));
    assert_eq!(t, Trans::Stay);
    assert_eq!(stack.screens.len(), 2);
}

#[test]
fn paused_updates_freeze_the_world_until_resume() {
    let (mut stack, mut world) = started();
    stack.handle_event(StateEvent::Window(WindowEvent::KeyDown(Key::Escape)));
    let before = snapshot(&world);
    for _ in 0..5 {
        assert_eq!(stack.tick(&mut world), Trans::Stay);
        assert_eq!(stack.game.update(&mut world), Trans::Stay);
    }
    assert_eq!(snapshot(&world), before);
    assert!(stack.pop());
    assert!(!stack.game.paused);
    assert!(!stack.pop());
    stack.tick(&mut world);
    assert_eq!(world.transforms.get(Entity { id: 4 }).map(|t| (t.x, t.y)), Some((811, 606)));
}

#[test]
fn update_without_dispatcher_changes_nothing() {
    let mut world = World::new();
    let mut game = Game::default();
    assert_eq!(game.update(&mut world), Trans::Stay);
    assert_eq!(world.next_id, 0);
}

#[test]
fn stopping_without_ui_clears_handles() {
    let (mut stack, mut world) = started();
    stack.game.fps_display = Some(Entity { id: 1 });
    assert_eq!(stack.game.on_stop(&mut world), Ok(()));
    assert_eq!(stack.game.fps_display, None);
    assert_eq!(world.next_id, 5);
    assert!(world.platforms.get(Entity { id: 1 }).is_some());
}

#[test]
fn stopping_deletes_the_ui_tree() {
    let (mut stack, mut world) = started();
    world.parents.register();
    let root = world.create_entity();
    world.cameras.register();
    world.cameras.attach(root, Camera { width: 1, height: 1 });
    let child = world.create_entity();
    world.parents.attach(child, Parent { parent: root });
    world.cameras.attach(child, Camera { width: 2, height: 2 });
    let grandchild = world.create_entity();
    world.parents.attach(grandchild, Parent { parent: child });
    world.cameras.attach(grandchild, Camera { width: 3, height: 3 });
    world.parents.attach(Entity { id: 4 }, Parent { parent: Entity { id: 3 } });
    stack.game.ui_root = Some(root);
    stack.game.random_text = Some(child);
    assert_eq!(stack.game.on_stop(&mut world), Ok(()));
    assert_eq!(world.cameras.get(root), None);
    assert_eq!(world.cameras.get(child), None);
    assert_eq!(world.parents.get(grandchild), None);
    assert_eq!(world.cameras.get(grandchild), None);
    assert!(world.cameras.get(Entity { id: 0 }).is_some());
    assert!(world.units.get(Entity { id: 4 }).is_some());
    assert_eq!(stack.game.ui_root, None);
    assert_eq!(stack.game.random_text, None);
}

#[test]
fn failed_ui_deletion_aborts_the_exit() {
    let (mut stack, mut world) = started();
    stack.game.ui_root = Some(Entity { id: 42 });
    assert_eq!(stack.game.on_stop(&mut world), Err(HierarchyError::UnknownEntity));
    assert_eq!(stack.game.ui_root, Some(Entity { id: 42 }));
    assert_eq!(world.next_id, 5);
}
