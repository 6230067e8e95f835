use platform_game::components::{SpriteRef, Transform};
use platform_game::dispatcher::{DispatcherBuilder, SystemGraphError, SystemKind};
use platform_game::general_unit::{create_gunit, UNIT_LAYER, UNIT_SCALE_PCT};
use platform_game::kinds::{GUnitAttributes, PlatformAttributes, ResourceAttributes, ResourceType};
use platform_game::platform::{create_platform, BASE_PLATFORM_LAYER, PLATFORM_SCALE_PCT};
use platform_game::resources::{create_resource, RESOURCE_LAYER, RESOURCE_SCALE_PCT};
use platform_game::world::World;

fn position(order: &[usize], x: usize) -> usize {
    order.iter().position(|&y| y == x).unwrap()
}

#[test]
fn acyclic_graph_gets_topological_order() {
    let b = DispatcherBuilder::new()
        .with(SystemKind::GUnitMovement, vec![2])
        .with(SystemKind::GUnitMovement, vec![0, 2])
        .with(SystemKind::GUnitMovement, vec![])
        .with(SystemKind::GUnitMovement, vec![1]);
    let d = b.build().unwrap();
    assert_eq!(d.order.len(), 4);
    let o = &d.order;
    assert!(position(o, 2) < position(o, 0));
    assert!(position(o, 0) < position(o, 1));
    assert!(position(o, 2) < position(o, 1));
    assert!(position(o, 1) < position(o, 3));
}

#[test]
fn empty_builder_builds_empty_order() {
    let d = DispatcherBuilder::new().build().unwrap();
    assert!(d.order.is_empty());
}

#[test]
fn cyclic_graph_is_refused() {
    let b = DispatcherBuilder::new()
        .with(SystemKind::GUnitMovement, vec![1])
        .with(SystemKind::GUnitMovement, vec![2])
        .with(SystemKind::GUnitMovement, vec![0]);
    assert_eq!(b.build().err(), Some(SystemGraphError::Cycle));
}

#[test]
fn self_dependency_is_a_cycle() {
    let b = DispatcherBuilder::new().with(SystemKind::GUnitMovement, vec![0]);
    assert_eq!(b.build().err(), Some(SystemGraphError::Cycle));
}

#[test]
fn unknown_dependency_is_refused() {
    let b = DispatcherBuilder::new()
        .with(SystemKind::GUnitMovement, vec![])
        .with(SystemKind::GUnitMovement, vec![5]);
    assert_eq!(b.build().err(), Some(SystemGraphError::UnknownDependency));
}

#[test]
fn one_tick_moves_units_only() {
    let s = SpriteRef { sheet: 1, index: 0 };
    let mut world = World::new();
    world.platforms.register();
    world.resources.register();
    world.units.register();
    let p = create_platform(PlatformAttributes::default(), &mut world, s, 200, 300).unwrap();
    let r = create_resource(ResourceAttributes::new(ResourceType::Perl), &mut world, s, 200, 300);
    let u = create_gunit(GUnitAttributes::default(), &mut world, s, 810, 605);
    let d = DispatcherBuilder::new().with(SystemKind::GUnitMovement, vec![]).build().unwrap();
    d.setup(&mut world);
    d.dispatch(&mut world);
    assert_eq!(
        world.transforms.get(u),
        Some(Transform { x: 811, y: 606, z: UNIT_LAYER, scale_pct: UNIT_SCALE_PCT })
    );
    assert_eq!(
        world.transforms.get(p),
        Some(Transform { x: 200, y: 300, z: BASE_PLATFORM_LAYER, scale_pct: PLATFORM_SCALE_PCT })
    );
    assert_eq!(
        world.transforms.get(r),
        Some(Transform { x: 200, y: 300, z: RESOURCE_LAYER, scale_pct: RESOURCE_SCALE_PCT })
    );
}

#[test]
fn systems_in_one_tick_read_the_tick_start() {
    let s = SpriteRef { sheet: 1, index: 0 };
    let mut world = World::new();
    let u = create_gunit(GUnitAttributes { vx: 2, vy: -5 }, &mut world, s, 10, 10);
    let d = DispatcherBuilder::new()
        .with(SystemKind::GUnitMovement, vec![])
        .with(SystemKind::GUnitMovement, vec![0])
        .build()
        .unwrap();
    d.dispatch(&mut world);
    assert_eq!(world.transforms.get(u).map(|t| (t.x, t.y)), Some((12, 5)));
    d.dispatch(&mut world);
    assert_eq!(world.transforms.get(u).map(|t| (t.x, t.y)), Some((14, 0)));
}

#[test]
fn movement_saturates_at_the_edge() {
    let s = SpriteRef { sheet: 1, index: 0 };
    let mut world = World::new();
    let u = create_gunit(GUnitAttributes { vx: 10, vy: -10 }, &mut world, s, i64::MAX - 3, i64::MIN + 3);
    let d = DispatcherBuilder::new().with(SystemKind::GUnitMovement, vec![]).build().unwrap();
    d.dispatch(&mut world);
    assert_eq!(world.transforms.get(u).map(|t| (t.x, t.y)), Some((i64::MAX, i64::MIN)));
}
