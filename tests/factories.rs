use platform_game::components::{SpriteRef, Tint, Transform};
use platform_game::general_unit::{create_gunit, UNIT_LAYER, UNIT_SCALE_PCT};
use platform_game::kinds::{GUnitAttributes, PlatformAttributes, PlatformType, ResourceAttributes, ResourceType};
use platform_game::platform::{create_platform, tint_for, FactoryError, BASE_PLATFORM_LAYER, PLATFORM_SCALE_PCT};
use platform_game::resources::{create_resource, RESOURCE_LAYER};
use platform_game::store::Entity;
use platform_game::world::World;

fn sprite() -> SpriteRef {
    SpriteRef { sheet: 7, index: 0 }
}

#[test]
fn blank_platform_gets_white_tint() {
    let mut world = World::new();
    let e = create_platform(PlatformAttributes::default(), &mut world, sprite(), 200, 300).unwrap();
    assert_eq!(e, Entity { id: 0 });
    assert_eq!(world.tints.get(e), Some(Tint { r: 255, g: 255, b: 255, a: 204 }));
    assert_eq!(world.platforms.get(e), Some(PlatformAttributes(PlatformType::Blank)));
    assert_eq!(world.sprites.get(e), Some(sprite()));
    assert_eq!(
        world.transforms.get(e),
        Some(Transform { x: 200, y: 300, z: BASE_PLATFORM_LAYER, scale_pct: PLATFORM_SCALE_PCT })
    );
    assert!(world.platforms.registered);
}

#[test]
fn tint_table_maps_every_variant_once() {
    assert_eq!(tint_for(PlatformType::Blank), Some(Tint { r: 255, g: 255, b: 255, a: 204 }));
    assert_eq!(tint_for(PlatformType::_ExhaustiveMatches), None);
}

#[test]
fn unmapped_platform_variant_is_refused() {
    let mut world = World::new();
    let r = create_platform(
        PlatformAttributes(PlatformType::_ExhaustiveMatches),
        &mut world,
        sprite(),
        1,
        2,
    );
    assert_eq!(r, Err(FactoryError::UnmappedVariant));
    assert_eq!(world.next_id, 0);
    assert!(!world.platforms.registered);
    assert_eq!(world.transforms.get(Entity { id: 0 }), None);
}

#[test]
fn repeated_factory_calls_give_distinct_entities() {
    let mut world = World::new();
    let mut ids = Vec::new();
    for _ in 0..3 {
        ids.push(create_platform(PlatformAttributes::default(), &mut world, sprite(), 5, 6).unwrap());
    }
    for _ in 0..3 {
        ids.push(create_resource(ResourceAttributes::new(ResourceType::Perl), &mut world, sprite(), 5, 6));
    }
    for _ in 0..3 {
        ids.push(create_gunit(GUnitAttributes::default(), &mut world, sprite(), 5, 6));
    }
    let expected: Vec<Entity> = (0..9).map(|id| Entity { id }).collect();
    assert_eq!(ids, expected);
    for e in &ids[0..3] {
        assert_eq!(world.transforms.get(*e).unwrap().z, BASE_PLATFORM_LAYER);
        assert_eq!(world.tints.get(*e), Some(Tint { r: 255, g: 255, b: 255, a: 204 }));
    }
    for e in &ids[3..6] {
        assert_eq!(world.transforms.get(*e).unwrap().z, RESOURCE_LAYER);
        assert_eq!(world.resources.get(*e), Some(ResourceAttributes { kind: ResourceType::Perl }));
        assert_eq!(world.tints.get(*e), None);
    }
    for e in &ids[6..9] {
        assert_eq!(
            world.transforms.get(*e),
            Some(Transform { x: 5, y: 6, z: UNIT_LAYER, scale_pct: UNIT_SCALE_PCT })
        );
        assert_eq!(world.units.get(*e), Some(GUnitAttributes { vx: 1, vy: 1 }));
    }
}

#[test]
fn attach_overwrites_and_remove_clears() {
    let mut world = World::new();
    let e = create_gunit(GUnitAttributes::default(), &mut world, sprite(), 0, 0);
    world.units.attach(e, GUnitAttributes { vx: -3, vy: 4 });
    assert_eq!(world.units.get(e), Some(GUnitAttributes { vx: -3, vy: 4 }));
    world.units.register();
    assert_eq!(world.units.get(e), Some(GUnitAttributes { vx: -3, vy: 4 }));
    world.units.remove(e);
    assert_eq!(world.units.get(e), None);
    assert_eq!(world.units.get(Entity { id: 99 }), None);
}
