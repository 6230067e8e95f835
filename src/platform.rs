use vstd::prelude::*;
use crate::components::{SpriteRef, Tint, Transform};
use crate::kinds::{PlatformAttributes, PlatformType};
use crate::store::put;
use crate::world::{World, WorldView};

verus! {

/// Render layer of platforms.
pub const BASE_PLATFORM_LAYER: i64 = 0;

/// Platforms are drawn at a quarter of their sprite's size.
pub const PLATFORM_SCALE_PCT: u32 = 25;

/// Why a factory refused to build an entity.
#[derive(Clone, Copy, Debug, PartialEq, Eq, Structural)]
pub enum FactoryError {
    /// The variant has no entry in the variant to color table.
    UnmappedVariant,
}

/// The variant to color table: white at 80% opacity for a blank platform; no
/// color for any other variant.
pub open spec fn platform_tint(t: PlatformType) -> Option<Tint> {
    match t {
        PlatformType::Blank => Some(Tint { r: 255, g: 255, b: 255, a: 204 }),
        PlatformType::_ExhaustiveMatches => None,
    }
}

/// Looks up the color of a platform variant.
pub fn tint_for(t: PlatformType) -> (r: Option<Tint>)
    ensures
        r == platform_tint(t),
{
    match t {
        PlatformType::Blank => Some(Tint { r: 255, g: 255, b: 255, a: 204 }),
        PlatformType::_ExhaustiveMatches => None,
    }
}

/// The transform a platform gets at (x, y).
pub open spec fn platform_transform(x: i64, y: i64) -> Transform {
    Transform { x, y, z: BASE_PLATFORM_LAYER, scale_pct: PLATFORM_SCALE_PCT }
}

/// The store after a platform with a color has been created in it.
pub open spec fn spawn_platform(
    v: WorldView,
    p: PlatformAttributes,
    tint: Tint,
    s: SpriteRef,
    x: i64,
    y: i64,
) -> WorldView {
    let e = v.next_id as usize;
    WorldView {
        next_id: v.next_id + 1,
        transforms: put(v.transforms, e, platform_transform(x, y)),
        sprites: put(v.sprites, e, s),
        tints: put(v.tints, e, tint),
        platforms: put(v.platforms, e, p),
        ..v
    }
}

/// Creates a platform entity at (x, y) with its sprite, attributes and the
/// color of its variant. A variant without a color is refused before anything
/// is created.
pub fn create_platform(
    platform: PlatformAttributes,
    world: &mut World,
    sprite_render: SpriteRef,
    x: i64,
    y: i64,
) -> (r: Result<crate::store::Entity, FactoryError>)
    requires
        old(world).wf(),
        old(world).next_id < usize::MAX,
    ensures
        final(world).wf(),
        platform_tint(platform.0) is None <==> r == Err::<crate::store::Entity, FactoryError>(
            FactoryError::UnmappedVariant,
        ),
        platform_tint(platform.0) is None ==> final(world)@ == old(world)@,
        platform_tint(platform.0) is Some ==> {
            &&& r == Ok::<crate::store::Entity, FactoryError>(crate::store::Entity { id: old(world).next_id })
            &&& final(world)@ == spawn_platform(
                old(world)@,
                platform,
                platform_tint(platform.0)->Some_0,
                sprite_render,
                x,
                y,
            )
        },
{
    let tint = match tint_for(platform.0) {
        Some(t) => t,
        None => return Err(FactoryError::UnmappedVariant),
    };
    let trans = Transform { x, y, z: BASE_PLATFORM_LAYER, scale_pct: PLATFORM_SCALE_PCT };
    let e = world.create_entity();
    world.sprites.register();
    world.sprites.attach(e, sprite_render);
    world.platforms.register();
    world.platforms.attach(e, platform);
    world.transforms.register();
    world.transforms.attach(e, trans);
    world.tints.register();
    world.tints.attach(e, tint);
    assert(world@ =~= spawn_platform(old(world)@, platform, tint, sprite_render, x, y));
    Ok(e)
}

} // verus!

verus! {

/// One platform creation with fixed arguments, as a step on the store.
pub open spec fn platform_spawner(
    p: PlatformAttributes,
    tint: Tint,
    s: SpriteRef,
    x: i64,
    y: i64,
) -> spec_fn(WorldView) -> WorldView {
    |w: WorldView| spawn_platform(w, p, tint, s, x, y)
}

/// Entity `id` has exactly the rows that one platform creation gives it.
pub open spec fn holds_platform(
    r: WorldView,
    id: usize,
    p: PlatformAttributes,
    tint: Tint,
    s: SpriteRef,
    x: i64,
    y: i64,
) -> bool {
    &&& r.platforms.rows.dom().contains(id) && r.platforms.rows[id] == p
    &&& r.transforms.rows.dom().contains(id) && r.transforms.rows[id] == platform_transform(x, y)
    &&& r.tints.rows.dom().contains(id) && r.tints.rows[id] == tint
    &&& r.sprites.rows.dom().contains(id) && r.sprites.rows[id] == s
}

/// Entity `k` has the same rows in `r` as in `v`, in every table that a
/// platform creation writes.
pub open spec fn keeps_platform_rows(r: WorldView, v: WorldView, k: usize) -> bool {
    &&& crate::world::same_row(r.platforms, v.platforms, k)
    &&& crate::world::same_row(r.transforms, v.transforms, k)
    &&& crate::world::same_row(r.tints, v.tints, k)
    &&& crate::world::same_row(r.sprites, v.sprites, k)
}

/// Creating `n` platforms with the same arguments gives `n` distinct
/// entities, the ids that come next, each with exactly the components one
/// call gives; the entities created before keep their rows.
pub proof fn repeated_platforms_are_distinct(
    v: WorldView,
    p: PlatformAttributes,
    tint: Tint,
    s: SpriteRef,
    x: i64,
    y: i64,
    n: nat,
)
    requires
        v.next_id + n <= usize::MAX,
    ensures
        crate::world::iterate(platform_spawner(p, tint, s, x, y), v, n).next_id == v.next_id + n,
        forall|id: usize| v.next_id <= id < v.next_id + n ==> #[trigger] holds_platform(
            crate::world::iterate(platform_spawner(p, tint, s, x, y), v, n),
            id,
            p,
            tint,
            s,
            x,
            y,
        ),
        forall|k: usize| (k as int) < v.next_id ==> #[trigger] keeps_platform_rows(
            crate::world::iterate(platform_spawner(p, tint, s, x, y), v, n),
            v,
            k,
        ),
    decreases n,
{
    let f = platform_spawner(p, tint, s, x, y);
    if n > 0 {
        repeated_platforms_are_distinct(v, p, tint, s, x, y, (n - 1) as nat);
        let prev = crate::world::iterate(f, v, (n - 1) as nat);
        let r = crate::world::iterate(f, v, n);
        assert(r == spawn_platform(prev, p, tint, s, x, y));
        assert forall|id: usize| v.next_id <= id < v.next_id + n implies #[trigger] holds_platform(
            r,
            id,
            p,
            tint,
            s,
            x,
            y,
        ) by {
            if id < v.next_id + n - 1 {
                assert(holds_platform(prev, id, p, tint, s, x, y));
            }
        }
        assert forall|k: usize| (k as int) < v.next_id implies #[trigger] keeps_platform_rows(r, v, k) by {
            assert(keeps_platform_rows(prev, v, k));
        }
    }
}

} // verus!
