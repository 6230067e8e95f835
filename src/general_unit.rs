use vstd::prelude::*;
use crate::components::{SpriteRef, Transform};
use crate::kinds::GUnitAttributes;
use crate::store::{put, Entity};
use crate::world::{World, WorldView};

verus! {

/// Render layer of mobile units: above platforms and resources.
pub const UNIT_LAYER: i64 = 2;

pub const UNIT_SCALE_PCT: u32 = 25;

/// The transform a unit gets at (x, y).
pub open spec fn unit_transform(x: i64, y: i64) -> Transform {
    Transform { x, y, z: UNIT_LAYER, scale_pct: UNIT_SCALE_PCT }
}

/// The store after a mobile unit has been created in it.
pub open spec fn spawn_gunit(
    v: WorldView,
    a: GUnitAttributes,
    s: SpriteRef,
    x: i64,
    y: i64,
) -> WorldView {
    let e = v.next_id as usize;
    WorldView {
        next_id: v.next_id + 1,
        transforms: put(v.transforms, e, unit_transform(x, y)),
        sprites: put(v.sprites, e, s),
        units: put(v.units, e, a),
        ..v
    }
}

/// Creates a mobile unit at (x, y) with its sprite and attributes.
pub fn create_gunit(
    unit: GUnitAttributes,
    world: &mut World,
    sprite_render: SpriteRef,
    x: i64,
    y: i64,
) -> (r: Entity)
    requires
        old(world).wf(),
        old(world).next_id < usize::MAX,
    ensures
        final(world).wf(),
        r.id == old(world).next_id,
        final(world)@ == spawn_gunit(old(world)@, unit, sprite_render, x, y),
{
    let trans = Transform { x, y, z: UNIT_LAYER, scale_pct: UNIT_SCALE_PCT };
    let e = world.create_entity();
    world.sprites.register();
    world.sprites.attach(e, sprite_render);
    world.units.register();
    world.units.attach(e, unit);
    world.transforms.register();
    world.transforms.attach(e, trans);
    assert(world@ =~= spawn_gunit(old(world)@, unit, sprite_render, x, y));
    e
}

} // verus!

verus! {

/// One unit creation with fixed arguments, as a step on the store.
pub open spec fn unit_spawner(
    p: GUnitAttributes,
    s: SpriteRef,
    x: i64,
    y: i64,
) -> spec_fn(WorldView) -> WorldView {
    |w: WorldView| spawn_gunit(w, p, s, x, y)
}

/// Entity `id` has exactly the rows that one unit creation gives it.
pub open spec fn holds_unit(
    r: WorldView,
    id: usize,
    p: GUnitAttributes,
    s: SpriteRef,
    x: i64,
    y: i64,
) -> bool {
    &&& r.units.rows.dom().contains(id) && r.units.rows[id] == p
    &&& r.transforms.rows.dom().contains(id) && r.transforms.rows[id] == unit_transform(x, y)
    &&& r.sprites.rows.dom().contains(id) && r.sprites.rows[id] == s
}

/// Entity `k` has the same rows in `r` as in `v`, in every table that a
/// unit creation writes.
pub open spec fn keeps_unit_rows(r: WorldView, v: WorldView, k: usize) -> bool {
    &&& crate::world::same_row(r.units, v.units, k)
    &&& crate::world::same_row(r.transforms, v.transforms, k)
    &&& crate::world::same_row(r.sprites, v.sprites, k)
}

/// Creating `n` units with the same arguments gives `n` distinct
/// entities, the ids that come next, each with exactly the components one
/// call gives; the entities created before keep their rows.
pub proof fn repeated_units_are_distinct(
    v: WorldView,
    p: GUnitAttributes,
    s: SpriteRef,
    x: i64,
    y: i64,
    n: nat,
)
    requires
        v.next_id + n <= usize::MAX,
    ensures
        crate::world::iterate(unit_spawner(p, s, x, y), v, n).next_id == v.next_id + n,
        forall|id: usize| v.next_id <= id < v.next_id + n ==> #[trigger] holds_unit(
            crate::world::iterate(unit_spawner(p, s, x, y), v, n),
            id,
            p,
            s,
            x,
            y,
        ),
        forall|k: usize| (k as int) < v.next_id ==> #[trigger] keeps_unit_rows(
            crate::world::iterate(unit_spawner(p, s, x, y), v, n),
            v,
            k,
        ),
    decreases n,
{
    let f = unit_spawner(p, s, x, y);
    if n > 0 {
        repeated_units_are_distinct(v, p, s, x, y, (n - 1) as nat);
        let prev = crate::world::iterate(f, v, (n - 1) as nat);
        let r = crate::world::iterate(f, v, n);
        assert(r == spawn_gunit(prev, p, s, x, y));
        assert forall|id: usize| v.next_id <= id < v.next_id + n implies #[trigger] holds_unit(
            r,
            id,
            p,
            s,
            x,
            y,
        ) by {
            if id < v.next_id + n - 1 {
                assert(holds_unit(prev, id, p, s, x, y));
            }
        }
        assert forall|k: usize| (k as int) < v.next_id implies #[trigger] keeps_unit_rows(r, v, k) by {
            assert(keeps_unit_rows(prev, v, k));
        }
    }
}

} // verus!
