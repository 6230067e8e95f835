use vstd::prelude::*;
use crate::components::{SpriteRef, Transform};
use crate::kinds::ResourceAttributes;
use crate::store::{put, Entity};
use crate::world::{World, WorldView};

verus! {

/// Render layer of resources: above platforms.
pub const RESOURCE_LAYER: i64 = 1;

pub const RESOURCE_SCALE_PCT: u32 = 25;

/// The transform a resource gets at (x, y).
pub open spec fn resource_transform(x: i64, y: i64) -> Transform {
    Transform { x, y, z: RESOURCE_LAYER, scale_pct: RESOURCE_SCALE_PCT }
}

/// The store after a resource has been created in it.
pub open spec fn spawn_resource(
    v: WorldView,
    a: ResourceAttributes,
    s: SpriteRef,
    x: i64,
    y: i64,
) -> WorldView {
    let e = v.next_id as usize;
    WorldView {
        next_id: v.next_id + 1,
        transforms: put(v.transforms, e, resource_transform(x, y)),
        sprites: put(v.sprites, e, s),
        resources: put(v.resources, e, a),
        ..v
    }
}

/// Creates a resource entity at (x, y) with its sprite and attributes.
pub fn create_resource(
    resource: ResourceAttributes,
    world: &mut World,
    sprite_render: SpriteRef,
    x: i64,
    y: i64,
) -> (r: Entity)
    requires
        old(world).wf(),
        old(world).next_id < usize::MAX,
    ensures
        final(world).wf(),
        r.id == old(world).next_id,
        final(world)@ == spawn_resource(old(world)@, resource, sprite_render, x, y),
{
    let trans = Transform { x, y, z: RESOURCE_LAYER, scale_pct: RESOURCE_SCALE_PCT };
    let e = world.create_entity();
    world.sprites.register();
    world.sprites.attach(e, sprite_render);
    world.resources.register();
    world.resources.attach(e, resource);
    world.transforms.register();
    world.transforms.attach(e, trans);
    assert(world@ =~= spawn_resource(old(world)@, resource, sprite_render, x, y));
    e
}

} // verus!

verus! {

/// One resource creation with fixed arguments, as a step on the store.
pub open spec fn resource_spawner(
    p: ResourceAttributes,
    s: SpriteRef,
    x: i64,
    y: i64,
) -> spec_fn(WorldView) -> WorldView {
    |w: WorldView| spawn_resource(w, p, s, x, y)
}

/// Entity `id` has exactly the rows that one resource creation gives it.
pub open spec fn holds_resource(
    r: WorldView,
    id: usize,
    p: ResourceAttributes,
    s: SpriteRef,
    x: i64,
    y: i64,
) -> bool {
    &&& r.resources.rows.dom().contains(id) && r.resources.rows[id] == p
    &&& r.transforms.rows.dom().contains(id) && r.transforms.rows[id] == resource_transform(x, y)
    &&& r.sprites.rows.dom().contains(id) && r.sprites.rows[id] == s
}

/// Entity `k` has the same rows in `r` as in `v`, in every table that a
/// resource creation writes.
pub open spec fn keeps_resource_rows(r: WorldView, v: WorldView, k: usize) -> bool {
    &&& crate::world::same_row(r.resources, v.resources, k)
    &&& crate::world::same_row(r.transforms, v.transforms, k)
    &&& crate::world::same_row(r.sprites, v.sprites, k)
}

/// Creating `n` resources with the same arguments gives `n` distinct
/// entities, the ids that come next, each with exactly the components one
/// call gives; the entities created before keep their rows.
pub proof fn repeated_resources_are_distinct(
    v: WorldView,
    p: ResourceAttributes,
    s: SpriteRef,
    x: i64,
    y: i64,
    n: nat,
)
    requires
        v.next_id + n <= usize::MAX,
    ensures
        crate::world::iterate(resource_spawner(p, s, x, y), v, n).next_id == v.next_id + n,
        forall|id: usize| v.next_id <= id < v.next_id + n ==> #[trigger] holds_resource(
            crate::world::iterate(resource_spawner(p, s, x, y), v, n),
            id,
            p,
            s,
            x,
            y,
        ),
        forall|k: usize| (k as int) < v.next_id ==> #[trigger] keeps_resource_rows(
            crate::world::iterate(resource_spawner(p, s, x, y), v, n),
            v,
            k,
        ),
    decreases n,
{
    let f = resource_spawner(p, s, x, y);
    if n > 0 {
        repeated_resources_are_distinct(v, p, s, x, y, (n - 1) as nat);
        let prev = crate::world::iterate(f, v, (n - 1) as nat);
        let r = crate::world::iterate(f, v, n);
        assert(r == spawn_resource(prev, p, s, x, y));
        assert forall|id: usize| v.next_id <= id < v.next_id + n implies #[trigger] holds_resource(
            r,
            id,
            p,
            s,
            x,
            y,
        ) by {
            if id < v.next_id + n - 1 {
                assert(holds_resource(prev, id, p, s, x, y));
            }
        }
        assert forall|k: usize| (k as int) < v.next_id implies #[trigger] keeps_resource_rows(r, v, k) by {
            assert(keeps_resource_rows(prev, v, k));
        }
    }
}

} // verus!
