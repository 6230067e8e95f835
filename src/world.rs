use vstd::prelude::*;
use crate::components::{Camera, Parent, SpriteRef, Tint, Transform};
use crate::kinds::{GUnitAttributes, PlatformAttributes, ResourceAttributes};
use crate::store::{ComponentTable, Entity, TableView};

verus! {

/// The process-wide store: one table per component type, and the id that the
/// next entity will get.
pub struct World {
    pub next_id: usize,
    pub transforms: ComponentTable<Transform>,
    pub sprites: ComponentTable<SpriteRef>,
    pub tints: ComponentTable<Tint>,
    pub cameras: ComponentTable<Camera>,
    pub parents: ComponentTable<Parent>,
    pub platforms: ComponentTable<PlatformAttributes>,
    pub resources: ComponentTable<ResourceAttributes>,
    pub units: ComponentTable<GUnitAttributes>,
}

/// The mathematical model of a `World`.
pub ghost struct WorldView {
    pub next_id: nat,
    pub transforms: TableView<Transform>,
    pub sprites: TableView<SpriteRef>,
    pub tints: TableView<Tint>,
    pub cameras: TableView<Camera>,
    pub parents: TableView<Parent>,
    pub platforms: TableView<PlatformAttributes>,
    pub resources: TableView<ResourceAttributes>,
    pub units: TableView<GUnitAttributes>,
}

/// Every row of the table belongs to an entity created before `next`.
pub open spec fn rows_below<T>(t: TableView<T>, next: nat) -> bool {
    forall|k: usize| #[trigger] t.rows.dom().contains(k) ==> (k as nat) < next
}

impl WorldView {
    /// No table holds a row for an entity that was never created.
    pub open spec fn wf(self) -> bool {
        &&& rows_below(self.transforms, self.next_id)
        &&& rows_below(self.sprites, self.next_id)
        &&& rows_below(self.tints, self.next_id)
        &&& rows_below(self.cameras, self.next_id)
        &&& rows_below(self.parents, self.next_id)
        &&& rows_below(self.platforms, self.next_id)
        &&& rows_below(self.resources, self.next_id)
        &&& rows_below(self.units, self.next_id)
    }

    /// `e` has no component in any table.
    pub open spec fn is_bare(self, e: Entity) -> bool {
        &&& !self.transforms.rows.dom().contains(e.id)
        &&& !self.sprites.rows.dom().contains(e.id)
        &&& !self.tints.rows.dom().contains(e.id)
        &&& !self.cameras.rows.dom().contains(e.id)
        &&& !self.parents.rows.dom().contains(e.id)
        &&& !self.platforms.rows.dom().contains(e.id)
        &&& !self.resources.rows.dom().contains(e.id)
        &&& !self.units.rows.dom().contains(e.id)
    }
}

impl World {
    pub open spec fn view(&self) -> WorldView {
        WorldView {
            next_id: self.next_id as nat,
            transforms: self.transforms.view(),
            sprites: self.sprites.view(),
            tints: self.tints.view(),
            cameras: self.cameras.view(),
            parents: self.parents.view(),
            platforms: self.platforms.view(),
            resources: self.resources.view(),
            units: self.units.view(),
        }
    }

    pub open spec fn wf(&self) -> bool {
        self@.wf()
    }

    /// The tables that the systems read and write are registered.
    pub open spec fn is_set_up(&self) -> bool {
        self.transforms.registered && self.units.registered
    }

    /// An empty store: no entity, no table registered.
    pub fn new() -> (r: World)
        ensures
            r.wf(),
            r@.next_id == 0,
            r@.transforms == (TableView::<Transform> { registered: false, rows: Map::empty() }),
            r@.sprites == (TableView::<SpriteRef> { registered: false, rows: Map::empty() }),
            r@.tints == (TableView::<Tint> { registered: false, rows: Map::empty() }),
            r@.cameras == (TableView::<Camera> { registered: false, rows: Map::empty() }),
            r@.parents == (TableView::<Parent> { registered: false, rows: Map::empty() }),
            r@.platforms == (TableView::<PlatformAttributes> { registered: false, rows: Map::empty() }),
            r@.resources == (TableView::<ResourceAttributes> { registered: false, rows: Map::empty() }),
            r@.units == (TableView::<GUnitAttributes> { registered: false, rows: Map::empty() }),
    {
        World {
            next_id: 0,
            transforms: ComponentTable::new(),
            sprites: ComponentTable::new(),
            tints: ComponentTable::new(),
            cameras: ComponentTable::new(),
            parents: ComponentTable::new(),
            platforms: ComponentTable::new(),
            resources: ComponentTable::new(),
            units: ComponentTable::new(),
        }
    }

    /// Hands out a fresh entity, which has no component yet.
    pub fn create_entity(&mut self) -> (r: Entity)
        requires
            old(self).wf(),
            old(self).next_id < usize::MAX,
        ensures
            final(self).wf(),
            r.id == old(self).next_id,
            final(self)@ == (WorldView { next_id: old(self)@.next_id + 1, ..old(self)@ }),
            old(self)@.is_bare(r),
    {
        let e = Entity { id: self.next_id };
        self.next_id = self.next_id + 1;
        e
    }
}

} // verus!

verus! {

/// `f` applied `n` times to `v`.
pub open spec fn iterate(f: spec_fn(WorldView) -> WorldView, v: WorldView, n: nat) -> WorldView
    decreases n,
{
    if n == 0 {
        v
    } else {
        f(iterate(f, v, (n - 1) as nat))
    }
}

/// The row of `k` is the same in both tables.
pub open spec fn same_row<T>(a: TableView<T>, b: TableView<T>, k: usize) -> bool {
    &&& a.rows.dom().contains(k) == b.rows.dom().contains(k)
    &&& a.rows.dom().contains(k) ==> a.rows[k] == b.rows[k]
}

} // verus!
