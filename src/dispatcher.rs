use vstd::prelude::*;
use crate::components::Transform;
use crate::graph::{deps_in_range, deps_view, has_cycle, is_topological_order, topological_order};
use crate::kinds::GUnitAttributes;
use crate::store::TableView;
use crate::world::{World, WorldView};

verus! {

/// The systems this core can run.
#[derive(Clone, Copy, Debug, PartialEq, Eq, Structural)]
pub enum SystemKind {
    /// Moves every unit by its velocity.
    GUnitMovement,
}

/// Why a set of systems cannot be scheduled.
#[derive(Clone, Copy, Debug, PartialEq, Eq, Structural)]
pub enum SystemGraphError {
    /// A "runs after" entry names no registered system.
    UnknownDependency,
    /// The "runs after" entries form a cycle.
    Cycle,
}

/// `a + b`, held to the range of `i64`.
pub open spec fn sat_add(a: i64, b: i64) -> i64 {
    if a + b > i64::MAX {
        i64::MAX
    } else if a + b < i64::MIN {
        i64::MIN
    } else {
        (a + b) as i64
    }
}

fn saturating_add_i64(a: i64, b: i64) -> (r: i64)
    ensures
        r == sat_add(a, b),
{
    if b > 0 && a > i64::MAX - b {
        i64::MAX
    } else if b < 0 && a < i64::MIN - b {
        i64::MIN
    } else {
        a + b
    }
}

/// A unit's transform after one step at its velocity; layer and scale stay.
pub open spec fn moved(t: Transform, u: GUnitAttributes) -> Transform {
    Transform { x: sat_add(t.x, u.vx), y: sat_add(t.y, u.vy), ..t }
}

/// The store after one run of the unit-movement system.
pub open spec fn movement_tick(v: WorldView) -> WorldView {
    WorldView {
        transforms: TableView {
            registered: v.transforms.registered,
            rows: Map::new(
                |k: usize| v.transforms.rows.dom().contains(k),
                |k: usize|
                    if v.units.rows.dom().contains(k) {
                        moved(v.transforms.rows[k], v.units.rows[k])
                    } else {
                        v.transforms.rows[k]
                    },
            ),
        },
        ..v
    }
}

/// The store after one tick of the given systems. Every system reads the
/// store as it was when the tick began, so running the movement system twice
/// in one tick moves each unit once.
pub open spec fn tick(systems: Seq<SystemKind>, v: WorldView) -> WorldView {
    if systems.contains(SystemKind::GUnitMovement) {
        movement_tick(v)
    } else {
        v
    }
}

/// The slot of entity `k` after the movement system has read `snap`.
pub open spec fn moved_slot(
    snap: Seq<Option<Transform>>,
    units: Map<usize, GUnitAttributes>,
    k: int,
) -> Option<Transform> {
    match snap[k] {
        Some(t) => if units.dom().contains(k as usize) {
            Some(moved(t, units[k as usize]))
        } else {
            Some(t)
        },
        None => None,
    }
}

/// One run of the unit-movement system: reads transforms from `snap`, the
/// transforms as they were when the tick began, and writes the moved ones.
fn run_gunit_movement(snap: &Vec<Option<Transform>>, world: &mut World)
    requires
        old(world).transforms.slots@.len() == snap@.len(),
    ensures
        final(world).transforms.slots@ == Seq::new(
            snap@.len(),
            |k: int| moved_slot(snap@, old(world)@.units.rows, k),
        ),
        final(world).transforms.registered == old(world).transforms.registered,
        final(world).next_id == old(world).next_id,
        final(world)@.sprites == old(world)@.sprites,
        final(world)@.tints == old(world)@.tints,
        final(world)@.cameras == old(world)@.cameras,
        final(world)@.parents == old(world)@.parents,
        final(world)@.platforms == old(world)@.platforms,
        final(world)@.resources == old(world)@.resources,
        final(world)@.units == old(world)@.units,
{
    let n = snap.len();
    let mut k: usize = 0;
    while k < n
        invariant
            k <= n,
            n == snap@.len(),
            world.transforms.slots@.len() == n,
            forall|j: int| 0 <= j < k ==> world.transforms.slots@[j] == moved_slot(snap@, old(world)@.units.rows, j),
            world.transforms.registered == old(world).transforms.registered,
            world.next_id == old(world).next_id,
            world.sprites == old(world).sprites,
            world.tints == old(world).tints,
            world.cameras == old(world).cameras,
            world.parents == old(world).parents,
            world.platforms == old(world).platforms,
            world.resources == old(world).resources,
            world.units == old(world).units,
        decreases n - k,
    {
        let e = crate::store::Entity { id: k };
        let slot = match snap[k] {
            Some(t) => match world.units.get(e) {
                Some(u) => Some(
                    Transform {
                        x: saturating_add_i64(t.x, u.vx),
                        y: saturating_add_i64(t.y, u.vy),
                        z: t.z,
                        scale_pct: t.scale_pct,
                    },
                ),
                None => Some(t),
            },
            None => None,
        };
        world.transforms.slots.set(k, slot);
        k = k + 1;
    }
    assert(world.transforms.slots@ =~= Seq::new(
        snap@.len(),
        |k: int| moved_slot(snap@, old(world)@.units.rows, k),
    ));
}

/// Collects systems and their "runs after" lists before they are scheduled.
pub struct DispatcherBuilder {
    pub systems: Vec<SystemKind>,
    pub deps: Vec<Vec<usize>>,
}

/// Systems in an order that respects every "runs after" list.
pub struct Dispatcher {
    pub systems: Vec<SystemKind>,
    pub order: Vec<usize>,
}

impl DispatcherBuilder {
    pub fn new() -> (r: Self)
        ensures
            r.systems@ == Seq::<SystemKind>::empty(),
            deps_view(r.deps@) == Seq::<Seq<usize>>::empty(),
            r.deps@.len() == 0,
    {
        DispatcherBuilder { systems: Vec::new(), deps: Vec::new() }
    }

    /// Adds a system that must run after each system whose index (the order
    /// of `with` calls, from 0) is listed in `after`.
    pub fn with(self, system: SystemKind, after: Vec<usize>) -> (r: Self)
        requires
            self.systems@.len() == self.deps@.len(),
        ensures
            r.systems@ == self.systems@.push(system),
            r.deps@.len() == self.deps@.len() + 1,
            deps_view(r.deps@) == deps_view(self.deps@).push(after@),
    {
        let mut b = self;
        let ghost before = b.deps@;
        b.systems.push(system);
        b.deps.push(after);
        assert(deps_view(b.deps@) =~= deps_view(before).push(after@));
        b
    }

    /// Schedules the systems: fails on a "runs after" entry that names no
    /// system, and on a dependency cycle; otherwise the order runs every system
    /// once and respects every "runs after" entry.
    pub fn build(&self) -> (r: Result<Dispatcher, SystemGraphError>)
        requires
            self.systems@.len() == self.deps@.len(),
        ensures
            !deps_in_range(deps_view(self.deps@)) <==> r == Err::<Dispatcher, SystemGraphError>(
                SystemGraphError::UnknownDependency,
            ),
            deps_in_range(deps_view(self.deps@)) ==> (has_cycle(deps_view(self.deps@)) <==> r
                == Err::<Dispatcher, SystemGraphError>(SystemGraphError::Cycle)),
            r is Ok ==> r->Ok_0.wf() && r->Ok_0.systems@ == self.systems@
                && is_topological_order(deps_view(self.deps@), r->Ok_0.order@),
    {
        let n = self.deps.len();
        let mut i: usize = 0;
        while i < n
            invariant
                n == self.deps@.len(),
                i <= n,
                forall|a: int, k: int|
                    0 <= a < i && 0 <= k < deps_view(self.deps@)[a].len()
                        ==> #[trigger] deps_view(self.deps@)[a][k] < n,
            decreases n - i,
        {
            let row = &self.deps[i];
            let mut k: usize = 0;
            while k < row.len()
                invariant
                    n == self.deps@.len(),
                    i < n,
                    row@ == deps_view(self.deps@)[i as int],
                    k <= row@.len(),
                    forall|a: int, m: int|
                        0 <= a < i && 0 <= m < deps_view(self.deps@)[a].len()
                            ==> #[trigger] deps_view(self.deps@)[a][m] < n,
                    forall|m: int| 0 <= m < k ==> #[trigger] row@[m] < n,
                decreases row@.len() - k,
            {
                if row[k] >= n {
                    assert(deps_view(self.deps@)[i as int][k as int] >= n);
                    return Err(SystemGraphError::UnknownDependency);
                }
                k = k + 1;
            }
            i = i + 1;
        }
        match topological_order(&self.deps) {
            Some(order) => {
                let mut systems: Vec<SystemKind> = Vec::new();
                let mut j: usize = 0;
                while j < self.systems.len()
                    invariant
                        j <= self.systems@.len(),
                        systems@ == self.systems@.subrange(0, j as int),
                    decreases self.systems@.len() - j,
                {
                    systems.push(self.systems[j]);
                    j = j + 1;
                }
                assert(systems@ =~= self.systems@);
                Ok(Dispatcher { systems, order })
            },
            None => Err(SystemGraphError::Cycle),
        }
    }
}

impl Dispatcher {
    /// Every position of the order names one of the systems.
    pub open spec fn wf(&self) -> bool {
        forall|a: int| 0 <= a < self.order@.len() ==> (#[trigger] self.order@[a] as int) < self.systems@.len()
    }

    /// The systems in the order in which one tick runs them.
    pub open spec fn scheduled(&self) -> Seq<SystemKind> {
        self.order@.map_values(|i: usize| self.systems@[i as int])
    }

    /// Registers the component tables that the systems read and write.
    pub fn setup(&self, world: &mut World)
        requires
            old(world).wf(),
        ensures
            final(world).wf(),
            final(world).is_set_up(),
            final(world)@ == (WorldView {
                transforms: TableView { registered: true, ..old(world)@.transforms },
                units: TableView { registered: true, ..old(world)@.units },
                ..old(world)@
            }),
    {
        world.transforms.register();
        world.units.register();
        assert(world@ =~= (WorldView {
            transforms: TableView { registered: true, ..old(world)@.transforms },
            units: TableView { registered: true, ..old(world)@.units },
            ..old(world)@
        }));
    }

    /// Runs one tick: every system once, in the scheduled order, each reading
    /// the store as it was when the tick began. The store must have been set
    /// up first.
    pub fn dispatch(&self, world: &mut World)
        requires
            self.wf(),
            old(world).wf(),
            old(world).is_set_up(),
        ensures
            final(world).wf(),
            final(world).is_set_up(),
            final(world)@ == tick(self.scheduled(), old(world)@),
    {
        let ghost start = world@;
        let mut snap: Vec<Option<Transform>> = Vec::new();
        let mut k: usize = 0;
        while k < world.transforms.slots.len()
            invariant
                k <= world.transforms.slots@.len(),
                snap@ == world.transforms.slots@.subrange(0, k as int),
                world@ == start,
            decreases world.transforms.slots@.len() - k,
        {
            snap.push(world.transforms.slots[k]);
            k = k + 1;
        }
        assert(snap@ =~= world.transforms.slots@);
        let mut ran: bool = false;
        let mut i: usize = 0;
        while i < self.order.len()
            invariant
                self.wf(),
                i <= self.order@.len(),
                snap@.len() == world.transforms.slots@.len(),
                snap@ == old(world).transforms.slots@,
                start == old(world)@,
                ran <==> self.scheduled().subrange(0, i as int).contains(SystemKind::GUnitMovement),
                world@ == (if ran { movement_tick(start) } else { start }),
            decreases self.order@.len() - i,
        {
            let ghost prefix = self.scheduled().subrange(0, i as int);
            match self.systems[self.order[i]] {
                SystemKind::GUnitMovement => {
                    run_gunit_movement(&snap, world);
                    ran = true;
                },
            }
            assert(world@.transforms.rows =~= movement_tick(start).transforms.rows);
            assert(world@.transforms == movement_tick(start).transforms);
            assert(world@ =~= movement_tick(start));
            assert(self.scheduled().subrange(0, i + 1) == prefix.push(SystemKind::GUnitMovement));
            assert(self.scheduled().subrange(0, i + 1).contains(SystemKind::GUnitMovement)) by {
                assert(self.scheduled().subrange(0, i + 1)[i as int] == SystemKind::GUnitMovement);
            }
            i = i + 1;
        }
        assert(self.scheduled().subrange(0, self.order@.len() as int) == self.scheduled());
    }
}

} // verus!
