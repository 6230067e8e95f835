use vstd::prelude::*;
use crate::components::{Camera, SpriteRef, Transform};
use crate::dispatcher::{tick, Dispatcher, DispatcherBuilder, SystemGraphError, SystemKind};
use crate::general_unit::{create_gunit, spawn_gunit};
use crate::hierarchy::{delete_subtree, HierarchyError};
use crate::kinds::{GUnitAttributes, PlatformAttributes, PlatformType, ResourceAttributes, ResourceType};
use crate::platform::{create_platform, platform_tint, spawn_platform, FactoryError};
use crate::resources::{create_resource, spawn_resource};
use crate::store::{put, Entity, TableView};
use crate::world::{World, WorldView};

verus! {

pub const ARENA_HEIGHT: i64 = 900;
pub const ARENA_WIDTH: i64 = 1600;

/// Render layer of the camera: above everything it shows.
pub const CAMERA_LAYER: i64 = 10;

/// The camera's transform: centred on the arena, so that (0, 0) is the
/// arena's bottom left corner.
pub open spec fn camera_transform() -> Transform {
    Transform { x: (ARENA_WIDTH / 2) as i64, y: (ARENA_HEIGHT / 2) as i64, z: CAMERA_LAYER, scale_pct: 100 }
}

/// The store after the camera has been created in it.
pub open spec fn spawn_camera(v: WorldView) -> WorldView {
    let e = v.next_id as usize;
    WorldView {
        next_id: v.next_id + 1,
        cameras: put(v.cameras, e, Camera { width: ARENA_WIDTH, height: ARENA_HEIGHT }),
        transforms: put(v.transforms, e, camera_transform()),
        ..v
    }
}

fn initialise_camera(world: &mut World)
    requires
        old(world).wf(),
        old(world).next_id < usize::MAX,
    ensures
        final(world).wf(),
        final(world)@ == spawn_camera(old(world)@),
{
    let trans = Transform { x: ARENA_WIDTH / 2, y: ARENA_HEIGHT / 2, z: CAMERA_LAYER, scale_pct: 100 };
    let e = world.create_entity();
    world.cameras.register();
    world.cameras.attach(e, Camera { width: ARENA_WIDTH, height: ARENA_HEIGHT });
    world.transforms.register();
    world.transforms.attach(e, trans);
    assert(world@ =~= spawn_camera(old(world)@));
}

/// The white tint of a blank platform.
pub open spec fn blank_tint() -> crate::components::Tint {
    platform_tint(PlatformType::Blank)->Some_0
}

/// The store after the two initial platforms have been created in it.
pub open spec fn spawn_initial_platforms(v: WorldView, s: SpriteRef) -> WorldView {
    let p = PlatformAttributes(PlatformType::Blank);
    spawn_platform(spawn_platform(v, p, blank_tint(), s, 200, 300), p, blank_tint(), s, 800, 600)
}

fn initialize_platforms(world: &mut World, sprite_render: SpriteRef) -> (r: Result<(), FactoryError>)
    requires
        old(world).wf(),
        old(world).next_id + 2 <= usize::MAX,
    ensures
        final(world).wf(),
        r is Ok,
        final(world)@ == spawn_initial_platforms(old(world)@, sprite_render),
{
    world.platforms.register();
    assert(world@ == (WorldView { platforms: TableView { registered: true, ..old(world)@.platforms }, ..old(world)@ }));
    create_platform(PlatformAttributes::default(), world, sprite_render, 200, 300)?;
    create_platform(PlatformAttributes::default(), world, sprite_render, 800, 600)?;
    Ok(())
}

fn initialize_resources(world: &mut World, sprite_render: SpriteRef)
    requires
        old(world).wf(),
        old(world).next_id < usize::MAX,
    ensures
        final(world).wf(),
        final(world)@ == spawn_resource(old(world)@, ResourceAttributes { kind: ResourceType::Perl }, sprite_render, 200, 300),
{
    world.resources.register();
    create_resource(ResourceAttributes::new(ResourceType::Perl), world, sprite_render, 200, 300);
    assert(world@ =~= spawn_resource(old(world)@, ResourceAttributes { kind: ResourceType::Perl }, sprite_render, 200, 300));
}

fn initialize_gunits(world: &mut World, sprite_render: SpriteRef)
    requires
        old(world).wf(),
        old(world).next_id < usize::MAX,
    ensures
        final(world).wf(),
        final(world)@ == spawn_gunit(old(world)@, GUnitAttributes { vx: 1, vy: 1 }, sprite_render, 810, 605),
{
    world.units.register();
    create_gunit(GUnitAttributes::default(), world, sprite_render, 810, 605);
    assert(world@ =~= spawn_gunit(old(world)@, GUnitAttributes { vx: 1, vy: 1 }, sprite_render, 810, 605));
}

/// The store after the dispatcher's setup registered the tables it uses.
pub open spec fn setup_tables(v: WorldView) -> WorldView {
    WorldView {
        transforms: TableView { registered: true, ..v.transforms },
        units: TableView { registered: true, ..v.units },
        ..v
    }
}

/// The store after the playing screen has been entered: tables set up, then
/// the camera, two platforms, a resource and a unit, all with the sprite `s`.
pub open spec fn initial_scenario(v: WorldView, s: SpriteRef) -> WorldView {
    let w = spawn_initial_platforms(spawn_camera(setup_tables(v)), s);
    let w = spawn_resource(w, ResourceAttributes { kind: ResourceType::Perl }, s, 200, 300);
    spawn_gunit(w, GUnitAttributes { vx: 1, vy: 1 }, s, 810, 605)
}

/// A key on the keyboard, as far as this core tells keys apart.
#[derive(Clone, Copy, Debug, PartialEq, Eq, Structural)]
pub enum Key {
    Escape,
    Other(u32),
}

/// What the window reports.
#[derive(Clone, Copy, Debug, PartialEq, Eq, Structural)]
pub enum WindowEvent {
    CloseRequested,
    KeyDown(Key),
    KeyUp(Key),
    Other,
}

/// An event handed to the active screen.
#[derive(Clone, Copy, Debug, PartialEq, Eq, Structural)]
pub enum StateEvent {
    Window(WindowEvent),
    /// An interaction with a UI element.
    Ui,
    /// An input binding fired.
    Input,
}

/// The top-level screens.
#[derive(Clone, Copy, Debug, PartialEq, Eq, Structural)]
pub enum Screen {
    Playing,
    Paused,
}

/// What a screen asks of the screen stack.
#[derive(Clone, Copy, Debug, PartialEq, Eq, Structural)]
pub enum Trans {
    Stay,
    Push(Screen),
    Pop,
    Quit,
}

/// The playing screen pushes the pause overlay when the window asks to close
/// or Escape goes down, and ignores everything else.
pub open spec fn event_transition(event: StateEvent) -> Trans {
    match event {
        StateEvent::Window(WindowEvent::CloseRequested) => Trans::Push(Screen::Paused),
        StateEvent::Window(WindowEvent::KeyDown(Key::Escape)) => Trans::Push(Screen::Paused),
        _ => Trans::Stay,
    }
}

/// The playing screen: its dispatcher, whether it lies dormant under an
/// overlay, and the UI entities it owns.
pub struct Game {
    pub dispatcher: Option<Dispatcher>,
    pub paused: bool,
    pub ui_root: Option<Entity>,
    pub fps_display: Option<Entity>,
    pub random_text: Option<Entity>,
}

/// The store after one `update` of `g`: one tick of its systems, unless it is
/// paused or has no dispatcher yet.
pub open spec fn update_result(g: Game, v: WorldView) -> WorldView {
    if !g.paused && g.dispatcher is Some {
        tick(g.dispatcher->Some_0.scheduled(), v)
    } else {
        v
    }
}

/// The store after `n` updates of `g`.
pub open spec fn repeat_update(g: Game, v: WorldView, n: nat) -> WorldView
    decreases n,
{
    if n == 0 {
        v
    } else {
        update_result(g, repeat_update(g, v, (n - 1) as nat))
    }
}

/// While the playing screen is paused, any number of updates leaves every
/// component of the store as it was.
pub proof fn paused_updates_freeze_world(g: Game, v: WorldView, n: nat)
    requires
        g.paused,
    ensures
        repeat_update(g, v, n) == v,
    decreases n,
{
    if n > 0 {
        paused_updates_freeze_world(g, v, (n - 1) as nat);
    }
}

impl Default for Game {
    fn default() -> (r: Self)
        ensures
            r.dispatcher is None,
            !r.paused,
            r.ui_root is None,
            r.fps_display is None,
            r.random_text is None,
    {
        Game { dispatcher: None, paused: false, ui_root: None, fps_display: None, random_text: None }
    }
}

impl Game {
    pub open spec fn wf(&self) -> bool {
        self.dispatcher is Some ==> self.dispatcher->Some_0.wf()
    }

    /// Enters the playing screen: builds the dispatcher with the unit-movement
    /// system and sets it up, then creates the camera and the initial layout
    /// with sprite 0 of `sprite_sheet`.
    pub fn on_start(&mut self, world: &mut World, sprite_sheet: u64)
        requires
            old(world).wf(),
            old(world).next_id + 5 <= usize::MAX,
        ensures
            final(world).wf(),
            final(world).is_set_up(),
            final(world)@ == initial_scenario(old(world)@, SpriteRef { sheet: sprite_sheet, index: 0 }),
            final(self).wf(),
            final(self).dispatcher is Some,
            final(self).dispatcher->Some_0.scheduled() == seq![SystemKind::GUnitMovement],
            final(self).paused == old(self).paused,
            final(self).ui_root == old(self).ui_root,
            final(self).fps_display == old(self).fps_display,
            final(self).random_text == old(self).random_text,
    {
        let builder = DispatcherBuilder::new().with(SystemKind::GUnitMovement, Vec::new());
        let ghost g = crate::graph::deps_view(builder.deps@);
        proof {
            assert(g =~= seq![Seq::<usize>::empty()]);
            if crate::graph::has_cycle(g) {
                let c = choose|c: Set<usize>| crate::graph::is_cycle(g, c);
                let x = choose|x: usize| c.contains(x);
                assert(x == 0);
                assert(g[0].len() == 0);
            }
            assert(!crate::graph::has_cycle(g));
            assert(crate::graph::deps_in_range(g));
        }
        let dispatcher = match builder.build() {
            Ok(d) => d,
            Err(e) => {
                assert(crate::graph::deps_in_range(crate::graph::deps_view(builder.deps@)));
                assert(e != SystemGraphError::UnknownDependency);
                assert(false);
                return;
            },
        };
        proof {
            let o = dispatcher.order@;
            assert(o.contains(0usize));
            assert(o.len() == 1) by {
                if o.len() > 1 {
                    assert(o[0] == 0usize && o[1] == 0usize);
                }
            }
            assert(dispatcher.scheduled() =~= seq![SystemKind::GUnitMovement]);
        }
        dispatcher.setup(world);
        self.dispatcher = Some(dispatcher);
        let sprite_render = SpriteRef { sheet: sprite_sheet, index: 0 };
        initialise_camera(world);
        match initialize_platforms(world, sprite_render) {
            Ok(()) => {},
            Err(_) => {
                return;
            },
        }
        initialize_resources(world, sprite_render);
        initialize_gunits(world, sprite_render);
    }

    pub fn on_pause(&mut self)
        ensures
            final(self).paused,
            final(self).dispatcher == old(self).dispatcher,
            final(self).ui_root == old(self).ui_root,
            final(self).fps_display == old(self).fps_display,
            final(self).random_text == old(self).random_text,
    {
        self.paused = true;
    }

    pub fn on_resume(&mut self)
        ensures
            !final(self).paused,
            final(self).dispatcher == old(self).dispatcher,
            final(self).ui_root == old(self).ui_root,
            final(self).fps_display == old(self).fps_display,
            final(self).random_text == old(self).random_text,
    {
        self.paused = false;
    }

    /// Leaves the playing screen: deletes the UI tree, if any, and forgets the
    /// UI entities. A failed deletion aborts the exit and changes nothing.
    pub fn on_stop(&mut self, world: &mut World) -> (r: Result<(), HierarchyError>)
        requires
            old(world).wf(),
        ensures
            final(world).wf(),
            old(self).ui_root is None ==> r is Ok && final(world)@ == old(world)@,
            old(self).ui_root is Some ==> {
                let root = old(self).ui_root->Some_0;
                &&& ((root.id as int) < old(world)@.next_id <==> r is Ok)
                &&& r is Ok ==> final(world)@ == delete_subtree(old(world)@, root.id)
            },
            r is Ok ==> final(self).ui_root is None && final(self).fps_display is None
                && final(self).random_text is None,
            r is Err ==> *final(self) == *old(self) && final(world)@ == old(world)@,
            final(self).dispatcher == old(self).dispatcher,
            final(self).paused == old(self).paused,
    {
        match self.ui_root {
            Some(entity) => {
                world.delete_hierarchy(entity)?;
            },
            None => {},
        }
        self.ui_root = None;
        self.fps_display = None;
        self.random_text = None;
        Ok(())
    }

    /// Decides the screen transition for an event; touches no entity.
    pub fn handle_event(&self, event: StateEvent) -> (r: Trans)
        ensures
            r == event_transition(event),
    {
        match event {
            StateEvent::Window(w) => match w {
                WindowEvent::CloseRequested => Trans::Push(Screen::Paused),
                WindowEvent::KeyDown(Key::Escape) => Trans::Push(Screen::Paused),
                _ => Trans::Stay,
            },
            StateEvent::Ui => Trans::Stay,
            StateEvent::Input => Trans::Stay,
        }
    }

    /// One frame: runs the dispatcher once unless the screen is paused.
    pub fn update(&mut self, world: &mut World) -> (r: Trans)
        requires
            old(self).wf(),
            old(world).wf(),
            old(self).dispatcher is Some ==> old(world).is_set_up(),
        ensures
            r == Trans::Stay,
            *final(self) == *old(self),
            final(world).wf(),
            old(world).is_set_up() ==> final(world).is_set_up(),
            final(world)@ == update_result(*old(self), old(world)@),
    {
        if !self.paused {
            match &self.dispatcher {
                Some(d) => d.dispatch(world),
                None => {},
            }
        }
        Trans::Stay
    }
}

} // verus!
