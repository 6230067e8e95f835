use vstd::prelude::*;
use crate::game::{event_transition, update_result, Game, Screen, StateEvent, Trans};
use crate::world::World;

verus! {

/// The stack of screens: the playing screen at the bottom, pause overlays
/// above it. Only the top screen receives events and ticks.
pub struct ScreenStack {
    pub game: Game,
    pub screens: Vec<Screen>,
}

impl ScreenStack {
    /// The playing screen is at the bottom and nowhere else, and it is paused
    /// exactly while an overlay lies on it.
    pub open spec fn wf(&self) -> bool {
        &&& self.game.wf()
        &&& self.screens@.len() >= 1
        &&& self.screens@[0] == Screen::Playing
        &&& forall|i: int| 1 <= i < self.screens@.len() ==> #[trigger] self.screens@[i] == Screen::Paused
        &&& self.game.paused == (self.screens@.len() > 1)
    }

    pub open spec fn top(&self) -> Screen {
        self.screens@.last()
    }

    /// A stack holding only `game`, which must not be paused.
    pub fn new(game: Game) -> (r: Self)
        requires
            game.wf(),
            !game.paused,
        ensures
            r.wf(),
            r.game == game,
            r.screens@ == seq![Screen::Playing],
    {
        let mut screens: Vec<Screen> = Vec::new();
        screens.push(Screen::Playing);
        ScreenStack { game, screens }
    }

    /// The screen that receives events and ticks.
    pub fn active(&self) -> (r: Screen)
        requires
            self.wf(),
        ensures
            r == self.top(),
    {
        self.screens[self.screens.len() - 1]
    }

    /// Hands an event to the top screen. The playing screen's request for the
    /// pause overlay pauses it and pushes the overlay. Events reaching an
    /// overlay are left to its own handling and change nothing here.
    pub fn handle_event(&mut self, event: StateEvent) -> (r: Trans)
        requires
            old(self).wf(),
        ensures
            final(self).wf(),
            old(self).top() == Screen::Playing ==> r == event_transition(event),
            old(self).top() == Screen::Paused ==> r == Trans::Stay,
            r == Trans::Push(Screen::Paused) ==> {
                &&& final(self).screens@ == old(self).screens@.push(Screen::Paused)
                &&& final(self).game.paused
            },
            r != Trans::Push(Screen::Paused) ==> *final(self) == *old(self),
            final(self).game.dispatcher == old(self).game.dispatcher,
            final(self).game.ui_root == old(self).game.ui_root,
    {
        if self.screens[self.screens.len() - 1] == Screen::Paused {
            return Trans::Stay;
        }
        let t = self.game.handle_event(event);
        match t {
            Trans::Push(Screen::Paused) => {
                self.game.on_pause();
                self.screens.push(Screen::Paused);
            },
            _ => {},
        }
        t
    }

    /// Pops the top overlay; the playing screen resumes once it is on top
    /// again. The playing screen itself is never popped: then nothing changes
    /// and the result is false.
    pub fn pop(&mut self) -> (r: bool)
        requires
            old(self).wf(),
        ensures
            final(self).wf(),
            r == (old(self).screens@.len() > 1),
            r ==> final(self).screens@ == old(self).screens@.drop_last(),
            r ==> final(self).game.paused == (final(self).screens@.len() > 1),
            !r ==> *final(self) == *old(self),
            final(self).game.dispatcher == old(self).game.dispatcher,
    {
        if self.screens.len() <= 1 {
            return false;
        }
        self.screens.pop();
        if self.screens.len() == 1 {
            self.game.on_resume();
        }
        true
    }

    /// One frame: the playing screen is updated only while it is on top.
    pub fn tick(&mut self, world: &mut World) -> (r: Trans)
        requires
            old(self).wf(),
            old(world).wf(),
            old(self).game.dispatcher is Some ==> old(world).is_set_up(),
        ensures
            r == Trans::Stay,
            *final(self) == *old(self),
            final(world).wf(),
            old(world).is_set_up() ==> final(world).is_set_up(),
            final(world)@ == (if old(self).top() == Screen::Playing {
                update_result(old(self).game, old(world)@)
            } else {
                old(world)@
            }),
    {
        if self.screens[self.screens.len() - 1] == Screen::Playing {
            self.game.update(world)
        } else {
            Trans::Stay
        }
    }
}

} // verus!
