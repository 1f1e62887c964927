//! The coarse game-state machine, with the one-tick-deferred transitions
//! of the scheduler: a requested next state takes effect at the following
//! tick boundary, not immediately.

use vstd::prelude::*;

verus! {

/// The phases of the game. Gameplay systems run only during `InGame`.
#[derive(Clone, Copy, PartialEq, Eq, Structural, Debug)]
pub enum GameState {
    Loading,
    MainMenu,
    GameInit,
    InGame,
}

/// The current state beside the transition requested for the next tick.
#[derive(Clone, Copy, PartialEq, Eq, Structural, Debug)]
pub struct StateFlow {
    pub current: GameState,
    pub next: Option<GameState>,
}

/// Where a tick boundary takes the flow: the requested state becomes
/// current, and the request is consumed.
pub open spec fn apply_next_spec(f: StateFlow) -> StateFlow {
    match f.next {
        Some(s) => StateFlow { current: s, next: None },
        None => f,
    }
}

/// The activation gate of every gameplay system.
pub open spec fn in_game_spec(f: StateFlow) -> bool {
    f.current == GameState::InGame
}

impl StateFlow {
    /// The game starts out loading its assets.
    pub fn new() -> (f: StateFlow)
        ensures
            f.current == GameState::Loading,
            f.next is None,
    {
        StateFlow { current: GameState::Loading, next: None }
    }

    /// Request `s` for the next tick; the current state is untouched.
    pub fn set_next(&mut self, s: GameState)
        ensures
            final(self).current == old(self).current,
            final(self).next == Some(s),
    {
        self.next = Some(s);
    }

    /// The tick boundary: a requested state takes effect now.
    pub fn apply_next(&mut self)
        ensures
            *final(self) == apply_next_spec(*old(self)),
    {
        if let Some(s) = self.next {
            self.current = s;
            self.next = None;
        }
    }

    pub fn in_game(&self) -> (r: bool)
        ensures
            r == in_game_spec(*self),
    {
        self.current == GameState::InGame
    }
}

} // verus!
