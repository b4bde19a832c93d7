//! The host application's coarse state machine: material setup hands
//! over to the initial spawn, the spawn hands over to the running
//! game, and the escape key toggles the pause.  The surrounding loop
//! performs the input reading and scheduling; the transitions
//! themselves are decided here.

use vstd::prelude::*;

verus! {

/// The phases the hosting application moves through.
#[derive(Clone, Copy, Debug, PartialEq, Eq, Hash, Structural)]
pub enum AppState {
    SetupMaterials,
    SpawnStart,
    InGame,
    Paused,
}

impl Default for AppState {
    /// Startup begins with material setup.
    fn default() -> (s: AppState)
        ensures
            s is SetupMaterials,
    {
        AppState::SetupMaterials
    }
}

impl AppState {
    /// The pause key toggles between the running and the paused game;
    /// it has no effect during startup.
    pub fn pause_transition(self, escape_pressed: bool) -> (s: AppState)
        ensures
            !escape_pressed ==> s == self,
            escape_pressed && self is InGame ==> s is Paused,
            escape_pressed && self is Paused ==> s is InGame,
            escape_pressed && !(self is InGame || self is Paused) ==> s == self,
    {
        if !escape_pressed {
            self
        } else {
            match self {
                AppState::InGame => AppState::Paused,
                AppState::Paused => AppState::InGame,
                s => s,
            }
        }
    }

    /// Startup flow: world setup hands over to the initial spawn, and
    /// the spawn hands over to the running game; the running states
    /// stay where they are.
    pub fn setup_advanced(self) -> (s: AppState)
        ensures
            self is SetupMaterials ==> s is SpawnStart,
            self is SpawnStart ==> s is InGame,
            (self is InGame || self is Paused) ==> s == self,
    {
        match self {
            AppState::SetupMaterials => AppState::SpawnStart,
            AppState::SpawnStart => AppState::InGame,
            s => s,
        }
    }
}

} // verus!
