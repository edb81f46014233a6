use vstd::prelude::*;

verus! {

/// The top-level states of the game: the menu, a stage being played,
/// and the two ways a play session ends.
#[derive(Clone, Copy, PartialEq, Eq, Structural, Debug, Hash)]
pub enum AppState {
    Menu,
    InGame,
    GameOver,
    Ending,
}

impl AppState {
    /// The state a confirmation (the menu button, or the key that
    /// leaves an end screen) moves the game to: every screen but the
    /// stage itself starts a new play session.
    pub open spec fn spec_on_confirm(&self) -> Option<AppState> {
        match self {
            AppState::Menu => Some(AppState::InGame),
            AppState::GameOver => Some(AppState::InGame),
            AppState::Ending => Some(AppState::InGame),
            AppState::InGame => None,
        }
    }

    pub fn on_confirm(&self) -> (r: Option<AppState>)
        ensures
            r == self.spec_on_confirm(),
    {
        match self {
            AppState::Menu => Some(AppState::InGame),
            AppState::GameOver => Some(AppState::InGame),
            AppState::Ending => Some(AppState::InGame),
            AppState::InGame => None,
        }
    }
}

} // verus!
