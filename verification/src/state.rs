use vstd::prelude::*;

verus! {

/// The states of the application.
#[derive(Debug, Copy, Clone, Eq, PartialEq, Hash, Structural)]
pub enum GameState {
    /// The assets are being loaded.
    Loading,
    /// The main menu is shown.
    MainMenu,
    /// The game is paused.
    PauseMenu,
    /// A level is being played.
    InGame,
}

impl Default for GameState {
    /// The application starts by loading.
    fn default() -> (state: Self)
        ensures
            state == GameState::Loading,
    {
        GameState::Loading
    }
}

} // verus!
