//! The game's screens and its score.
use vstd::prelude::*;

verus! {

/// Which screen the game shows.
#[derive(Clone, Copy, Debug, PartialEq, Eq, Structural, Hash)]
pub enum GameState {
    LoadingAssets,
    Menu,
    InGame,
}

impl GameState {
    /// The screen that follows this one: every screen leads into the game.
    pub fn next(&self) -> (r: GameState)
        ensures
            r == GameState::InGame,
    {
        match *self {
            GameState::LoadingAssets => GameState::InGame,
            GameState::Menu => GameState::InGame,
            GameState::InGame => GameState::InGame,
        }
    }
}

impl Default for GameState {
    /// The game starts by loading its assets.
    fn default() -> (r: GameState)
        ensures
            r == GameState::LoadingAssets,
    {
        GameState::LoadingAssets
    }
}

/// What happens while the game is on.
#[derive(Clone, Copy, Debug, PartialEq, Eq, Structural, Hash)]
pub enum InGameState {
    /// The player aims; the aim assist is drawn.
    Launcher,
    /// A ball is in flight.
    Ball,
    /// The pegs that were hit are taken away.
    Cleanup,
}

impl Default for InGameState {
    /// A round starts with the player aiming.
    fn default() -> (r: InGameState)
        ensures
            r == InGameState::Launcher,
    {
        InGameState::Launcher
    }
}

/// The score board.
#[derive(Clone, Copy, Debug, PartialEq, Eq, Structural)]
pub struct GameStats {
    pub player_score: usize,
    pub target_pegs_left: usize,
}

impl Default for GameStats {
    /// No point scored, twenty target pegs to clear.
    fn default() -> (r: GameStats)
        ensures
            r.player_score == 0,
            r.target_pegs_left == 20,
    {
        GameStats { player_score: 0, target_pegs_left: 20 }
    }
}

impl GameStats {
    /// A peg that is taken away scores one point.
    pub fn peg_popped(&mut self)
        requires
            old(self).player_score < usize::MAX,
        ensures
            final(self).player_score == old(self).player_score + 1,
            final(self).target_pegs_left == old(self).target_pegs_left,
    {
        self.player_score = self.player_score + 1;
    }
}

} // verus!
