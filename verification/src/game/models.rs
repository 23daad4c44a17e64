//! Screen-stage model of the game's user interface: a marker type per
//! screen, and a `Game` value that can only move between stages along the
//! declared transitions. The game state carried across stages is preserved
//! by every transition.

use vstd::prelude::*;

verus! {

/// Marker trait for the screens the game can show.
pub trait GameScreenStage {}

pub struct ScreenSelect;

pub struct ScreenPlaying;

pub struct ScreenPaused;

pub struct ScreenTally;

impl GameScreenStage for ScreenSelect {}

impl GameScreenStage for ScreenPlaying {}

impl GameScreenStage for ScreenPaused {}

impl GameScreenStage for ScreenTally {}

/// State shared by every screen stage.
pub struct GameState {}

pub struct Game<S: GameScreenStage> {
    pub stage: S,
    pub state: Box<GameState>,
}

impl Game<ScreenSelect> {
    /// A fresh game starts on the selection screen.
    pub fn new() -> Game<ScreenSelect> {
        Game { stage: ScreenSelect, state: Box::new(GameState {}) }
    }

    /// Selection moves to play; the carried state is kept.
    pub fn to_playing(self) -> (r: Game<ScreenPlaying>)
        ensures
            r.state == self.state,
    {
        Game { stage: ScreenPlaying, state: self.state }
    }
}

impl Game<ScreenPlaying> {
    /// Play can be paused; the carried state is kept.
    pub fn to_paused(self) -> (r: Game<ScreenPaused>)
        ensures
            r.state == self.state,
    {
        Game { stage: ScreenPaused, state: self.state }
    }
}

} // verus!
