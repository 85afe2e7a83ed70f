//! The run's top-level state: playing, or over and waiting for a restart.
use vstd::prelude::*;

verus! {

#[derive(Clone, Copy, Debug, PartialEq, Eq, Structural)]
pub enum GameplayState {
    Playing,
    GameOver,
}

/// What the driver does after a tick besides simulating.
#[derive(Clone, Copy, Debug, PartialEq, Eq, Structural)]
pub enum StateAction {
    Continue,
    /// The run just ended: show the game-over message.
    ShowGameOver,
    /// Clear the world, generate a new level and respawn player and roller.
    Reset,
}

impl GameplayState {
    /// The state after a tick. While playing, the spike roller touching the
    /// player (`player_hit`) ends the run; once over, pressing jump
    /// (`restart`) starts a new one. Only the `Playing` state simulates.
    pub fn next(self, player_hit: bool, restart: bool) -> (r: (GameplayState, StateAction))
        ensures
            r == (match self {
                GameplayState::Playing => if player_hit {
                    (GameplayState::GameOver, StateAction::ShowGameOver)
                } else {
                    (GameplayState::Playing, StateAction::Continue)
                },
                GameplayState::GameOver => if restart {
                    (GameplayState::Playing, StateAction::Reset)
                } else {
                    (GameplayState::GameOver, StateAction::Continue)
                },
            }),
    {
        match self {
            GameplayState::Playing => if player_hit {
                (GameplayState::GameOver, StateAction::ShowGameOver)
            } else {
                (GameplayState::Playing, StateAction::Continue)
            },
            GameplayState::GameOver => if restart {
                (GameplayState::Playing, StateAction::Reset)
            } else {
                (GameplayState::GameOver, StateAction::Continue)
            },
        }
    }
}

} // verus!
