//! The status board: every game of the schedule with how its warning
//! stands.

use vstd::prelude::*;
use crate::game_parser::Game;

verus! {

/// How the warning of a game stands.
#[derive(Debug, PartialEq)]
pub enum WarningStatus {
    Waiting,
    Completed,
    Error,
}

/// One line of the board: a game and the status of its warning.
#[derive(Debug, PartialEq)]
pub struct GameInfo<'a> {
    pub game: &'a Game,
    pub status: WarningStatus,
}

/// The board before anything was sent: every game, in order, waiting.
pub fn game_statuses<'a>(games: &'a [Game]) -> (board: Vec<GameInfo<'a>>)
    ensures
        board@.len() == games@.len(),
        forall|i: int|
            0 <= i < games@.len() ==> *(#[trigger] board@[i]).game == games@[i] && board@[i].status
                == WarningStatus::Waiting,
{
    let mut board: Vec<GameInfo<'a>> = Vec::new();
    let mut i: usize = 0;
    while i < games.len()
        invariant
            i <= games@.len(),
            board@.len() == i,
            forall|k: int|
                0 <= k < i ==> *(#[trigger] board@[k]).game == games@[k] && board@[k].status
                    == WarningStatus::Waiting,
        decreases games.len() - i,
    {
        board.push(GameInfo { game: &games[i], status: WarningStatus::Waiting });
        i += 1;
    }
    board
}

} // verus!
