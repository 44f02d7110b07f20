use vstd::prelude::*;

verus! {

/// How far a game has come.
#[derive(Clone, Copy, PartialEq, Eq, Debug, Structural)]
pub enum GameState {
    OnGoing,
    RedWon,
    YellowWon,
    Draw,
}

} // verus!
