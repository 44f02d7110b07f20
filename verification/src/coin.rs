use vstd::prelude::*;

verus! {

/// What a cell of the board holds.
#[derive(Clone, Copy, PartialEq, Eq, Debug, Structural)]
pub enum Coin {
    Empty,
    Red,
    Yellow,
}

impl Coin {
    /// Two cells are compatible when either is empty or both hold the same coin.
    pub open spec fn compatible(self, other: Coin) -> bool {
        self == Coin::Empty || other == Coin::Empty || self == other
    }

    /// Whether `self` and `other` could belong to one player's line.
    pub fn equals_or_empty(&self, other: &Self) -> (res: bool)
        ensures
            res == self.compatible(*other),
    {
        if *self == Coin::Empty || *other == Coin::Empty {
            return true;
        }
        *self == *other
    }
}

} // verus!
