//! The rotation order in which the turn passes from player to player.

use vstd::prelude::*;
use vstd::std_specs::ops::NotSpecImpl;

verus! {

/// The order in which the turn moves round the table.
#[derive(PartialEq, Eq, Structural, Copy, Clone, Debug)]
pub enum GameDirection {
    Clockwise,
    CounterClockwise,
}

impl GameDirection {
    /// The opposite direction.
    pub open spec fn reversed(self) -> GameDirection {
        match self {
            GameDirection::Clockwise => GameDirection::CounterClockwise,
            GameDirection::CounterClockwise => GameDirection::Clockwise,
        }
    }

    /// The step that one turn advance adds to the index of the current player:
    /// `+1` clockwise, `-1` counter-clockwise.
    pub open spec fn delta(self) -> int {
        match self {
            GameDirection::Clockwise => 1,
            GameDirection::CounterClockwise => -1,
        }
    }

    /// Flips the direction.
    pub fn reverse(self) -> (r: GameDirection)
        ensures
            r == self.reversed(),
    {
        match self {
            GameDirection::Clockwise => GameDirection::CounterClockwise,
            GameDirection::CounterClockwise => GameDirection::Clockwise,
        }
    }
}

impl core::ops::Not for GameDirection {
    type Output = GameDirection;

    fn not(self) -> (r: GameDirection) {
        self.reverse()
    }
}

impl NotSpecImpl for GameDirection {
    open spec fn obeys_not_spec() -> bool {
        true
    }

    open spec fn not_req(self) -> bool {
        true
    }

    open spec fn not_spec(self) -> GameDirection {
        self.reversed()
    }
}

impl core::ops::Add<GameDirection> for isize {
    type Output = isize;

    /// The index one step from `self` in the direction `rhs`, before it is
    /// brought back into the range of the players.
    fn add(self, rhs: GameDirection) -> (r: isize) {
        match rhs {
            GameDirection::Clockwise => self + 1,
            GameDirection::CounterClockwise => self - 1,
        }
    }
}

impl vstd::std_specs::ops::AddSpecImpl<GameDirection> for isize {
    open spec fn obeys_add_spec() -> bool {
        true
    }

    open spec fn add_req(self, rhs: GameDirection) -> bool {
        isize::MIN <= self + rhs.delta() <= isize::MAX
    }

    open spec fn add_spec(self, rhs: GameDirection) -> isize {
        (self + rhs.delta()) as isize
    }
}

/// Reversing a direction twice gives the direction back.
pub proof fn lemma_reverse_involution(d: GameDirection)
    ensures
        d.reversed().reversed() == d,
{
}

} // verus!
