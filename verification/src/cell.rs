//! Per-tile state: whether the tile has been revealed, the player's flag
//! estimate, and the level of the monster occupying it, if any.

use vstd::prelude::*;

verus! {

/// One tile of the board. A level, whether of a monster or of a flag, is
/// always in `1..=9`; `None` means empty terrain (or no flag).
#[derive(Clone, Copy, PartialEq, Eq, Debug, Hash)]
pub struct Cell {
    /// Determines if the cell has been revealed to the player.
    pub revealed: bool,
    /// The player's estimated monster level for this cell.
    pub flag: Option<u8>,
    /// Level of the monster occupying this cell.
    pub level: Option<u8>,
}

impl Cell {
    /// Both stored levels, where present, lie in `1..=9`.
    pub open spec fn wf(self) -> bool {
        &&& (self.flag matches Some(f) ==> 1 <= f <= 9)
        &&& (self.level matches Some(l) ==> 1 <= l <= 9)
    }

    /// The baseline cell: concealed, unflagged, empty terrain.
    pub open spec fn fresh() -> Cell {
        Cell { revealed: false, flag: None, level: None }
    }

    pub fn new() -> (c: Cell)
        ensures
            c == Cell::fresh(),
            c.wf(),
    {
        Cell { revealed: false, flag: None, level: None }
    }

    /// Set a flag on the cell. Flagging a revealed cell is a no-op: a flag
    /// may only be set while the cell is still concealed.
    pub fn set_flag(&mut self, level: u8)
        requires
            1 <= level <= 9,
        ensures
            old(self).revealed ==> *final(self) == *old(self),
            !old(self).revealed ==> *final(self) == (Cell { flag: Some(level), ..*old(self) }),
            old(self).wf() ==> final(self).wf(),
    {
        if !self.revealed {
            self.flag = Some(level);
        }
    }

    /// Remove the flag on the cell.
    pub fn remove_flag(&mut self)
        ensures
            *final(self) == (Cell { flag: None, ..*old(self) }),
            old(self).wf() ==> final(self).wf(),
    {
        self.flag = None;
    }
}

} // verus!
