//! How the row-by-row, bit-by-bit drawing of a sprite adds up to the
//! cell-by-cell statement in the model.

use vstd::prelude::*;
use crate::machine::{Machine, SCREEN_SIZE};

verus! {

/// The display cell on which row `r`, column `c` of a sprite falls when the
/// sprite is drawn at (`vx`, `vy`).
pub open spec fn cell_of(vx: u8, vy: u8, r: int, c: int) -> int {
    (vx + c) % 64 + 64 * ((vy + r) % 32)
}

/// Whether the sprite has a set pixel on `cell` that comes before row `r`,
/// column `c`, in drawing order.
pub open spec fn painted(m: Machine, vx: u8, vy: u8, rows: int, r: int, c: int, cell: int) -> bool {
    let row = Machine::sprite_row(cell, vy);
    let col = Machine::sprite_col(cell, vx);
    m.sprite_covers(vx, vy, rows, cell) && (row < r || (row == r && col < c))
}

/// Whether a pixel that was lit has been drawn over before row `r`, column
/// `c`.
pub open spec fn erased(m: Machine, vx: u8, vy: u8, rows: int, r: int, c: int) -> bool {
    exists|cell: int|
        0 <= cell < SCREEN_SIZE && m.screen[cell] && #[trigger] painted(m, vx, vy, rows, r, c, cell)
}

/// Each position of a sprite falls on exactly one cell of the display.
pub proof fn lemma_cell_of(vx: u8, vy: u8, r: int, c: int)
    requires
        0 <= r < 32,
        0 <= c < 64,
    ensures
        0 <= cell_of(vx, vy, r, c) < SCREEN_SIZE,
        Machine::sprite_row(cell_of(vx, vy, r, c), vy) == r,
        Machine::sprite_col(cell_of(vx, vy, r, c), vx) == c,
        forall|cell: int|
            0 <= cell < SCREEN_SIZE && Machine::sprite_row(cell, vy) == r && Machine::sprite_col(
                cell,
                vx,
            ) == c ==> cell == cell_of(vx, vy, r, c),
{
}

} // verus!
