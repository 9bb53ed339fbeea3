//! Where a cell of the display goes on a scaled canvas.

use vstd::prelude::*;
use crate::machine::{SCREEN_HEIGHT, SCREEN_SIZE, SCREEN_WIDTH};

verus! {

/// The rectangle that display cell `index` fills on a canvas on which every
/// pixel is a square of `scale` by `scale`: the left edge, the top edge, the
/// width and the height. Cells are numbered row after row.
pub open spec fn cell_rect(index: int, scale: int) -> (int, int, int, int) {
    ((index % 64) * scale, (index / 64) * scale, scale, scale)
}

/// The rectangle that display cell `index` fills at the given scale.
pub fn pixel_rect(index: usize, scale: usize) -> (rect: (usize, usize, usize, usize))
    requires
        index < SCREEN_SIZE,
        (SCREEN_WIDTH - 1) * scale <= usize::MAX,
    ensures
        (rect.0 as int, rect.1 as int, rect.2 as int, rect.3 as int) == cell_rect(
            index as int,
            scale as int,
        ),
        rect.0 + rect.2 <= SCREEN_WIDTH * scale,
        rect.1 + rect.3 <= SCREEN_HEIGHT * scale,
{
    let x = index % SCREEN_WIDTH;
    let y = index / SCREEN_WIDTH;
    assert(x * scale <= 63 * scale && y * scale <= 31 * scale && 31 * scale <= 63 * scale
        && x * scale + scale <= 64 * scale && y * scale + scale <= 32 * scale)
        by (nonlinear_arith)
        requires
            x <= 63,
            y <= 31,
            scale >= 0,
    ;
    (x * scale, y * scale, scale, scale)
}

} // verus!
