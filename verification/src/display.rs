//! What the host window shows: one filled square per lit pixel.
use vstd::prelude::*;
use crate::cpu::CPU;
use crate::machine::{SCREEN_HEIGHT, SCREEN_WIDTH};

verus! {

broadcast use vstd::array::group_array_axioms;

/// How many display pixels share one stored pixel along each axis.
pub const SCREEN_SIZE_FACTOR: usize = 1;

/// Side of the square drawn for one pixel, in window pixels.
pub const PIXEL_SIZE: u32 = 10;

/// Whether the display pixel at row `y`, column `x` is lit.
pub open spec fn pixel_lit(screen: Seq<Seq<u8>>, y: int, x: int) -> bool {
    screen[y / SCREEN_SIZE_FACTOR as int][x / SCREEN_SIZE_FACTOR as int] > 0
}

/// The square (left, top, width, height) drawn for the pixel at row `y`, column `x`.
pub open spec fn pixel_rect(y: int, x: int) -> (i32, i32, u32, u32) {
    ((x * PIXEL_SIZE) as i32, (y * PIXEL_SIZE) as i32, PIXEL_SIZE, PIXEL_SIZE)
}

/// The squares for the lit pixels among the first `n` columns of row `y`, left to right.
pub open spec fn row_rects(screen: Seq<Seq<u8>>, y: int, n: int) -> Seq<(i32, i32, u32, u32)>
    decreases n,
{
    if n <= 0 {
        Seq::empty()
    } else if pixel_lit(screen, y, n - 1) {
        row_rects(screen, y, n - 1).push(pixel_rect(y, n - 1))
    } else {
        row_rects(screen, y, n - 1)
    }
}

/// The squares for the lit pixels of the first `n` rows, top to bottom.
pub open spec fn screen_rects(screen: Seq<Seq<u8>>, n: int) -> Seq<(i32, i32, u32, u32)>
    decreases n,
{
    if n <= 0 {
        Seq::empty()
    } else {
        screen_rects(screen, n - 1) + row_rects(screen, n - 1, SCREEN_WIDTH as int)
    }
}

impl CPU {
    /// The squares to fill, on a black background, to show the display: one per lit
    /// pixel, row by row from the top, left to right within a row.
    pub fn paint_rects(&self) -> (rects: Vec<(i32, i32, u32, u32)>)
        ensures
            rects@ == screen_rects(self@.screen, SCREEN_HEIGHT as int),
    {
        let mut rects: Vec<(i32, i32, u32, u32)> = Vec::new();
        let mut y: usize = 0;
        while y < 32
            invariant
                y <= SCREEN_HEIGHT,
                rects@ == screen_rects(self@.screen, y as int),
            decreases 32 - y,
        {
            let mut x: usize = 0;
            while x < 64
                invariant
                    y < SCREEN_HEIGHT,
                    x <= SCREEN_WIDTH,
                    rects@ == screen_rects(self@.screen, y as int) + row_rects(self@.screen, y as int, x as int),
                decreases 64 - x,
            {
                let p = self.screen[y / SCREEN_SIZE_FACTOR][x / SCREEN_SIZE_FACTOR];
                if p > 0 {
                    rects.push(((x as i32) * 10, (y as i32) * 10, 10, 10));
                }
                x += 1;
                assert(rects@ =~= screen_rects(self@.screen, y as int) + row_rects(self@.screen, y as int, x as int));
            }
            y += 1;
        }
        rects
    }
}

} // verus!
