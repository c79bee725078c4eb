use crate::display::{Display, Grid};
use vstd::prelude::*;

verus! {

/// Number of pixels that a frame can show: one for each cell of the grid.
pub const PIXELS: usize = 64 * 32;

/// The frame `frame` after the grid `g` has been painted into it.
///
/// The frame is read as consecutive four-byte pixels, row by row. Pixel
/// `i` shows the cell in column `i mod 64` of row `i / 64`: all four bytes
/// `0xFF` where the cell is lit, all four `0x00` where it is not. Bytes
/// left over after the last whole pixel stay as they were.
pub open spec fn painted(g: Grid, frame: Seq<u8>) -> Seq<u8> {
    Seq::new(
        frame.len(),
        |k: int|
            if k < 4 * (frame.len() / 4) {
                if g[(k / 4) / 64][(k / 4) % 64] {
                    0xFFu8
                } else {
                    0x00u8
                }
            } else {
                frame[k]
            },
    )
}

/// Paints a framebuffer into a frame of four-byte pixels.
pub struct DisplayRenderer;

impl DisplayRenderer {
    /// Paints `display` into `output_frame`, which holds at most as many
    /// whole pixels as the grid has cells.
    pub fn draw(&self, display: &Display, output_frame: &mut [u8])
        requires
            old(output_frame)@.len() / 4 <= PIXELS,
        ensures
            final(output_frame)@ == painted(display@, old(output_frame)@),
    {
        let count = output_frame.len() / 4;
        let mut i: usize = 0;
        while i < count
            invariant
                i <= count <= PIXELS,
                count == old(output_frame)@.len() / 4,
                output_frame@.len() == old(output_frame)@.len(),
                forall|k: int|
                    0 <= k < output_frame@.len() ==> output_frame@[k] == if k < 4 * i {
                        painted(display@, old(output_frame)@)[k]
                    } else {
                        old(output_frame)@[k]
                    },
            decreases count - i,
        {
            let x = i % 64;
            let y = i / 64;
            let is_on = display.pixels[y][x];
            let color: u8 = if is_on {
                0xFF
            } else {
                0x00
            };
            output_frame[4 * i] = color;
            output_frame[4 * i + 1] = color;
            output_frame[4 * i + 2] = color;
            output_frame[4 * i + 3] = color;
            i += 1;
        }
        assert(output_frame@ =~= painted(display@, old(output_frame)@));
    }
}

} // verus!
