//! The framebuffer: a 64x32 grid of monochrome pixel states, mutated only by
//! the draw and clear instructions, and read out as a pixel buffer for a
//! renderer.
use crate::semantics::blank_fb;
use vstd::prelude::*;

verus! {

pub const WIDTH: usize = 64;

pub const HEIGHT: usize = 32;

/// The 64x32 grid of pixel states, `true` meaning lit, stored as 32 rows of
/// 64 columns.
pub struct Display {
    pub frame_buffer: [[bool; 64]; 32],
}

impl View for Display {
    type V = Seq<Seq<bool>>;

    /// The grid as 32 rows of 64 pixel states.
    open spec fn view(&self) -> Seq<Seq<bool>> {
        self.frame_buffer.deep_view()
    }
}

impl Display {
    /// A new display with every pixel dark.
    pub fn default() -> (r: Self)
        ensures
            r@ == blank_fb(),
    {
        let display = Display { frame_buffer: [[false; 64]; 32] };
        proof {
            assert(display@ =~~= blank_fb());
        }
        display
    }

    /// Turn every pixel dark.
    pub fn clear(&mut self)
        ensures
            final(self)@ == blank_fb(),
    {
        self.frame_buffer = [[false; 64]; 32];
        proof {
            assert(self@ =~~= blank_fb());
        }
    }

    /// Read one pixel.
    pub fn pixel(&self, x: usize, y: usize) -> (p: bool)
        requires
            x < WIDTH,
            y < HEIGHT,
        ensures
            p == self@[y as int][x as int],
    {
        self.frame_buffer[y][x]
    }

    /// The grid flattened row-major into one 32-bit word per pixel, white
    /// where lit and black where dark, ready for a renderer.
    pub fn render(&self) -> (buffer: Vec<u32>)
        ensures
            buffer@.len() == WIDTH * HEIGHT,
            forall|y: int, x: int|
                0 <= y < HEIGHT && 0 <= x < WIDTH ==> buffer@[y * 64 + x] == (if self@[y][x] {
                    0xFFFFFFFFu32
                } else {
                    0u32
                }),
    {
        let mut buffer: Vec<u32> = Vec::new();
        let mut row: usize = 0;
        while row < HEIGHT
            invariant
                row <= HEIGHT,
                buffer@.len() == row * 64,
                forall|y: int, x: int|
                    0 <= y < row && 0 <= x < WIDTH ==> buffer@[y * 64 + x] == (if self@[y][x] {
                        0xFFFFFFFFu32
                    } else {
                        0u32
                    }),
            decreases HEIGHT - row,
        {
            let mut col: usize = 0;
            while col < WIDTH
                invariant
                    row < HEIGHT,
                    col <= WIDTH,
                    buffer@.len() == row * 64 + col,
                    forall|y: int, x: int|
                        0 <= y < row && 0 <= x < WIDTH ==> buffer@[y * 64 + x] == (if self@[y][x] {
                            0xFFFFFFFFu32
                        } else {
                            0u32
                        }),
                    forall|x: int|
                        0 <= x < col ==> buffer@[row * 64 + x] == (if self@[row as int][x] {
                            0xFFFFFFFFu32
                        } else {
                            0u32
                        }),
                decreases WIDTH - col,
            {
                if self.frame_buffer[row][col] {
                    buffer.push(0xFFFFFFFF);
                } else {
                    buffer.push(0x00000000);
                }
                col = col + 1;
            }
            row = row + 1;
        }
        buffer
    }
}

} // verus!
