//! The monochrome display buffer: a 64x32 grid of pixels, mutated only
//! through the XOR toggle that sprite drawing uses, and cleared by `CLS`.
//!
//! Coordinates wrap modulo the grid (standard CHIP-8 sprite-wrap
//! semantics), so a sprite drawn at the right or bottom edge continues on
//! the opposite side.

use crate::util::filled_vec;
use vstd::prelude::*;

verus! {

/// Display width in pixels.
pub const DISPLAY_WIDTH: usize = 64;

/// Display height in pixels.
pub const DISPLAY_HEIGHT: usize = 32;

/// Total number of pixels in the grid.
pub const PIXEL_COUNT: usize = DISPLAY_WIDTH * DISPLAY_HEIGHT;

/// The display buffer. Pixels are stored as a flat row-major grid:
/// pixel (x, y) lives at index `y * 64 + x`.
pub struct Chip8Display {
    pub pixels: Vec<bool>,
}

impl View for Chip8Display {
    type V = Seq<bool>;

    open spec fn view(&self) -> Seq<bool> {
        self.pixels@
    }
}

impl Chip8Display {
    /// The buffer always holds exactly one flag per pixel of the 64x32 grid.
    pub open spec fn wf(&self) -> bool {
        self@.len() == PIXEL_COUNT
    }

    /// Set every pixel to unset.
    pub fn clear(&mut self)
        requires
            old(self).wf(),
        ensures
            final(self).wf(),
            final(self)@ == blank_display(),
    {
        let mut p: usize = 0;
        while p < PIXEL_COUNT
            invariant
                p <= PIXEL_COUNT,
                self.pixels@.len() == PIXEL_COUNT,
                forall|k: int| 0 <= k < p ==> !self.pixels@[k],
            decreases PIXEL_COUNT - p,
        {
            self.pixels[p] = false;
            p = p + 1;
        }
        assert(self.pixels@ =~= blank_display());
    }
}

/// The all-unset pixel grid.
pub open spec fn blank_display() -> Seq<bool> {
    Seq::new(PIXEL_COUNT as nat, |p: int| false)
}

/// Flat index of logical coordinates (x, y), wrapped onto the grid.
pub open spec fn px_index(x: int, y: int) -> int {
    (y % (DISPLAY_HEIGHT as int)) * (DISPLAY_WIDTH as int) + (x % (DISPLAY_WIDTH as int))
}

/// The grid after the pixel at wrapped (x, y) is flipped.
pub open spec fn spec_toggle(grid: Seq<bool>, x: int, y: int) -> Seq<bool> {
    grid.update(px_index(x, y), !grid[px_index(x, y)])
}

/// Create a display buffer with every pixel unset.
pub fn build_chip8_display() -> (r: Chip8Display)
    ensures
        r.wf(),
        r@ == blank_display(),
{
    Chip8Display { pixels: filled_vec(PIXEL_COUNT, false) }
}

/// Flip the pixel at logical coordinates (x, y), wrapping both coordinates
/// onto the 64x32 grid, and report whether the pixel was lit before the
/// toggle (a lit-to-unlit transition is a sprite collision).
pub fn xor_px_at(display: &mut Chip8Display, x: usize, y: usize) -> (lit_before: bool)
    requires
        old(display).wf(),
    ensures
        final(display).wf(),
        final(display)@ == spec_toggle(old(display)@, x as int, y as int),
        lit_before == old(display)@[px_index(x as int, y as int)],
{
    let rx = x % DISPLAY_WIDTH;
    let ry = y % DISPLAY_HEIGHT;
    let idx = ry * DISPLAY_WIDTH + rx;
    let lit = display.pixels[idx];
    display.pixels[idx] = !lit;
    lit
}

/// Read the pixel at coordinates (x, y); the renderer polls this once per
/// host frame.
pub fn px_at(display: &Chip8Display, x: usize, y: usize) -> (lit: bool)
    requires
        display.wf(),
        x < DISPLAY_WIDTH,
        y < DISPLAY_HEIGHT,
    ensures
        lit == display@[px_index(x as int, y as int)],
{
    display.pixels[y * DISPLAY_WIDTH + x]
}

/// Toggling the same coordinates twice restores the original grid, and the
/// second toggle reports the opposite prior state of the first: the pixel
/// XOR is an involution.
pub proof fn lemma_toggle_involution(grid: Seq<bool>, x: int, y: int)
    requires
        grid.len() == PIXEL_COUNT,
        0 <= x,
        0 <= y,
    ensures
        spec_toggle(grid, x, y)[px_index(x, y)] == !grid[px_index(x, y)],
        spec_toggle(spec_toggle(grid, x, y), x, y) == grid,
{
    assert(0 <= px_index(x, y) < PIXEL_COUNT);
    assert(spec_toggle(spec_toggle(grid, x, y), x, y) =~= grid);
}

} // verus!
