//! Cells as RGBA pixels.
//!
//! A cell is drawn in two layers: its creature, opaque in its own colour,
//! and over it its substance, in its colour and as opaque as it is
//! concentrated. This module gives the two layers and lays finished pixels
//! out in a frame. Compositing one layer over the other is floating-point
//! work and belongs to whoever draws.

use vstd::prelude::*;
use crate::cell::{Creature, Substance, AMOUNT_ONE};

verus! {

/// The pixel of an optional creature: opaque in its colour, or fully
/// transparent black.
pub open spec fn creature_pixel(creature: Option<Creature>) -> Seq<u8> {
    match creature {
        Some(c) => seq![c.color.r, c.color.g, c.color.b, 0xffu8],
        None => seq![0u8, 0u8, 0u8, 0u8],
    }
}

/// The opacity that stands for a concentration: `amount * 255`, rounded down,
/// and 255 for any amount of `AMOUNT_ONE` or more.
pub open spec fn opacity(amount: u32) -> u8 {
    if amount >= AMOUNT_ONE {
        0xffu8
    } else {
        (amount * 255 / (AMOUNT_ONE as int)) as u8
    }
}

/// The pixel of an optional substance: its colour at the opacity of its
/// concentration, or fully transparent black.
pub open spec fn substance_pixel(substance: Option<Substance>) -> Seq<u8> {
    match substance {
        Some(s) => seq![s.color.r, s.color.g, s.color.b, opacity(s.amount)],
        None => seq![0u8, 0u8, 0u8, 0u8],
    }
}

/// The number of pixels that fit both the list and the buffer: pixels beyond
/// the buffer are not drawn, and a last chunk of fewer than four bytes is
/// not a pixel.
pub open spec fn pixels_drawn(pixels: Seq<[u8; 4]>, screen: Seq<u8>) -> int {
    if pixels.len() <= screen.len() / 4 {
        pixels.len() as int
    } else {
        screen.len() as int / 4
    }
}

/// The buffer after the pixels were laid out in it: four bytes to each
/// pixel, in order, from the start; what lies behind the last pixel drawn
/// is as it was.
pub open spec fn laid_out(pixels: Seq<[u8; 4]>, screen: Seq<u8>) -> Seq<u8> {
    Seq::new(
        screen.len(),
        |k: int|
            if k < 4 * pixels_drawn(pixels, screen) {
                pixels[k / 4]@[k % 4]
            } else {
                screen[k]
            },
    )
}

/// The pixel of an optional creature.
pub fn render_cell_creature(cell_creature: Option<Creature>) -> (rgba: [u8; 4])
    ensures
        rgba@ == creature_pixel(cell_creature),
{
    if let Some(creature) = cell_creature {
        let color_rgb = creature.color;
        let rgba: [u8; 4] = [color_rgb.r, color_rgb.g, color_rgb.b, 0xff];
        assert(rgba@ =~= creature_pixel(cell_creature));
        rgba
    } else {
        let rgba: [u8; 4] = [0, 0, 0, 0];
        assert(rgba@ =~= creature_pixel(cell_creature));
        rgba
    }
}

/// The pixel of an optional substance.
pub fn render_cell_substance(cell_substance: Option<Substance>) -> (rgba: [u8; 4])
    ensures
        rgba@ == substance_pixel(cell_substance),
{
    if let Some(substance) = cell_substance {
        let color_rgb = substance.color;
        let color_alpha: u8 = if substance.amount >= AMOUNT_ONE {
            0xff
        } else {
            ((substance.amount as u64) * 255 / (AMOUNT_ONE as u64)) as u8
        };
        let rgba: [u8; 4] = [color_rgb.r, color_rgb.g, color_rgb.b, color_alpha];
        assert(rgba@ =~= substance_pixel(cell_substance));
        rgba
    } else {
        let rgba: [u8; 4] = [0, 0, 0, 0];
        assert(rgba@ =~= substance_pixel(cell_substance));
        rgba
    }
}

/// Lays the pixels out in `screen`, four bytes to each, in order. A frame
/// for a grid holds exactly four bytes for each cell. Where the two sizes do
/// not match, as many pixels are drawn as fit both, and the rest of the
/// buffer is left as it was.
pub fn draw_pixels(pixels: &Vec<[u8; 4]>, screen: &mut [u8])
    ensures
        final(screen)@ == laid_out(pixels@, old(screen)@),
        final(screen)@.len() == old(screen)@.len(),
{
    let size: usize = screen.len();
    let room: usize = size / 4;
    let count: usize = if pixels.len() <= room { pixels.len() } else { room };
    let mut i: usize = 0;
    while i < count
        invariant
            i <= count,
            count == pixels_drawn(pixels@, old(screen)@),
            count <= pixels@.len(),
            4 * count <= size,
            screen@.len() == size == old(screen)@.len(),
            forall|k: int| 0 <= k < 4 * i ==> (#[trigger] screen@[k]) == pixels@[k / 4]@[k % 4],
            forall|k: int| 4 * i <= k < size ==> (#[trigger] screen@[k]) == old(screen)@[k],
        decreases count - i,
    {
        let color_rgba: [u8; 4] = pixels[i];
        let at: usize = 4 * i;
        screen[at] = color_rgba[0];
        screen[at + 1] = color_rgba[1];
        screen[at + 2] = color_rgba[2];
        screen[at + 3] = color_rgba[3];
        i = i + 1;
    }
    assert(screen@ =~= laid_out(pixels@, old(screen)@));
}

} // verus!
