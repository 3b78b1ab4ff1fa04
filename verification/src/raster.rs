//! Where a display cell goes on a window surface.

use vstd::prelude::*;
use crate::machine::VRAM_SIZE;

verus! {

/// Width of a drawn cell, in window pixels.
pub const PIXEL_WIDTH: u32 = 10;

/// Height of a drawn cell, in window pixels.
pub const PIXEL_HEIGHT: u32 = 10;

/// Distance of the first cell from the left and the top of the window.
pub const LEFT_MARGIN: u32 = 11;

/// Cells in a display row.
pub const ROW_LENGTH: usize = 64;

/// A rectangle on the window surface.
#[derive(Clone, Copy, Debug, PartialEq, Eq, Structural)]
pub struct PixelRect {
    pub x: i32,
    pub y: i32,
    pub width: u32,
    pub height: u32,
}

/// An RGB colour.
#[derive(Clone, Copy, Debug, PartialEq, Eq, Structural)]
pub struct Rgb {
    pub red: u8,
    pub green: u8,
    pub blue: u8,
}

/// The rectangle of the display cell `cell`: cells are 10 by 10 pixels, one
/// pixel apart, the first one 11 pixels from the left and the top.
pub open spec fn rect_of(cell: int) -> PixelRect {
    PixelRect {
        x: (11 + 11 * (cell % 64)) as i32,
        y: (11 + 11 * (cell / 64)) as i32,
        width: 10,
        height: 10,
    }
}

/// Whether two rectangles share a pixel.
pub open spec fn overlap(a: PixelRect, b: PixelRect) -> bool {
    &&& a.x < b.x + b.width
    &&& b.x < a.x + a.width
    &&& a.y < b.y + b.height
    &&& b.y < a.y + a.height
}

/// The rectangle in which the display cell `cell` is drawn.
pub fn pixel_rect(cell: usize) -> (rect: PixelRect)
    requires
        cell < VRAM_SIZE,
    ensures
        rect == rect_of(cell as int),
{
    let x: u32 = (cell % ROW_LENGTH) as u32;
    let y: u32 = (cell / ROW_LENGTH) as u32;
    PixelRect {
        x: ((LEFT_MARGIN + x) + (PIXEL_WIDTH * x)) as i32,
        y: ((LEFT_MARGIN + y) + (PIXEL_HEIGHT * y)) as i32,
        width: PIXEL_WIDTH,
        height: PIXEL_HEIGHT,
    }
}

/// Get the color of the bit
/// White if on, dark grey if off
pub fn get_color(pixel_bit: u8) -> (color: Rgb)
    ensures
        color == if pixel_bit == 1 {
            (Rgb { red: 255, green: 255, blue: 255 })
        } else {
            (Rgb { red: 33, green: 33, blue: 33 })
        },
{
    if pixel_bit == 1 {
        Rgb { red: 255, green: 255, blue: 255 }
    } else {
        Rgb { red: 33, green: 33, blue: 33 }
    }
}

/// The rectangles of two different cells share no pixel, and every
/// rectangle lies within a surface of 725 by 375 pixels.
pub proof fn cells_are_drawn_apart(first: int, second: int)
    requires
        0 <= first < VRAM_SIZE,
        0 <= second < VRAM_SIZE,
        first != second,
    ensures
        !overlap(rect_of(first), rect_of(second)),
        0 <= rect_of(first).x && rect_of(first).x + rect_of(first).width <= 725,
        0 <= rect_of(first).y && rect_of(first).y + rect_of(first).height <= 375,
{
}

} // verus!
