//! Integer pixel geometry and assembly of the image byte buffer.
//!
//! The image is square: its side is four times the scale factor, and its
//! center pixel maps to the origin of the complex plane. The division of a
//! pixel offset by the scale factor, which yields the complex coordinate
//! itself, is left to the caller that drives the iteration.

use vstd::prelude::*;
use vstd::arithmetic::div_mod::{
    lemma_fundamental_div_mod_converse, lemma_mod_bound, lemma_multiply_divide_lt,
};
use crate::color::Color;
use crate::growth::{growth_color, Growth};

verus! {

/// Image width in pixels: four times the scale factor.
pub fn img_width(scale_factor: i32) -> (w: i32)
    requires
        1 <= scale_factor <= 0x1FFF_FFFF,
    ensures
        w == 4 * scale_factor,
{
    scale_factor * 4
}

/// Image height in pixels: equal to the width, so the image is square.
pub fn img_height(scale_factor: i32) -> (h: i32)
    requires
        1 <= scale_factor <= 0x1FFF_FFFF,
    ensures
        h == 4 * scale_factor,
{
    scale_factor * 4
}

/// The pixel column that maps to the real axis origin: half the image width.
pub fn center_x(scale_factor: i32) -> (c: i32)
    requires
        1 <= scale_factor <= 0x1FFF_FFFF,
    ensures
        c == 2 * scale_factor,
{
    img_width(scale_factor) / 2
}

/// The pixel row that maps to the imaginary axis origin: half the image
/// height.
pub fn center_y(scale_factor: i32) -> (c: i32)
    requires
        1 <= scale_factor <= 0x1FFF_FFFF,
    ensures
        c == 2 * scale_factor,
{
    img_height(scale_factor) / 2
}

/// Converts a linear pixel index into a column and row: the index modulo the
/// width, and the index divided by the width. The image is square, so the
/// width equals the height; the width is used for both components so the
/// mapping stays correct for any rectangle.
pub fn linear_to_coord(i: i32, width: i32) -> (p: (i32, i32))
    requires
        0 <= i,
        1 <= width,
    ensures
        p.0 == i % width,
        p.1 == i / width,
        0 <= p.0 < width,
        0 <= p.1 <= i,
{
    let x: i32 = i % width;
    let y: i32 = i / width;
    (x, y)
}

/// Converts a linear pixel index into the pixel's signed offset from the
/// image center, in pixels. Dividing each component by the scale factor —
/// the one step left to the caller, since it leaves the integers — yields
/// the complex coordinate of the pixel.
pub fn pixel_offsets(i: i32, scale_factor: i32) -> (p: (i32, i32))
    requires
        1 <= scale_factor <= 0x1FFF_FFFF,
        0 <= i,
        i < 16 * scale_factor * scale_factor,
    ensures
        p.0 == i as int % (4 * scale_factor) - 2 * scale_factor,
        p.1 == i as int / (4 * scale_factor) - 2 * scale_factor,
        -2 * scale_factor <= p.0 < 2 * scale_factor,
        -2 * scale_factor <= p.1 < 2 * scale_factor,
{
    let width = img_width(scale_factor);
    let (x, y) = linear_to_coord(i, width);
    proof {
        assert(16 * scale_factor * scale_factor == (4 * scale_factor) * (4 * scale_factor))
            by (nonlinear_arith);
        lemma_mod_bound(i as int, width as int);
        lemma_multiply_divide_lt(i as int, width as int, width as int);
    }
    let cx = center_x(scale_factor);
    let cy = center_y(scale_factor);
    (x - cx, y - cy)
}

/// Concatenates the color of every pixel's growth into the flat byte buffer
/// an 8-bit RGB image encoder consumes: three bytes per pixel, row-major,
/// with pixel `i` at positions `3*i .. 3*i + 3`.
pub fn colorize(growths: &Vec<Growth>, stable_color: Color, palette: &Vec<Color>) -> (data: Vec<
    u8,
>)
    requires
        palette@.len() >= 1,
        growths@.len() * 3 <= usize::MAX,
    ensures
        data@.len() == 3 * growths@.len(),
        forall|j: int| 0 <= j < data@.len() ==> #[trigger] data@[j]
            == growth_color(growths@[j / 3], stable_color, palette@)[j % 3],
{
    let mut data: Vec<u8> = Vec::new();
    let mut idx: usize = 0;
    while idx < growths.len()
        invariant
            palette@.len() >= 1,
            growths@.len() * 3 <= usize::MAX,
            idx <= growths@.len(),
            data@.len() == 3 * idx,
            forall|j: int| 0 <= j < data@.len() ==> #[trigger] data@[j]
                == growth_color(growths@[j / 3], stable_color, palette@)[j % 3],
        decreases growths@.len() - idx,
    {
        let c = growths[idx].to_rgb(stable_color, palette);
        data.push(c[0]);
        data.push(c[1]);
        data.push(c[2]);
        proof {
            lemma_fundamental_div_mod_converse(3 * idx + 0, 3, idx as int, 0);
            lemma_fundamental_div_mod_converse(3 * idx + 1, 3, idx as int, 1);
            lemma_fundamental_div_mod_converse(3 * idx + 2, 3, idx as int, 2);
        }
        idx = idx + 1;
    }
    data
}

} // verus!
