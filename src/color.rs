//! The colour of a pixel, from its position and its escape time.
use vstd::prelude::*;

verus! {

/// Red: `255 - k` for an escape at step `k` (0 from step 255 on), 0 for no escape.
/// An escape at step 0 is the brightest red, an orbit that stays bounded is black.
pub open spec fn red_of(escape: Option<u32>) -> u8 {
    match escape {
        Some(k) => if k >= 255 {
            0u8
        } else {
            (255 - k) as u8
        },
        None => 0u8,
    }
}

/// A tenth of a pixel index, truncated, and held at 255 from index 2550 on.
pub open spec fn gradient_of(i: u32) -> u8 {
    if i / 10 >= 255 {
        255u8
    } else {
        (i / 10) as u8
    }
}

/// Channel `k` of the pixel in row `row` and column `col`: red from the escape time,
/// green from the row, blue from the column, and an opaque alpha.
pub open spec fn channel_of(row: u32, col: u32, escape: Option<u32>, k: int) -> u8 {
    if k == 0 {
        red_of(escape)
    } else if k == 1 {
        gradient_of(row)
    } else if k == 2 {
        gradient_of(col)
    } else {
        255u8
    }
}

/// The red channel of a pixel whose orbit gave `escape`.
pub fn red(escape: Option<u32>) -> (r: u8)
    ensures
        r == red_of(escape),
{
    match escape {
        Some(k) => if k >= 255 {
            0
        } else {
            (255 - k) as u8
        },
        None => 0,
    }
}

/// The gradient channel keyed to pixel index `i`.
pub fn gradient(i: u32) -> (r: u8)
    ensures
        r == gradient_of(i),
{
    let t: u32 = i / 10;
    if t >= 255 {
        255
    } else {
        t as u8
    }
}

/// The colour of the pixel in row `row` and column `col`, as red, green, blue, alpha.
pub fn pixel_color(row: u32, col: u32, escape: Option<u32>) -> (r: [u8; 4])
    ensures
        forall|k: int| 0 <= k < 4 ==> #[trigger] r@[k] == channel_of(row, col, escape, k),
{
    [red(escape), gradient(row), gradient(col), 255]
}

} // verus!
