//! The tray icon's picture: a white "H" on a red rounded square, as 32x32
//! BGRA pixels stored bottom row first.
use vstd::prelude::*;

verus! {

/// Width and height of the icon, in pixels.
pub const SIZE: usize = 32;

/// The pixel (column `x`, row `top_y` counted from the top) belongs to the "H".
pub open spec fn in_letter(x: int, top_y: int) -> bool {
    ||| (8 <= x <= 11 && 8 <= top_y <= 23)
    ||| (20 <= x <= 23 && 8 <= top_y <= 23)
    ||| (8 <= x <= 23 && 14 <= top_y <= 17)
}

/// The pixel belongs to the coloured square (3 pixels in from each edge).
pub open spec fn in_square(x: int, top_y: int) -> bool {
    3 <= x <= 28 && 3 <= top_y <= 28
}

/// Channel `c` (0 blue, 1 green, 2 red, 3 alpha) of the pixel at column `x`,
/// row `top_y` from the top: white and opaque in the letter, red in the
/// square, transparent elsewhere.
pub open spec fn channel(x: int, top_y: int, c: int) -> u8 {
    if in_letter(x, top_y) {
        255
    } else if in_square(x, top_y) {
        if c == 2 { 220 } else if c == 3 { 255 } else { 24 }
    } else {
        0
    }
}

/// Byte `i` of the bottom-up BGRA image: pixel `i / 4` is at column
/// `(i / 4) % 32` of row `(i / 4) / 32` counted from the bottom.
pub open spec fn icon_byte(i: int) -> u8 {
    channel((i / 4) % 32, 31 - (i / 4) / 32, i % 4)
}

/// The icon's pixels, 4 bytes (blue, green, red, alpha) per pixel, rows from
/// the bottom up.
pub fn icon_pixels_bgra_bottom_up() -> (pixels: Vec<u8>)
    ensures
        pixels@.len() == 4096,
        forall|i: int| 0 <= i < 4096 ==> pixels@[i] == #[trigger] icon_byte(i),
{
    let mut pixels: Vec<u8> = Vec::new();
    let mut i: usize = 0;
    while i < 4096
        invariant
            i <= 4096,
            pixels@.len() == i,
            forall|j: int| 0 <= j < i ==> pixels@[j] == #[trigger] icon_byte(j),
        decreases 4096 - i,
    {
        let p = i / 4;
        let x = p % SIZE;
        let top_y = SIZE - 1 - p / SIZE;
        let c = i % 4;
        let in_h_left = 8 <= x && x <= 11 && 8 <= top_y && top_y <= 23;
        let in_h_right = 20 <= x && x <= 23 && 8 <= top_y && top_y <= 23;
        let in_h_bar = 8 <= x && x <= 23 && 14 <= top_y && top_y <= 17;
        let in_margin = 3 <= x && x <= 28 && 3 <= top_y && top_y <= 28;
        let value: u8 = if in_h_left || in_h_right || in_h_bar {
            255
        } else if in_margin {
            if c == 2 {
                220
            } else if c == 3 {
                255
            } else {
                24
            }
        } else {
            0
        };
        assert(value == icon_byte(i as int));
        pixels.push(value);
        i = i + 1;
    }
    pixels
}

/// Pixel (column `x`, row `y` from the bottom) lies at offset
/// `(y * 32 + x) * 4`, and its channels there are those of row `31 - y`
/// from the top.
pub proof fn law_pixel_layout(x: int, y: int, c: int)
    requires
        0 <= x < 32,
        0 <= y < 32,
        0 <= c < 4,
    ensures
        0 <= (y * 32 + x) * 4 + c < 4096,
        icon_byte((y * 32 + x) * 4 + c) == channel(x, 31 - y, c),
{
    let i = (y * 32 + x) * 4 + c;
    assert(0 <= i < 4096) by (nonlinear_arith)
        requires
            0 <= x < 32,
            0 <= y < 32,
            0 <= c < 4,
            i == (y * 32 + x) * 4 + c,
    ;
    assert(i / 4 == y * 32 + x && i % 4 == c) by (nonlinear_arith)
        requires
            0 <= x < 32,
            0 <= y < 32,
            0 <= c < 4,
            i == (y * 32 + x) * 4 + c,
    ;
    let p = y * 32 + x;
    assert(p % 32 == x && p / 32 == y) by (nonlinear_arith)
        requires
            0 <= x < 32,
            0 <= y < 32,
            p == y * 32 + x,
    ;
}

} // verus!
