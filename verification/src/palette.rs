//! Pico-8's 16-color palette. Indices outside 0-15 give magenta, an
//! obvious "unknown color" sentinel.

use vstd::prelude::*;

verus! {

/// RGBA of palette index `c`: black, dark blue, dark purple, dark green,
/// brown, dark gray, light gray, white, red, orange, yellow, green,
/// blue, indigo, pink, peach; magenta for any other index.
pub open spec fn palette_spec(c: i32) -> (u8, u8, u8, u8) {
    if c == 0 {
        (0, 0, 0, 255)
    } else if c == 1 {
        (29, 43, 83, 255)
    } else if c == 2 {
        (126, 37, 83, 255)
    } else if c == 3 {
        (0, 135, 81, 255)
    } else if c == 4 {
        (171, 82, 54, 255)
    } else if c == 5 {
        (95, 87, 79, 255)
    } else if c == 6 {
        (194, 195, 199, 255)
    } else if c == 7 {
        (255, 241, 232, 255)
    } else if c == 8 {
        (255, 0, 77, 255)
    } else if c == 9 {
        (255, 163, 0, 255)
    } else if c == 10 {
        (255, 236, 39, 255)
    } else if c == 11 {
        (0, 228, 54, 255)
    } else if c == 12 {
        (41, 173, 255, 255)
    } else if c == 13 {
        (131, 118, 156, 255)
    } else if c == 14 {
        (255, 119, 168, 255)
    } else if c == 15 {
        (255, 204, 170, 255)
    } else {
        (255, 0, 255, 255)
    }
}

/// Maps a palette index to its RGBA color.
pub fn palette(c: i32) -> (r: (u8, u8, u8, u8))
    ensures
        r == palette_spec(c),
{
    match c {
        0 => (0, 0, 0, 255),
        1 => (29, 43, 83, 255),
        2 => (126, 37, 83, 255),
        3 => (0, 135, 81, 255),
        4 => (171, 82, 54, 255),
        5 => (95, 87, 79, 255),
        6 => (194, 195, 199, 255),
        7 => (255, 241, 232, 255),
        8 => (255, 0, 77, 255),
        9 => (255, 163, 0, 255),
        10 => (255, 236, 39, 255),
        11 => (0, 228, 54, 255),
        12 => (41, 173, 255, 255),
        13 => (131, 118, 156, 255),
        14 => (255, 119, 168, 255),
        15 => (255, 204, 170, 255),
        _ => (255, 0, 255, 255),
    }
}

/// Every palette color is fully opaque, and so is the sentinel.
pub proof fn lemma_palette_is_opaque(c: i32)
    ensures
        palette_spec(c).3 == 255,
{
}

/// The sixteen palette colors are distinct, so a color names its index.
pub proof fn lemma_palette_colors_distinct(a: i32, b: i32)
    requires
        0 <= a < 16,
        0 <= b < 16,
        a != b,
    ensures
        palette_spec(a) != palette_spec(b),
{
}

} // verus!
