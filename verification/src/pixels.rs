//! CPU-side pixel buffers backing the `gfx.px` (screen) and `gfx.spr_px`
//! (sprite sheet) reads: a copy of the pixels in top-down row-major
//! order, sampled by `(x, y)`.

use crate::palette::{palette, palette_spec};
use vstd::prelude::*;

verus! {

/// An RGBA pixel.
pub type Rgba = (u8, u8, u8, u8);

/// A read-only snapshot of a 2D pixel buffer.
pub struct Pixels {
    width: i32,
    height: i32,
    data: Vec<Rgba>,
}

/// The pixel at `(x, y)` of a buffer: `None` outside `width` by
/// `height` or past the data.
pub open spec fn pixel_at(width: i32, height: i32, data: Seq<Rgba>, x: int, y: int) -> Option<Rgba> {
    if x < 0 || y < 0 || x >= width || y >= height {
        None
    } else {
        let i = y * width + x;
        if i < data.len() {
            Some(data[i])
        } else {
            None
        }
    }
}

impl View for Pixels {
    type V = (i32, i32, Seq<Rgba>);

    /// Width, height and pixels.
    closed spec fn view(&self) -> (i32, i32, Seq<Rgba>) {
        (self.width, self.height, self.data@)
    }
}

impl Pixels {
    /// A buffer over the given top-down, row-major pixels.
    pub fn new(width: i32, height: i32, data: Vec<Rgba>) -> (r: Self)
        ensures
            r@ == (width, height, data@),
    {
        Pixels { width, height, data }
    }

    /// Width in pixels.
    pub fn width(&self) -> (r: i32)
        ensures
            r == self@.0,
    {
        self.width
    }

    /// Height in pixels.
    pub fn height(&self) -> (r: i32)
        ensures
            r == self@.1,
    {
        self.height
    }

    /// Samples the pixel at `(x, y)`; `None` out of bounds.
    pub fn get(&self, x: i32, y: i32) -> (r: Option<Rgba>)
        ensures
            r == pixel_at(self@.0, self@.1, self@.2, x as int, y as int),
    {
        if x < 0 || y < 0 || x >= self.width || y >= self.height {
            return None;
        }
        proof {
            assert((y as int) * (self.width as int) + (x as int) < (self.height as int) * (self.width as int)) by (nonlinear_arith)
                requires
                    0 <= y < self.height,
                    0 <= x < self.width,
            ;
            assert((self.height as int) * (self.width as int) <= 0x7FFF_FFFF * 0x7FFF_FFFF) by (nonlinear_arith)
                requires
                    0 < self.height <= 0x7FFF_FFFF,
                    0 < self.width <= 0x7FFF_FFFF,
            ;
        }
        let idx = (y as u64) * (self.width as u64) + (x as u64);
        if idx < self.data.len() as u64 {
            Some(self.data[idx as usize])
        } else {
            None
        }
    }
}

/// The 1-based index of the palette color with exactly this RGB.
pub open spec fn index_of_spec(r: u8, g: u8, b: u8) -> Option<i32> {
    if exists|i: int| 0 <= i < 16 && #[trigger] palette_spec(i as i32).0 == r && palette_spec(i as i32).1 == g
        && palette_spec(i as i32).2 == b {
        Some(
            ((choose|i: int|
                0 <= i < 16 && #[trigger] palette_spec(i as i32).0 == r && palette_spec(i as i32).1 == g
                    && palette_spec(i as i32).2 == b) + 1) as i32,
        )
    } else {
        None
    }
}

/// The 1-based palette index of an exact RGB match, if any.
pub fn index_of(r: u8, g: u8, b: u8) -> (idx: Option<i32>)
    ensures
        idx == index_of_spec(r, g, b),
{
    let mut i: i32 = 0;
    while i < 16
        invariant
            0 <= i <= 16,
            forall|j: int|
                0 <= j < i ==> !(#[trigger] palette_spec(j as i32).0 == r && palette_spec(j as i32).1 == g
                    && palette_spec(j as i32).2 == b),
        decreases 16 - i,
    {
        let c = palette(i);
        if c.0 == r && c.1 == g && c.2 == b {
            proof {
                assert(palette_spec(i as i32).0 == r && palette_spec(i as i32).1 == g && palette_spec(i as i32).2 == b);
                let k = choose|k: int|
                    0 <= k < 16 && #[trigger] palette_spec(k as i32).0 == r && palette_spec(k as i32).1 == g
                        && palette_spec(k as i32).2 == b;
                if k != i as int {
                    crate::palette::lemma_palette_colors_distinct(k as i32, i);
                }
            }
            return Some(i + 1);
        }
        i = i + 1;
    }
    None
}

/// What a pixel read hands Lua: red, green, blue and the 1-based palette
/// index of an exact match; all `None` on a miss.
pub type LuaPixel = (Option<i32>, Option<i32>, Option<i32>, Option<i32>);

/// The all-`None` read result.
pub open spec fn nil_pixel() -> LuaPixel {
    (None, None, None, None)
}

/// A sampled pixel as Lua sees it.
pub open spec fn lua_pixel(c: Rgba) -> LuaPixel {
    (Some(c.0 as i32), Some(c.1 as i32), Some(c.2 as i32), index_of_spec(c.0, c.1, c.2))
}

/// A sampled pixel as Lua sees it.
pub fn color_to_lua(c: Rgba) -> (r: LuaPixel)
    ensures
        r == lua_pixel(c),
{
    (Some(c.0 as i32), Some(c.1 as i32), Some(c.2 as i32), index_of(c.0, c.1, c.2))
}

/// `gfx.px(x, y)`: a screen pixel of the latest frame snapshot, all
/// `None` before the first snapshot or outside the game area.
pub fn read_screen(snapshot: Option<&Pixels>, x: i32, y: i32) -> (r: LuaPixel)
    ensures
        r == match snapshot {
            Some(p) => match pixel_at(p@.0, p@.1, p@.2, x as int, y as int) {
                Some(c) => lua_pixel(c),
                None => nil_pixel(),
            },
            None => nil_pixel(),
        },
{
    match snapshot {
        Some(p) => match p.get(x, y) {
            Some(c) => color_to_lua(c),
            None => (None, None, None, None),
        },
        None => (None, None, None, None),
    }
}

/// The sheet coordinates of pixel `(x, y)` of 1-based sprite `idx` in
/// cells of side `cell`, on a sheet `width` wide: cells run left to
/// right, then down.
pub open spec fn sprite_origin(width: i32, cell: i32, idx: i32) -> (int, int) {
    let cols = width / cell;
    let i = idx - 1;
    ((i % cols) * cell, (i / cols) * cell)
}

/// `gfx.spr_px` on a sheet: the pixel, or why there is none.
pub open spec fn read_sprite_spec(snapshot: Option<Pixels>, cell: i32, idx: i32, x: i32, y: i32) -> LuaPixel {
    match snapshot {
        None => nil_pixel(),
        Some(p) => {
            let cols = p@.0 / cell;
            if idx < 1 || cell < 1 || x < 0 || y < 0 || x >= cell || y >= cell || cols <= 0 {
                nil_pixel()
            } else {
                let o = sprite_origin(p@.0, cell, idx);
                if o.1 >= p@.1 {
                    nil_pixel()
                } else {
                    match pixel_at(p@.0, p@.1, p@.2, o.0 + x, o.1 + y) {
                        Some(c) => if c.3 > 0 {
                            lua_pixel(c)
                        } else {
                            nil_pixel()
                        },
                        None => nil_pixel(),
                    }
                }
            }
        },
    }
}

/// `gfx.spr_px(idx, x, y)`: pixel `(x, y)` inside 1-based sprite cell
/// `idx` of the sheet; all `None` on any miss (no sheet, index or
/// coordinates out of range) and for fully transparent pixels, which
/// sprites draw as nothing.
pub fn read_sprite(snapshot: Option<&Pixels>, cell: i32, idx: i32, x: i32, y: i32) -> (r: LuaPixel)
    ensures
        r == read_sprite_spec(
            match snapshot {
                Some(p) => Some(*p),
                None => None,
            },
            cell,
            idx,
            x,
            y,
        ),
{
    let pixels = match snapshot {
        Some(p) => p,
        None => return (None, None, None, None),
    };
    if idx < 1 || cell < 1 {
        return (None, None, None, None);
    }
    if x < 0 || y < 0 || x >= cell || y >= cell {
        return (None, None, None, None);
    }
    let cols = pixels.width / cell;
    if cols <= 0 {
        return (None, None, None, None);
    }
    let idx0 = idx - 1;
    let col = idx0 % cols;
    let row = idx0 / cols;
    proof {
        assert(0 <= col < cols && 0 <= row <= idx0) by (nonlinear_arith)
            requires
                cols > 0,
                idx0 >= 0,
                col == idx0 % cols,
                row == idx0 / cols,
        ;
        assert(cols * cell <= pixels.width) by (nonlinear_arith)
            requires
                cols == pixels.width / cell,
                cell > 0,
                pixels.width >= 0,
        ;
        assert((col + 1) * cell <= cols * cell) by (nonlinear_arith)
            requires
                col + 1 <= cols,
                cell > 0,
        ;
        assert(col * cell + x < pixels.width) by (nonlinear_arith)
            requires
                (col + 1) * cell <= cols * cell,
                cols * cell <= pixels.width,
                x < cell,
                0 <= col,
        ;
        assert(0 <= col * cell) by (nonlinear_arith)
            requires
                0 <= col,
                cell > 0,
        ;
    }
    proof {
        assert(0 <= (row as int) * (cell as int) <= 0x7FFF_FFFF * 0x7FFF_FFFF) by (nonlinear_arith)
            requires
                0 <= row <= 0x7FFF_FFFF,
                0 < cell <= 0x7FFF_FFFF,
        ;
    }
    let top = (row as i64) * (cell as i64);
    if top >= pixels.height as i64 {
        return (None, None, None, None);
    }
    let gx = col * cell + x;
    let gy64 = top + y as i64;
    if gy64 >= pixels.height as i64 {
        return (None, None, None, None);
    }
    let gy = gy64 as i32;
    match pixels.get(gx, gy) {
        Some(c) => if c.3 > 0 {
            color_to_lua(c)
        } else {
            (None, None, None, None)
        },
        None => (None, None, None, None),
    }
}

} // verus!
