//! In-game capture: the pixel work of GIF recordings and screenshots.
//! Frames read back from the game render target are quantized to the
//! 16-color palette (nearest color, bottom-up rows flipped), upscaled
//! by whole pixels for sharing, and saved under timestamped names.

use crate::palette::{palette, palette_spec};
use crate::paths::{joined_path, path_exists, path_join};
use crate::text::{chars_of, concat3, decimal, decimal_exec, push_all, string_of};
use vstd::prelude::*;

verus! {

/// Lower bound on a recorded frame's delay, in centiseconds.
pub const MIN_DELAY_CS: u16 = 3;

/// Whole-pixel upscale applied to saved captures.
pub const RECORDING_SCALE: u16 = 2;

/// Channel `k % 3` (red, green, blue) of palette color `k / 3`: the GIF
/// palette, sixteen RGB triples in index order.
pub open spec fn palette_rgb_spec() -> Seq<u8> {
    Seq::new(
        48,
        |k: int|
            {
                let c = palette_spec((k / 3) as i32);
                if k % 3 == 0 {
                    c.0
                } else if k % 3 == 1 {
                    c.1
                } else {
                    c.2
                }
            },
    )
}

/// The RGB triples of the sixteen palette colors, in index order.
pub fn palette_rgb() -> (r: [u8; 48])
    ensures
        r@ == palette_rgb_spec(),
{
    let mut out = [0u8; 48];
    let mut i: usize = 0;
    while i < 16
        invariant
            i <= 16,
            out@.len() == 48,
            forall|k: int| 0 <= k < 3 * i ==> out@[k] == #[trigger] palette_rgb_spec()[k],
        decreases 16 - i,
    {
        let c = palette(i as i32);
        out[i * 3] = c.0;
        out[i * 3 + 1] = c.1;
        out[i * 3 + 2] = c.2;
        proof {
            assert forall|k: int| 0 <= k < 3 * (i + 1) implies out@[k] == #[trigger] palette_rgb_spec()[k] by {
                if k >= 3 * i {
                    assert(k / 3 == i);
                }
            }
        }
        i = i + 1;
    }
    out
}

/// Squared RGB distance from palette entry `i` to `(r, g, b)`.
pub open spec fn dist(p: Seq<u8>, i: int, r: u8, g: u8, b: u8) -> int {
    let dr = p[3 * i] - r;
    let dg = p[3 * i + 1] - g;
    let db = p[3 * i + 2] - b;
    dr * dr + dg * dg + db * db
}

/// `i` is the palette entry nearest `(r, g, b)`, the lowest such index
/// on ties.
pub open spec fn is_nearest(p: Seq<u8>, r: u8, g: u8, b: u8, i: int) -> bool {
    &&& 0 <= i < 16
    &&& forall|j: int| 0 <= j < 16 ==> dist(p, i, r, g, b) <= #[trigger] dist(p, j, r, g, b)
    &&& forall|j: int| 0 <= j < i ==> dist(p, i, r, g, b) < #[trigger] dist(p, j, r, g, b)
}

/// Maps RGB to palette indices: the index of the palette color itself
/// when the pixel is one, else the nearest palette color by squared
/// distance.
pub struct PaletteIndex {
    palette: [u8; 48],
}

impl View for PaletteIndex {
    type V = Seq<u8>;

    closed spec fn view(&self) -> Seq<u8> {
        self.palette@
    }
}

impl PaletteIndex {
    /// The index over the engine palette.
    pub fn new() -> (r: Self)
        ensures
            r@ == palette_rgb_spec(),
    {
        PaletteIndex { palette: palette_rgb() }
    }

    /// The palette index of a pixel.
    pub fn lookup(&self, r: u8, g: u8, b: u8) -> (idx: u8)
        ensures
            is_nearest(self@, r, g, b, idx as int),
    {
        let ghost p = self@;
        let mut best: u8 = 0;
        let mut best_dist: i64 = i64::MAX;
        let mut i: usize = 0;
        while i < 16
            invariant
                i <= 16,
                p == self@,
                p.len() == 48,
                best < 16,
                i == 0 ==> best == 0 && best_dist == i64::MAX,
                i > 0 ==> best < i && best_dist == dist(p, best as int, r, g, b),
                forall|j: int| 0 <= j < i ==> best_dist <= #[trigger] dist(p, j, r, g, b),
                forall|j: int| 0 <= j < best ==> best_dist < #[trigger] dist(p, j, r, g, b),
            decreases 16 - i,
        {
            let dr = self.palette[i * 3] as i64 - r as i64;
            let dg = self.palette[i * 3 + 1] as i64 - g as i64;
            let db = self.palette[i * 3 + 2] as i64 - b as i64;
            proof {
                assert(dr * dr <= 65025 && dg * dg <= 65025 && db * db <= 65025) by (nonlinear_arith)
                    requires
                        -255 <= dr <= 255,
                        -255 <= dg <= 255,
                        -255 <= db <= 255,
                ;
                assert(0 <= dr * dr && 0 <= dg * dg && 0 <= db * db) by (nonlinear_arith);
            }
            let d = dr * dr + dg * dg + db * db;
            proof {
                assert(d == dist(p, i as int, r, g, b));
            }
            if d < best_dist {
                best_dist = d;
                best = i as u8;
            }
            i = i + 1;
        }
        best
    }
}

/// Every palette color maps back to its own index.
pub proof fn lemma_palette_round_trip(i: int)
    requires
        0 <= i < 16,
    ensures
        is_nearest(
            palette_rgb_spec(),
            palette_spec(i as i32).0,
            palette_spec(i as i32).1,
            palette_spec(i as i32).2,
            i,
        ),
{
    let p = palette_rgb_spec();
    let c = palette_spec(i as i32);
    assert(p[3 * i] == c.0 && p[3 * i + 1] == c.1 && p[3 * i + 2] == c.2);
    assert forall|j: int| 0 <= j < 16 implies 0 <= #[trigger] dist(p, j, c.0, c.1, c.2) by {
        let dr = p[3 * j] - c.0;
        let dg = p[3 * j + 1] - c.1;
        let db = p[3 * j + 2] - c.2;
        assert(0 <= dr * dr && 0 <= dg * dg && 0 <= db * db) by (nonlinear_arith);
    }
    assert forall|j: int| 0 <= j < i implies dist(p, i, c.0, c.1, c.2) < #[trigger] dist(
        p,
        j,
        c.0,
        c.1,
        c.2,
    ) by {
        crate::palette::lemma_palette_colors_distinct(i as i32, j as i32);
        let dr = p[3 * j] - c.0;
        let dg = p[3 * j + 1] - c.1;
        let db = p[3 * j + 2] - c.2;
        assert(p[3 * j] == palette_spec(j as i32).0);
        assert(p[3 * j + 1] == palette_spec(j as i32).1);
        assert(p[3 * j + 2] == palette_spec(j as i32).2);
        assert(dr != 0 || dg != 0 || db != 0);
        assert(0 < dr * dr + dg * dg + db * db) by (nonlinear_arith)
            requires
                dr != 0 || dg != 0 || db != 0,
        ;
    }
}

/// Palette indices of a bottom-up RGB frame `w` by `h`, rows flipped to
/// top-down.
pub fn quantize_frame(pixels: &Vec<(u8, u8, u8)>, w: usize, h: usize, index: &PaletteIndex) -> (r: Vec<u8>)
    requires
        pixels.len() == w * h,
    ensures
        r.len() == w * h,
        forall|y: int, x: int|
            0 <= y < h && 0 <= x < w ==> {
                let p = pixels@[(h - 1 - y) * w + x];
                is_nearest(index@, p.0, p.1, p.2, #[trigger] r@[y * w + x] as int)
            },
{
    let mut out: Vec<u8> = Vec::new();
    let mut y: usize = 0;
    while y < h
        invariant
            y <= h,
            pixels.len() == w * h,
            out.len() == y * w,
            forall|y2: int, x2: int|
                0 <= y2 < y && 0 <= x2 < w ==> {
                    let p = pixels@[(h - 1 - y2) * w + x2];
                    is_nearest(index@, p.0, p.1, p.2, #[trigger] out@[y2 * w + x2] as int)
                },
        decreases h - y,
    {
        let flipped = h - 1 - y;
        let mut x: usize = 0;
        while x < w
            invariant
                y < h,
                x <= w,
                flipped == h - 1 - y,
                pixels.len() == w * h,
                out.len() == y * w + x,
                forall|y2: int, x2: int|
                    0 <= y2 < y && 0 <= x2 < w ==> {
                        let p = pixels@[(h - 1 - y2) * w + x2];
                        is_nearest(index@, p.0, p.1, p.2, #[trigger] out@[y2 * w + x2] as int)
                    },
                forall|x2: int|
                    0 <= x2 < x ==> {
                        let p = pixels@[(h - 1 - y) * w + x2];
                        is_nearest(index@, p.0, p.1, p.2, #[trigger] out@[y * w + x2] as int)
                    },
            decreases w - x,
        {
            proof {
                assert(flipped * w + x < w * h) by (nonlinear_arith)
                    requires
                        flipped < h,
                        x < w,
                ;
            }
            let p = pixels[flipped * w + x];
            let idx = index.lookup(p.0, p.1, p.2);
            let ghost before = out@;
            out.push(idx);
            proof {
                assert forall|y2: int, x2: int| 0 <= y2 < y && 0 <= x2 < w implies {
                    let q = pixels@[(h - 1 - y2) * w + x2];
                    is_nearest(index@, q.0, q.1, q.2, #[trigger] out@[y2 * w + x2] as int)
                } by {
                    assert(y2 * w + x2 < y * w) by (nonlinear_arith)
                        requires
                            y2 < y,
                            x2 < w,
                    ;
                    assert(out@[y2 * w + x2] == before[y2 * w + x2]);
                }
                assert forall|x2: int| 0 <= x2 < x + 1 implies {
                    let q = pixels@[(h - 1 - y) * w + x2];
                    is_nearest(index@, q.0, q.1, q.2, #[trigger] out@[y * w + x2] as int)
                } by {
                    if x2 < x {
                        assert(out@[y * w + x2] == before[y * w + x2]);
                    }
                }
            }
            x = x + 1;
        }
        proof {
            assert((y + 1) * w == y * w + w) by (nonlinear_arith);
            assert forall|y2: int, x2: int| 0 <= y2 < y + 1 && 0 <= x2 < w implies {
                let q = pixels@[(h - 1 - y2) * w + x2];
                is_nearest(index@, q.0, q.1, q.2, #[trigger] out@[y2 * w + x2] as int)
            } by {
                if y2 == y {
                    assert({
                        let q = pixels@[(h - 1 - y) * w + x2];
                        is_nearest(index@, q.0, q.1, q.2, out@[y * w + x2] as int)
                    });
                }
            }
            assert((y + 1) * w <= h * w) by (nonlinear_arith)
                requires
                    y < h,
            ;
        }
        y = y + 1;
    }
    proof {
        assert(h * w == w * h) by (nonlinear_arith);
    }
    out
}

/// Nearest-neighbor upscale by `s` of a `w` by `h` indexed frame.
pub fn upscale(indexed: &Vec<u8>, w: usize, h: usize, s: usize) -> (r: Vec<u8>)
    requires
        indexed.len() == w * h,
        s > 0,
        w * s <= usize::MAX,
        h * s <= usize::MAX,
        (w * s) * (h * s) <= usize::MAX,
    ensures
        r.len() == (w * s) * (h * s),
        forall|y: int, x: int|
            0 <= y < h * s && 0 <= x < w * s ==> #[trigger] r@[y * (w * s) + x] == indexed@[(y as int / s as int)
                * w + x / s as int],
{
    let ow = w * s;
    let oh = h * s;
    let mut out: Vec<u8> = Vec::new();
    let mut y: usize = 0;
    while y < oh
        invariant
            y <= oh,
            ow == w * s,
            oh == h * s,
            s > 0,
            indexed.len() == w * h,
            ow * oh <= usize::MAX,
            out.len() == y * ow,
            forall|y2: int, x2: int|
                0 <= y2 < y && 0 <= x2 < ow ==> #[trigger] out@[y2 * ow + x2] == indexed@[(y2 / s as int)
                    * w + x2 / s as int],
        decreases oh - y,
    {
        let sy = y / s;
        proof {
            assert(sy < h) by (nonlinear_arith)
                requires
                    y < h * s,
                    sy == y / s,
                    s > 0,
            ;
        }
        let mut x: usize = 0;
        while x < ow
            invariant
                y < oh,
                x <= ow,
                ow == w * s,
                oh == h * s,
                s > 0,
                sy == y / s,
                sy < h,
                indexed.len() == w * h,
                ow * oh <= usize::MAX,
                out.len() == y * ow + x,
                forall|y2: int, x2: int|
                    0 <= y2 < y && 0 <= x2 < ow ==> #[trigger] out@[y2 * ow + x2] == indexed@[(y2
                        / s as int) * w + x2 / s as int],
                forall|x2: int|
                    0 <= x2 < x ==> #[trigger] out@[y * ow + x2] == indexed@[(y as int / s as int) * w + x2
                        / s as int],
            decreases ow - x,
        {
            let sx = x / s;
            proof {
                assert(sx < w) by (nonlinear_arith)
                    requires
                        x < w * s,
                        sx == x / s,
                        s > 0,
                ;
                assert(sy * w + sx < w * h) by (nonlinear_arith)
                    requires
                        sy < h,
                        sx < w,
                ;
                assert(y * ow + x < ow * oh) by (nonlinear_arith)
                    requires
                        y < oh,
                        x < ow,
                ;
            }
            let v = indexed[sy * w + sx];
            let ghost before = out@;
            out.push(v);
            proof {
                assert forall|y2: int, x2: int| 0 <= y2 < y && 0 <= x2 < ow implies #[trigger] out@[y2
                    * ow + x2] == indexed@[(y2 / s as int) * w + x2 / s as int] by {
                    assert(y2 * ow + x2 < y * ow) by (nonlinear_arith)
                        requires
                            y2 < y,
                            x2 < ow,
                    ;
                    assert(out@[y2 * ow + x2] == before[y2 * ow + x2]);
                }
                assert forall|x2: int| 0 <= x2 < x + 1 implies #[trigger] out@[y * ow + x2]
                    == indexed@[(y as int / s as int) * w + x2 / s as int] by {
                    if x2 < x {
                        assert(out@[y * ow + x2] == before[y * ow + x2]);
                    }
                }
            }
            x = x + 1;
        }
        proof {
            assert((y + 1) * ow == y * ow + ow) by (nonlinear_arith);
            assert forall|y2: int, x2: int| 0 <= y2 < y + 1 && 0 <= x2 < ow implies #[trigger] out@[y2
                * ow + x2] == indexed@[(y2 / s as int) * w + x2 / s as int] by {
                if y2 == y {
                    assert(out@[y * ow + x2] == indexed@[(y as int / s as int) * w + x2 / s as int]);
                }
            }
        }
        y = y + 1;
    }
    proof {
        assert(oh * ow == ow * oh) by (nonlinear_arith);
    }
    out
}


/// Decimal digits padded with leading zeros to `width`.
pub open spec fn zero_pad(digits: Seq<char>, width: int) -> Seq<char> {
    if digits.len() < width {
        Seq::new((width - digits.len()) as nat, |i: int| '0') + digits
    } else {
        digits
    }
}

/// `n` formatted with `{:0width$}`: zero-padded to `width` characters,
/// a minus sign counting toward the width.
pub open spec fn padded(n: int, width: int) -> Seq<char> {
    if n < 0 {
        seq!['-'] + zero_pad(decimal((-n) as nat), width - 1)
    } else {
        zero_pad(decimal(n as nat), width)
    }
}

/// Zero-pads digits to `width`.
fn zero_pad_exec(digits: Vec<char>, width: usize) -> (r: Vec<char>)
    ensures
        r@ == zero_pad(digits@, width as int),
{
    if digits.len() >= width {
        return digits;
    }
    let mut out: Vec<char> = Vec::new();
    let n = width - digits.len();
    let mut i: usize = 0;
    while i < n
        invariant
            i <= n,
            out@ =~= Seq::new(i as nat, |k: int| '0'),
        decreases n - i,
    {
        out.push('0');
        i = i + 1;
    }
    push_all(&mut out, digits.as_slice());
    out
}

/// `n` formatted zero-padded to `width` characters.
pub fn padded_exec(n: i64, width: usize) -> (r: Vec<char>)
    requires
        width >= 1,
        n > i64::MIN,
    ensures
        r@ == padded(n as int, width as int),
{
    if n < 0 {
        let mut out: Vec<char> = Vec::new();
        out.push('-');
        let d = zero_pad_exec(decimal_exec((-n) as u64), width - 1);
        push_all(&mut out, d.as_slice());
        out
    } else {
        zero_pad_exec(decimal_exec(n as u64), width)
    }
}

/// Stem of a capture file: `<prefix>-YYYYMMDD-HHMMSS`.
pub open spec fn capture_stem_spec(prefix: Seq<char>, year: i32, month: u8, day: u8, hour: u8, minute: u8, second: u8) -> Seq<char> {
    prefix + seq!['-'] + padded(year as int, 4) + padded(month as int, 2) + padded(day as int, 2) + seq!['-']
        + padded(hour as int, 2) + padded(minute as int, 2) + padded(second as int, 2)
}

/// Stem of a capture file taken at the given UTC time.
pub fn capture_stem(prefix: &str, year: i32, month: u8, day: u8, hour: u8, minute: u8, second: u8) -> (r: String)
    ensures
        r@ == capture_stem_spec(prefix@, year, month, day, hour, minute, second),
{
    let mut v = chars_of(prefix);
    v.push('-');
    push_all(&mut v, padded_exec(year as i64, 4).as_slice());
    push_all(&mut v, padded_exec(month as i64, 2).as_slice());
    push_all(&mut v, padded_exec(day as i64, 2).as_slice());
    v.push('-');
    push_all(&mut v, padded_exec(hour as i64, 2).as_slice());
    push_all(&mut v, padded_exec(minute as i64, 2).as_slice());
    push_all(&mut v, padded_exec(second as i64, 2).as_slice());
    proof {
        assert(v@ =~= capture_stem_spec(prefix@, year, month, day, hour, minute, second));
    }
    string_of(v.as_slice())
}

/// File name of the `n`-th candidate for a capture: `<stem>.<ext>`
/// first, then `<stem>-<n>.<ext>` when that is taken.
pub open spec fn capture_name_spec(stem: Seq<char>, n: u32, ext: Seq<char>) -> Seq<char> {
    if n == 0 {
        stem + seq!['.'] + ext
    } else {
        stem + seq!['-'] + decimal(n as nat) + seq!['.'] + ext
    }
}

/// File name of the `n`-th candidate for a capture.
pub fn capture_file_name(stem: &str, n: u32, ext: &str) -> (r: String)
    ensures
        r@ == capture_name_spec(stem@, n, ext@),
{
    let mut v = chars_of(stem);
    if n > 0 {
        v.push('-');
        push_all(&mut v, decimal_exec(n as u64).as_slice());
    }
    v.push('.');
    push_all(&mut v, chars_of(ext).as_slice());
    proof {
        assert(v@ =~= capture_name_spec(stem@, n, ext@));
    }
    string_of(v.as_slice())
}

/// Highest collision suffix tried before giving up on a capture name.
pub const MAX_SUFFIX: u32 = 1000;

/// Calls `time::OffsetDateTime::now_utc` and reads its calendar fields:
/// year, month, day, hour, minute, second. The crate documents the
/// ranges of each field; the values themselves are the clock's.
#[verifier::external_body]
fn utc_now() -> (r: (i32, u8, u8, u8, u8, u8))
    ensures
        1 <= r.1 <= 12,
        1 <= r.2 <= 31,
        r.3 < 24,
        r.4 < 60,
        r.5 < 60,
{
    let now = time::OffsetDateTime::now_utc();
    (now.year(), u8::from(now.month()), now.day(), now.hour(), now.minute(), now.second())
}

/// The `n`-th candidate path for a capture inside `dest`.
pub open spec fn capture_candidate(dest: Seq<char>, stem: Seq<char>, n: u32, ext: Seq<char>) -> Seq<char> {
    joined_path(dest, capture_name_spec(stem, n, ext))
}

pub open spec fn no_free_name_message(dest: Seq<char>) -> Seq<char> {
    "no free capture filename in "@ + dest + " after 1000 attempts"@
}

/// `r` is the first free candidate among the answers `taken` (one per
/// candidate, `true` when that name is taken), looking at the first
/// `MAX_SUFFIX + 1` of them; `None` when all of those are taken.
pub open spec fn first_free_is(taken: Seq<bool>, r: Option<u32>) -> bool {
    match r {
        Some(n) => {
            &&& n <= MAX_SUFFIX
            &&& n < taken.len()
            &&& !taken[n as int]
            &&& forall|m: int| 0 <= m < n ==> #[trigger] taken[m]
        },
        None => forall|m: int| 0 <= m < taken.len() && m <= MAX_SUFFIX ==> #[trigger] taken[m],
    }
}

/// Index of the first candidate whose answer in `taken` is "free".
pub fn first_free(taken: &Vec<bool>) -> (r: Option<u32>)
    ensures
        first_free_is(taken@, r),
{
    let mut i: usize = 0;
    while i < taken.len() && i <= MAX_SUFFIX as usize
        invariant
            i <= taken.len(),
            i <= MAX_SUFFIX + 1,
            forall|m: int| 0 <= m < i ==> #[trigger] taken@[m],
        decreases taken.len() - i,
    {
        if !taken[i] {
            return Some(i as u32);
        }
        i = i + 1;
    }
    None
}

/// What a capture search settles on, given the answers for its
/// candidates: the first free candidate, or the error when none is.
pub open spec fn capture_choice(dest: Seq<char>, stem: Seq<char>, ext: Seq<char>, taken: Seq<bool>, r: Result<Seq<char>, Seq<char>>) -> bool {
    exists|f: Option<u32>|
        #![trigger first_free_is(taken, f)]
        first_free_is(taken, f) && r == match f {
            Some(n) => Ok(capture_candidate(dest, stem, n, ext)),
            None => Err(no_free_name_message(dest)),
        }
}

/// Builds a unique timestamped path inside `dest_dir` (which must
/// exist): `<prefix>-YYYYMMDD-HHMMSS.<ext>`, or with a `-N` suffix when
/// captures start in the same second. The candidates `0, 1, ...` for
/// the current UTC time are asked of the disk in turn until one is free
/// or `MAX_SUFFIX + 1` were asked; the answers then decide as
/// `first_free` does. The timestamp and the answers are the clock's and
/// the disk's.
pub fn next_capture_path(dest_dir: &str, prefix: &str, ext: &str) -> (r: Result<String, String>)
    ensures
        exists|y: i32, mo: u8, d: u8, h: u8, mi: u8, s: u8, taken: Seq<bool>|
            #![trigger capture_stem_spec(prefix@, y, mo, d, h, mi, s), taken.len()]
            {
                &&& 1 <= taken.len() <= MAX_SUFFIX + 1
                &&& forall|m: int| 0 <= m < taken.len() - 1 ==> #[trigger] taken[m]
                &&& capture_choice(
                    dest_dir@,
                    capture_stem_spec(prefix@, y, mo, d, h, mi, s),
                    ext@,
                    taken,
                    match r {
                        Ok(p) => Ok(p@),
                        Err(e) => Err(e@),
                    },
                )
            },
{
    let (y, mo, d, h, mi, s) = utc_now();
    let stem = capture_stem(prefix, y, mo, d, h, mi, s);
    let mut taken: Vec<bool> = Vec::new();
    let mut asking = true;
    while asking
        invariant
            taken.len() <= MAX_SUFFIX + 1,
            forall|m: int| 0 <= m < taken.len() - 1 ==> #[trigger] taken@[m],
            asking ==> forall|m: int| 0 <= m < taken.len() ==> #[trigger] taken@[m],
            asking ==> taken.len() <= MAX_SUFFIX,
            !asking ==> taken.len() >= 1,
        decreases MAX_SUFFIX + 1 - taken.len(),
    {
        let n = taken.len() as u32;
        let candidate = path_join(dest_dir, capture_file_name(stem.as_str(), n, ext).as_str());
        let t = path_exists(candidate.as_str());
        taken.push(t);
        if !t || taken.len() > MAX_SUFFIX as usize {
            asking = false;
        }
    }
    let ghost stem_v = capture_stem_spec(prefix@, y, mo, d, h, mi, s);
    match first_free(&taken) {
        Some(n) => {
            let p = path_join(dest_dir, capture_file_name(stem.as_str(), n, ext).as_str());
            proof {
                assert(first_free_is(taken@, Some(n)));
                assert(capture_choice(dest_dir@, stem_v, ext@, taken@, Ok(p@)));
                assert(taken@.len() == taken.len());
            }
            Ok(p)
        },
        None => {
            let e = concat3("no free capture filename in ", dest_dir, " after 1000 attempts");
            proof {
                assert(first_free_is(taken@, None));
                assert(capture_choice(dest_dir@, stem_v, ext@, taken@, Err(e@)));
                assert(taken@.len() == taken.len());
            }
            Err(e)
        },
    }
}

} // verus!
