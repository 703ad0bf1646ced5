//! `usagi font bake`: rasterizing a TTF/OTF into one PNG the engine can
//! load as a custom font, the 1-bit atlas image plus glyph metadata in a
//! compressed text chunk. This module holds the bake's own logic: which
//! codepoints are asked for, how a monochrome glyph bitmap is unpacked,
//! how glyphs are shelf-packed tallest first, how the atlas and its PNG
//! rows are laid out, and the metadata text.

use crate::paths::file_stem_of;
use crate::text::{
    chars_of, decimal, decimal_exec, push_all, signed_decimal, signed_decimal_exec, string_of,
};
use vstd::prelude::*;

verus! {

/// Widest an atlas row of glyphs may grow before a new shelf starts.
pub const ATLAS_MAX_WIDTH: u32 = 512;

/// Largest glyph side and glyph count the packer accepts.
pub const MAX_GLYPH_SIDE: u32 = 0xFFFF;

/// Inclusive Unicode ranges always asked for: Basic Latin, Latin-1
/// Supplement, Latin Extended-A and -B, Greek and Coptic, Cyrillic,
/// General Punctuation, CJK Symbols and Punctuation, Hiragana, Katakana,
/// Halfwidth and Fullwidth Forms.
pub open spec fn base_ranges() -> Seq<(u32, u32)> {
    seq![
        (0x0020u32, 0x007Eu32),
        (0x00A0u32, 0x00FFu32),
        (0x0100u32, 0x017Fu32),
        (0x0180u32, 0x024Fu32),
        (0x0370u32, 0x03FFu32),
        (0x0400u32, 0x04FFu32),
        (0x2010u32, 0x205Eu32),
        (0x3000u32, 0x303Fu32),
        (0x3040u32, 0x309Fu32),
        (0x30A0u32, 0x30FFu32),
        (0xFF00u32, 0xFFEFu32),
    ]
}

/// The CJK Unified Ideographs block, asked for unless CJK is skipped.
pub open spec fn cjk_range() -> (u32, u32) {
    (0x4E00u32, 0x9FFFu32)
}

/// The ranges asked for.
pub open spec fn bake_ranges(include_cjk: bool) -> Seq<(u32, u32)> {
    if include_cjk {
        base_ranges().push(cjk_range())
    } else {
        base_ranges()
    }
}

/// Every codepoint of an inclusive range, ascending.
pub open spec fn range_points(r: (u32, u32)) -> Seq<u32> {
    Seq::new((r.1 - r.0 + 1) as nat, |i: int| (r.0 + i) as u32)
}

/// The codepoints of the ranges, range by range.
pub open spec fn ranges_points(rs: Seq<(u32, u32)>) -> Seq<u32>
    decreases rs.len(),
{
    if rs.len() == 0 {
        seq![]
    } else {
        ranges_points(rs.drop_last()) + range_points(rs.last())
    }
}

/// The ranges asked for, as a list.
pub fn bake_ranges_exec(include_cjk: bool) -> (r: Vec<(u32, u32)>)
    ensures
        r@ == bake_ranges(include_cjk),
{
    let mut r = vec![
        (0x0020u32, 0x007Eu32),
        (0x00A0u32, 0x00FFu32),
        (0x0100u32, 0x017Fu32),
        (0x0180u32, 0x024Fu32),
        (0x0370u32, 0x03FFu32),
        (0x0400u32, 0x04FFu32),
        (0x2010u32, 0x205Eu32),
        (0x3000u32, 0x303Fu32),
        (0x3040u32, 0x309Fu32),
        (0x30A0u32, 0x30FFu32),
        (0xFF00u32, 0xFFEFu32),
    ];
    proof {
        assert(r@ =~= base_ranges());
    }
    if include_cjk {
        r.push((0x4E00u32, 0x9FFFu32));
    }
    r
}

/// Every codepoint the bake asks the font for, in order.
pub fn iter_codepoints(include_cjk: bool) -> (r: Vec<u32>)
    ensures
        r@ == ranges_points(bake_ranges(include_cjk)),
{
    let rs = bake_ranges_exec(include_cjk);
    let mut out: Vec<u32> = Vec::new();
    let mut k: usize = 0;
    proof {
        assert(rs@.subrange(0, 0) =~= Seq::<(u32, u32)>::empty());
    }
    while k < rs.len()
        invariant
            k <= rs.len(),
            rs@ == bake_ranges(include_cjk),
            forall|j: int| 0 <= j < rs.len() ==> #[trigger] rs@[j].0 <= rs@[j].1 < 0x10000,
            out@ == ranges_points(rs@.subrange(0, k as int)),
        decreases rs.len() - k,
    {
        let (lo, hi) = rs[k];
        let ghost before = out@;
        let mut c: u32 = lo;
        while c <= hi
            invariant
                lo <= c <= hi + 1,
                hi < 0x10000,
                out@ == before + Seq::new((c - lo) as nat, |i: int| (lo + i) as u32),
            decreases hi + 1 - c,
        {
            out.push(c);
            proof {
                assert(out@ =~= before + Seq::new((c + 1 - lo) as nat, |i: int| (lo + i) as u32));
            }
            c = c + 1;
        }
        proof {
            let done = rs@.subrange(0, k + 1);
            assert(done.drop_last() =~= rs@.subrange(0, k as int));
            assert(done.last() == (lo, hi));
            assert(range_points((lo, hi)) =~= Seq::new((c - lo) as nat, |i: int| (lo + i) as u32));
        }
        k = k + 1;
    }
    proof {
        assert(rs@.subrange(0, rs.len() as int) =~= rs@);
    }
    out
}

/// Bit `k` (0 = leftmost) of a byte of a monochrome bitmap row, which
/// packs pixels most significant bit first.
pub open spec fn mono_bit(byte: u8, k: int) -> bool {
    byte & (0x80u8 >> (k as u8)) != 0
}

/// Offset of row `row` of a bitmap of `h` rows stored with `pitch` bytes
/// per row; a negative pitch stores the rows bottom-up.
pub open spec fn row_offset(pitch: int, h: int, row: int) -> int {
    if pitch >= 0 {
        row * pitch
    } else {
        (h - 1 - row) * (-pitch)
    }
}

/// Pixel `(row, col)` of a monochrome bitmap.
pub open spec fn mono_pixel(buf: Seq<u8>, pitch: int, h: int, row: int, col: int) -> bool {
    mono_bit(buf[row_offset(pitch, h, row) + col / 8], col % 8)
}

proof fn lemma_row_major(r: int, c: int, w: int)
    requires
        0 <= c < w,
        0 <= r,
    ensures
        (r * w + c) / w == r,
        (r * w + c) % w == c,
{
    vstd::arithmetic::div_mod::lemma_fundamental_div_mod_converse(r * w + c, w, r, c);
}

/// Unpacks a monochrome bitmap of `w` by `h` pixels, each row `pitch`
/// bytes (padding included), into one flag per pixel in row-major order.
pub fn unpack_mono(buf: &Vec<u8>, pitch: i32, w: u32, h: u32) -> (r: Vec<bool>)
    requires
        pitch != i32::MIN,
        w * h <= usize::MAX,
        (w + 7) / 8 <= (if pitch >= 0 {
            pitch as int
        } else {
            -pitch
        }),
        h * (if pitch >= 0 {
            pitch as int
        } else {
            -pitch
        }) <= buf.len(),
    ensures
        r.len() == w * h,
        forall|row: int, col: int|
            0 <= row < h && 0 <= col < w ==> #[trigger] r@[row * w + col] == mono_pixel(
                buf@,
                pitch as int,
                h as int,
                row,
                col,
            ),
{
    let abs_pitch: usize = if pitch >= 0 {
        pitch as usize
    } else {
        (-pitch) as usize
    };
    let ghost ap = abs_pitch as int;
    let mut out: Vec<bool> = Vec::new();
    let mut row: u32 = 0;
    while row < h
        invariant
            row <= h,
            ap == abs_pitch,
            ap == (if pitch >= 0 {
                pitch as int
            } else {
                -pitch
            }),
            (w + 7) / 8 <= ap,
            h * ap <= buf.len(),
            w * h <= usize::MAX,
            out.len() == row * w,
            forall|r2: int, c2: int|
                0 <= r2 < row && 0 <= c2 < w ==> #[trigger] out@[r2 * w + c2] == mono_pixel(
                    buf@,
                    pitch as int,
                    h as int,
                    r2,
                    c2,
                ),
        decreases h - row,
    {
        let off: usize = if pitch >= 0 {
            proof {
                assert(row * ap <= (h - 1) * ap) by (nonlinear_arith)
                    requires
                        row < h,
                        ap >= 0,
                ;
                assert((h - 1) * ap <= h * ap) by (nonlinear_arith)
                    requires
                        ap >= 0,
                ;
            }
            row as usize * abs_pitch
        } else {
            proof {
                assert((h - 1 - row) * ap <= (h - 1) * ap) by (nonlinear_arith)
                    requires
                        row < h,
                        ap >= 0,
                ;
                assert((h - 1) * ap <= h * ap) by (nonlinear_arith)
                    requires
                        ap >= 0,
                ;
            }
            (h - 1 - row) as usize * abs_pitch
        };
        proof {
            assert(off == row_offset(pitch as int, h as int, row as int));
            assert(off <= (h - 1) * ap);
            assert(off + ap <= h * ap) by (nonlinear_arith)
                requires
                    off <= (h - 1) * ap,
                    ap >= 0,
            {
            }
        }
        let mut col: u32 = 0;
        while col < w
            invariant
                row < h,
                col <= w,
                ap == abs_pitch,
                (w + 7) / 8 <= ap,
                h * ap <= buf.len(),
                w * h <= usize::MAX,
                off == row_offset(pitch as int, h as int, row as int),
                off + ap <= h * ap,
                out.len() == row * w + col,
                forall|r2: int, c2: int|
                    0 <= r2 < row && 0 <= c2 < w ==> #[trigger] out@[r2 * w + c2] == mono_pixel(
                        buf@,
                        pitch as int,
                        h as int,
                        r2,
                        c2,
                    ),
                forall|c2: int|
                    0 <= c2 < col ==> #[trigger] out@[row * w + c2] == mono_pixel(
                        buf@,
                        pitch as int,
                        h as int,
                        row as int,
                        c2,
                    ),
            decreases w - col,
        {
            proof {
                assert(col / 8 < ap) by {
                    assert(col / 8 <= (w + 7) / 8 - 1);
                }
                assert((row + 1) * w <= h * w) by (nonlinear_arith)
                    requires
                        row < h,
                ;
                assert(row * w + col < (row + 1) * w) by (nonlinear_arith)
                    requires
                        col < w,
                ;
            }
            let byte = buf[off + (col / 8) as usize];
            let bit = byte & (0x80u8 >> ((col % 8) as u8));
            let ghost before = out@;
            out.push(bit != 0);
            proof {
                assert forall|r2: int, c2: int|
                    0 <= r2 < row && 0 <= c2 < w implies #[trigger] out@[r2 * w + c2]
                    == mono_pixel(buf@, pitch as int, h as int, r2, c2) by {
                    assert(r2 * w + c2 < row * w) by (nonlinear_arith)
                        requires
                            r2 < row,
                            c2 < w,
                    ;
                    assert(out@[r2 * w + c2] == before[r2 * w + c2]);
                }
                assert forall|c2: int| 0 <= c2 < col + 1 implies #[trigger] out@[row * w + c2]
                    == mono_pixel(buf@, pitch as int, h as int, row as int, c2) by {
                    if c2 < col {
                        assert(out@[row * w + c2] == before[row * w + c2]);
                    }
                }
            }
            col = col + 1;
        }
        proof {
            assert((row + 1) * w == row * w + w) by (nonlinear_arith);
            assert forall|r2: int, c2: int|
                0 <= r2 < row + 1 && 0 <= c2 < w implies #[trigger] out@[r2 * w + c2]
                == mono_pixel(buf@, pitch as int, h as int, r2, c2) by {
                if r2 == row {
                    assert(out@[row * w + c2] == mono_pixel(
                        buf@,
                        pitch as int,
                        h as int,
                        row as int,
                        c2,
                    ));
                }
            }
        }
        row = row + 1;
    }
    proof {
        assert(h * w == w * h) by (nonlinear_arith);
    }
    out
}

/// Whether any pixel is lit; glyphs such as space come back with a size
/// but no lit pixels, and get no atlas cell.
pub fn any_lit(pixels: &Vec<bool>) -> (r: bool)
    ensures
        r == exists|i: int| 0 <= i < pixels.len() && pixels@[i],
{
    let mut i: usize = 0;
    while i < pixels.len()
        invariant
            i <= pixels.len(),
            forall|j: int| 0 <= j < i ==> !pixels@[j],
        decreases pixels.len() - i,
    {
        if pixels[i] {
            return true;
        }
        i = i + 1;
    }
    false
}

/// `i` comes before `j` when ordered by key, equal keys by position: the
/// order a stable sort leaves them in.
pub open spec fn key_before(keys: Seq<u64>, i: int, j: int) -> bool {
    keys[i] < keys[j] || (keys[i] == keys[j] && i < j)
}

/// `order` lists the positions of `keys` as a stable sort by key does:
/// each position once, in `key_before` order.
pub open spec fn is_stable_order(keys: Seq<u64>, order: Seq<usize>) -> bool {
    &&& order.len() == keys.len()
    &&& forall|k: int| 0 <= k < order.len() ==> #[trigger] order[k] < keys.len()
    &&& forall|a: int, b: int|
        0 <= a < b < order.len() ==> key_before(keys, #[trigger] order[a] as int, #[trigger] order[b] as int)
}

/// Every position of `keys` occurs in a stable order of them.
proof fn lemma_stable_order_covers(keys: Seq<u64>, o: Seq<usize>, e: int)
    requires
        is_stable_order(keys, o),
        0 <= e < keys.len(),
    ensures
        exists|p: int| 0 <= p < o.len() && #[trigger] o[p] as int == e,
{
    let n = keys.len() as int;
    let s = o.map_values(|x: usize| x as int);
    assert forall|a: int, b: int| 0 <= a < s.len() && 0 <= b < s.len() && a != b implies s[a] != s[b] by {
        if a < b {
            assert(key_before(keys, o[a] as int, o[b] as int));
        } else {
            assert(key_before(keys, o[b] as int, o[a] as int));
        }
    }
    assert(s.no_duplicates());
    s.unique_seq_to_set();
    vstd::set_lib::lemma_int_range(0, n);
    assert forall|x: int| s.to_set().contains(x) implies vstd::set_lib::set_int_range(0, n).contains(x) by {
        let p = choose|p: int| 0 <= p < s.len() && s[p] == x;
        assert(o[p] < keys.len());
    }
    vstd::set_lib::lemma_subset_equality(s.to_set(), vstd::set_lib::set_int_range(0, n));
    assert(vstd::set_lib::set_int_range(0, n).contains(e));
    assert(s.to_set().contains(e));
    let p = choose|p: int| 0 <= p < s.len() && s[p] == e;
    assert(o[p] as int == e);
}

/// Two stable orders of the same keys agree on their first `k` places.
proof fn lemma_stable_prefix_eq(keys: Seq<u64>, o1: Seq<usize>, o2: Seq<usize>, k: int)
    requires
        is_stable_order(keys, o1),
        is_stable_order(keys, o2),
        0 <= k <= o1.len(),
    ensures
        forall|j: int| 0 <= j < k ==> #[trigger] o1[j] == o2[j],
    decreases k,
{
    if k > 0 {
        lemma_stable_prefix_eq(keys, o1, o2, k - 1);
        let j = k - 1;
        let x = o1[j] as int;
        let y = o2[j] as int;
        if x != y {
            if key_before(keys, x, y) {
                lemma_stable_order_covers(keys, o2, x);
                let p = choose|p: int| 0 <= p < o2.len() && #[trigger] o2[p] as int == x;
                if p < j {
                    assert(o1[p] == o2[p]);
                    assert(key_before(keys, o1[p] as int, o1[j] as int));
                } else if p > j {
                    assert(key_before(keys, o2[j] as int, o2[p] as int));
                }
            } else {
                assert(key_before(keys, y, x));
                lemma_stable_order_covers(keys, o1, y);
                let q = choose|q: int| 0 <= q < o1.len() && #[trigger] o1[q] as int == y;
                if q < j {
                    assert(o1[q] == o2[q]);
                    assert(key_before(keys, o2[q] as int, o2[j] as int));
                } else if q > j {
                    assert(key_before(keys, o1[j] as int, o1[q] as int));
                }
            }
        }
    }
}

/// A stable order of keys is unique.
pub proof fn lemma_stable_order_unique(keys: Seq<u64>, o1: Seq<usize>, o2: Seq<usize>)
    requires
        is_stable_order(keys, o1),
        is_stable_order(keys, o2),
    ensures
        o1 == o2,
{
    lemma_stable_prefix_eq(keys, o1, o2, o1.len() as int);
    assert(o1 =~= o2);
}

/// The positions of `keys` in stable sorted order.
pub fn stable_order(keys: &Vec<u64>) -> (r: Vec<usize>)
    ensures
        is_stable_order(keys@, r@),
{
    let mut out: Vec<usize> = Vec::new();
    let mut i: usize = 0;
    while i < keys.len()
        invariant
            i <= keys.len(),
            out.len() == i,
            forall|k: int| 0 <= k < out.len() ==> #[trigger] out@[k] < i,
            forall|a: int, b: int|
                0 <= a < b < out.len() ==> key_before(keys@, #[trigger] out@[a] as int, #[trigger] out@[b] as int),
        decreases keys.len() - i,
    {
        let mut lo: usize = 0;
        let mut hi: usize = out.len();
        while lo < hi
            invariant
                lo <= hi <= out.len(),
                i < keys.len(),
                forall|k: int| 0 <= k < out.len() ==> #[trigger] out@[k] < i,
                forall|a: int, b: int|
                    0 <= a < b < out.len() ==> key_before(keys@, #[trigger] out@[a] as int, #[trigger] out@[b] as int),
                forall|q: int| 0 <= q < lo ==> key_before(keys@, #[trigger] out@[q] as int, i as int),
                forall|q: int| hi <= q < out.len() ==> key_before(keys@, i as int, #[trigger] out@[q] as int),
            decreases hi - lo,
        {
            let mid = lo + (hi - lo) / 2;
            let m = out[mid];
            if keys[i] < keys[m] {
                proof {
                    assert forall|q: int| mid <= q < out.len() implies key_before(
                        keys@,
                        i as int,
                        #[trigger] out@[q] as int,
                    ) by {
                        if q > mid {
                            assert(key_before(keys@, out@[mid as int] as int, out@[q] as int));
                        }
                    }
                }
                hi = mid;
            } else {
                proof {
                    assert(key_before(keys@, m as int, i as int));
                    assert forall|q: int| 0 <= q < mid + 1 implies key_before(
                        keys@,
                        #[trigger] out@[q] as int,
                        i as int,
                    ) by {
                        if q < mid {
                            assert(key_before(keys@, out@[q] as int, out@[mid as int] as int));
                        }
                    }
                }
                lo = mid + 1;
            }
        }
        let ghost before = out@;
        out.insert(lo, i);
        proof {
            assert forall|k: int| 0 <= k < out.len() implies #[trigger] out@[k] < i + 1 by {
                if k < lo {
                    assert(out@[k] == before[k]);
                } else if k > lo {
                    assert(out@[k] == before[k - 1]);
                }
            }
            assert forall|a: int, b: int| 0 <= a < b < out.len() implies key_before(
                keys@,
                #[trigger] out@[a] as int,
                #[trigger] out@[b] as int,
            ) by {
                if b < lo {
                    assert(out@[a] == before[a] && out@[b] == before[b]);
                } else if b == lo {
                    assert(out@[a] == before[a]);
                } else if a < lo {
                    assert(out@[a] == before[a] && out@[b] == before[b - 1]);
                } else if a == lo {
                    assert(out@[b] == before[b - 1]);
                } else {
                    assert(out@[a] == before[a - 1] && out@[b] == before[b - 1]);
                }
            }
        }
        i = i + 1;
    }
    out
}


/// Packer state before placing a glyph: cursor `x`, shelf top `y`,
/// current shelf height, and atlas width so far.
pub struct PackState {
    pub x: int,
    pub y: int,
    pub shelf_h: int,
    pub atlas_w: int,
}

/// A glyph `w` wide does not fit on the current shelf.
pub open spec fn wraps(s: PackState, w: int) -> bool {
    s.x + w > ATLAS_MAX_WIDTH
}

/// Where a glyph `w` wide goes: at the cursor, or at the start of a new
/// shelf below the current one when it would overflow the row.
pub open spec fn place(s: PackState, w: int) -> (int, int) {
    if wraps(s, w) {
        (0, s.y + s.shelf_h)
    } else {
        (s.x, s.y)
    }
}

/// Packer state after the first `k` glyphs of sizes `ws` by `hs`, in
/// packing order.
pub open spec fn pack_state(ws: Seq<u32>, hs: Seq<u32>, k: int) -> PackState
    decreases k,
{
    if k <= 0 {
        PackState { x: 0, y: 0, shelf_h: 0, atlas_w: 0 }
    } else {
        let s = pack_state(ws, hs, k - 1);
        let w = ws[k - 1] as int;
        let h = hs[k - 1] as int;
        let p = place(s, w);
        let sh = if wraps(s, w) {
            0
        } else {
            s.shelf_h
        };
        PackState {
            x: p.0 + w,
            y: p.1,
            shelf_h: if h > sh {
                h
            } else {
                sh
            },
            atlas_w: if p.0 + w > s.atlas_w {
                p.0 + w
            } else {
                s.atlas_w
            },
        }
    }
}

/// Top-left corner of the `k`-th glyph in packing order.
pub open spec fn placement(ws: Seq<u32>, hs: Seq<u32>, k: int) -> (int, int) {
    place(pack_state(ws, hs, k), ws[k] as int)
}

/// Atlas width after packing all glyphs.
pub open spec fn atlas_width(ws: Seq<u32>, hs: Seq<u32>) -> int {
    pack_state(ws, hs, ws.len() as int).atlas_w
}

/// Atlas height after packing all glyphs: the last shelf's bottom.
pub open spec fn atlas_height(ws: Seq<u32>, hs: Seq<u32>) -> int {
    let s = pack_state(ws, hs, ws.len() as int);
    s.y + s.shelf_h
}

/// Glyphs `a` and `b` share no pixel.
pub open spec fn disjoint(ws: Seq<u32>, hs: Seq<u32>, a: int, b: int) -> bool {
    let pa = placement(ws, hs, a);
    let pb = placement(ws, hs, b);
    ||| pa.0 + ws[a] <= pb.0
    ||| pb.0 + ws[b] <= pa.0
    ||| pa.1 + hs[a] <= pb.1
    ||| pb.1 + hs[b] <= pa.1
}

/// Sizes the packer accepts: every glyph at least one pixel and at most
/// `MAX_GLYPH_SIDE` on each side, at most `MAX_GLYPH_SIDE` glyphs.
pub open spec fn packable(ws: Seq<u32>, hs: Seq<u32>) -> bool {
    &&& ws.len() == hs.len()
    &&& ws.len() <= MAX_GLYPH_SIDE
    &&& forall|k: int|
        0 <= k < ws.len() ==> 1 <= #[trigger] ws[k] <= MAX_GLYPH_SIDE && 1 <= hs[k]
            <= MAX_GLYPH_SIDE
}

/// What holds after placing the first `k` glyphs.
pub open spec fn pack_inv(ws: Seq<u32>, hs: Seq<u32>, k: int) -> bool {
    let s = pack_state(ws, hs, k);
    &&& 0 <= s.x <= s.atlas_w <= ATLAS_MAX_WIDTH + MAX_GLYPH_SIDE
    &&& 0 <= s.y
    &&& 0 <= s.shelf_h <= MAX_GLYPH_SIDE
    &&& s.y + s.shelf_h <= k * MAX_GLYPH_SIDE
    &&& forall|a: int|
        0 <= a < k ==> {
            let p = #[trigger] placement(ws, hs, a);
            &&& 0 <= p.0
            &&& 0 <= p.1 <= s.y
            &&& p.0 + ws[a] <= s.atlas_w
            &&& p.1 + hs[a] <= s.y + s.shelf_h
            &&& p.1 < s.y ==> p.1 + hs[a] <= s.y
            &&& p.1 == s.y ==> p.0 + ws[a] <= s.x && hs[a] <= s.shelf_h
        }
    &&& forall|a: int, b: int| 0 <= a < b < k ==> #[trigger] disjoint(ws, hs, a, b)
}

proof fn lemma_pack_inv(ws: Seq<u32>, hs: Seq<u32>, k: int)
    requires
        packable(ws, hs),
        0 <= k <= ws.len(),
    ensures
        pack_inv(ws, hs, k),
    decreases k,
{
    if k > 0 {
        lemma_pack_inv(ws, hs, k - 1);
        let s = pack_state(ws, hs, k - 1);
        let n = pack_state(ws, hs, k);
        let w = ws[k - 1] as int;
        let h = hs[k - 1] as int;
        let p = placement(ws, hs, k - 1);
        assert(p == place(s, w));
        assert(1 <= w <= MAX_GLYPH_SIDE && 1 <= h <= MAX_GLYPH_SIDE);
        assert((k - 1) * MAX_GLYPH_SIDE + MAX_GLYPH_SIDE == k * MAX_GLYPH_SIDE) by (nonlinear_arith);
        assert forall|a: int| 0 <= a < k implies {
            let q = #[trigger] placement(ws, hs, a);
            &&& 0 <= q.0
            &&& 0 <= q.1 <= n.y
            &&& q.0 + ws[a] <= n.atlas_w
            &&& q.1 + hs[a] <= n.y + n.shelf_h
            &&& q.1 < n.y ==> q.1 + hs[a] <= n.y
            &&& q.1 == n.y ==> q.0 + ws[a] <= n.x && hs[a] <= n.shelf_h
        } by {
            if a < k - 1 {
                let q = placement(ws, hs, a);
                if wraps(s, w) {
                    if q.1 == s.y {
                        assert(hs[a] <= s.shelf_h);
                    }
                }
            }
        }
        assert forall|a: int, b: int| 0 <= a < b < k implies #[trigger] disjoint(ws, hs, a, b) by {
            if b == k - 1 {
                let q = placement(ws, hs, a);
                if wraps(s, w) {
                    if q.1 == s.y {
                        assert(hs[a] <= s.shelf_h);
                        assert(q.1 + hs[a] <= p.1);
                    } else {
                        assert(q.1 + hs[a] <= s.y);
                    }
                } else {
                    if q.1 == s.y {
                        assert(q.0 + ws[a] <= p.0);
                    } else {
                        assert(q.1 + hs[a] <= p.1);
                    }
                }
            }
        }
    }
}

/// The widest of the first `k` glyph widths, 0 for none.
pub open spec fn widest(ws: Seq<u32>, k: int) -> int
    decreases k,
{
    if k <= 0 {
        0
    } else if ws[k - 1] as int > widest(ws, k - 1) {
        ws[k - 1] as int
    } else {
        widest(ws, k - 1)
    }
}

/// The widest an atlas of glyphs `ws` can grow: a row of
/// `ATLAS_MAX_WIDTH`, or one glyph wider than that on a shelf of its own.
pub open spec fn width_bound(ws: Seq<u32>) -> int {
    if widest(ws, ws.len() as int) > ATLAS_MAX_WIDTH {
        widest(ws, ws.len() as int)
    } else {
        ATLAS_MAX_WIDTH as int
    }
}

proof fn lemma_width_bound_upto(ws: Seq<u32>, hs: Seq<u32>, k: int)
    requires
        0 <= k <= ws.len(),
    ensures
        0 <= pack_state(ws, hs, k).x <= pack_state(ws, hs, k).atlas_w,
        pack_state(ws, hs, k).atlas_w <= (if widest(ws, k) > ATLAS_MAX_WIDTH { widest(ws, k) } else { ATLAS_MAX_WIDTH as int }),
        widest(ws, k) >= 0,
    decreases k,
{
    if k > 0 {
        lemma_width_bound_upto(ws, hs, k - 1);
    }
}

/// The atlas is never wider than `ATLAS_MAX_WIDTH`, or than its widest
/// glyph when that is wider.
pub proof fn lemma_atlas_width_bound(ws: Seq<u32>, hs: Seq<u32>)
    ensures
        atlas_width(ws, hs) <= width_bound(ws),
{
    lemma_width_bound_upto(ws, hs, ws.len() as int);
}

/// The shelf packer's placements never overlap and stay inside the atlas.
pub proof fn lemma_packing_is_disjoint(ws: Seq<u32>, hs: Seq<u32>)
    requires
        packable(ws, hs),
    ensures
        forall|a: int, b: int| 0 <= a < b < ws.len() ==> #[trigger] disjoint(ws, hs, a, b),
        forall|a: int|
            0 <= a < ws.len() ==> {
                let p = #[trigger] placement(ws, hs, a);
                &&& 0 <= p.0
                &&& 0 <= p.1
                &&& p.0 + ws[a] <= atlas_width(ws, hs)
                &&& p.1 + hs[a] <= atlas_height(ws, hs)
            },
{
    lemma_pack_inv(ws, hs, ws.len() as int);
}

/// Shelf-packs glyphs of sizes `ws` by `hs`, given in packing order:
/// returns each glyph's top-left corner and the atlas width and height.
pub fn shelf_pack(ws: &Vec<u32>, hs: &Vec<u32>) -> (r: (Vec<(u32, u32)>, u32, u32))
    requires
        packable(ws@, hs@),
    ensures
        r.0.len() == ws.len(),
        forall|k: int|
            0 <= k < ws.len() ==> (#[trigger] r.0@[k]).0 == placement(ws@, hs@, k).0 && r.0@[k].1
                == placement(ws@, hs@, k).1,
        r.1 == atlas_width(ws@, hs@),
        r.2 == atlas_height(ws@, hs@),
        r.1 <= width_bound(ws@),
{
    let mut out: Vec<(u32, u32)> = Vec::new();
    let mut x: u32 = 0;
    let mut y: u32 = 0;
    let mut shelf_h: u32 = 0;
    let mut atlas_w: u32 = 0;
    let mut k: usize = 0;
    while k < ws.len()
        invariant
            k <= ws.len(),
            packable(ws@, hs@),
            pack_state(ws@, hs@, k as int) == (PackState {
                x: x as int,
                y: y as int,
                shelf_h: shelf_h as int,
                atlas_w: atlas_w as int,
            }),
            out.len() == k,
            forall|j: int|
                0 <= j < k ==> (#[trigger] out@[j]).0 == placement(ws@, hs@, j).0 && out@[j].1
                    == placement(ws@, hs@, j).1,
        decreases ws.len() - k,
    {
        proof {
            lemma_pack_inv(ws@, hs@, k as int);
            assert(k * MAX_GLYPH_SIDE <= MAX_GLYPH_SIDE * MAX_GLYPH_SIDE) by (nonlinear_arith)
                requires
                    k <= MAX_GLYPH_SIDE,
            ;
        }
        let w = ws[k];
        let h = hs[k];
        if x + w > ATLAS_MAX_WIDTH {
            y = y + shelf_h;
            x = 0;
            shelf_h = 0;
        }
        out.push((x, y));
        x = x + w;
        if x > atlas_w {
            atlas_w = x;
        }
        if h > shelf_h {
            shelf_h = h;
        }
        k = k + 1;
    }
    proof {
        lemma_pack_inv(ws@, hs@, k as int);
        assert(k * MAX_GLYPH_SIDE <= MAX_GLYPH_SIDE * MAX_GLYPH_SIDE) by (nonlinear_arith)
            requires
                k <= MAX_GLYPH_SIDE,
        ;
    }
    proof {
        lemma_atlas_width_bound(ws@, hs@);
    }
    (out, atlas_w, y + shelf_h)
}


#[verifier::external_type_specification]
#[verifier::external_body]
pub struct ExLibrary(freetype::Library);

#[verifier::external_type_specification]
#[verifier::external_body]
#[verifier::reject_recursive_types(BYTES)]
pub struct ExFace<BYTES>(freetype::Face<BYTES>);

/// Load flags for a glyph rendered to a 1-bit bitmap: render, monochrome,
/// mono hinting target.
pub const MONO_RENDER_FLAGS: i32 = 0x0002_1004;

/// `freetype::Library::init`: a FreeType library handle, or the error's
/// text. It fails only when FreeType cannot allocate its memory, which
/// depends on the machine, so nothing is promised of either outcome.
#[verifier::external_body]
fn ft_init() -> (r: Result<freetype::Library, String>) {
    freetype::Library::init().map_err(|e| e.to_string())
}

/// A FreeType face opened over font bytes; `font` is those bytes.
pub struct FtFace {
    face: freetype::Face,
    font: Ghost<Seq<u8>>,
}

impl FtFace {
    /// The font bytes the face was opened over.
    pub closed spec fn font(&self) -> Seq<u8> {
        self.font@
    }
}

/// A FreeType face set to a pixel size.
pub struct SizedFace {
    face: freetype::Face,
    font: Ghost<Seq<u8>>,
    size: u32,
}

impl SizedFace {
    /// The font bytes the face was opened over.
    pub closed spec fn font(&self) -> Seq<u8> {
        self.font@
    }

    /// The pixel height the face was set to.
    pub closed spec fn size(&self) -> u32 {
        self.size
    }
}

/// What `Library::new_memory_face` reports for the first face of
/// `font`: `None` when it opens, else FreeType's error text.
pub uninterp spec fn ft_face_error_of(font: Seq<u8>) -> Option<Seq<char>>;

/// What `Face::set_pixel_sizes(0, size)` reports on a face of `font`:
/// `None` when it succeeds, else FreeType's error text.
pub uninterp spec fn ft_set_pixel_sizes_of(font: Seq<u8>, size: u32) -> Option<Seq<char>>;

/// `Face::size_metrics` of a face of `font` at `size` pixels: its
/// ascender and descender in 26.6 fixed point, `None` when it has none.
pub uninterp spec fn ft_size_metrics_of(font: Seq<u8>, size: u32) -> Option<(i64, i64)>;

/// `Face::get_char_index` of `cp` in a face of `font`: its glyph index,
/// `None` when the font's charmap does not cover it.
pub uninterp spec fn ft_char_index_of(font: Seq<u8>, cp: u32) -> Option<u32>;

/// `Face::load_char` of `cp` with load flags `flags` on a face of `font`
/// at `size` pixels, and the glyph slot it leaves (`Raster`'s view), or
/// FreeType's error text.
pub uninterp spec fn ft_glyph_of(font: Seq<u8>, size: u32, cp: u32, flags: i32) -> Result<
    RasterView,
    Seq<char>,
>;

/// Calls `Library::new_memory_face` on the font's bytes, face index 0;
/// the result is `ft_face_error_of` of the bytes.
#[verifier::external_body]
fn ft_new_memory_face(lib: &freetype::Library, font: Vec<u8>) -> (r: Result<FtFace, String>)
    ensures
        match r {
            Ok(f) => f.font() == font@ && ft_face_error_of(font@) is None,
            Err(e) => ft_face_error_of(font@) == Some(e@),
        },
{
    let bytes = Ghost(font@);
    match lib.new_memory_face(font, 0) {
        Ok(face) => Ok(FtFace { face, font: bytes }),
        Err(e) => Err(e.to_string()),
    }
}

/// Calls `Face::set_pixel_sizes(0, size)` (width as the height); the
/// result is `ft_set_pixel_sizes_of`.
#[verifier::external_body]
fn ft_set_pixel_sizes(f: FtFace, size: u32) -> (r: Result<SizedFace, String>)
    ensures
        match r {
            Ok(s) => s.font() == f.font() && s.size() == size && ft_set_pixel_sizes_of(f.font(), size) is None,
            Err(e) => ft_set_pixel_sizes_of(f.font(), size) == Some(e@),
        },
{
    match f.face.set_pixel_sizes(0, size) {
        Ok(()) => Ok(SizedFace { face: f.face, font: f.font, size }),
        Err(e) => Err(e.to_string()),
    }
}

/// Calls `Face::size_metrics`: the ascender and descender, as
/// `ft_size_metrics_of` names them.
#[verifier::external_body]
fn ft_size_metrics(f: &SizedFace) -> (r: Option<(i64, i64)>)
    ensures
        r == ft_size_metrics_of(f.font(), f.size()),
{
    f.face.size_metrics().map(|m| (m.ascender as i64, m.descender as i64))
}

/// Calls `Face::get_char_index`, as `ft_char_index_of` names it.
#[verifier::external_body]
fn ft_get_char_index(f: &SizedFace, cp: u32) -> (r: Option<u32>)
    ensures
        r == ft_char_index_of(f.font(), cp),
{
    f.face.get_char_index(cp as usize)
}

/// Calls `Face::load_char` and reads the glyph slot it fills (bitmap
/// width, rows, pitch and bytes, advance, bearings), as `ft_glyph_of`
/// names it.
#[verifier::external_body]
fn ft_load_glyph(f: &SizedFace, cp: u32, flags: i32) -> (r: Result<Raster, String>)
    ensures
        match r {
            Ok(g) => ft_glyph_of(f.font(), f.size(), cp, flags) == Ok::<RasterView, Seq<char>>(g@),
            Err(e) => ft_glyph_of(f.font(), f.size(), cp, flags) == Err::<RasterView, Seq<char>>(e@),
        },
{
    let flags = freetype::face::LoadFlag::from_bits_truncate(flags);
    f.face.load_char(cp as usize, flags).map_err(|e| e.to_string())?;
    let (slot, bitmap) = (f.face.glyph(), f.face.glyph().bitmap());
    let (width, rows, pitch) = (bitmap.width(), bitmap.rows(), bitmap.pitch());
    let buffer = bitmap.buffer().to_vec();
    let (left, top) = (slot.bitmap_left(), slot.bitmap_top());
    Ok(Raster { width, rows, pitch, buffer, advance_x: slot.advance().x as i64, left, top })
}

/// A glyph as the rasterizer left it in the face's slot.
pub struct Raster {
    /// Bitmap width in pixels.
    pub width: i32,
    /// Bitmap rows.
    pub rows: i32,
    /// Bytes per bitmap row; negative when rows are stored bottom-up.
    pub pitch: i32,
    /// The bitmap bytes.
    pub buffer: Vec<u8>,
    /// Horizontal advance, 26.6 fixed point.
    pub advance_x: i64,
    /// Left bearing of the bitmap, in pixels.
    pub left: i32,
    /// Distance from the baseline up to the bitmap's top row, in pixels.
    pub top: i32,
}

/// Absolute value of a pitch.
pub open spec fn abs_pitch(p: i32) -> int {
    if p >= 0 {
        p as int
    } else {
        -p
    }
}

/// A raster as plain values: width, rows, pitch, bytes, advance, left
/// and top bearings.
pub type RasterView = (i32, i32, i32, Seq<u8>, i64, i32, i32);

impl View for Raster {
    type V = RasterView;

    open spec fn view(&self) -> RasterView {
        (self.width, self.rows, self.pitch, self.buffer@, self.advance_x, self.left, self.top)
    }
}

/// One glyph's entry in the font metadata: codepoint, atlas cell
/// (position and size, zero for blank glyphs), advance and offsets from
/// the pen position on the line's top.
#[derive(Clone, Copy, Debug, PartialEq, Eq, Structural)]
pub struct GlyphData {
    pub cp: u32,
    pub x: i32,
    pub y: i32,
    pub w: u32,
    pub h: u32,
    pub advance: i32,
    pub ox: i32,
    pub oy: i64,
}

/// A lit glyph bitmap waiting for its atlas cell: the glyph it belongs
/// to, its size, and its pixels row-major.
pub struct Bitmap {
    pub glyph: usize,
    pub w: u32,
    pub h: u32,
    pub pixels: Vec<bool>,
}

/// The bitmap of a raster fits the unpacker: sane pitch and size, and
/// enough bytes for its rows.
pub open spec fn raster_ok(r: Raster) -> bool {
    &&& r.pitch != i32::MIN
    &&& 0 <= r.width <= MAX_GLYPH_SIDE
    &&& 0 <= r.rows <= MAX_GLYPH_SIDE
    &&& (r.width + 7) / 8 <= abs_pitch(r.pitch)
    &&& r.rows * abs_pitch(r.pitch) <= r.buffer.len()
}

/// Some pixel of the raster is lit.
pub open spec fn raster_lit(r: Raster) -> bool {
    exists|row: int, col: int|
        0 <= row < r.rows && 0 <= col < r.width && #[trigger] mono_pixel(
            r.buffer@,
            r.pitch as int,
            r.rows as int,
            row,
            col,
        )
}

/// Metadata entry of a rasterized codepoint before packing: blank
/// glyphs (empty bitmap, or a bitmap with nothing lit) get no cell, and
/// the all-blank ones also lose their offsets; offsets are measured down
/// from the line's top, `ascent` below it.
pub open spec fn glyph_spec(cp: u32, r: Raster, ascent: i32) -> GlyphData {
    let advance = (r.advance_x >> 6) as i32;
    let oy = ascent - r.top;
    if r.width == 0 || r.rows == 0 {
        GlyphData { cp, x: 0, y: 0, w: 0, h: 0, advance, ox: r.left, oy: oy as i64 }
    } else if !raster_lit(r) {
        GlyphData { cp, x: 0, y: 0, w: 0, h: 0, advance, ox: 0, oy: 0 }
    } else {
        GlyphData {
            cp,
            x: 0,
            y: 0,
            w: r.width as u32,
            h: r.rows as u32,
            advance,
            ox: r.left,
            oy: oy as i64,
        }
    }
}

/// Positions of the rasters that carry a lit bitmap, in order.
pub open spec fn lit_positions(rs: Seq<(u32, Raster)>, n: int) -> Seq<int>
    decreases n,
{
    if n <= 0 {
        seq![]
    } else if rs[n - 1].1.width != 0 && rs[n - 1].1.rows != 0 && raster_lit(rs[n - 1].1) {
        lit_positions(rs, n - 1).push(n - 1)
    } else {
        lit_positions(rs, n - 1)
    }
}

/// A raster with a non-empty bitmap the unpacker cannot read.
pub open spec fn bad_raster(r: Raster) -> bool {
    r.width != 0 && r.rows != 0 && !raster_ok(r)
}

/// The `i`-th raster is the first bad one.
pub open spec fn is_first_bad(rs: Seq<(u32, Raster)>, i: int) -> bool {
    &&& 0 <= i < rs.len()
    &&& bad_raster(rs[i].1)
    &&& forall|k: int| 0 <= k < i ==> !bad_raster(#[trigger] rs[k].1)
}

/// No raster is bad.
pub open spec fn no_bad(rs: Seq<(u32, Raster)>) -> bool {
    forall|k: int| 0 <= k < rs.len() ==> !bad_raster(#[trigger] rs[k].1)
}

/// Splits rasterized glyphs into their metadata entries and the lit
/// bitmaps to pack. Fails with the message of the first bitmap that is
/// malformed or too large. At most `MAX_GLYPH_SIDE` glyphs, as the
/// packer takes.
pub fn extract_glyphs(rs: &Vec<(u32, Raster)>, ascent: i32) -> (r: Result<
    (Vec<GlyphData>, Vec<Bitmap>),
    String,
>)
    requires
        rs.len() <= MAX_GLYPH_SIDE,
    ensures
        match r {
            Ok((gs, bs)) => {
                &&& forall|i: int| 0 <= i < rs.len() ==> raster_ok(#[trigger] rs@[i].1)
                    || rs@[i].1.width == 0 || rs@[i].1.rows == 0
                &&& gs.len() == rs.len()
                &&& forall|i: int|
                    0 <= i < rs.len() ==> #[trigger] gs@[i] == glyph_spec(
                        rs@[i].0,
                        rs@[i].1,
                        ascent,
                    )
                &&& bs.len() == lit_positions(rs@, rs.len() as int).len()
                &&& forall|j: int|
                    0 <= j < bs.len() ==> {
                        let i = lit_positions(rs@, rs.len() as int)[j];
                        let b = #[trigger] bs@[j];
                        &&& b.glyph == i
                        &&& b.w == rs@[i].1.width
                        &&& b.h == rs@[i].1.rows
                        &&& b.pixels.len() == b.w * b.h
                        &&& forall|row: int, col: int|
                            0 <= row < b.h && 0 <= col < b.w ==> #[trigger] b.pixels@[row * b.w
                                + col] == mono_pixel(
                                rs@[i].1.buffer@,
                                rs@[i].1.pitch as int,
                                rs@[i].1.rows as int,
                                row,
                                col,
                            )
                    }
            },
            Err(e) => exists|i: int| #[trigger] is_first_bad(rs@, i) && e@ == glyph_error_text(rs@[i].0),
        },
{
    let mut gs: Vec<GlyphData> = Vec::new();
    let mut bs: Vec<Bitmap> = Vec::new();
    let mut i: usize = 0;
    while i < rs.len()
        invariant
            i <= rs.len(),
            rs.len() <= MAX_GLYPH_SIDE,
            forall|k: int| 0 <= k < i ==> raster_ok(#[trigger] rs@[k].1) || rs@[k].1.width == 0
                || rs@[k].1.rows == 0,
            gs.len() == i,
            forall|k: int|
                0 <= k < i ==> #[trigger] gs@[k] == glyph_spec(rs@[k].0, rs@[k].1, ascent),
            bs.len() == lit_positions(rs@, i as int).len(),
            forall|j: int|
                0 <= j < bs.len() ==> {
                    let k = lit_positions(rs@, i as int)[j];
                    let b = #[trigger] bs@[j];
                    &&& b.glyph == k
                    &&& b.w == rs@[k].1.width
                    &&& b.h == rs@[k].1.rows
                    &&& b.pixels.len() == b.w * b.h
                    &&& forall|row: int, col: int|
                        0 <= row < b.h && 0 <= col < b.w ==> #[trigger] b.pixels@[row * b.w + col]
                            == mono_pixel(
                            rs@[k].1.buffer@,
                            rs@[k].1.pitch as int,
                            rs@[k].1.rows as int,
                            row,
                            col,
                        )
                },
        decreases rs.len() - i,
    {
        let cp = rs[i].0;
        let r = &rs[i].1;
        let advance = (r.advance_x >> 6) as i32;
        let oy = ascent as i64 - r.top as i64;
        if r.width == 0 || r.rows == 0 {
            gs.push(GlyphData { cp, x: 0, y: 0, w: 0, h: 0, advance, ox: r.left, oy });
            proof {
                assert(lit_positions(rs@, i + 1) == lit_positions(rs@, i as int));
            }
        } else {
            if r.pitch == i32::MIN || r.width < 0 || r.width > 0xFFFF || r.rows < 0 || r.rows
                > 0xFFFF {
                proof {
                    assert(is_first_bad(rs@, i as int));
                }
                return Err(glyph_error(cp));
            }
            let ap: i32 = if r.pitch >= 0 {
                r.pitch
            } else {
                -r.pitch
            };
            proof {
                assert((r.rows as u64) * (ap as u64) <= 0xFFFF * 0x7FFF_FFFF) by (nonlinear_arith)
                    requires
                        0 <= r.rows <= 0xFFFF,
                        0 <= ap <= 0x7FFF_FFFF,
                ;
            }
            if (r.width + 7) / 8 > ap || (r.rows as u64) * (ap as u64) > r.buffer.len() as u64 {
                proof {
                    assert(is_first_bad(rs@, i as int));
                }
                return Err(glyph_error(cp));
            }
            let w = r.width as u32;
            let h = r.rows as u32;
            proof {
                assert(w * h <= 0xFFFF * 0xFFFF) by (nonlinear_arith)
                    requires
                        w <= 0xFFFF,
                        h <= 0xFFFF,
                ;
                assert(raster_ok(*r));
            }
            let pixels = unpack_mono(&r.buffer, r.pitch, w, h);
            if any_lit(&pixels) {
                proof {
                    let k = choose|k: int| 0 <= k < pixels.len() && pixels@[k];
                    let wi = w as int;
                    let hi = h as int;
                    let row = k / wi;
                    let col = k % wi;
                    assert(k == row * wi + col && 0 <= col < wi) by (nonlinear_arith)
                        requires
                            wi > 0,
                            row == k / wi,
                            col == k % wi,
                    ;
                    assert(0 <= row < hi) by (nonlinear_arith)
                        requires
                            0 <= k < wi * hi,
                            wi > 0,
                            row == k / wi,
                    ;
                    assert(pixels@[row * wi + col]);
                    assert(mono_pixel(r.buffer@, r.pitch as int, r.rows as int, row, col));
                    assert(raster_lit(*r));
                }
                gs.push(GlyphData { cp, x: 0, y: 0, w, h, advance, ox: r.left, oy });
                let ghost before = bs@;
                bs.push(Bitmap { glyph: i, w, h, pixels });
                proof {
                    assert(lit_positions(rs@, i + 1) == lit_positions(rs@, i as int).push(
                        i as int,
                    ));
                    assert forall|j: int| 0 <= j < bs.len() implies ({
                        let k = lit_positions(rs@, i + 1)[j];
                        let b = #[trigger] bs@[j];
                        &&& b.glyph == k
                        &&& b.w == rs@[k].1.width
                        &&& b.h == rs@[k].1.rows
                        &&& b.pixels.len() == b.w * b.h
                        &&& forall|row: int, col: int|
                            0 <= row < b.h && 0 <= col < b.w ==> #[trigger] b.pixels@[row * b.w
                                + col] == mono_pixel(
                                rs@[k].1.buffer@,
                                rs@[k].1.pitch as int,
                                rs@[k].1.rows as int,
                                row,
                                col,
                            )
                    }) by {
                        if j < before.len() {
                            assert(bs@[j] == before[j]);
                        }
                    }
                }
            } else {
                proof {
                    assert(!raster_lit(*r)) by {
                        if raster_lit(*r) {
                            let (row, col) = choose|row: int, col: int|
                                0 <= row < r.rows && 0 <= col < r.width && #[trigger] mono_pixel(
                                    r.buffer@,
                                    r.pitch as int,
                                    r.rows as int,
                                    row,
                                    col,
                                );
                            assert(pixels@[row * w + col]);
                            assert(0 <= row * w + col < w * h) by (nonlinear_arith)
                                requires
                                    0 <= row < h,
                                    0 <= col < w,
                            ;
                        }
                    }
                    assert(lit_positions(rs@, i + 1) == lit_positions(rs@, i as int));
                }
                gs.push(GlyphData { cp, x: 0, y: 0, w: 0, h: 0, advance, ox: 0, oy: 0 });
            }
        }
        i = i + 1;
    }
    Ok((gs, bs))
}

/// Uppercase hexadecimal digits of `n`, at least four (`{:04X}`).
pub open spec fn hex4(n: u32) -> Seq<char>
    decreases n,
{
    hex_digits(n as nat, 4)
}

/// Uppercase hexadecimal digits of `n`, padded with zeros to `width`.
pub open spec fn hex_digits(n: nat, width: nat) -> Seq<char>
    decreases n + width,
{
    if n < 16 && width <= 1 {
        seq![hex_char(n)]
    } else {
        hex_digits(n / 16, if width > 0 {
            (width - 1) as nat
        } else {
            0
        }).push(hex_char(n % 16))
    }
}

/// The uppercase hexadecimal digit of `d`.
pub open spec fn hex_char(d: nat) -> char {
    if d < 10 {
        ((d + 0x30) as u32) as char
    } else {
        ((d - 10 + 0x41) as u32) as char
    }
}

fn hex_char_exec(d: u32) -> (c: char)
    requires
        d < 16,
    ensures
        c == hex_char(d as nat),
{
    if d < 10 {
        crate::text::char_from_ascii(d + 0x30)
    } else {
        crate::text::char_from_ascii(d - 10 + 0x41)
    }
}

fn hex_digits_exec(n: u32, width: u32) -> (r: Vec<char>)
    requires
        width <= 8,
    ensures
        r@ == hex_digits(n as nat, width as nat),
    decreases n + width,
{
    if n < 16 && width <= 1 {
        let mut v: Vec<char> = Vec::new();
        v.push(hex_char_exec(n));
        v
    } else {
        let mut v = hex_digits_exec(n / 16, if width > 0 {
            width - 1
        } else {
            0
        });
        v.push(hex_char_exec(n % 16));
        v
    }
}

/// The message for a glyph whose bitmap can't be read.
pub open spec fn glyph_error_text(cp: u32) -> Seq<char> {
    seq!['g', 'l', 'y', 'p', 'h', ' ', 'U', '+'] + hex4(cp) + seq![
        ':',
        ' ',
        'm',
        'a',
        'l',
        'f',
        'o',
        'r',
        'm',
        'e',
        'd',
        ' ',
        'b',
        'i',
        't',
        'm',
        'a',
        'p',
    ]
}

fn glyph_error(cp: u32) -> (r: String)
    ensures
        r@ == glyph_error_text(cp),
{
    let mut v = chars_of("glyph U+");
    let h = hex_digits_exec(cp, 4);
    push_all(&mut v, h.as_slice());
    let t = chars_of(": malformed bitmap");
    push_all(&mut v, t.as_slice());
    proof {
        reveal_strlit("glyph U+");
        reveal_strlit(": malformed bitmap");
        assert(v@ =~= glyph_error_text(cp));
    }
    string_of(v.as_slice())
}


/// Sort keys that put taller bitmaps first.
pub open spec fn height_keys(bs: Seq<Bitmap>) -> Seq<u64> {
    Seq::new(bs.len(), |j: int| (0xFFFF_FFFFu64 - bs[j].h) as u64)
}

/// Widths of the bitmaps in packing order.
pub open spec fn ordered_ws(bs: Seq<Bitmap>, order: Seq<usize>) -> Seq<u32> {
    Seq::new(order.len(), |k: int| bs[order[k] as int].w)
}

/// Heights of the bitmaps in packing order.
pub open spec fn ordered_hs(bs: Seq<Bitmap>, order: Seq<usize>) -> Seq<u32> {
    Seq::new(order.len(), |k: int| bs[order[k] as int].h)
}

/// A glyph entry moved to an atlas cell.
pub open spec fn at_cell(g: GlyphData, cell: (u32, u32)) -> GlyphData {
    GlyphData { x: cell.0 as i32, y: cell.1 as i32, ..g }
}

/// Bitmaps the packer accepts, each tied to a distinct glyph entry.
pub open spec fn bitmaps_ok(gs: Seq<GlyphData>, bs: Seq<Bitmap>) -> bool {
    &&& bs.len() <= MAX_GLYPH_SIDE
    &&& forall|j: int|
        0 <= j < bs.len() ==> {
            &&& 1 <= (#[trigger] bs[j]).w <= MAX_GLYPH_SIDE
            &&& 1 <= bs[j].h <= MAX_GLYPH_SIDE
            &&& bs[j].glyph < gs.len()
            &&& bs[j].pixels.len() == bs[j].w * bs[j].h
        }
    &&& forall|a: int, b: int| 0 <= a < b < bs.len() ==> #[trigger] bs[a].glyph < #[trigger] bs[b].glyph
}

/// Where the packer put the bitmaps: their packing order, each one's
/// cell (top-left corner), and the atlas size.
pub struct Packing {
    pub order: Vec<usize>,
    pub cells: Vec<(u32, u32)>,
    pub atlas_w: u32,
    pub atlas_h: u32,
}

/// Shelf-packs the bitmaps tallest first (equal heights keep their
/// order) and moves each bitmap's glyph entry to its cell.
pub fn pack_glyphs(glyphs: &mut Vec<GlyphData>, bs: &Vec<Bitmap>) -> (r: Packing)
    requires
        bitmaps_ok(old(glyphs)@, bs@),
    ensures
        is_stable_order(height_keys(bs@), r.order@),
        r.cells.len() == r.order.len(),
        forall|k: int|
            0 <= k < r.cells.len() ==> (#[trigger] r.cells@[k]).0 == placement(
                ordered_ws(bs@, r.order@),
                ordered_hs(bs@, r.order@),
                k,
            ).0 && r.cells@[k].1 == placement(
                ordered_ws(bs@, r.order@),
                ordered_hs(bs@, r.order@),
                k,
            ).1,
        r.atlas_w == atlas_width(ordered_ws(bs@, r.order@), ordered_hs(bs@, r.order@)),
        r.atlas_h == atlas_height(ordered_ws(bs@, r.order@), ordered_hs(bs@, r.order@)),
        final(glyphs).len() == old(glyphs).len(),
        forall|k: int|
            0 <= k < r.order.len() ==> final(glyphs)@[bs@[#[trigger] r.order@[k] as int].glyph as int]
                == at_cell(old(glyphs)@[bs@[r.order@[k] as int].glyph as int], r.cells@[k]),
        forall|i: int|
            0 <= i < old(glyphs).len() && (forall|j: int| 0 <= j < bs.len() ==> #[trigger] bs@[j].glyph != i)
                ==> final(glyphs)@[i] == old(glyphs)@[i],
{
    let mut keys: Vec<u64> = Vec::new();
    let mut j: usize = 0;
    while j < bs.len()
        invariant
            j <= bs.len(),
            bitmaps_ok(glyphs@, bs@),
            keys@ =~= height_keys(bs@).subrange(0, j as int),
        decreases bs.len() - j,
    {
        keys.push(0xFFFF_FFFFu64 - bs[j].h as u64);
        j = j + 1;
    }
    proof {
        assert(keys@ =~= height_keys(bs@));
    }
    let order = stable_order(&keys);
    let mut ws: Vec<u32> = Vec::new();
    let mut hs: Vec<u32> = Vec::new();
    let mut k: usize = 0;
    while k < order.len()
        invariant
            k <= order.len(),
            order.len() == bs.len(),
            bitmaps_ok(glyphs@, bs@),
            forall|q: int| 0 <= q < order.len() ==> #[trigger] order@[q] < bs.len(),
            ws@ =~= ordered_ws(bs@, order@).subrange(0, k as int),
            hs@ =~= ordered_hs(bs@, order@).subrange(0, k as int),
        decreases order.len() - k,
    {
        ws.push(bs[order[k]].w);
        hs.push(bs[order[k]].h);
        k = k + 1;
    }
    proof {
        assert(ws@ =~= ordered_ws(bs@, order@));
        assert(hs@ =~= ordered_hs(bs@, order@));
        assert forall|q: int| 0 <= q < ws.len() implies 1 <= #[trigger] ws@[q] <= MAX_GLYPH_SIDE
            && 1 <= hs@[q] <= MAX_GLYPH_SIDE by {
            assert(bs@[order@[q] as int].w == ws@[q]);
        }
    }
    let (cells, atlas_w, atlas_h) = shelf_pack(&ws, &hs);
    let ghost start = glyphs@;
    let mut k: usize = 0;
    while k < order.len()
        invariant
            k <= order.len(),
            order.len() == bs.len(),
            cells.len() == order.len(),
            glyphs.len() == start.len(),
            bitmaps_ok(start, bs@),
            is_stable_order(height_keys(bs@), order@),
            forall|q: int|
                0 <= q < k ==> glyphs@[bs@[#[trigger] order@[q] as int].glyph as int] == at_cell(
                    start[bs@[order@[q] as int].glyph as int],
                    cells@[q],
                ),
            forall|i: int|
                0 <= i < start.len() && (forall|q: int| 0 <= q < k ==> bs@[#[trigger] order@[q] as int].glyph != i)
                    ==> glyphs@[i] == start[i],
        decreases order.len() - k,
    {
        let g = bs[order[k]].glyph;
        let (cx, cy) = cells[k];
        proof {
            assert forall|q: int| 0 <= q < k implies bs@[#[trigger] order@[q] as int].glyph != g by {
                assert(key_before(height_keys(bs@), order@[q] as int, order@[k as int] as int));
                if order@[q] < order@[k as int] {
                    assert(bs@[order@[q] as int].glyph < bs@[order@[k as int] as int].glyph);
                } else {
                    assert(order@[q] != order@[k as int]);
                    assert(bs@[order@[k as int] as int].glyph < bs@[order@[q] as int].glyph);
                }
            }
        }
        let mut gd = glyphs[g];
        gd.x = cx as i32;
        gd.y = cy as i32;
        glyphs.set(g, gd);
        k = k + 1;
    }
    Packing { order, cells, atlas_w, atlas_h }
}


/// Atlas pixel `(x, y)` lies in the cell of a bitmap placed at
/// `(x0, y0)` and is lit there.
pub open spec fn cell_lit(b: Bitmap, x0: int, y0: int, x: int, y: int) -> bool {
    x0 <= x < x0 + b.w && y0 <= y < y0 + b.h && b.pixels@[(y - y0) * b.w + (x - x0)]
}

/// Copies the lit pixels of a bitmap into the atlas at `(x0, y0)`.
pub fn blit(atlas: &mut Vec<bool>, aw: u32, ah: u32, x0: u32, y0: u32, b: &Bitmap)
    requires
        old(atlas).len() == aw * ah,
        x0 + b.w <= aw,
        y0 + b.h <= ah,
        b.pixels.len() == b.w * b.h,
    ensures
        final(atlas).len() == aw * ah,
        forall|x: int, y: int|
            0 <= x < aw && 0 <= y < ah ==> #[trigger] final(atlas)@[y * aw + x] == (old(atlas)@[y
                * aw + x] || cell_lit(*b, x0 as int, y0 as int, x, y)),
{
    let ghost start = atlas@;
    let mut row: u32 = 0;
    while row < b.h
        invariant
            row <= b.h,
            atlas.len() == aw * ah,
            start.len() == aw * ah,
            x0 + b.w <= aw,
            y0 + b.h <= ah,
            b.pixels.len() == b.w * b.h,
            forall|x: int, y: int|
                0 <= x < aw && 0 <= y < ah ==> #[trigger] atlas@[y * aw + x] == (start[y * aw + x]
                    || (y < y0 + row && cell_lit(*b, x0 as int, y0 as int, x, y))),
        decreases b.h - row,
    {
        let mut col: u32 = 0;
        while col < b.w
            invariant
                row < b.h,
                col <= b.w,
                atlas.len() == aw * ah,
                start.len() == aw * ah,
                x0 + b.w <= aw,
                y0 + b.h <= ah,
                b.pixels.len() == b.w * b.h,
                forall|x: int, y: int|
                    0 <= x < aw && 0 <= y < ah ==> #[trigger] atlas@[y * aw + x] == (start[y * aw
                        + x] || ((y < y0 + row || (y == y0 + row && x < x0 + col)) && cell_lit(
                        *b,
                        x0 as int,
                        y0 as int,
                        x,
                        y,
                    ))),
            decreases b.w - col,
        {
            proof {
                assert(row * b.w + col < b.w * b.h) by (nonlinear_arith)
                    requires
                        row < b.h,
                        col < b.w,
                ;
                assert((y0 + row) * aw + (x0 + col) < aw * ah) by (nonlinear_arith)
                    requires
                        y0 + row < ah,
                        x0 + col < aw,
                ;
            }
            let src = (row as usize) * (b.w as usize) + (col as usize);
            let dst = ((y0 + row) as usize) * (aw as usize) + ((x0 + col) as usize);
            let lit = b.pixels[src];
            let ghost before = atlas@;
            if lit {
                atlas.set(dst, true);
            }
            proof {
                let py = (y0 + row) as int;
                let px = (x0 + col) as int;
                lemma_row_major(py, px, aw as int);
                assert forall|x: int, y: int| 0 <= x < aw && 0 <= y < ah implies #[trigger] atlas@[y
                    * aw + x] == (start[y * aw + x] || ((y < y0 + row || (y == y0 + row && x < x0
                    + col + 1)) && cell_lit(*b, x0 as int, y0 as int, x, y))) by {
                    lemma_row_major(y, x, aw as int);
                    assert(y * aw + x < aw * ah) by (nonlinear_arith)
                        requires
                            0 <= y < ah,
                            0 <= x < aw,
                    ;
                    assert(before[y * aw + x] == (start[y * aw + x] || ((y < y0 + row || (y == y0
                        + row && x < x0 + col)) && cell_lit(*b, x0 as int, y0 as int, x, y))));
                    if y == py && x == px {
                        assert((y - y0) * b.w + (x - x0) == row * b.w + col);
                    } else {
                        assert(y * aw + x != py * aw + px);
                    }
                }
            }
            col = col + 1;
        }
        proof {
            assert forall|x: int, y: int| 0 <= x < aw && 0 <= y < ah implies #[trigger] atlas@[y * aw
                + x] == (start[y * aw + x] || (y < y0 + row + 1 && cell_lit(
                *b,
                x0 as int,
                y0 as int,
                x,
                y,
            ))) by {
                if y == y0 + row && cell_lit(*b, x0 as int, y0 as int, x, y) {
                    assert(x < x0 + b.w);
                }
            }
        }
        row = row + 1;
    }
    proof {
        assert forall|x: int, y: int| 0 <= x < aw && 0 <= y < ah implies #[trigger] atlas@[y * aw
            + x] == (start[y * aw + x] || cell_lit(*b, x0 as int, y0 as int, x, y)) by {
            if cell_lit(*b, x0 as int, y0 as int, x, y) {
                assert(y < y0 + b.h);
            }
        }
    }
}

/// Atlas pixel `(x, y)` is lit by one of the first `n` bitmaps in
/// packing order.
pub open spec fn atlas_lit(bs: Seq<Bitmap>, order: Seq<usize>, cells: Seq<(u32, u32)>, n: int, x: int, y: int) -> bool {
    exists|k: int|
        0 <= k < n && #[trigger] cell_lit(bs[order[k] as int], cells[k].0 as int, cells[k].1 as int, x, y)
}

/// Draws the packed bitmaps into a `aw` by `ah` atlas, one flag per
/// pixel, row-major.
pub fn render_atlas(bs: &Vec<Bitmap>, order: &Vec<usize>, cells: &Vec<(u32, u32)>, aw: u32, ah: u32) -> (r: Vec<bool>)
    requires
        aw * ah <= usize::MAX,
        cells.len() == order.len(),
        forall|k: int| 0 <= k < order.len() ==> #[trigger] order@[k] < bs.len(),
        forall|k: int|
            0 <= k < order.len() ==> {
                let b = bs@[#[trigger] order@[k] as int];
                &&& cells@[k].0 + b.w <= aw
                &&& cells@[k].1 + b.h <= ah
                &&& b.pixels.len() == b.w * b.h
            },
    ensures
        r.len() == aw * ah,
        forall|x: int, y: int|
            0 <= x < aw && 0 <= y < ah ==> #[trigger] r@[y * aw + x] == atlas_lit(
                bs@,
                order@,
                cells@,
                order.len() as int,
                x,
                y,
            ),
{
    let n = (aw as usize) * (ah as usize);
    let mut atlas: Vec<bool> = Vec::new();
    let mut i: usize = 0;
    while i < n
        invariant
            i <= n,
            n == aw * ah,
            atlas.len() == i,
            forall|j: int| 0 <= j < i ==> !#[trigger] atlas@[j],
        decreases n - i,
    {
        atlas.push(false);
        i = i + 1;
    }
    proof {
        assert forall|x: int, y: int| 0 <= x < aw && 0 <= y < ah implies #[trigger] atlas@[y * aw
            + x] == atlas_lit(bs@, order@, cells@, 0, x, y) by {
            assert(y * aw + x < aw * ah) by (nonlinear_arith)
                requires
                    0 <= y < ah,
                    0 <= x < aw,
            ;
        }
    }
    let mut k: usize = 0;
    while k < order.len()
        invariant
            k <= order.len(),
            cells.len() == order.len(),
            atlas.len() == aw * ah,
            forall|q: int| 0 <= q < order.len() ==> #[trigger] order@[q] < bs.len(),
            forall|q: int|
                0 <= q < order.len() ==> {
                    let b = bs@[#[trigger] order@[q] as int];
                    &&& cells@[q].0 + b.w <= aw
                    &&& cells@[q].1 + b.h <= ah
                    &&& b.pixels.len() == b.w * b.h
                },
            forall|x: int, y: int|
                0 <= x < aw && 0 <= y < ah ==> #[trigger] atlas@[y * aw + x] == atlas_lit(
                    bs@,
                    order@,
                    cells@,
                    k as int,
                    x,
                    y,
                ),
        decreases order.len() - k,
    {
        proof {
            assert forall|x: int, y: int| 0 <= x < aw && 0 <= y < ah implies #[trigger] atlas@[y
                * aw + x] == atlas_lit(bs@, order@, cells@, k as int, x, y) by {
            }
            assert(order@[k as int] < bs.len());
        }
        let (cx, cy) = cells[k];
        blit(&mut atlas, aw, ah, cx, cy, &bs[order[k]]);
        proof {
            assert forall|x: int, y: int| 0 <= x < aw && 0 <= y < ah implies #[trigger] atlas@[y
                * aw + x] == atlas_lit(bs@, order@, cells@, k + 1, x, y) by {
                if cell_lit(bs@[order@[k as int] as int], cx as int, cy as int, x, y) {
                    assert(cell_lit(
                        bs@[order@[k as int] as int],
                        cells@[k as int].0 as int,
                        cells@[k as int].1 as int,
                        x,
                        y,
                    ));
                }
                if atlas_lit(bs@, order@, cells@, k + 1, x, y) {
                    let q = choose|q: int|
                        0 <= q < k + 1 && #[trigger] cell_lit(
                            bs@[order@[q] as int],
                            cells@[q].0 as int,
                            cells@[q].1 as int,
                            x,
                            y,
                        );
                    if q < k {
                        assert(atlas_lit(bs@, order@, cells@, k as int, x, y));
                    }
                }
            }
        }
        k = k + 1;
    }
    proof {
        assert forall|x: int, y: int| 0 <= x < aw && 0 <= y < ah implies #[trigger] atlas@[y * aw
            + x] == atlas_lit(bs@, order@, cells@, order.len() as int, x, y) by {
        }
    }
    atlas
}


/// Bit `n - 1` (counting from the most significant) down to bit 0 of the
/// `j`-th byte of PNG row `y`: pixel `8j + k` of the row, padding off.
pub open spec fn byte_bits(mono: Seq<bool>, w: int, y: int, j: int, n: int) -> u8
    decreases n,
{
    if n <= 0 {
        0u8
    } else {
        let prev = byte_bits(mono, w, y, j, n - 1);
        let x = 8 * j + (n - 1);
        if x < w && mono[y * w + x] {
            prev | (0x80u8 >> ((n - 1) as u8))
        } else {
            prev
        }
    }
}

/// Bytes per PNG row of a 1-bit image `w` pixels wide.
pub open spec fn png_row_bytes(w: int) -> int {
    (w + 7) / 8
}

/// Packs a 1-bit image into PNG rows: one bit per pixel, most
/// significant bit first, each row padded to a whole byte.
pub fn pack_png_rows(mono: &Vec<bool>, w: u32, h: u32) -> (r: Vec<u8>)
    requires
        mono.len() == w * h,
    ensures
        r.len() == png_row_bytes(w as int) * h,
        forall|y: int, j: int|
            0 <= y < h && 0 <= j < png_row_bytes(w as int) ==> #[trigger] r@[y * png_row_bytes(
                w as int,
            ) + j] == byte_bits(mono@, w as int, y, j, 8),
{
    let bpr: u32 = w / 8 + (if w % 8 == 0 { 0 } else { 1 });
    proof {
        assert(bpr == png_row_bytes(w as int));
        assert(bpr * h <= w * h) by (nonlinear_arith)
            requires
                bpr <= w || h == 0 || w == 0,
                w == 0 ==> bpr == 0,
        {
        }
    }
    let mut out: Vec<u8> = Vec::new();
    let mut y: u32 = 0;
    while y < h
        invariant
            y <= h,
            bpr == png_row_bytes(w as int),
            bpr * h <= w * h,
            mono.len() == w * h,
            out.len() == y * bpr,
            forall|y2: int, j2: int|
                0 <= y2 < y && 0 <= j2 < bpr ==> #[trigger] out@[y2 * bpr + j2] == byte_bits(
                    mono@,
                    w as int,
                    y2,
                    j2,
                    8,
                ),
        decreases h - y,
    {
        let mut j: u32 = 0;
        while j < bpr
            invariant
                y < h,
                j <= bpr,
                bpr == png_row_bytes(w as int),
                bpr * h <= w * h,
                mono.len() == w * h,
                out.len() == y * bpr + j,
                forall|y2: int, j2: int|
                    0 <= y2 < y && 0 <= j2 < bpr ==> #[trigger] out@[y2 * bpr + j2] == byte_bits(
                        mono@,
                        w as int,
                        y2,
                        j2,
                        8,
                    ),
                forall|j2: int| 0 <= j2 < j ==> #[trigger] out@[y * bpr + j2] == byte_bits(
                    mono@,
                    w as int,
                    y as int,
                    j2,
                    8,
                ),
            decreases bpr - j,
        {
            let mut acc: u8 = 0;
            let mut b: u32 = 0;
            while b < 8
                invariant
                    y < h,
                    j < bpr,
                    b <= 8,
                    bpr == png_row_bytes(w as int),
                    mono.len() == w * h,
                    acc == byte_bits(mono@, w as int, y as int, j as int, b as int),
                decreases 8 - b,
            {
                let x: u64 = 8 * (j as u64) + (b as u64);
                if x < w as u64 {
                    proof {
                        assert((y as int) * (w as int) + (x as int) < (w as int) * (h as int)) by (nonlinear_arith)
                            requires
                                y < h,
                                x < w,
                        ;
                    }
                    let idx = (y as usize) * (w as usize) + (x as usize);
                    if mono[idx] {
                        acc = acc | (0x80u8 >> (b as u8));
                    }
                }
                b = b + 1;
            }
            let ghost before = out@;
            out.push(acc);
            proof {
                assert forall|y2: int, j2: int| 0 <= y2 < y && 0 <= j2 < bpr implies #[trigger] out@[y2
                    * bpr + j2] == byte_bits(mono@, w as int, y2, j2, 8) by {
                    assert(y2 * bpr + j2 < y * bpr) by (nonlinear_arith)
                        requires
                            y2 < y,
                            j2 < bpr,
                    ;
                    assert(out@[y2 * bpr + j2] == before[y2 * bpr + j2]);
                }
                assert forall|j2: int| 0 <= j2 < j + 1 implies #[trigger] out@[y * bpr + j2]
                    == byte_bits(mono@, w as int, y as int, j2, 8) by {
                    if j2 < j {
                        assert(out@[y * bpr + j2] == before[y * bpr + j2]);
                    }
                }
            }
            j = j + 1;
        }
        proof {
            assert((y + 1) * bpr == y * bpr + bpr) by (nonlinear_arith);
            assert forall|y2: int, j2: int| 0 <= y2 < y + 1 && 0 <= j2 < bpr implies #[trigger] out@[y2
                * bpr + j2] == byte_bits(mono@, w as int, y2, j2, 8) by {
                if y2 == y {
                    assert(out@[y * bpr + j2] == byte_bits(mono@, w as int, y as int, j2, 8));
                }
            }
            assert((y + 1) * bpr <= h * bpr) by (nonlinear_arith)
                requires
                    y < h,
            ;
        }
        y = y + 1;
    }
    proof {
        assert(h * bpr == bpr * h) by (nonlinear_arith);
    }
    out
}

/// Metadata text of one glyph: `"cp":{"w":..,"h":..,"advance":..,"ox":..,"oy":..,"x":..,"y":..}`.
pub open spec fn glyph_json(g: GlyphData) -> Seq<char> {
    glyph_json_head(g) + glyph_json_tail(g)
}

/// Codepoint and cell size of a glyph's metadata text.
pub open spec fn glyph_json_head(g: GlyphData) -> Seq<char> {
    seq!['"'] + decimal(g.cp as nat) + seq!['"', ':', '{', '"', 'w', '"', ':'] + decimal(g.w as nat)
        + seq![',', '"', 'h', '"', ':'] + decimal(g.h as nat)
}

/// Advance, offsets and cell position of a glyph's metadata text.
pub open spec fn glyph_json_tail(g: GlyphData) -> Seq<char> {
    seq![',', '"', 'a', 'd', 'v', 'a', 'n', 'c', 'e', '"', ':'] + signed_decimal(g.advance as int)
        + seq![',', '"', 'o', 'x', '"', ':'] + signed_decimal(g.ox as int) + seq![',', '"', 'o', 'y', '"', ':']
        + signed_decimal(g.oy as int) + seq![',', '"', 'x', '"', ':'] + signed_decimal(g.x as int)
        + seq![',', '"', 'y', '"', ':'] + signed_decimal(g.y as int) + seq!['}']
}

/// Glyph entries joined with commas.
pub open spec fn glyphs_json(gs: Seq<GlyphData>) -> Seq<char>
    decreases gs.len(),
{
    if gs.len() == 0 {
        seq![]
    } else if gs.len() == 1 {
        glyph_json(gs[0])
    } else {
        glyphs_json(gs.drop_last()) + seq![','] + glyph_json(gs.last())
    }
}

/// The font metadata: name, size 0, line metrics, atlas size, and the
/// glyph entries in the given order.
pub open spec fn metadata_json_spec(name: Seq<char>, atlas_w: u32, atlas_h: u32, line_height: i64, ascent: i32, gs: Seq<GlyphData>) -> Seq<char> {
    seq!['{', '"', 'n', 'a', 'm', 'e', '"', ':', '"']
        + name
        + seq!['"', ',', '"', 's', 'i', 'z', 'e', '"', ':', '0', ',']
        + seq!['"', 'l', 'i', 'n', 'e', '_', 'h', 'e', 'i', 'g', 'h', 't', '"', ':']
        + signed_decimal(line_height as int)
        + seq![',']
        + seq!['"', 'a', 's', 'c', 'e', 'n', 't', '"', ':']
        + signed_decimal(ascent as int)
        + seq![',']
        + seq!['"', 'a', 't', 'l', 'a', 's', '_', 'w', '"', ':']
        + decimal(atlas_w as nat)
        + seq![',']
        + seq!['"', 'a', 't', 'l', 'a', 's', '_', 'h', '"', ':']
        + decimal(atlas_h as nat)
        + seq![',']
        + seq!['"', 'g', 'l', 'y', 'p', 'h', 's', '"', ':', '{']
        + glyphs_json(gs) + seq!['}', '}']
}

/// Appends a literal.
fn push_lit(v: &mut Vec<char>, l: &str)
    ensures
        final(v)@ == old(v)@ + l@,
{
    push_all(v, chars_of(l).as_slice());
}

/// Appends the codepoint and cell size of a glyph's metadata text.
fn push_glyph_json_head(v: &mut Vec<char>, g: GlyphData)
    ensures
        final(v)@ == old(v)@ + glyph_json_head(g),
{
    let ghost start = v@;
    let cp = decimal_exec(g.cp as u64);
    let w = decimal_exec(g.w as u64);
    let h = decimal_exec(g.h as u64);
    push_lit(v, "\"");
    push_all(v, cp.as_slice());
    push_lit(v, "\":{\"w\":");
    push_all(v, w.as_slice());
    push_lit(v, ",\"h\":");
    push_all(v, h.as_slice());
    proof {
        reveal_strlit("\"");
        reveal_strlit("\":{\"w\":");
        reveal_strlit(",\"h\":");
        assert("\""@ =~= seq!['"']);
        assert("\":{\"w\":"@ =~= seq!['"', ':', '{', '"', 'w', '"', ':']);
        assert(",\"h\":"@ =~= seq![',', '"', 'h', '"', ':']);
        assert(v@ =~= start + glyph_json_head(g));
    }
}

/// Appends the advance, offsets and cell position of a glyph's
/// metadata text.
fn push_glyph_json_tail(v: &mut Vec<char>, g: GlyphData)
    ensures
        final(v)@ == old(v)@ + glyph_json_tail(g),
{
    let ghost start = v@;
    let adv = signed_decimal_exec(g.advance as i64);
    let ox = signed_decimal_exec(g.ox as i64);
    let oy = signed_decimal_exec(g.oy as i64);
    let x = signed_decimal_exec(g.x as i64);
    let y = signed_decimal_exec(g.y as i64);
    push_lit(v, ",\"advance\":");
    push_all(v, adv.as_slice());
    push_lit(v, ",\"ox\":");
    push_all(v, ox.as_slice());
    push_lit(v, ",\"oy\":");
    push_all(v, oy.as_slice());
    push_lit(v, ",\"x\":");
    push_all(v, x.as_slice());
    push_lit(v, ",\"y\":");
    push_all(v, y.as_slice());
    push_lit(v, "}");
    proof {
        reveal_strlit(",\"advance\":");
        reveal_strlit(",\"ox\":");
        reveal_strlit(",\"oy\":");
        reveal_strlit(",\"x\":");
        reveal_strlit(",\"y\":");
        reveal_strlit("}");
        assert(",\"advance\":"@ =~= seq![',', '"', 'a', 'd', 'v', 'a', 'n', 'c', 'e', '"', ':']);
        assert(",\"ox\":"@ =~= seq![',', '"', 'o', 'x', '"', ':']);
        assert(",\"oy\":"@ =~= seq![',', '"', 'o', 'y', '"', ':']);
        assert(",\"x\":"@ =~= seq![',', '"', 'x', '"', ':']);
        assert(",\"y\":"@ =~= seq![',', '"', 'y', '"', ':']);
        assert("}"@ =~= seq!['}']);
        assert(v@ =~= start + glyph_json_tail(g));
    }
}

/// Appends the metadata text of one glyph.
fn push_glyph_json(v: &mut Vec<char>, g: GlyphData)
    ensures
        final(v)@ == old(v)@ + glyph_json(g),
{
    let ghost start = v@;
    push_glyph_json_head(v, g);
    push_glyph_json_tail(v, g);
    proof {
        assert(v@ =~= start + glyph_json(g));
    }
}

/// The glyphs in cp order.
pub open spec fn cp_keys(gs: Seq<GlyphData>) -> Seq<u64> {
    Seq::new(gs.len(), |i: int| gs[i].cp as u64)
}

/// The glyphs listed in the given order.
pub open spec fn reorder(gs: Seq<GlyphData>, order: Seq<usize>) -> Seq<GlyphData> {
    Seq::new(order.len(), |k: int| gs[order[k] as int])
}

/// The font metadata text, glyphs sorted by codepoint.
pub fn build_metadata_json(
    name: &str,
    atlas_w: u32,
    atlas_h: u32,
    line_height: i64,
    ascent: i32,
    glyphs: &Vec<GlyphData>,
) -> (r: String)
    ensures
        exists|order: Seq<usize>|
            is_stable_order(cp_keys(glyphs@), order) && r@ == metadata_json_spec(
                name@,
                atlas_w,
                atlas_h,
                line_height,
                ascent,
                reorder(glyphs@, order),
            ),
{
    let mut keys: Vec<u64> = Vec::new();
    let mut i: usize = 0;
    while i < glyphs.len()
        invariant
            i <= glyphs.len(),
            keys@ =~= cp_keys(glyphs@).subrange(0, i as int),
        decreases glyphs.len() - i,
    {
        keys.push(glyphs[i].cp as u64);
        i = i + 1;
    }
    proof {
        assert(keys@ =~= cp_keys(glyphs@));
    }
    let order = stable_order(&keys);
    let ghost sorted = reorder(glyphs@, order@);
    let mut v: Vec<char> = Vec::new();
    push_all(&mut v, chars_of("{\"name\":\"").as_slice());
    push_all(&mut v, chars_of(name).as_slice());
    push_all(&mut v, chars_of("\",\"size\":0,").as_slice());
    push_all(&mut v, chars_of("\"line_height\":").as_slice());
    push_all(&mut v, signed_decimal_exec(line_height as i64).as_slice());
    push_all(&mut v, chars_of(",").as_slice());
    push_all(&mut v, chars_of("\"ascent\":").as_slice());
    push_all(&mut v, signed_decimal_exec(ascent as i64).as_slice());
    push_all(&mut v, chars_of(",").as_slice());
    push_all(&mut v, chars_of("\"atlas_w\":").as_slice());
    push_all(&mut v, decimal_exec(atlas_w as u64).as_slice());
    push_all(&mut v, chars_of(",").as_slice());
    push_all(&mut v, chars_of("\"atlas_h\":").as_slice());
    push_all(&mut v, decimal_exec(atlas_h as u64).as_slice());
    push_all(&mut v, chars_of(",").as_slice());
    push_all(&mut v, chars_of("\"glyphs\":{").as_slice());
    let ghost head = v@;
    let mut k: usize = 0;
    while k < order.len()
        invariant
            k <= order.len(),
            order.len() == glyphs.len(),
            forall|q: int| 0 <= q < order.len() ==> #[trigger] order@[q] < glyphs.len(),
            sorted == reorder(glyphs@, order@),
            v@ == head + glyphs_json(sorted.subrange(0, k as int)),
        decreases order.len() - k,
    {
        let ghost before = v@;
        if k > 0 {
            v.push(',');
        }
        push_glyph_json(&mut v, glyphs[order[k]]);
        proof {
            let s = sorted.subrange(0, k + 1);
            assert(s.drop_last() =~= sorted.subrange(0, k as int));
            assert(s.last() == glyphs@[order@[k as int] as int]);
            if k == 0 {
                assert(sorted.subrange(0, 0).len() == 0);
                assert(v@ =~= head + glyphs_json(s));
            } else {
                assert(v@ =~= head + glyphs_json(s));
            }
        }
        k = k + 1;
    }
    v.push('}');
    v.push('}');
    proof {
        reveal_strlit("\",\"size\":0,");
        reveal_strlit("\"ascent\":");
        reveal_strlit("\"atlas_h\":");
        reveal_strlit("\"atlas_w\":");
        reveal_strlit("\"glyphs\":{");
        reveal_strlit("\"line_height\":");
        reveal_strlit(",");
        reveal_strlit("{\"name\":\"");
        assert("\",\"size\":0,"@ =~= seq!['"', ',', '"', 's', 'i', 'z', 'e', '"', ':', '0', ',']);
        assert("\"ascent\":"@ =~= seq!['"', 'a', 's', 'c', 'e', 'n', 't', '"', ':']);
        assert("\"atlas_h\":"@ =~= seq!['"', 'a', 't', 'l', 'a', 's', '_', 'h', '"', ':']);
        assert("\"atlas_w\":"@ =~= seq!['"', 'a', 't', 'l', 'a', 's', '_', 'w', '"', ':']);
        assert("\"glyphs\":{"@ =~= seq!['"', 'g', 'l', 'y', 'p', 'h', 's', '"', ':', '{']);
        assert("\"line_height\":"@ =~= seq!['"', 'l', 'i', 'n', 'e', '_', 'h', 'e', 'i', 'g', 'h', 't', '"', ':']);
        assert(","@ =~= seq![',']);
        assert("{\"name\":\""@ =~= seq!['{', '"', 'n', 'a', 'm', 'e', '"', ':', '"']);
        assert(sorted.subrange(0, order.len() as int) =~= sorted);
        assert(v@ =~= metadata_json_spec(name@, atlas_w, atlas_h, line_height, ascent, sorted));
    }
    string_of(v.as_slice())
}


/// Rank-order sort keys of the lit rasters: taller first.
pub open spec fn lit_height_keys(rs: Seq<(u32, Raster)>) -> Seq<u64> {
    let lit = lit_positions(rs, rs.len() as int);
    Seq::new(lit.len(), |j: int| (0xFFFF_FFFFu64 - (rs[lit[j]].1.rows as u32)) as u64)
}

/// Widths of the lit rasters in packing order.
pub open spec fn lit_ws(rs: Seq<(u32, Raster)>, order: Seq<usize>) -> Seq<u32> {
    let lit = lit_positions(rs, rs.len() as int);
    Seq::new(order.len(), |k: int| rs[lit[order[k] as int]].1.width as u32)
}

/// Heights of the lit rasters in packing order.
pub open spec fn lit_hs(rs: Seq<(u32, Raster)>, order: Seq<usize>) -> Seq<u32> {
    let lit = lit_positions(rs, rs.len() as int);
    Seq::new(order.len(), |k: int| rs[lit[order[k] as int]].1.rows as u32)
}

/// Atlas pixel `(x, y)` is lit by the `k`-th raster in packing order.
pub open spec fn raster_cell_lit(rs: Seq<(u32, Raster)>, order: Seq<usize>, k: int, x: int, y: int) -> bool {
    let r = rs[lit_positions(rs, rs.len() as int)[order[k] as int]].1;
    let p = placement(lit_ws(rs, order), lit_hs(rs, order), k);
    &&& p.0 <= x < p.0 + r.width
    &&& p.1 <= y < p.1 + r.rows
    &&& mono_pixel(r.buffer@, r.pitch as int, r.rows as int, y - p.1, x - p.0)
}

/// Ascent in pixels from the 26.6 ascender.
pub open spec fn ascent_px(asc: i64) -> i32 {
    (asc >> 6) as i32
}

/// Descent in pixels from the 26.6 descender (negative below the
/// baseline).
pub open spec fn descent_px(desc: i64) -> i32 {
    ((if desc == i64::MIN {
        i64::MIN
    } else {
        (-desc) as i64
    }) >> 6) as i32
}

/// A baked font: the glyph entries, where each bitmap went, the 1-bit
/// atlas and its PNG rows, and the metadata text.
pub struct Baked {
    pub glyphs: Vec<GlyphData>,
    pub order: Vec<usize>,
    pub atlas_w: u32,
    pub atlas_h: u32,
    pub atlas: Vec<bool>,
    pub rows: Vec<u8>,
    pub line_height: i64,
    pub ascent: i32,
    pub metadata: String,
}

proof fn lemma_lit_positions(rs: Seq<(u32, Raster)>, n: int)
    requires
        0 <= n <= rs.len(),
    ensures
        lit_positions(rs, n).len() <= n,
        forall|j: int|
            0 <= j < lit_positions(rs, n).len() ==> {
                let i = #[trigger] lit_positions(rs, n)[j];
                &&& 0 <= i < n
                &&& rs[i].1.width != 0
                &&& rs[i].1.rows != 0
                &&& raster_lit(rs[i].1)
            },
        forall|a: int, b: int|
            0 <= a < b < lit_positions(rs, n).len() ==> #[trigger] lit_positions(rs, n)[a]
                < #[trigger] lit_positions(rs, n)[b],
        forall|i: int|
            0 <= i < n && rs[i].1.width != 0 && rs[i].1.rows != 0 && raster_lit(rs[i].1) ==> exists|j: int|
                0 <= j < lit_positions(rs, n).len() && #[trigger] lit_positions(rs, n)[j] == i,
    decreases n,
{
    if n > 0 {
        lemma_lit_positions(rs, n - 1);
        let prev = lit_positions(rs, n - 1);
        let cur = lit_positions(rs, n);
        if rs[n - 1].1.width != 0 && rs[n - 1].1.rows != 0 && raster_lit(rs[n - 1].1) {
            assert(cur == prev.push(n - 1));
            assert forall|i: int|
                0 <= i < n && rs[i].1.width != 0 && rs[i].1.rows != 0 && raster_lit(rs[i].1) implies exists|j: int|
                0 <= j < cur.len() && #[trigger] cur[j] == i by {
                if i < n - 1 {
                    let j = choose|j: int| 0 <= j < prev.len() && #[trigger] prev[j] == i;
                    assert(cur[j] == i);
                } else {
                    assert(cur[prev.len() as int] == i);
                }
            }
        } else {
            assert(cur == prev);
        }
    }
}

/// The glyph entries: each lit raster's entry moved to its cell, every
/// other entry as rasterized.
#[verifier::opaque]
pub open spec fn entries_ok(rs: Seq<(u32, Raster)>, ascent: i32, order: Seq<usize>, glyphs: Seq<GlyphData>) -> bool {
    let lit = lit_positions(rs, rs.len() as int);
    &&& glyphs.len() == rs.len()
    &&& forall|k: int|
        0 <= k < order.len() ==> {
            let i = lit[#[trigger] order[k] as int];
            let p = placement(lit_ws(rs, order), lit_hs(rs, order), k);
            glyphs[i] == at_cell(glyph_spec(rs[i].0, rs[i].1, ascent), (p.0 as u32, p.1 as u32))
        }
    &&& forall|i: int|
        0 <= i < rs.len() && !(rs[i].1.width != 0 && rs[i].1.rows != 0 && raster_lit(rs[i].1))
            ==> #[trigger] glyphs[i] == glyph_spec(rs[i].0, rs[i].1, ascent)
}

/// The packing: some glyph is lit, the lit rasters go tallest first
/// (stable), and the atlas has the packer's size.
#[verifier::opaque]
pub open spec fn packed_ok(rs: Seq<(u32, Raster)>, order: Seq<usize>, aw: u32, ah: u32) -> bool {
    &&& lit_positions(rs, rs.len() as int).len() > 0
    &&& is_stable_order(lit_height_keys(rs), order)
    &&& aw == atlas_width(lit_ws(rs, order), lit_hs(rs, order))
    &&& ah == atlas_height(lit_ws(rs, order), lit_hs(rs, order))
}

/// The atlas: a pixel is lit exactly where some packed raster is lit.
#[verifier::opaque]
pub open spec fn atlas_ok(rs: Seq<(u32, Raster)>, order: Seq<usize>, aw: u32, ah: u32, atlas: Seq<bool>) -> bool {
    &&& atlas.len() == aw * ah
    &&& forall|x: int, y: int|
        0 <= x < aw && 0 <= y < ah ==> #[trigger] atlas[y * aw + x] == exists|k: int|
            0 <= k < order.len() && #[trigger] raster_cell_lit(rs, order, k, x, y)
}

/// The PNG rows of the atlas.
#[verifier::opaque]
pub open spec fn rows_ok(atlas: Seq<bool>, aw: u32, ah: u32, rows: Seq<u8>) -> bool {
    &&& rows.len() == png_row_bytes(aw as int) * ah
    &&& forall|y: int, j: int|
        0 <= y < ah && 0 <= j < png_row_bytes(aw as int) ==> #[trigger] rows[y * png_row_bytes(
            aw as int,
        ) + j] == byte_bits(atlas, aw as int, y, j, 8)
}

/// The metadata text of the entries, sorted by codepoint.
#[verifier::opaque]
pub open spec fn metadata_ok(
    name: Seq<char>,
    aw: u32,
    ah: u32,
    line_height: i64,
    ascent: i32,
    glyphs: Seq<GlyphData>,
    text: Seq<char>,
) -> bool {
    exists|order: Seq<usize>|
        is_stable_order(cp_keys(glyphs), order) && text == metadata_json_spec(
            name,
            aw,
            ah,
            line_height,
            ascent,
            reorder(glyphs, order),
        )
}

/// The bitmaps are those of the lit rasters, in raster order.
#[verifier::opaque]
pub open spec fn bitmaps_match(rs: Seq<(u32, Raster)>, bs: Seq<Bitmap>) -> bool {
    let lit = lit_positions(rs, rs.len() as int);
    &&& bs.len() == lit.len()
    &&& forall|j: int|
        0 <= j < bs.len() ==> {
            let i = lit[j];
            let b = #[trigger] bs[j];
            &&& b.glyph == i
            &&& b.w == rs[i].1.width
            &&& b.h == rs[i].1.rows
            &&& b.pixels.len() == b.w * b.h
            &&& forall|row: int, col: int|
                0 <= row < b.h && 0 <= col < b.w ==> #[trigger] b.pixels@[row * b.w + col]
                    == mono_pixel(rs[i].1.buffer@, rs[i].1.pitch as int, rs[i].1.rows as int, row, col)
        }
}

/// Glyph entries and packing of the rasters.
fn layout_pack(rs: &Vec<(u32, Raster)>, ascent: i32) -> (r: Result<(Vec<GlyphData>, Vec<Bitmap>, Packing), String>)
    requires
        rs.len() <= MAX_GLYPH_SIDE,
    ensures
        match r {
            Ok((gs, bs, p)) => {
                &&& no_bad(rs@)
                &&& entries_ok(rs@, ascent, p.order@, gs@)
                &&& packed_ok(rs@, p.order@, p.atlas_w, p.atlas_h)
                &&& bitmaps_match(rs@, bs@)
                &&& p.atlas_w <= ATLAS_MAX_WIDTH + MAX_GLYPH_SIDE
                &&& p.atlas_h <= MAX_GLYPH_SIDE * MAX_GLYPH_SIDE
                &&& p.cells.len() == p.order.len()
                &&& forall|k: int| 0 <= k < p.order.len() ==> #[trigger] p.order@[k] < bs.len()
                &&& forall|k: int|
                    0 <= k < p.order.len() ==> {
                        let q = placement(lit_ws(rs@, p.order@), lit_hs(rs@, p.order@), k);
                        &&& (#[trigger] p.cells@[k]).0 == q.0
                        &&& p.cells@[k].1 == q.1
                        &&& q.0 + bs@[p.order@[k] as int].w <= p.atlas_w
                        &&& q.1 + bs@[p.order@[k] as int].h <= p.atlas_h
                        &&& bs@[p.order@[k] as int].pixels.len() == bs@[p.order@[k] as int].w * bs@[p.order@[k] as int].h
                    }
            },
            Err(e) => {
                ||| exists|i: int| #[trigger] is_first_bad(rs@, i) && e@ == glyph_error_text(rs@[i].0)
                ||| no_bad(rs@) && lit_positions(rs@, rs.len() as int).len() == 0 && e@ == no_glyphs_text()
            },
        },
{
    let (mut glyphs, bitmaps) = match extract_glyphs(rs, ascent) {
        Ok(x) => x,
        Err(e) => return Err(e),
    };
    if bitmaps.len() == 0 {
        return Err(no_glyphs_error());
    }
    let ghost lit = lit_positions(rs@, rs.len() as int);
    let ghost gs0 = glyphs@;
    proof {
        lemma_lit_positions(rs@, rs.len() as int);
        assert forall|j: int| 0 <= j < bitmaps.len() implies {
            &&& 1 <= (#[trigger] bitmaps@[j]).w <= MAX_GLYPH_SIDE
            &&& 1 <= bitmaps@[j].h <= MAX_GLYPH_SIDE
            &&& bitmaps@[j].glyph < glyphs.len()
            &&& bitmaps@[j].pixels.len() == bitmaps@[j].w * bitmaps@[j].h
        } by {
            assert(raster_ok(rs@[lit[j]].1));
        }
        assert(bitmaps_ok(glyphs@, bitmaps@));
        assert(height_keys(bitmaps@) =~= lit_height_keys(rs@));
        reveal(bitmaps_match);
    }
    let packing = pack_glyphs(&mut glyphs, &bitmaps);
    proof {
        let ws = lit_ws(rs@, packing.order@);
        let hs = lit_hs(rs@, packing.order@);
        assert(ordered_ws(bitmaps@, packing.order@) =~= ws);
        assert(ordered_hs(bitmaps@, packing.order@) =~= hs);
        assert forall|k: int| 0 <= k < packing.order.len() implies 1 <= #[trigger] ws[k]
            <= MAX_GLYPH_SIDE && 1 <= hs[k] <= MAX_GLYPH_SIDE by {
            assert(bitmaps@[packing.order@[k] as int].w == ws[k]);
        }
        lemma_packing_is_disjoint(ws, hs);
        lemma_pack_inv(ws, hs, ws.len() as int);
        assert(ws.len() * MAX_GLYPH_SIDE <= MAX_GLYPH_SIDE * MAX_GLYPH_SIDE) by (nonlinear_arith)
            requires
                ws.len() <= MAX_GLYPH_SIDE,
        ;
        reveal(packed_ok);
        reveal(entries_ok);
        assert forall|i: int|
            0 <= i < rs.len() && !(rs@[i].1.width != 0 && rs@[i].1.rows != 0 && raster_lit(rs@[i].1))
                implies #[trigger] glyphs@[i] == glyph_spec(rs@[i].0, rs@[i].1, ascent) by {
            assert forall|j: int| 0 <= j < bitmaps.len() implies #[trigger] bitmaps@[j].glyph != i by {
                assert(bitmaps@[j].glyph == lit[j]);
            }
        }
        assert forall|k: int| 0 <= k < packing.cells.len() implies {
            let q = placement(ws, hs, k);
            &&& (#[trigger] packing.cells@[k]).0 == q.0
            &&& packing.cells@[k].1 == q.1
            &&& q.0 + bitmaps@[packing.order@[k] as int].w <= packing.atlas_w
            &&& q.1 + bitmaps@[packing.order@[k] as int].h <= packing.atlas_h
            &&& bitmaps@[packing.order@[k] as int].pixels.len() == bitmaps@[packing.order@[k] as int].w * bitmaps@[packing.order@[k] as int].h
        } by {
            assert(ws[k] == bitmaps@[packing.order@[k] as int].w);
            assert(hs[k] == bitmaps@[packing.order@[k] as int].h);
            let _ = placement(ws, hs, k);
        }
        assert forall|k: int| 0 <= k < packing.order.len() implies {
            let i = lit[#[trigger] packing.order@[k] as int];
            let p = placement(ws, hs, k);
            glyphs@[i] == at_cell(glyph_spec(rs@[i].0, rs@[i].1, ascent), (p.0 as u32, p.1 as u32))
        } by {
            let j = packing.order@[k] as int;
            assert(bitmaps@[j].glyph == lit[j]);
            assert(packing.cells@[k].0 == placement(ws, hs, k).0);
        }
    }
    Ok((glyphs, bitmaps, packing))
}

/// Draws the atlas of a packing.
fn layout_atlas(rs: &Vec<(u32, Raster)>, bs: &Vec<Bitmap>, p: &Packing) -> (r: Vec<bool>)
    requires
        p.atlas_w * p.atlas_h <= usize::MAX,
        bitmaps_match(rs@, bs@),
        p.cells.len() == p.order.len(),
        forall|k: int| 0 <= k < p.order.len() ==> #[trigger] p.order@[k] < bs.len(),
        forall|k: int|
            0 <= k < p.order.len() ==> {
                let q = placement(lit_ws(rs@, p.order@), lit_hs(rs@, p.order@), k);
                &&& (#[trigger] p.cells@[k]).0 == q.0
                &&& p.cells@[k].1 == q.1
                &&& q.0 + bs@[p.order@[k] as int].w <= p.atlas_w
                &&& q.1 + bs@[p.order@[k] as int].h <= p.atlas_h
                &&& bs@[p.order@[k] as int].pixels.len() == bs@[p.order@[k] as int].w * bs@[p.order@[k] as int].h
            },
    ensures
        atlas_ok(rs@, p.order@, p.atlas_w, p.atlas_h, r@),
{
    let atlas = render_atlas(bs, &p.order, &p.cells, p.atlas_w, p.atlas_h);
    proof {
        reveal(atlas_ok);
        reveal(bitmaps_match);
        let lit = lit_positions(rs@, rs.len() as int);
        assert forall|x: int, y: int|
            0 <= x < p.atlas_w && 0 <= y < p.atlas_h implies #[trigger] atlas@[y * p.atlas_w + x] == exists|k: int|
                0 <= k < p.order.len() && #[trigger] raster_cell_lit(rs@, p.order@, k, x, y) by {
            assert forall|k: int| 0 <= k < p.order.len() implies #[trigger] cell_lit(
                bs@[p.order@[k] as int],
                p.cells@[k].0 as int,
                p.cells@[k].1 as int,
                x,
                y,
            ) == raster_cell_lit(rs@, p.order@, k, x, y) by {
                let j = p.order@[k] as int;
                let b = bs@[j];
                let cx = p.cells@[k].0 as int;
                let cy = p.cells@[k].1 as int;
                if cx <= x < cx + b.w && cy <= y < cy + b.h {
                    assert(b.pixels@[(y - cy) * b.w + (x - cx)] == mono_pixel(
                        rs@[lit[j]].1.buffer@,
                        rs@[lit[j]].1.pitch as int,
                        rs@[lit[j]].1.rows as int,
                        y - cy,
                        x - cx,
                    ));
                }
            }
            if atlas@[y * p.atlas_w + x] {
                let k = choose|k: int|
                    0 <= k < p.order.len() && #[trigger] cell_lit(
                        bs@[p.order@[k] as int],
                        p.cells@[k].0 as int,
                        p.cells@[k].1 as int,
                        x,
                        y,
                    );
                assert(raster_cell_lit(rs@, p.order@, k, x, y));
            }
            if exists|k: int| 0 <= k < p.order.len() && #[trigger] raster_cell_lit(rs@, p.order@, k, x, y) {
                let k = choose|k: int| 0 <= k < p.order.len() && #[trigger] raster_cell_lit(rs@, p.order@, k, x, y);
                assert(cell_lit(bs@[p.order@[k] as int], p.cells@[k].0 as int, p.cells@[k].1 as int, x, y));
            }
        }
    }
    atlas
}

/// Lays the rasterized glyphs out: metadata entries, bitmaps packed
/// tallest first into shelves at most `ATLAS_MAX_WIDTH` wide, the atlas
/// drawn and packed into PNG rows, and the metadata text with the
/// glyphs sorted by codepoint. Fails, in this order, when a drawn bitmap
/// is malformed, when no glyph has a lit pixel, or when the atlas would
/// not fit in memory (`layout_outcome`). At most `MAX_GLYPH_SIDE`
/// glyphs: the atlas height, a sum of shelf heights, stays a `u32`.
pub fn layout_font(rs: &Vec<(u32, Raster)>, asc: i64, desc: i64, name: &str) -> (r: Result<Baked, String>)
    requires
        rs.len() <= MAX_GLYPH_SIDE,
    ensures
        layout_outcome(rs@, asc, desc, name@, r),
{
    let ascent = (asc >> 6) as i32;
    let nd: i64 = if desc == i64::MIN {
        i64::MIN
    } else {
        -desc
    };
    let descent = (nd >> 6) as i32;
    let line_height = ascent as i64 + descent as i64;
    let (glyphs, bitmaps, packing) = match layout_pack(rs, ascent) {
        Ok(x) => x,
        Err(e) => return Err(e),
    };
    proof {
        assert((packing.atlas_w as int) * (packing.atlas_h as int) <= 0x2_0000 * 0x1_0000_0000) by (nonlinear_arith)
            requires
                packing.atlas_w <= 0x2_0000,
                packing.atlas_h <= 0x1_0000_0000,
        ;
    }
    if (packing.atlas_w as u64) * (packing.atlas_h as u64) > usize::MAX as u64 {
        proof {
            reveal(packed_ok);
            let ws = lit_ws(rs@, packing.order@);
            let hs = lit_hs(rs@, packing.order@);
            assert(is_stable_order(lit_height_keys(rs@), packing.order@));
            assert(atlas_width(ws, hs) * atlas_height(ws, hs) > usize::MAX);
        }
        let e = atlas_size_error();
        proof {
            assert(atlas_oversized(rs@, packing.order@));
        }
        return Err(e);
    }
    proof {
        reveal(packed_ok);
        assert forall|order: Seq<usize>| !#[trigger] atlas_oversized(rs@, order) by {
            if is_stable_order(lit_height_keys(rs@), order) {
                lemma_stable_order_unique(lit_height_keys(rs@), order, packing.order@);
            }
        }
    }
    proof {
        lemma_atlas_width_bound(lit_ws(rs@, packing.order@), lit_hs(rs@, packing.order@));
    }
    let atlas = layout_atlas(rs, &bitmaps, &packing);
    proof {
        reveal(atlas_ok);
    }
    let rows = pack_png_rows(&atlas, packing.atlas_w, packing.atlas_h);
    proof {
        reveal(rows_ok);
    }
    let metadata = build_metadata_json(name, packing.atlas_w, packing.atlas_h, line_height, ascent, &glyphs);
    proof {
        reveal(metadata_ok);
    }
    Ok(Baked {
        glyphs,
        order: packing.order,
        atlas_w: packing.atlas_w,
        atlas_h: packing.atlas_h,
        atlas,
        rows,
        line_height,
        ascent,
        metadata,
    })
}

/// The message when the atlas would not fit in memory.
pub open spec fn atlas_size_text() -> Seq<char> {
    seq!['a', 't', 'l', 'a', 's', ' ', 't', 'o', 'o', ' ', 'l', 'a', 'r', 'g', 'e']
}

fn atlas_size_error() -> (r: String)
    ensures
        r@ == atlas_size_text(),
{
    let v = chars_of("atlas too large");
    proof {
        reveal_strlit("atlas too large");
        assert(v@ =~= atlas_size_text());
    }
    string_of(v.as_slice())
}

/// The message when no glyph has a lit pixel.
pub open spec fn no_glyphs_text() -> Seq<char> {
    seq!['f', 'o', 'n', 't', ' ', 'p', 'r', 'o', 'd', 'u', 'c', 'e', 'd', ' ', 'n', 'o', ' ', 'g', 'l', 'y', 'p', 'h', 's']
}

fn no_glyphs_error() -> (r: String)
    ensures
        r@ == no_glyphs_text(),
{
    let v = chars_of("font produced no glyphs");
    proof {
        reveal_strlit("font produced no glyphs");
        assert(v@ =~= no_glyphs_text());
    }
    string_of(v.as_slice())
}


/// The layout of a bake: what `layout_font` promises of its result.
pub open spec fn laid_out(rs: Seq<(u32, Raster)>, asc: i64, desc: i64, name: Seq<char>, b: Baked) -> bool {
    &&& b.ascent == ascent_px(asc)
    &&& b.line_height == ascent_px(asc) + descent_px(desc)
    &&& packed_ok(rs, b.order@, b.atlas_w, b.atlas_h)
    &&& entries_ok(rs, b.ascent, b.order@, b.glyphs@)
    &&& atlas_ok(rs, b.order@, b.atlas_w, b.atlas_h, b.atlas@)
    &&& rows_ok(b.atlas@, b.atlas_w, b.atlas_h, b.rows@)
    &&& metadata_ok(name, b.atlas_w, b.atlas_h, b.line_height, b.ascent, b.glyphs@, b.metadata@)
}

/// The atlas of the lit rasters packed in `order` (a stable
/// tallest-first order) would not fit in memory.
pub open spec fn atlas_oversized(rs: Seq<(u32, Raster)>, order: Seq<usize>) -> bool {
    &&& is_stable_order(lit_height_keys(rs), order)
    &&& atlas_width(lit_ws(rs, order), lit_hs(rs, order)) * atlas_height(lit_ws(rs, order), lit_hs(rs, order))
        > usize::MAX
}

/// `e` is the message a layout of `rs` fails with: the first malformed
/// bitmap's, else the empty font's, else the oversized atlas's.
pub open spec fn layout_error_is(rs: Seq<(u32, Raster)>, e: Seq<char>) -> bool {
    ||| exists|i: int| #[trigger] is_first_bad(rs, i) && e == glyph_error_text(rs[i].0)
    ||| no_bad(rs) && lit_positions(rs, rs.len() as int).len() == 0 && e == no_glyphs_text()
    ||| no_bad(rs) && lit_positions(rs, rs.len() as int).len() > 0 && e == atlas_size_text()
        && exists|order: Seq<usize>| #[trigger] atlas_oversized(rs, order)
}

/// The outcome of laying out `rs`: the layout, or its failure's message.
pub open spec fn layout_outcome(rs: Seq<(u32, Raster)>, asc: i64, desc: i64, name: Seq<char>, r: Result<Baked, String>) -> bool {
    match r {
        Ok(b) => {
            &&& no_bad(rs)
            &&& lit_positions(rs, rs.len() as int).len() > 0
            &&& b.atlas_w <= width_bound(lit_ws(rs, b.order@))
            &&& forall|order: Seq<usize>| !#[trigger] atlas_oversized(rs, order)
            &&& laid_out(rs, asc, desc, name, b)
        },
        Err(e) => layout_error_is(rs, e@),
    }
}

/// The font's name in the metadata: the output file's stem, `font`
/// when it has none.
pub open spec fn bake_name(out_path: Seq<char>) -> Seq<char> {
    match file_stem_of(out_path) {
        Some(s) => s,
        None => seq!['f', 'o', 'n', 't'],
    }
}

proof fn lemma_codepoint_count(include_cjk: bool)
    ensures
        ranges_points(bake_ranges(include_cjk)).len() <= 22494,
{
    reveal_with_fuel(ranges_points, 13);
    if include_cjk {
        assert(bake_ranges(true).drop_last() =~= base_ranges());
    }
}

/// `msg` prefixed with `prefix`.
fn prefixed(prefix: &str, msg: &str) -> (r: String)
    ensures
        r@ == prefix@ + msg@,
{
    crate::text::concat2(prefix, msg)
}

/// The message of a glyph load of `cp` that failed with `x`.
pub open spec fn load_char_text(cp: u32, x: Seq<char>) -> Seq<char> {
    "load_char U+"@ + hex_digits(cp as nat, 4) + ": "@ + x
}

/// The message when the face has no size after sizing.
pub open spec fn no_metrics_text() -> Seq<char> {
    "font has no size metrics after set_pixel_sizes"@
}

/// Why opening `font` (named `label` in messages) at `size` pixels
/// fails, step by step: the face, the size, the size metrics; `None`
/// when all three succeed.
pub open spec fn ft_open_error(font: Seq<u8>, size: u32, label: Seq<char>) -> Option<Seq<char>> {
    match ft_face_error_of(font) {
        Some(x) => Some("loading "@ + label + ": "@ + x),
        None => match ft_set_pixel_sizes_of(font, size) {
            Some(x) => Some("set_pixel_sizes("@ + decimal(size as nat) + "): "@ + x),
            None => match ft_size_metrics_of(font, size) {
                Some(_) => None,
                None => Some(no_metrics_text()),
            },
        },
    }
}

/// What FreeType gives for the first `n` of the codepoints `cps`: those
/// the font's charmap covers, each with its rendered glyph, in order; or
/// the message of the first glyph load that fails.
pub open spec fn ft_rasters(font: Seq<u8>, size: u32, cps: Seq<u32>, n: int) -> Result<
    Seq<(u32, RasterView)>,
    Seq<char>,
>
    decreases n,
{
    if n <= 0 {
        Ok(seq![])
    } else {
        match ft_rasters(font, size, cps, n - 1) {
            Err(e) => Err(e),
            Ok(prev) => {
                let cp = cps[n - 1];
                if ft_char_index_of(font, cp) is None {
                    Ok(prev)
                } else {
                    match ft_glyph_of(font, size, cp, MONO_RENDER_FLAGS) {
                        Ok(g) => Ok(prev.push((cp, g))),
                        Err(x) => Err(load_char_text(cp, x)),
                    }
                }
            },
        }
    }
}

/// Rasters as plain values.
pub open spec fn rasters_view(rs: Seq<(u32, Raster)>) -> Seq<(u32, RasterView)> {
    rs.map_values(|p: (u32, Raster)| (p.0, p.1@))
}

/// The outcome of a bake once FreeType is initialized: the failed
/// opening step's message, else the first failed glyph load's, else the
/// outcome of laying out exactly the rasters FreeType rendered for every
/// requested codepoint the font covers.
pub open spec fn bake_outcome(
    font: Seq<u8>,
    size: u32,
    include_cjk: bool,
    name: Seq<char>,
    label: Seq<char>,
    r: Result<Baked, String>,
) -> bool {
    let cps = ranges_points(bake_ranges(include_cjk));
    match ft_open_error(font, size, label) {
        Some(m) => r matches Err(e) && e@ == m,
        None => match ft_rasters(font, size, cps, cps.len() as int) {
            Err(m) => r matches Err(e) && e@ == m,
            Ok(vs) => {
                let (asc, desc) = ft_size_metrics_of(font, size).unwrap();
                exists|rs: Seq<(u32, Raster)>|
                    #[trigger] rasters_view(rs) == vs && layout_outcome(rs, asc, desc, name, r)
            },
        },
    }
}

/// Rasterizes every requested codepoint the font covers at `size`
/// pixels and lays the glyphs out (`layout_font`), naming the font after
/// `out_path`; `font_label` names the font file in messages. The
/// outcome is `bake_outcome`, unless FreeType cannot be initialized at
/// all (a failure of the machine, reported as `freetype init: ...`).
pub fn bake(font: Vec<u8>, size: u32, include_cjk: bool, out_path: &str, font_label: &str) -> (r: Result<Baked, String>)
    ensures
        bake_outcome(font@, size, include_cjk, bake_name(out_path@), font_label@, r) || (r matches Err(
            e,
        ) && exists|x: Seq<char>| e@ == "freetype init: "@ + x),
{
    match ft_init() {
        Ok(lib) => bake_with(&lib, font, size, include_cjk, out_path, font_label),
        Err(e) => {
            let m = prefixed("freetype init: ", e.as_str());
            proof {
                assert(m@ == "freetype init: "@ + e@);
            }
            Err(m)
        },
    }
}

/// `bake` on an initialized FreeType library: its outcome is exactly
/// `bake_outcome`.
pub fn bake_with(
    lib: &freetype::Library,
    font: Vec<u8>,
    size: u32,
    include_cjk: bool,
    out_path: &str,
    font_label: &str,
) -> (r: Result<Baked, String>)
    ensures
        bake_outcome(font@, size, include_cjk, bake_name(out_path@), font_label@, r),
{
    let ghost font_v = font@;
    let face = match ft_new_memory_face(lib, font) {
        Ok(f) => f,
        Err(e) => {
            let head = crate::text::concat3("loading ", font_label, ": ");
            let m = prefixed(head.as_str(), e.as_str());
            proof {
                assert(m@ == "loading "@ + font_label@ + ": "@ + e@);
            }
            return Err(m);
        },
    };
    let face = match ft_set_pixel_sizes(face, size) {
        Ok(f) => f,
        Err(e) => {
            let n = string_of(decimal_exec(size as u64).as_slice());
            let head = crate::text::concat3("set_pixel_sizes(", n.as_str(), "): ");
            let m = prefixed(head.as_str(), e.as_str());
            proof {
                assert(m@ == "set_pixel_sizes("@ + decimal(size as nat) + "): "@ + e@);
            }
            return Err(m);
        },
    };
    let (asc, desc) = match ft_size_metrics(&face) {
        Some(m) => m,
        None => {
            let m = string_of(chars_of("font has no size metrics after set_pixel_sizes").as_slice());
            return Err(m);
        },
    };
    proof {
        assert(ft_open_error(font_v, size, font_label@) is None);
    }
    let cps = iter_codepoints(include_cjk);
    proof {
        lemma_codepoint_count(include_cjk);
    }
    let mut rs: Vec<(u32, Raster)> = Vec::new();
    proof {
        assert(rasters_view(rs@) =~= seq![]);
    }
    let mut k: usize = 0;
    while k < cps.len()
        invariant
            k <= cps.len(),
            cps.len() <= 22494,
            cps@ == ranges_points(bake_ranges(include_cjk)),
            rs.len() <= k,
            face.font() == font_v,
            face.size() == size,
            font_v == font@,
            ft_open_error(font_v, size, font_label@) is None,
            ft_rasters(font_v, size, cps@, k as int) == Ok::<Seq<(u32, RasterView)>, Seq<char>>(
                rasters_view(rs@),
            ),
        decreases cps.len() - k,
    {
        let cp = cps[k];
        if ft_get_char_index(&face, cp).is_some() {
            match ft_load_glyph(&face, cp, MONO_RENDER_FLAGS) {
                Ok(raster) => {
                    let ghost before = rs@;
                    rs.push((cp, raster));
                    proof {
                        assert(rasters_view(rs@) =~= rasters_view(before).push((cp, raster@)));
                    }
                },
                Err(e) => {
                    let mut v = chars_of("load_char U+");
                    push_all(&mut v, hex_digits_exec(cp, 4).as_slice());
                    push_all(&mut v, chars_of(": ").as_slice());
                    push_all(&mut v, chars_of(e.as_str()).as_slice());
                    proof {
                        assert(v@ == load_char_text(cp, e@));
                        assert(cps@[k as int] == cp);
                        assert(ft_rasters(font_v, size, cps@, k as int + 1) == Err::<
                            Seq<(u32, RasterView)>,
                            Seq<char>,
                        >(load_char_text(cp, e@)));
                        lemma_rasters_err_stays(font_v, size, cps@, k as int + 1, cps.len() as int);
                    }
                    return Err(string_of(v.as_slice()));
                },
            }
        }
        k = k + 1;
    }
    let name = match crate::paths::path_file_stem(out_path) {
        Some(s) => s,
        None => {
            let f = string_of(chars_of("font").as_slice());
            proof {
                reveal_strlit("font");
                assert(f@ =~= seq!['f', 'o', 'n', 't']);
            }
            f
        },
    };
    let r = layout_font(&rs, asc, desc, name.as_str());
    proof {
        assert(layout_outcome(rs@, asc, desc, bake_name(out_path@), r));
    }
    r
}

/// The first `n` of `cps` that the font's charmap covers, in order.
pub open spec fn mapped_codepoints(font: Seq<u8>, cps: Seq<u32>, n: int) -> Seq<u32>
    decreases n,
{
    if n <= 0 {
        seq![]
    } else if ft_char_index_of(font, cps[n - 1]) is None {
        mapped_codepoints(font, cps, n - 1)
    } else {
        mapped_codepoints(font, cps, n - 1).push(cps[n - 1])
    }
}

/// When FreeType renders the first `n` codepoints, it renders exactly
/// the mapped ones, in order.
pub proof fn lemma_rasters_are_the_mapped_codepoints(font: Seq<u8>, size: u32, cps: Seq<u32>, n: int)
    requires
        ft_rasters(font, size, cps, n) is Ok,
    ensures
        ({
            let vs = ft_rasters(font, size, cps, n)->Ok_0;
            &&& vs.len() == mapped_codepoints(font, cps, n).len()
            &&& forall|i: int| 0 <= i < vs.len() ==> #[trigger] vs[i].0 == mapped_codepoints(font, cps, n)[i]
        }),
    decreases n,
{
    if n > 0 {
        lemma_rasters_are_the_mapped_codepoints(font, size, cps, n - 1);
    }
}

/// A successful bake has one glyph entry per requested codepoint the
/// font maps, in request order (the metadata lists them sorted by
/// codepoint).
pub proof fn lemma_one_entry_per_mapped_codepoint(
    font: Seq<u8>,
    size: u32,
    include_cjk: bool,
    name: Seq<char>,
    label: Seq<char>,
    b: Baked,
)
    requires
        bake_outcome(font, size, include_cjk, name, label, Ok(b)),
    ensures
        ({
            let cps = ranges_points(bake_ranges(include_cjk));
            let mapped = mapped_codepoints(font, cps, cps.len() as int);
            &&& b.glyphs.len() == mapped.len()
            &&& forall|i: int| 0 <= i < b.glyphs.len() ==> (#[trigger] b.glyphs@[i]).cp == mapped[i]
        }),
{
    let cps = ranges_points(bake_ranges(include_cjk));
    let vs = ft_rasters(font, size, cps, cps.len() as int)->Ok_0;
    let (asc, desc) = ft_size_metrics_of(font, size).unwrap();
    lemma_rasters_are_the_mapped_codepoints(font, size, cps, cps.len() as int);
    let rs = choose|rs: Seq<(u32, Raster)>| #[trigger] rasters_view(rs) == vs && layout_outcome(rs, asc, desc, name, Ok(b));
    reveal(entries_ok);
    reveal(packed_ok);
    let lit = lit_positions(rs, rs.len() as int);
    lemma_lit_positions(rs, rs.len() as int);
    assert forall|i: int| 0 <= i < b.glyphs.len() implies (#[trigger] b.glyphs@[i]).cp == rs[i].0 by {
        if rs[i].1.width != 0 && rs[i].1.rows != 0 && raster_lit(rs[i].1) {
            let j = choose|j: int| 0 <= j < lit.len() && #[trigger] lit[j] == i;
            lemma_stable_order_covers(lit_height_keys(rs), b.order@, j);
            let k = choose|k: int| 0 <= k < b.order.len() && #[trigger] b.order@[k] as int == j;
            assert(lit[b.order@[k] as int] == i);
        }
    }
    assert forall|i: int| 0 <= i < rs.len() implies #[trigger] rs[i].0 == vs[i].0 by {
        assert(rasters_view(rs)[i] == vs[i]);
    }
}

/// Rasters with the same plain values lay out alike.
proof fn lemma_views_fix_layout(a: Seq<(u32, Raster)>, b: Seq<(u32, Raster)>)
    requires
        rasters_view(a) == rasters_view(b),
    ensures
        a.len() == b.len(),
        no_bad(a) == no_bad(b),
        lit_positions(a, a.len() as int) == lit_positions(b, b.len() as int),
{
    assert(a.len() == rasters_view(a).len() && b.len() == rasters_view(b).len());
    assert forall|i: int| 0 <= i < a.len() implies #[trigger] a[i].1@ == b[i].1@ && a[i].0 == b[i].0 by {
        assert(rasters_view(a)[i] == rasters_view(b)[i]);
    }
    assert forall|i: int|
        #![trigger bad_raster(a[i].1)]
        #![trigger bad_raster(b[i].1)]
        0 <= i < a.len() implies bad_raster(a[i].1) == bad_raster(b[i].1) by {
        assert(a[i].1@ == b[i].1@);
        assert(a[i].1.buffer@ == b[i].1.buffer@);
    }
    assert forall|i: int| 0 <= i < a.len() implies #[trigger] raster_lit(a[i].1) == raster_lit(b[i].1) by {
        assert(a[i].1@ == b[i].1@);
        assert(a[i].1.buffer@ == b[i].1.buffer@);
    }
    lemma_lit_positions_agree(a, b, a.len() as int);
}

proof fn lemma_lit_positions_agree(a: Seq<(u32, Raster)>, b: Seq<(u32, Raster)>, n: int)
    requires
        0 <= n <= a.len(),
        a.len() == b.len(),
        forall|i: int| 0 <= i < a.len() ==> #[trigger] a[i].1@ == b[i].1@,
        forall|i: int|
            0 <= i < a.len() ==> #[trigger] raster_lit(a[i].1) == raster_lit(b[i].1),
    ensures
        lit_positions(a, n) == lit_positions(b, n),
    decreases n,
{
    if n > 0 {
        lemma_lit_positions_agree(a, b, n - 1);
        assert(a[n - 1].1@ == b[n - 1].1@);
        assert(raster_lit(a[n - 1].1) == raster_lit(b[n - 1].1));
    }
}

/// A bake whose font opens and renders, but none of whose rendered
/// glyphs has a lit pixel (and none a malformed bitmap), fails with
/// "font produced no glyphs".
pub proof fn lemma_bake_without_lit_glyphs(
    font: Seq<u8>,
    size: u32,
    include_cjk: bool,
    name: Seq<char>,
    label: Seq<char>,
    r: Result<Baked, String>,
    rs: Seq<(u32, Raster)>,
)
    requires
        bake_outcome(font, size, include_cjk, name, label, r),
        ft_open_error(font, size, label) is None,
        ft_rasters(font, size, ranges_points(bake_ranges(include_cjk)), ranges_points(bake_ranges(include_cjk)).len() as int)
            == Ok::<Seq<(u32, RasterView)>, Seq<char>>(rasters_view(rs)),
        no_bad(rs),
        lit_positions(rs, rs.len() as int).len() == 0,
    ensures
        r matches Err(e) && e@ == no_glyphs_text(),
{
    let cps = ranges_points(bake_ranges(include_cjk));
    let vs = rasters_view(rs);
    let (asc, desc) = ft_size_metrics_of(font, size).unwrap();
    let rs2 = choose|rs2: Seq<(u32, Raster)>| #[trigger] rasters_view(rs2) == vs && layout_outcome(rs2, asc, desc, name, r);
    lemma_views_fix_layout(rs, rs2);
    reveal(packed_ok);
}

/// Once the glyph loads fail, later codepoints do not change that.
proof fn lemma_rasters_err_stays(font: Seq<u8>, size: u32, cps: Seq<u32>, n: int, m: int)
    requires
        n <= m,
        ft_rasters(font, size, cps, n) is Err,
    ensures
        ft_rasters(font, size, cps, m) == ft_rasters(font, size, cps, n),
    decreases m - n,
{
    if n < m {
        lemma_rasters_err_stays(font, size, cps, n, m - 1);
    }
}

} // verus!
