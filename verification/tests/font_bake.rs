use usagi::font_bake::{
    any_lit, bake, iter_codepoints, layout_font, shelf_pack, stable_order, unpack_mono, Raster,
};

#[test]
fn stable_order_sorts_and_keeps_ties_in_input_order() {
    let keys = vec![30u64, 10, 20, 10, 30];
    assert_eq!(stable_order(&keys), vec![1, 3, 2, 0, 4]);
}

#[test]
fn stable_order_of_nothing_is_empty() {
    assert!(stable_order(&Vec::new()).is_empty());
}

#[test]
fn shelf_pack_places_glyphs_without_overlap() {
    let ws = vec![4u32, 4, 4];
    let hs = vec![3u32, 5, 2];
    let (pos, w, h) = shelf_pack(&ws, &hs);
    assert_eq!(pos.len(), 3);
    for a in 0..3 {
        for b in (a + 1)..3 {
            let (ax, ay) = pos[a];
            let (bx, by) = pos[b];
            let apart = ax + ws[a] <= bx || bx + ws[b] <= ax || ay + hs[a] <= by || by + hs[b] <= ay;
            assert!(apart, "glyphs {a} and {b} overlap");
        }
        assert!(pos[a].0 + ws[a] <= w && pos[a].1 + hs[a] <= h);
    }
    assert_eq!(pos[0], (0, 0));
}

#[test]
fn codepoints_start_at_space_and_cjk_is_optional() {
    let base = iter_codepoints(false);
    let all = iter_codepoints(true);
    assert_eq!(base[0], 0x20);
    assert!(!base.contains(&0x4E00));
    assert!(all.contains(&0x4E00));
    assert_eq!(all.len(), base.len() + (0x9FFF - 0x4E00 + 1));
}

#[test]
fn unpack_mono_reads_msb_first_rows() {
    let buf = vec![0b1010_0000u8, 0b0100_0000u8];
    let px = unpack_mono(&buf, 1, 3, 2);
    assert_eq!(px, vec![true, false, true, false, true, false]);
    assert!(any_lit(&px));
    assert!(!any_lit(&vec![false, false]));
}

fn raster(width: i32, rows: i32, pitch: i32, buffer: Vec<u8>) -> Raster {
    Raster { width, rows, pitch, buffer, advance_x: 5 << 6, left: 1, top: 7 }
}

#[test]
fn bake_reports_unreadable_font_bytes_with_the_file_label() {
    let err = bake(vec![0u8; 16], 16, false, "out/tiny.png", "tiny.ttf").err().unwrap();
    assert!(err.starts_with("loading tiny.ttf: "), "{err}");
}

#[test]
fn layout_of_blank_glyphs_fails_with_no_glyphs() {
    let rs = vec![(0x20u32, raster(0, 0, 0, vec![])), (0x41u32, raster(3, 1, 1, vec![0]))];
    let err = layout_font(&rs, 10 << 6, -(3 << 6), "tiny").err().unwrap();
    assert_eq!(err, "font produced no glyphs");
}

#[test]
fn layout_names_the_first_malformed_bitmap() {
    let rs = vec![
        (0x41u32, raster(1, 1, 1, vec![0x80])),
        (0x42u32, raster(9, 1, 1, vec![0xFF])),
        (0x43u32, raster(9, 1, 1, vec![0xFF])),
    ];
    let err = layout_font(&rs, 10 << 6, -(3 << 6), "tiny").err().unwrap();
    assert_eq!(err, "glyph U+0042: malformed bitmap");
}

#[test]
fn layout_places_each_lit_glyph_and_lists_every_rasterized_codepoint() {
    let rs = vec![
        (0x20u32, raster(0, 0, 0, vec![])),
        (0x41u32, raster(2, 1, 1, vec![0b0100_0000])),
        (0x42u32, raster(1, 2, 1, vec![0x80, 0x00])),
    ];
    let b = layout_font(&rs, 10 << 6, -(3 << 6), "tiny").ok().unwrap();
    assert_eq!(b.glyphs.len(), 3);
    assert_eq!((b.atlas_w, b.atlas_h), (3, 2));
    assert_eq!(b.ascent, 10);
    assert_eq!(b.line_height, 13);
    // the taller glyph (B) is packed first, at the origin
    assert_eq!((b.glyphs[2].x, b.glyphs[2].y), (0, 0));
    assert_eq!((b.glyphs[1].x, b.glyphs[1].y), (1, 0));
    assert_eq!(b.atlas, vec![true, false, true, false, false, false]);
    assert!(b.metadata.starts_with("{\"name\":\"tiny\""));
    assert!(b.metadata.contains("\"32\":{"));
    assert!(b.metadata.contains("\"65\":{"));
    assert!(b.metadata.contains("\"66\":{"));
}

#[test]
fn bake_with_an_initialized_library_reports_unreadable_bytes() {
    let lib = freetype::Library::init().unwrap();
    let err = usagi::font_bake::bake_with(&lib, b"not a font".to_vec(), 12, false, "x.png", "bad.otf")
        .err()
        .unwrap();
    assert!(err.starts_with("loading bad.otf: "), "{err}");
}
