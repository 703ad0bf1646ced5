use usagi::palette::palette;

fn assert_rgb(c: (u8, u8, u8, u8), r: u8, g: u8, b: u8) {
    assert_eq!(c, (r, g, b, 255));
}

#[test]
fn black() {
    assert_rgb(palette(0), 0, 0, 0);
}

#[test]
fn white() {
    assert_rgb(palette(7), 255, 241, 232);
}

#[test]
fn red() {
    assert_rgb(palette(8), 255, 0, 77);
}

#[test]
fn peach() {
    assert_rgb(palette(15), 255, 204, 170);
}

#[test]
fn every_palette_index_is_opaque() {
    for i in 0..=15 {
        assert_eq!(palette(i).3, 255, "index {i} should be fully opaque");
    }
}

#[test]
fn unknown_indices_return_magenta() {
    for i in [-1, 16, 99, i32::MAX, i32::MIN] {
        assert_eq!(palette(i), (255, 0, 255, 255), "index {i} should return magenta");
    }
}

#[test]
fn palette_colors_are_pairwise_distinct() {
    for i in 0..16 {
        for j in (i + 1)..16 {
            assert_ne!(palette(i), palette(j), "{i} and {j} collide");
        }
    }
}
