use usagi::palette::palette;
use usagi::pixels::{index_of, read_screen, read_sprite, Pixels};

#[test]
fn get_returns_color_at_coordinates() {
    let red = (255, 0, 0, 255);
    let green = (0, 255, 0, 255);
    let blue = (0, 0, 255, 255);
    let white = (255, 255, 255, 255);
    let p = Pixels::new(2, 2, vec![red, green, blue, white]);
    assert_eq!(p.get(0, 0).map(|c| (c.0, c.1, c.2)), Some((255, 0, 0)));
    assert_eq!(p.get(1, 0).map(|c| (c.0, c.1, c.2)), Some((0, 255, 0)));
    assert_eq!(p.get(0, 1).map(|c| (c.0, c.1, c.2)), Some((0, 0, 255)));
    assert_eq!(p.get(1, 1).map(|c| (c.0, c.1, c.2)), Some((255, 255, 255)));
}

#[test]
fn get_returns_none_for_negative_coords() {
    let p = Pixels::new(2, 2, vec![(255, 255, 255, 255); 4]);
    assert!(p.get(-1, 0).is_none());
    assert!(p.get(0, -1).is_none());
    assert!(p.get(-1, -1).is_none());
}

#[test]
fn read_sprite_returns_nils_for_fully_transparent_pixel() {
    let transparent_black = (0, 0, 0, 0);
    let opaque_white = (255, 255, 255, 255);
    let sheet = Pixels::new(2, 2, vec![transparent_black, opaque_white, opaque_white, opaque_white]);
    let (r, g, b, idx) = read_sprite(Some(&sheet), 2, 1, 0, 0);
    assert!(r.is_none() && g.is_none() && b.is_none() && idx.is_none());
    let (r2, _, _, _) = read_sprite(Some(&sheet), 2, 1, 1, 0);
    assert_eq!(r2, Some(255));
}

#[test]
fn get_returns_none_outside_width_or_height() {
    let p = Pixels::new(2, 2, vec![(255, 255, 255, 255); 4]);
    assert!(p.get(2, 0).is_none(), "x == width is out of bounds");
    assert!(p.get(0, 2).is_none(), "y == height is out of bounds");
    assert!(p.get(99, 99).is_none());
}

#[test]
fn index_of_is_one_based_and_exact() {
    let c = palette(8);
    assert_eq!(index_of(c.0, c.1, c.2), Some(9));
    let c0 = palette(0);
    assert_eq!(index_of(c0.0, c0.1, c0.2), Some(1));
    assert_eq!(index_of(1, 2, 3), None);
}

#[test]
fn read_screen_reports_palette_index_and_misses() {
    let red = palette(8);
    let p = Pixels::new(1, 1, vec![red]);
    assert_eq!(read_screen(Some(&p), 0, 0), (Some(255), Some(0), Some(77), Some(9)));
    assert_eq!(read_screen(Some(&p), 1, 0), (None, None, None, None));
    assert_eq!(read_screen(None, 0, 0), (None, None, None, None));
}

#[test]
fn read_sprite_walks_cells_left_to_right_then_down() {
    let a = (10, 10, 10, 255);
    let b = (20, 20, 20, 255);
    let c = (30, 30, 30, 255);
    let d = (40, 40, 40, 255);
    let sheet = Pixels::new(2, 2, vec![a, b, c, d]);
    assert_eq!(read_sprite(Some(&sheet), 1, 2, 0, 0).0, Some(20));
    assert_eq!(read_sprite(Some(&sheet), 1, 3, 0, 0).0, Some(30));
    assert_eq!(read_sprite(Some(&sheet), 1, 5, 0, 0).0, None);
    assert_eq!(read_sprite(Some(&sheet), 1, 0, 0, 0).0, None);
    assert_eq!(read_sprite(Some(&sheet), 1, 1, 1, 0).0, None);
}
