use usagi::capture::{capture_file_name, capture_stem, quantize_frame, upscale, PaletteIndex};
use usagi::palette::palette;

#[test]
fn palette_lookup_returns_exact_index_for_each_palette_color() {
    let p = PaletteIndex::new();
    for gif_idx in 0..16u8 {
        let c = palette(gif_idx as i32);
        assert_eq!(p.lookup(c.0, c.1, c.2), gif_idx, "gif idx {gif_idx} should round-trip");
    }
}

#[test]
fn palette_lookup_picks_nearest_for_off_palette_rgb() {
    let p = PaletteIndex::new();
    assert_eq!(p.lookup(1, 1, 1), 0);
    assert_eq!(p.lookup(255, 0, 0), 8);
}

#[test]
fn capture_stem_zero_pads_the_timestamp() {
    assert_eq!(capture_stem("snake", 2024, 3, 7, 9, 5, 2), "snake-20240307-090502");
}

#[test]
fn capture_file_name_adds_a_suffix_after_a_collision() {
    assert_eq!(capture_file_name("snake-20240307-090502", 0, "gif"), "snake-20240307-090502.gif");
    assert_eq!(capture_file_name("snake-20240307-090502", 2, "png"), "snake-20240307-090502-2.png");
}

#[test]
fn quantize_frame_flips_rows_and_maps_to_palette() {
    let p = PaletteIndex::new();
    let black = palette(0);
    let red = palette(8);
    let rows = vec![(black.0, black.1, black.2), (red.0, red.1, red.2)];
    assert_eq!(quantize_frame(&rows, 1, 2, &p), vec![8, 0]);
}

#[test]
fn upscale_repeats_each_pixel_in_a_block() {
    assert_eq!(upscale(&vec![1, 2], 2, 1, 2), vec![1, 1, 2, 2, 1, 1, 2, 2]);
}

#[test]
fn next_capture_path_uses_prefix_timestamp_and_extension() {
    let p = usagi::capture::next_capture_path("/definitely/not/here/captures", "snake", "gif").unwrap();
    assert!(p.starts_with("/definitely/not/here/captures/snake-"), "got: {p}");
    assert!(p.ends_with(".gif"), "got: {p}");
    let name = p.rsplit('/').next().unwrap();
    // snake-YYYYMMDD-HHMMSS.gif
    assert_eq!(name.len(), "snake-".len() + 8 + 1 + 6 + ".gif".len(), "got: {name}");
    assert!(name["snake-".len().."snake-".len() + 8].chars().all(|c| c.is_ascii_digit()));
}

#[test]
fn next_capture_path_honors_extension_arg() {
    let png = usagi::capture::next_capture_path("/definitely/not/here", "usagi", "png").unwrap();
    assert!(png.ends_with(".png"), "got: {png}");
}

#[test]
fn first_free_picks_the_first_untaken_candidate() {
    assert_eq!(usagi::capture::first_free(&vec![true, true, false, false]), Some(2));
    assert_eq!(usagi::capture::first_free(&vec![false]), Some(0));
    assert_eq!(usagi::capture::first_free(&vec![true, true]), None);
}

#[test]
fn first_free_gives_up_after_the_last_suffix() {
    let mut taken = vec![true; 1001];
    assert_eq!(usagi::capture::first_free(&taken), None);
    taken[1000] = false;
    assert_eq!(usagi::capture::first_free(&taken), Some(1000));
    taken.push(false);
    taken[1000] = true;
    assert_eq!(usagi::capture::first_free(&taken), None);
}
