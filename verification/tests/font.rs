use usagi::font::{extract_embedded_metadata, parse_font_metadata, FontGlyph, FONT_METADATA_KEYWORD};

#[test]
fn metadata_reads_line_height_and_every_glyph() {
    let json = br#"{"name":"m","size":0,"line_height":12,"ascent":9,"atlas_w":8,"atlas_h":8,
        "glyphs":{"65":{"w":5,"h":7,"advance":6,"ox":0,"oy":2,"x":0,"y":0}}}"#;
    let m = parse_font_metadata(json).unwrap();
    assert_eq!(m.line_height, 12);
    assert_eq!(
        m.glyphs,
        vec![FontGlyph { cp: 65, x: 0, y: 0, w: 5, h: 7, advance: 6, ox: 0, oy: 2 }]
    );
}

#[test]
fn metadata_without_glyphs_is_rejected() {
    let err = parse_font_metadata(br#"{"line_height":12,"glyphs":{}}"#).err().unwrap();
    assert_eq!(err, "json has zero glyphs");
    let err = parse_font_metadata(br#"{"glyphs":{}}"#).err().unwrap();
    assert_eq!(err, "json missing line_height");
    let err = parse_font_metadata(br#"{"line_height":12}"#).err().unwrap();
    assert_eq!(err, "json missing glyphs object");
}

#[test]
fn metadata_names_the_first_bad_field() {
    let err = parse_font_metadata(
        br#"{"line_height":12,"glyphs":{"65":{"w":5,"h":7,"advance":6,"ox":0,"oy":2,"x":0}}}"#,
    )
    .err()
    .unwrap();
    assert_eq!(err, "glyph.y");
    let err = parse_font_metadata(br#"{"line_height":12,"glyphs":{"A":{}}}"#).err().unwrap();
    assert_eq!(err, "glyph key \"A\" not an integer codepoint");
}

#[test]
fn invalid_json_is_reported_as_a_parse_error() {
    let err = parse_font_metadata(b"{nope").err().unwrap();
    assert!(err.starts_with("parse json: "), "got: {err}");
}

#[test]
fn non_png_bytes_are_reported_as_a_decode_error() {
    let err = extract_embedded_metadata(b"definitely not a png").unwrap_err();
    assert!(err.starts_with("png decode: "), "got: {err}");
}

#[test]
fn metadata_keyword_is_usagi_font() {
    assert_eq!(FONT_METADATA_KEYWORD, "usagi-font");
}
