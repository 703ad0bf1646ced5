use usagi::loveify::{scan_for_warnings, skip_top_level_dir, with_shim_require, Warning};

fn scan(src: &str) -> Vec<Warning> {
    let mut out = Vec::new();
    scan_for_warnings(src.as_bytes(), "main.lua", &mut out);
    out
}

#[test]
fn integer_division_is_flagged_with_its_line() {
    let w = scan("local a = 1\nlocal b = 7 // 2\n");
    assert_eq!(w.len(), 1);
    assert_eq!(w[0].file, "main.lua");
    assert_eq!(w[0].line, 2);
    assert_eq!(w[0].feature, "// (integer division, Lua 5.3+)");
}

#[test]
fn operators_inside_comments_are_ignored() {
    assert!(scan("local a = 1 -- a // b and x << 2\n").is_empty());
}

#[test]
fn logical_operators_are_not_bitwise() {
    assert!(scan("if a && b then end\n").is_empty());
    let w = scan("local m = a & b\n");
    assert_eq!(w.len(), 1);
    assert_eq!(w[0].feature, "bitwise operator (Lua 5.3+)");
}

#[test]
fn several_features_on_one_line_give_several_warnings() {
    let w = scan("local x <const> = string.pack(\"i\", 1 << 2)\n");
    let features: Vec<&str> = w.iter().map(|w| w.feature).collect();
    assert_eq!(
        features,
        vec![
            "string.pack / string.unpack (Lua 5.3+)",
            "<const>/<close> attribute (Lua 5.4+)",
            "bitwise operator (Lua 5.3+)"
        ]
    );
}

#[test]
fn non_utf8_text_is_skipped() {
    let mut out = Vec::new();
    scan_for_warnings(&[0xff, 0xfe, b'/', b'/'], "x.lua", &mut out);
    assert!(out.is_empty());
}

#[test]
fn top_level_skips_cover_export_meta_and_git() {
    assert!(skip_top_level_dir("export"));
    assert!(skip_top_level_dir("meta"));
    assert!(skip_top_level_dir(".git"));
    assert!(!skip_top_level_dir("sprites"));
}

#[test]
fn only_main_lua_gets_the_shim_require() {
    let body = b"print(1)\n".to_vec();
    assert_eq!(with_shim_require(true, &body), b"require \"usagi_shim\"\n\nprint(1)\n".to_vec());
    assert_eq!(with_shim_require(false, &body), body);
}

fn probe(src_exists: bool, src_is_dir: bool, main_exists: bool, dst_exists: bool, dst_inside_src: bool) -> usagi::loveify::PortProbe {
    usagi::loveify::PortProbe { src_exists, src_is_dir, main_exists, dst_exists, dst_inside_src }
}

#[test]
fn refuses_when_destination_exists() {
    let err = usagi::loveify::check_port("src", "dst", &probe(true, true, true, true, false)).unwrap_err();
    assert!(err.contains("already exists"), "got: {err}");
}

#[test]
fn refuses_when_destination_is_inside_source() {
    let err = usagi::loveify::check_port("game", "game/love", &probe(true, true, true, false, true)).unwrap_err();
    assert!(err.contains("inside the source"), "got: {err}");
    assert_eq!(
        err,
        "destination 'game/love' is inside the source project 'game'. loveify can't port a project into itself. Pick a destination outside the source directory."
    );
}

#[test]
fn refuses_when_source_lacks_main_lua() {
    let err = usagi::loveify::check_port("src", "dst", &probe(true, true, false, false, false)).unwrap_err();
    assert!(err.contains("no main.lua"), "got: {err}");
}

#[test]
fn port_checks_the_source_first() {
    let err = usagi::loveify::check_port("nope", "out", &probe(false, false, false, true, true)).unwrap_err();
    assert_eq!(err, "source path 'nope' does not exist");
    let err = usagi::loveify::check_port("f.lua", "out", &probe(true, false, false, false, false)).unwrap_err();
    assert_eq!(err, "source path 'f.lua' is not a directory");
    assert!(usagi::loveify::check_port("game", "out", &probe(true, true, true, false, false)).is_ok());
}
