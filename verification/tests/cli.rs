use usagi::cli::{resolve_script_path, resolve_with_probe, ScriptProbe};

fn probe(is_dir: bool, main_exists: bool, is_file: bool, with_lua_is_file: bool) -> ScriptProbe {
    ScriptProbe { is_dir, main_exists, is_file, with_lua_is_file }
}

#[test]
fn errors_for_missing_path() {
    let err = resolve_script_path("/definitely/not/a/real/path/xyzzy").unwrap_err();
    assert!(err.contains("not found"), "got: {err}");
}

#[test]
fn resolves_dir_with_main_lua() {
    let r = resolve_with_probe("games/snake", &probe(true, true, false, false));
    assert_eq!(r.unwrap(), "games/snake/main.lua");
}

#[test]
fn errors_for_dir_without_main_lua() {
    let err = resolve_with_probe("games/empty", &probe(true, false, false, false)).unwrap_err();
    assert!(err.contains("no main.lua"), "got: {err}");
    assert!(err.contains("'games/empty'"), "got: {err}");
}

#[test]
fn resolves_direct_lua_file() {
    let r = resolve_with_probe("game.lua", &probe(false, false, true, false));
    assert_eq!(r.unwrap(), "game.lua");
}

#[test]
fn adds_lua_extension_when_missing() {
    let r = resolve_with_probe("dir/foo", &probe(false, false, false, true));
    assert_eq!(r.unwrap(), "dir/foo.lua");
}

#[test]
fn dir_takes_precedence_over_sibling_lua() {
    let r = resolve_with_probe("foo", &probe(true, true, false, true));
    assert_eq!(r.unwrap(), "foo/main.lua");
}

#[test]
fn probe_nothing_reports_not_found() {
    let err = resolve_with_probe("nope", &probe(false, false, false, false)).unwrap_err();
    assert_eq!(
        err,
        "script not found: 'nope'. Pass a .lua file, a directory with main.lua, or a name with a sibling .lua."
    );
}
