use mlua::Lua;
use usagi::api::{labeled_message, record_err};

#[test]
fn record_err_stores_and_prefixes_label() {
    let lua = Lua::new();
    let result = lua.load("error('boom')").exec().map_err(|e| e.to_string());
    let mut state = None;
    record_err(&mut state, "_update", result);
    let stored = state.expect("should have recorded");
    assert!(stored.starts_with("_update: "), "got: {stored}");
    assert!(stored.contains("boom"), "got: {stored}");
}

#[test]
fn record_err_leaves_state_alone_on_ok() {
    let mut state = Some("previous".to_string());
    record_err(&mut state, "_update", Ok(()));
    assert_eq!(state.as_deref(), Some("previous"));
}

#[test]
fn record_err_replaces_an_older_error() {
    let mut state = Some("_init: old".to_string());
    record_err(&mut state, "_draw", Err("nil call".to_string()));
    assert_eq!(state.as_deref(), Some("_draw: nil call"));
    assert_eq!(labeled_message("a", "b"), "a: b");
}

#[test]
fn color_constants_are_the_sixteen_palette_indices() {
    let c = usagi::api::color_constants();
    assert_eq!(c.len(), 16);
    assert_eq!(c[0], ("COLOR_BLACK".to_string(), 0));
    assert_eq!(c[8], ("COLOR_RED".to_string(), 8));
    assert_eq!(c[15], ("COLOR_PEACH".to_string(), 15));
}

#[test]
fn input_constants_list_actions_mouse_keys_and_sources() {
    let n = usagi::api::input_number_constants();
    assert_eq!(n[0], ("LEFT".to_string(), 1));
    assert_eq!(n[6], ("BTN3".to_string(), 7));
    assert_eq!(n[7], ("MOUSE_LEFT".to_string(), 0));
    assert_eq!(n[8], ("MOUSE_RIGHT".to_string(), 1));
    assert_eq!(n[9], ("KEY_A".to_string(), 65));
    assert!(n.contains(&("KEY_SPACE".to_string(), 32)));
    assert_eq!(n.len(), 9 + 75);
    let s = usagi::api::input_source_constants();
    assert_eq!(s[0], ("SOURCE_KEYBOARD".to_string(), "keyboard".to_string()));
    assert_eq!(s[1], ("SOURCE_GAMEPAD".to_string(), "gamepad".to_string()));
}
