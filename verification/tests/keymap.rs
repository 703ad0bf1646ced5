use usagi::keymap::{key_from_label, key_label, keymap_path, override_entries, parse, Keymap};
use usagi::keys::{
    KEY_A, KEY_BACKSPACE, KEY_DELETE, KEY_ENTER, KEY_ESCAPE, KEY_F1, KEY_GRAVE, KEY_LEFT,
    KEY_LEFT_ALT, KEY_LEFT_CONTROL, KEY_LEFT_SHIFT, KEY_NINE, KEY_PAGE_UP, KEY_SPACE, KEY_TAB,
    KEY_W, KEY_X, KEY_Z, KEY_ZERO,
};

#[test]
fn keymap_default_is_all_none() {
    let k = Keymap::default();
    for slot in k.overrides.iter() {
        assert!(slot.is_none());
    }
}

#[test]
fn override_for_returns_set_key_and_none_otherwise() {
    let mut k = Keymap::default();
    k.overrides[0] = Some(KEY_W);
    assert_eq!(k.override_for(1), Some(KEY_W));
    assert_eq!(k.override_for(2), None);
    assert_eq!(k.override_for(0), None);
    assert_eq!(k.override_for(99), None);
}

#[test]
fn is_used_as_override_finds_keys_in_any_slot() {
    let mut k = Keymap::default();
    assert!(!k.is_used_as_override(KEY_W));
    k.overrides[3] = Some(KEY_W);
    assert!(k.is_used_as_override(KEY_W));
    assert!(!k.is_used_as_override(KEY_A));
}

#[test]
fn supported_keys_round_trip_through_label() {
    let sample = [
        KEY_A, KEY_Z, KEY_ZERO, KEY_NINE, KEY_LEFT, KEY_SPACE, KEY_TAB, KEY_GRAVE, KEY_PAGE_UP,
    ];
    for k in sample {
        let label = key_label(k).expect("supported key has label");
        let back = key_from_label(label).expect("label round-trips");
        assert_eq!(back, k);
    }
}

#[test]
fn reserved_keys_are_unsupported() {
    for k in [
        KEY_ESCAPE,
        KEY_ENTER,
        KEY_DELETE,
        KEY_BACKSPACE,
        KEY_F1,
        KEY_LEFT_SHIFT,
        KEY_LEFT_CONTROL,
        KEY_LEFT_ALT,
    ] {
        assert!(key_label(k).is_none(), "{k:?} must not be in the supported capture set");
    }
}

#[test]
fn keymap_parse_picks_up_named_overrides_only() {
    let body = r#"{
        "overrides": {
            "LEFT": "W",
            "BTN1": "Z",
            "PAUSE": "Tab",
            "BTN3": "F13",
            "btn2": "X"
        }
    }"#;
    let k = parse(body);
    assert_eq!(k.overrides[0], Some(KEY_W));
    assert_eq!(k.overrides[4], Some(KEY_Z));
    assert_eq!(k.overrides[6], None);
    assert_eq!(k.overrides[5], Some(KEY_X));
}

#[test]
fn keymap_parse_returns_default_for_missing_overrides_section() {
    let k = parse("{}");
    assert_eq!(k, Keymap::default());
}

#[test]
fn keymap_parse_returns_default_for_malformed_json() {
    assert_eq!(parse("not json"), Keymap::default());
}

#[test]
fn override_entries_round_trip_through_parse() {
    let mut k = Keymap::default();
    k.overrides[0] = Some(KEY_W);
    k.overrides[6] = Some(KEY_SPACE);
    let entries = override_entries(&k);
    assert_eq!(
        entries,
        vec![
            ("LEFT".to_string(), "W".to_string()),
            ("BTN3".to_string(), "Space".to_string())
        ]
    );
    let body = format!(
        "{{\"overrides\": {{\"{}\": \"{}\", \"{}\": \"{}\"}}}}",
        entries[0].0, entries[0].1, entries[1].0, entries[1].1
    );
    assert_eq!(parse(&body), k);
}

#[test]
fn keymap_path_sits_in_the_save_dir() {
    assert_eq!(keymap_path("/saves/com.x.y"), "/saves/com.x.y/keymap.json");
}
