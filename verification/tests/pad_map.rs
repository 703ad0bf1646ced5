use usagi::input::{ACTION_BTN1, ACTION_LEFT, ACTION_UP};
use usagi::keys::{
    GAMEPAD_BUTTON_LEFT_FACE_DOWN, GAMEPAD_BUTTON_LEFT_FACE_LEFT, GAMEPAD_BUTTON_LEFT_FACE_RIGHT,
    GAMEPAD_BUTTON_LEFT_FACE_UP, GAMEPAD_BUTTON_LEFT_THUMB, GAMEPAD_BUTTON_MIDDLE,
    GAMEPAD_BUTTON_MIDDLE_LEFT, GAMEPAD_BUTTON_MIDDLE_RIGHT, GAMEPAD_BUTTON_RIGHT_FACE_RIGHT,
    GAMEPAD_BUTTON_RIGHT_FACE_UP, GAMEPAD_BUTTON_RIGHT_THUMB, GAMEPAD_BUTTON_RIGHT_TRIGGER_1,
};
use usagi::pad_map::{
    bindable_buttons_exec, button_canonical, button_from_canonical, override_entries,
    pad_map_path, parse, slot_for_action, PadMap,
};

#[test]
fn pad_map_default_is_all_none() {
    let m = PadMap::default();
    for slot in m.overrides.iter() {
        assert!(slot.is_none());
    }
}

#[test]
fn override_for_returns_none_for_directional_actions() {
    let mut m = PadMap::default();
    m.overrides[0] = Some(GAMEPAD_BUTTON_RIGHT_FACE_RIGHT);
    assert_eq!(m.override_for(ACTION_LEFT), None);
    assert_eq!(m.override_for(ACTION_UP), None);
    assert_eq!(m.override_for(ACTION_BTN1), Some(GAMEPAD_BUTTON_RIGHT_FACE_RIGHT));
    assert_eq!(m.override_for(0), None);
    assert_eq!(m.override_for(99), None);
}

#[test]
fn is_used_as_override_finds_buttons_in_any_slot() {
    let mut m = PadMap::default();
    let face_right = GAMEPAD_BUTTON_RIGHT_FACE_RIGHT;
    assert!(!m.is_used_as_override(face_right));
    m.overrides[2] = Some(face_right);
    assert!(m.is_used_as_override(face_right));
    assert!(!m.is_used_as_override(GAMEPAD_BUTTON_RIGHT_FACE_UP));
}

#[test]
fn bindable_buttons_round_trip_through_canonical() {
    for b in bindable_buttons_exec() {
        let label = button_canonical(b).expect("bindable has canonical name");
        let back = button_from_canonical(label).expect("canonical round-trips");
        assert_eq!(back, b);
    }
}

#[test]
fn reserved_buttons_have_no_canonical_label_and_are_not_in_bindable_set() {
    let bindable = bindable_buttons_exec();
    for b in [
        GAMEPAD_BUTTON_LEFT_FACE_UP,
        GAMEPAD_BUTTON_LEFT_FACE_DOWN,
        GAMEPAD_BUTTON_LEFT_FACE_LEFT,
        GAMEPAD_BUTTON_LEFT_FACE_RIGHT,
        GAMEPAD_BUTTON_MIDDLE_LEFT,
        GAMEPAD_BUTTON_MIDDLE,
        GAMEPAD_BUTTON_MIDDLE_RIGHT,
        GAMEPAD_BUTTON_LEFT_THUMB,
        GAMEPAD_BUTTON_RIGHT_THUMB,
    ] {
        assert!(!bindable.contains(&b), "{b:?} must not be bindable");
        assert!(button_canonical(b).is_none());
    }
}

#[test]
fn pad_map_parse_picks_up_named_overrides_only() {
    let body = r#"{
        "overrides": {
            "btn1": "FaceRight",
            "BTN2": "R1",
            "BTN3": "L9",
            "LEFT": "FaceDown"
        }
    }"#;
    let m = parse(body);
    assert_eq!(m.overrides[0], Some(GAMEPAD_BUTTON_RIGHT_FACE_RIGHT));
    assert_eq!(m.overrides[1], Some(GAMEPAD_BUTTON_RIGHT_TRIGGER_1));
    assert_eq!(m.overrides[2], None);
}

#[test]
fn pad_map_parse_returns_default_for_missing_overrides_section() {
    let m = parse("{}");
    assert_eq!(m, PadMap::default());
}

#[test]
fn slot_for_action_covers_only_the_buttons() {
    assert_eq!(slot_for_action(ACTION_BTN1), Some(0));
    assert_eq!(slot_for_action(ACTION_LEFT), None);
    assert_eq!(slot_for_action(0), None);
}

#[test]
fn pad_override_entries_round_trip_through_parse() {
    let mut m = PadMap::default();
    m.overrides[1] = Some(GAMEPAD_BUTTON_RIGHT_TRIGGER_1);
    let entries = override_entries(&m);
    assert_eq!(entries, vec![("BTN2".to_string(), "R1".to_string())]);
    let body = format!("{{\"overrides\": {{\"{}\": \"{}\"}}}}", entries[0].0, entries[0].1);
    assert_eq!(parse(&body), m);
}

#[test]
fn pad_map_path_sits_in_the_save_dir() {
    assert_eq!(pad_map_path("/saves/g"), "/saves/g/pad_map.json");
}
