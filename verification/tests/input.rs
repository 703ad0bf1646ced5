use usagi::input::{
    action_name, binding_axes_exec, binding_buttons_exec, binding_columns, binding_keys_exec,
    effective_face_buttons, is_valid_action, mapping_for, GamepadFamily, InputSource,
    ACTION_BTN1, ACTION_BTN2, ACTION_BTN3, ACTION_COUNT, ACTION_DOWN, ACTION_LEFT, ACTION_RIGHT,
    ACTION_UP, MOUSE_LEFT, MOUSE_RIGHT,
};
use usagi::input_state::mouse_button_from_u32;
use usagi::keymap::Keymap;
use usagi::keys::{
    GAMEPAD_BUTTON_LEFT_TRIGGER_1, GAMEPAD_BUTTON_RIGHT_FACE_DOWN, GAMEPAD_BUTTON_RIGHT_FACE_RIGHT,
    GAMEPAD_BUTTON_RIGHT_FACE_UP, GAMEPAD_BUTTON_RIGHT_TRIGGER_1, KEY_LEFT, KEY_W,
    MOUSE_BUTTON_LEFT, MOUSE_BUTTON_RIGHT,
};

#[test]
fn all_known_actions_are_valid() {
    for a in [
        ACTION_LEFT,
        ACTION_RIGHT,
        ACTION_UP,
        ACTION_DOWN,
        ACTION_BTN1,
        ACTION_BTN2,
        ACTION_BTN3,
    ] {
        assert!(is_valid_action(a), "action {a} should be valid");
    }
}

#[test]
fn unknown_actions_are_not_valid() {
    assert!(!is_valid_action(0));
    assert!(!is_valid_action(8));
    assert!(!is_valid_action(99));
    assert!(!is_valid_action(u32::MAX));
}

#[test]
fn binding_columns_cover_every_action_with_filled_keyboard_and_gamepad() {
    let keymap = Keymap::default();
    let cols = binding_columns(&keymap, GamepadFamily::Xbox);
    assert_eq!(cols.len(), ACTION_COUNT);
    for (i, (name, kb, gp)) in cols.iter().enumerate() {
        assert_eq!(*name, action_name(i));
        assert!(!kb.is_empty(), "action {name} (#{}) keyboard column was empty", i + 1);
        assert!(!kb.contains('?'), "action {name} keyboard column has unknown source: {kb:?}");
        assert!(!gp.is_empty(), "action {name} (#{}) gamepad column was empty", i + 1);
    }
}

#[test]
fn binding_columns_swaps_keyboard_portion_for_override() {
    let mut keymap = Keymap::default();
    keymap.overrides[ACTION_LEFT as usize - 1] = Some(KEY_W);
    let cols = binding_columns(&keymap, GamepadFamily::Xbox);
    let (_, kb, gp) = &cols[ACTION_LEFT as usize - 1];
    assert_eq!(kb, "W");
    assert!(!gp.contains('W'));
    assert!(gp.contains("Left"), "gamepad column must survive keyboard override: {gp}");
}

#[test]
fn mapping_for_keyboard_returns_override_or_first_default() {
    let mut keymap = Keymap::default();
    let xbox = GamepadFamily::Xbox;
    assert_eq!(mapping_for(ACTION_LEFT, &keymap, InputSource::Keyboard, xbox), Some("Left"));
    keymap.overrides[ACTION_LEFT as usize - 1] = Some(KEY_W);
    assert_eq!(mapping_for(ACTION_LEFT, &keymap, InputSource::Keyboard, xbox), Some("W"));
    assert_eq!(mapping_for(99, &keymap, InputSource::Keyboard, xbox), None);
}

#[test]
fn mapping_for_keyboard_skips_defaults_used_as_overrides_elsewhere() {
    let mut keymap = Keymap::default();
    let xbox = GamepadFamily::Xbox;
    keymap.overrides[ACTION_RIGHT as usize - 1] = Some(KEY_LEFT);
    assert_eq!(mapping_for(ACTION_LEFT, &keymap, InputSource::Keyboard, xbox), Some("A"));
    assert_eq!(mapping_for(ACTION_RIGHT, &keymap, InputSource::Keyboard, xbox), Some("Left"));
}

#[test]
fn mapping_for_gamepad_returns_first_button_or_axis_per_family() {
    let keymap = Keymap::default();
    assert_eq!(
        mapping_for(ACTION_BTN1, &keymap, InputSource::Gamepad, GamepadFamily::Xbox),
        Some("A"),
    );
    assert_eq!(
        mapping_for(ACTION_BTN1, &keymap, InputSource::Gamepad, GamepadFamily::PlayStation),
        Some("Cross"),
    );
    assert_eq!(
        mapping_for(ACTION_LEFT, &keymap, InputSource::Gamepad, GamepadFamily::PlayStation),
        Some("Left"),
    );
}

#[test]
fn nintendo_swaps_btn1_and_btn2_face_buttons() {
    let keymap = Keymap::default();
    assert_eq!(
        mapping_for(ACTION_BTN1, &keymap, InputSource::Gamepad, GamepadFamily::Nintendo),
        Some("A"),
    );
    assert_eq!(
        mapping_for(ACTION_BTN2, &keymap, InputSource::Gamepad, GamepadFamily::Nintendo),
        Some("B"),
    );
    assert_eq!(
        mapping_for(ACTION_BTN3, &keymap, InputSource::Gamepad, GamepadFamily::Nintendo),
        Some("X"),
    );
}

#[test]
fn effective_face_buttons_swaps_only_btn1_and_btn2_on_nintendo() {
    let xbox = effective_face_buttons(ACTION_BTN1, GamepadFamily::Xbox);
    assert_eq!(xbox.first().copied(), Some(GAMEPAD_BUTTON_RIGHT_FACE_DOWN));
    let n_btn1 = effective_face_buttons(ACTION_BTN1, GamepadFamily::Nintendo);
    assert_eq!(n_btn1.first().copied(), Some(GAMEPAD_BUTTON_RIGHT_FACE_RIGHT));
    let n_btn2 = effective_face_buttons(ACTION_BTN2, GamepadFamily::Nintendo);
    assert_eq!(n_btn2.first().copied(), Some(GAMEPAD_BUTTON_RIGHT_FACE_DOWN));
    let n_btn3 = effective_face_buttons(ACTION_BTN3, GamepadFamily::Nintendo);
    assert_eq!(n_btn3.first().copied(), Some(GAMEPAD_BUTTON_RIGHT_FACE_UP));
    assert!(n_btn1.contains(&GAMEPAD_BUTTON_LEFT_TRIGGER_1));
    assert!(n_btn2.contains(&GAMEPAD_BUTTON_RIGHT_TRIGGER_1));
}

#[test]
fn binding_columns_reflects_nintendo_face_swap() {
    let keymap = Keymap::default();
    let cols = binding_columns(&keymap, GamepadFamily::Nintendo);
    assert!(
        cols[ACTION_BTN1 as usize - 1].2.starts_with('A'),
        "BTN1 should lead with Nintendo's A: {:?}",
        cols[ACTION_BTN1 as usize - 1].2,
    );
    assert!(
        cols[ACTION_BTN2 as usize - 1].2.starts_with('B'),
        "BTN2 should lead with Nintendo's B: {:?}",
        cols[ACTION_BTN2 as usize - 1].2,
    );
}

#[test]
fn input_source_as_str_round_trips_lowercase_names() {
    assert_eq!(InputSource::Keyboard.as_str(), "keyboard");
    assert_eq!(InputSource::Gamepad.as_str(), "gamepad");
}

#[test]
fn gamepad_family_detect_classifies_known_names() {
    assert_eq!(
        GamepadFamily::detect("Sony DualSense Wireless Controller"),
        GamepadFamily::PlayStation,
    );
    assert_eq!(GamepadFamily::detect("PS4 Controller"), GamepadFamily::PlayStation);
    assert_eq!(
        GamepadFamily::detect("Nintendo Switch Pro Controller"),
        GamepadFamily::Nintendo,
    );
    assert_eq!(GamepadFamily::detect("Joy-Con (L)"), GamepadFamily::Nintendo);
    assert_eq!(GamepadFamily::detect("Xbox Wireless Controller"), GamepadFamily::Xbox);
    assert_eq!(GamepadFamily::detect("Generic USB Gamepad"), GamepadFamily::Xbox);
}

#[test]
fn every_action_has_at_least_one_binding() {
    for i in 0..ACTION_COUNT {
        assert!(
            !binding_keys_exec(i).is_empty()
                || !binding_buttons_exec(i).is_empty()
                || !binding_axes_exec(i).is_empty(),
            "action {} has no bindings",
            i + 1
        );
    }
}

#[test]
fn mouse_constants_match_raylib_enum() {
    assert_eq!(MOUSE_LEFT, MOUSE_BUTTON_LEFT);
    assert_eq!(MOUSE_RIGHT, MOUSE_BUTTON_RIGHT);
}

#[test]
fn unknown_mouse_buttons_map_to_none() {
    assert!(mouse_button_from_u32(2).is_none());
    assert!(mouse_button_from_u32(99).is_none());
    assert_eq!(mouse_button_from_u32(MOUSE_LEFT), Some(MOUSE_BUTTON_LEFT));
}

#[test]
fn default_family_and_source_are_xbox_and_keyboard() {
    assert_eq!(GamepadFamily::default(), GamepadFamily::Xbox);
    assert_eq!(InputSource::default(), InputSource::Keyboard);
}
