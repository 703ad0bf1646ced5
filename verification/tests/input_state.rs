use usagi::input::{GamepadFamily, InputSource, ACTION_BTN1, ACTION_BTN2, ACTION_LEFT, ACTION_RIGHT, MOUSE_LEFT};
use usagi::input_state::{
    action_down, action_pressed, detect_source, Frame, GamepadProbe, InputState, PadEvent,
    PadFrame,
};
use usagi::keymap::Keymap;
use usagi::keys::{GAMEPAD_BUTTON_RIGHT_FACE_DOWN, GAMEPAD_BUTTON_RIGHT_FACE_RIGHT, KEY_A, KEY_LEFT, KEY_W};

fn idle_pad(name: &str) -> PadFrame {
    PadFrame {
        available: true,
        name: Some(name.to_string()),
        down: [false; 18],
        pressed: [false; 18],
        released: [false; 18],
        stick: [0, 0],
    }
}

fn frame() -> Frame {
    Frame {
        keys_down: vec![],
        keys_pressed: vec![],
        keys_released: vec![],
        pads: vec![],
        mouse_left_down: false,
        mouse_right_down: false,
        mouse_left_pressed: false,
        mouse_right_pressed: false,
        mouse_left_released: false,
        mouse_right_released: false,
    }
}

#[test]
fn default_key_fires_its_action() {
    let mut f = frame();
    f.keys_down = vec![KEY_LEFT];
    f.keys_pressed = vec![KEY_LEFT];
    let km = Keymap::default();
    assert!(action_down(&f, &km, ACTION_LEFT));
    assert!(action_pressed(&f, &km, ACTION_LEFT));
    assert!(!action_down(&f, &km, ACTION_RIGHT));
}

#[test]
fn remapped_key_fires_only_its_new_owner() {
    let mut km = Keymap::default();
    km.overrides[ACTION_RIGHT as usize - 1] = Some(KEY_LEFT);
    let mut f = frame();
    f.keys_down = vec![KEY_LEFT];
    assert!(action_down(&f, &km, ACTION_RIGHT));
    assert!(!action_down(&f, &km, ACTION_LEFT));
    f.keys_down = vec![KEY_A];
    assert!(action_down(&f, &km, ACTION_LEFT));
    f.keys_down = vec![KEY_W];
    assert!(!action_down(&f, &km, ACTION_LEFT));
}

#[test]
fn nintendo_pad_fires_btn1_from_the_east_face() {
    let mut f = frame();
    let mut pad = idle_pad("Nintendo Switch Pro Controller");
    pad.down[GAMEPAD_BUTTON_RIGHT_FACE_RIGHT as usize] = true;
    f.pads = vec![pad];
    let km = Keymap::default();
    assert!(action_down(&f, &km, ACTION_BTN1));
    assert!(!action_down(&f, &km, ACTION_BTN2));
}

#[test]
fn detect_source_keeps_prior_when_nothing_bound_fired() {
    let mut f = frame();
    f.pads = vec![idle_pad("Xbox Wireless Controller")];
    let km = Keymap::default();
    assert_eq!(detect_source(&f, &km, InputSource::Gamepad), (InputSource::Gamepad, None));
    f.keys_pressed = vec![KEY_LEFT];
    assert_eq!(detect_source(&f, &km, InputSource::Gamepad), (InputSource::Gamepad, None));
    f.keys_down = vec![KEY_LEFT];
    assert_eq!(detect_source(&f, &km, InputSource::Gamepad), (InputSource::Keyboard, None));
}

#[test]
fn detect_source_reports_the_pad_that_fired() {
    let mut f = frame();
    let mut second = idle_pad("Xbox Wireless Controller");
    second.down[GAMEPAD_BUTTON_RIGHT_FACE_DOWN as usize] = true;
    f.pads = vec![idle_pad("Xbox Wireless Controller"), second];
    let km = Keymap::default();
    assert_eq!(detect_source(&f, &km, InputSource::Keyboard), (InputSource::Gamepad, Some(1)));
}

#[test]
fn sample_snapshots_actions_mouse_and_source() {
    let mut f = frame();
    let mut pad = idle_pad("Sony DualSense Wireless Controller");
    pad.pressed[GAMEPAD_BUTTON_RIGHT_FACE_DOWN as usize] = true;
    pad.down[GAMEPAD_BUTTON_RIGHT_FACE_DOWN as usize] = true;
    f.pads = vec![pad];
    f.mouse_left_down = true;
    let s = InputState::sample(&f, &Keymap::default(), InputSource::Keyboard, None, (12, 34));
    assert!(s.action_down(ACTION_BTN1));
    assert!(s.action_pressed(ACTION_BTN1));
    assert!(!s.action_released(ACTION_BTN1));
    assert_eq!(s.last_source(), InputSource::Gamepad);
    assert_eq!(s.last_pad(), Some(0));
    assert_eq!(s.gamepad_family(), GamepadFamily::PlayStation);
    assert_eq!(s.mapping_for(ACTION_BTN1), Some("Cross"));
    assert!(s.mouse_button_down(MOUSE_LEFT));
    assert_eq!(s.mouse_position(), (12, 34));
}

#[test]
fn probe_reports_connect_swap_and_disconnect_once() {
    let mut p = GamepadProbe::new();
    let cur = [Some("Xbox Wireless Controller".to_string()), None, None, None];
    let ev = p.poll(&cur);
    assert_eq!(ev.len(), 1);
    assert!(matches!(&ev[0], PadEvent::Connected { pad: 0, family: GamepadFamily::Xbox, .. }));
    assert!(p.poll(&cur).is_empty());
    let swapped = [Some("Joy-Con (L)".to_string()), None, None, None];
    let ev = p.poll(&swapped);
    assert!(matches!(&ev[0], PadEvent::Changed { pad: 0, family: GamepadFamily::Nintendo, .. }));
    let gone = [None, None, None, None];
    let ev = p.poll(&gone);
    match &ev[0] {
        PadEvent::Disconnected { pad, prev } => {
            assert_eq!(*pad, 0);
            assert_eq!(prev, "Joy-Con (L)");
        }
        _ => panic!("expected a disconnect"),
    }
}
