use usagi::input::ACTION_LEFT;
use usagi::keymap::Keymap;
use usagi::keys::{KEY_A, KEY_D, KEY_J, KEY_K, KEY_L, KEY_S, KEY_W};
use usagi::pause::{
    KeyConfigInputs, MenuInputs, PauseAction, PauseMenu, Scene, INPUT_ITEM_TEST,
    ITEM_CLEAR, ITEM_FULLSCREEN, ITEM_INPUT, ITEM_MUSIC, ITEM_QUIT, ITEM_RESET, TOP_COUNT,
};

fn toggle() -> MenuInputs {
    MenuInputs { toggle: true, ..Default::default() }
}

fn down() -> MenuInputs {
    MenuInputs { down: true, ..Default::default() }
}

fn up() -> MenuInputs {
    MenuInputs { up: true, ..Default::default() }
}

fn btn1() -> MenuInputs {
    MenuInputs { btn1: true, ..Default::default() }
}

fn btn2() -> MenuInputs {
    MenuInputs { btn2: true, ..Default::default() }
}

fn left() -> MenuInputs {
    MenuInputs { left: true, ..Default::default() }
}

fn right() -> MenuInputs {
    MenuInputs { right: true, ..Default::default() }
}

fn step(m: &mut PauseMenu, k: &Keymap, inputs: MenuInputs) -> Option<PauseAction> {
    m.update_with(inputs, k, KeyConfigInputs::default())
}

fn capture(m: &mut PauseMenu, k: &Keymap, key: i32) -> Option<PauseAction> {
    let kc = KeyConfigInputs { captured_key: Some(key), ..Default::default() };
    m.update_with(MenuInputs::default(), k, kc)
}

fn delete(m: &mut PauseMenu, k: &Keymap) -> Option<PauseAction> {
    let kc = KeyConfigInputs { delete: true, ..Default::default() };
    m.update_with(MenuInputs::default(), k, kc)
}

fn backspace(m: &mut PauseMenu, k: &Keymap) -> Option<PauseAction> {
    let kc = KeyConfigInputs { backspace: true, ..Default::default() };
    m.update_with(MenuInputs::default(), k, kc)
}

#[test]
fn toggle_opens_and_closes_menu() {
    let mut m = PauseMenu::new();
    let k = Keymap::default();
    let action = step(&mut m, &k, toggle());
    assert!(m.open);
    assert_eq!(m.scene, Scene::Top);
    assert_eq!(action, None);
    assert!(m.just_opened());
    let action = step(&mut m, &k, toggle());
    assert!(!m.open);
    assert_eq!(action, Some(PauseAction::Resume));
    assert!(m.just_closed());
}

#[test]
fn down_then_up_wraps_through_top_items() {
    let mut m = PauseMenu::new();
    let k = Keymap::default();
    step(&mut m, &k, toggle());
    step(&mut m, &k, up());
    assert_eq!(m.top_selected, TOP_COUNT - 1);
    step(&mut m, &k, down());
    assert_eq!(m.top_selected, 0);
}

#[test]
fn left_right_on_music_emits_set_music_volume() {
    let mut m = PauseMenu::new();
    let k = Keymap::default();
    step(&mut m, &k, toggle());
    step(&mut m, &k, down());
    assert_eq!(m.top_selected, ITEM_MUSIC);
    assert_eq!(step(&mut m, &k, right()), Some(PauseAction::StepMusicVolume(true)));
    assert_eq!(step(&mut m, &k, left()), Some(PauseAction::StepMusicVolume(false)));
}

#[test]
fn left_right_on_sfx_emits_sfx_steps() {
    let mut m = PauseMenu::new();
    let k = Keymap::default();
    step(&mut m, &k, toggle());
    step(&mut m, &k, down());
    step(&mut m, &k, down());
    assert_eq!(step(&mut m, &k, right()), Some(PauseAction::StepSfxVolume(true)));
    assert_eq!(step(&mut m, &k, left()), Some(PauseAction::StepSfxVolume(false)));
}

#[test]
fn left_right_on_fullscreen_emits_toggle() {
    let mut m = PauseMenu::new();
    let k = Keymap::default();
    step(&mut m, &k, toggle());
    for _ in 0..3 {
        step(&mut m, &k, down());
    }
    assert_eq!(m.top_selected, ITEM_FULLSCREEN);
    assert_eq!(step(&mut m, &k, right()), Some(PauseAction::ToggleFullscreen));
    assert_eq!(step(&mut m, &k, left()), Some(PauseAction::ToggleFullscreen));
    assert_eq!(step(&mut m, &k, btn1()), Some(PauseAction::ToggleFullscreen));
}

#[test]
fn confirm_clear_defaults_to_no_and_cancels_on_btn1() {
    let mut m = PauseMenu::new();
    let k = Keymap::default();
    step(&mut m, &k, toggle());
    for _ in 0..ITEM_CLEAR {
        step(&mut m, &k, down());
    }
    assert_eq!(m.top_selected, ITEM_CLEAR);
    assert_eq!(step(&mut m, &k, btn1()), None);
    assert_eq!(m.scene, Scene::ConfirmClearSave);
    assert_eq!(m.confirm_selected, 0);
    assert_eq!(step(&mut m, &k, btn1()), None);
    assert_eq!(m.scene, Scene::Top);
}

#[test]
fn confirm_clear_yes_emits_clear_save() {
    let mut m = PauseMenu::new();
    let k = Keymap::default();
    step(&mut m, &k, toggle());
    for _ in 0..ITEM_CLEAR {
        step(&mut m, &k, down());
    }
    step(&mut m, &k, btn1());
    step(&mut m, &k, down());
    assert_eq!(m.confirm_selected, 1);
    assert_eq!(step(&mut m, &k, btn1()), Some(PauseAction::ClearSave));
    assert_eq!(m.scene, Scene::Top);
}

#[test]
fn btn2_in_confirm_returns_to_top() {
    let mut m = PauseMenu::new();
    let k = Keymap::default();
    step(&mut m, &k, toggle());
    for _ in 0..ITEM_CLEAR {
        step(&mut m, &k, down());
    }
    step(&mut m, &k, btn1());
    assert_eq!(m.scene, Scene::ConfirmClearSave);
    assert_eq!(step(&mut m, &k, btn2()), None);
    assert_eq!(m.scene, Scene::Top);
}

#[test]
fn input_lands_on_input_menu_and_btn2_returns_to_top() {
    let mut m = PauseMenu::new();
    let k = Keymap::default();
    step(&mut m, &k, toggle());
    for _ in 0..ITEM_INPUT {
        step(&mut m, &k, down());
    }
    step(&mut m, &k, btn1());
    assert_eq!(m.scene, Scene::InputMenu);
    assert_eq!(m.input_menu_selected, INPUT_ITEM_TEST);
    step(&mut m, &k, btn2());
    assert_eq!(m.scene, Scene::Top);
}

#[test]
fn input_menu_test_enters_tester_and_buttons_are_not_consumed() {
    let mut m = PauseMenu::new();
    let k = Keymap::default();
    step(&mut m, &k, toggle());
    for _ in 0..ITEM_INPUT {
        step(&mut m, &k, down());
    }
    step(&mut m, &k, btn1());
    step(&mut m, &k, btn1());
    assert_eq!(m.scene, Scene::InputTester);
    step(&mut m, &k, btn1());
    assert_eq!(m.scene, Scene::InputTester);
    step(&mut m, &k, btn2());
    assert_eq!(m.scene, Scene::InputTester);
    let action = step(&mut m, &k, toggle());
    assert_eq!(action, None);
    assert_eq!(m.scene, Scene::InputMenu);
    assert!(m.open);
}

#[test]
fn reset_and_quit_emit_their_actions() {
    let mut m = PauseMenu::new();
    let k = Keymap::default();
    step(&mut m, &k, toggle());
    for _ in 0..ITEM_RESET {
        step(&mut m, &k, down());
    }
    assert_eq!(step(&mut m, &k, btn1()), Some(PauseAction::ResetGame));
    assert!(!m.open, "Reset Game should close the menu");

    step(&mut m, &k, toggle());
    for _ in 0..ITEM_QUIT {
        step(&mut m, &k, down());
    }
    assert_eq!(m.top_selected, ITEM_QUIT);
    assert_eq!(step(&mut m, &k, btn1()), Some(PauseAction::Quit));
}

#[test]
fn toggle_climbs_one_level() {
    let mut m = PauseMenu::new();
    let k = Keymap::default();
    step(&mut m, &k, toggle());
    for _ in 0..ITEM_INPUT {
        step(&mut m, &k, down());
    }
    step(&mut m, &k, btn1());
    assert_eq!(m.scene, Scene::InputMenu);
    let action = step(&mut m, &k, toggle());
    assert_eq!(action, None);
    assert_eq!(m.scene, Scene::Top);
    let action = step(&mut m, &k, toggle());
    assert!(!m.open);
    assert_eq!(action, Some(PauseAction::Resume));
}

fn open_to_key_config(m: &mut PauseMenu, k: &Keymap) {
    step(m, k, toggle());
    for _ in 0..ITEM_INPUT {
        step(m, k, down());
    }
    step(m, k, btn1());
    step(m, k, down());
    step(m, k, btn1());
}

#[test]
fn entering_key_config_seeds_staging_from_current_keymap() {
    let mut m = PauseMenu::new();
    let mut k = Keymap::default();
    k.overrides[ACTION_LEFT as usize - 1] = Some(KEY_W);
    open_to_key_config(&mut m, &k);
    assert_eq!(m.scene, Scene::KeyConfig);
    let state = m.key_config.as_ref().expect("key_config initialized");
    assert_eq!(state.action_index, 0);
    assert_eq!(state.staging[ACTION_LEFT as usize - 1], Some(KEY_W));
}

#[test]
fn capturing_seven_keys_emits_set_keymap_and_returns_to_tester() {
    let mut m = PauseMenu::new();
    let k = Keymap::default();
    open_to_key_config(&mut m, &k);
    let captures = [KEY_A, KEY_D, KEY_W, KEY_S, KEY_J, KEY_K, KEY_L];
    for key in &captures[..6] {
        assert_eq!(capture(&mut m, &k, *key), None);
    }
    match capture(&mut m, &k, captures[6]) {
        Some(PauseAction::SetKeymap(km)) => {
            for (i, key) in captures.iter().enumerate() {
                assert_eq!(km.overrides[i], Some(*key));
            }
        }
        other => panic!("expected SetKeymap, got {other:?}"),
    }
    assert_eq!(m.scene, Scene::InputTester);
    assert!(m.key_config.is_none());
}

#[test]
fn toggle_during_key_config_cancels_capture_only() {
    let mut m = PauseMenu::new();
    let k = Keymap::default();
    open_to_key_config(&mut m, &k);
    capture(&mut m, &k, KEY_W);
    let action = step(&mut m, &k, toggle());
    assert_eq!(action, None, "toggle in KeyConfig should not emit anything");
    assert_eq!(m.scene, Scene::InputMenu);
    assert!(m.key_config.is_none());
    assert!(m.open, "menu stays open; only the capture was abandoned");
}

#[test]
fn duplicate_key_press_is_rejected_and_keeps_player_on_current_action() {
    let mut m = PauseMenu::new();
    let k = Keymap::default();
    open_to_key_config(&mut m, &k);
    capture(&mut m, &k, KEY_W);
    let state = m.key_config.as_ref().unwrap();
    assert_eq!(state.action_index, 1);
    assert_eq!(state.staging[0], Some(KEY_W));
    let action = capture(&mut m, &k, KEY_W);
    assert_eq!(action, None);
    let state = m.key_config.as_ref().unwrap();
    assert_eq!(state.action_index, 1);
    assert_eq!(state.staging[1], None);
}

#[test]
fn backspace_undoes_last_capture_and_steps_back_one_action() {
    let mut m = PauseMenu::new();
    let k = Keymap::default();
    open_to_key_config(&mut m, &k);
    capture(&mut m, &k, KEY_A);
    capture(&mut m, &k, KEY_D);
    let action = backspace(&mut m, &k);
    assert_eq!(action, None);
    let state = m.key_config.as_ref().unwrap();
    assert_eq!(state.action_index, 1);
    assert_eq!(state.staging[0], Some(KEY_A));
    assert_eq!(state.staging[1], None);
}

#[test]
fn backspace_at_first_action_is_a_noop() {
    let mut m = PauseMenu::new();
    let k = Keymap::default();
    open_to_key_config(&mut m, &k);
    let action = backspace(&mut m, &k);
    assert_eq!(action, None);
    let state = m.key_config.as_ref().unwrap();
    assert_eq!(state.action_index, 0);
    assert!(state.staging.iter().all(|s| s.is_none()));
}

#[test]
fn delete_during_key_config_emits_default_keymap() {
    let mut m = PauseMenu::new();
    let mut k = Keymap::default();
    k.overrides[0] = Some(KEY_W);
    open_to_key_config(&mut m, &k);
    capture(&mut m, &k, KEY_A);
    match delete(&mut m, &k) {
        Some(PauseAction::SetKeymap(km)) => {
            assert_eq!(km, Keymap::default());
        }
        other => panic!("expected SetKeymap(default), got {other:?}"),
    }
    assert_eq!(m.scene, Scene::InputTester);
    assert!(m.key_config.is_none());
}

#[test]
fn backspace_empties_the_slot_even_when_the_keymap_had_a_key() {
    let mut m = PauseMenu::new();
    let mut k = Keymap::default();
    k.overrides[1] = Some(KEY_S);
    open_to_key_config(&mut m, &k);
    capture(&mut m, &k, KEY_A);
    capture(&mut m, &k, KEY_D);
    backspace(&mut m, &k);
    let state = m.key_config.as_ref().unwrap();
    assert_eq!(state.action_index, 1);
    assert_eq!(state.staging[1], None);
}
