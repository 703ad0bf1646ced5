//! Pause menu: a Pico-8-style overlay whose scenes stack.
//!
//! - **Top**: Continue, music and sfx volume, fullscreen, the Input
//!   sub-menu, Clear Save, Reset, Quit.
//! - **InputMenu**: Test or Configure Keys.
//! - **InputTester**: shows held actions; every button is testable, so
//!   only the toggle leaves it.
//! - **KeyConfig**: sequential capture of one key per action.
//! - **ConfirmClearSave**: a No/Yes dialog, No first.
//!
//! The toggle (Esc / P / Start) climbs one level everywhere: Top closes
//! the menu, a sub-view returns to its parent. Side effects (settings,
//! fullscreen, reset, save clear, quit, keymap) come out as
//! `PauseAction` for the caller to apply; reading the devices, the
//! indicator's animation time and drawing are the caller's too.
//! Volumes are the caller's: the menu says which way one moves.

use crate::keymap::{no_overrides, Keymap};
use vstd::prelude::*;

verus! {

/// Number of remappable actions (LEFT, RIGHT, UP, DOWN, BTN1, BTN2, BTN3).
pub const ACTION_COUNT: usize = 7;

/// Items of the Top view.
pub const TOP_COUNT: usize = 8;
pub const ITEM_CONTINUE: usize = 0;
pub const ITEM_MUSIC: usize = 1;
pub const ITEM_SFX: usize = 2;
pub const ITEM_FULLSCREEN: usize = 3;
pub const ITEM_INPUT: usize = 4;
pub const ITEM_CLEAR: usize = 5;
pub const ITEM_RESET: usize = 6;
pub const ITEM_QUIT: usize = 7;

/// Items of the Input sub-menu.
pub const INPUT_MENU_COUNT: usize = 2;
pub const INPUT_ITEM_TEST: usize = 0;
pub const INPUT_ITEM_CONFIGURE: usize = 1;

/// The scene the menu shows.
#[derive(Debug, Clone, Copy, PartialEq, Eq, Structural)]
pub enum Scene {
    Top,
    InputMenu,
    InputTester,
    KeyConfig,
    ConfirmClearSave,
}

/// One frame's navigation inputs. `toggle` is Esc / P / Start (and
/// Enter while closed); inside the menu Enter counts as `btn1`.
#[derive(Debug, Clone, Copy, Default, PartialEq, Eq, Structural)]
pub struct MenuInputs {
    pub up: bool,
    pub down: bool,
    pub left: bool,
    pub right: bool,
    pub btn1: bool,
    pub btn2: bool,
    pub toggle: bool,
}

/// One frame's key-capture inputs: the first supported, non-reserved
/// key pressed (a raylib key code), and the delete / backspace gestures.
#[derive(Debug, Clone, Copy, Default, PartialEq, Eq, Structural)]
pub struct KeyConfigInputs {
    pub captured_key: Option<i32>,
    pub delete: bool,
    pub backspace: bool,
}

/// What the caller applies.
#[derive(Debug, Clone, Copy, PartialEq, Eq)]
pub enum PauseAction {
    Resume,
    /// Move the music volume one step: up (`true`) or down. The caller
    /// holds the volume and applies the step.
    StepMusicVolume(bool),
    /// Move the sfx volume one step: up (`true`) or down.
    StepSfxVolume(bool),
    ToggleFullscreen,
    ResetGame,
    ClearSave,
    SetKeymap(Keymap),
    Quit,
}

/// Key capture in progress: the keymap being built and the action
/// (0-based) waiting for its key.
#[derive(Debug, Clone, Copy)]
pub struct KeyConfigState {
    pub staging: [Option<i32>; 7],
    pub action_index: usize,
}

/// The pause menu's state.
#[derive(Debug, Clone, Copy)]
pub struct PauseMenu {
    pub open: bool,
    pub last_open: bool,
    pub scene: Scene,
    pub top_selected: usize,
    pub input_menu_selected: usize,
    pub confirm_selected: usize,
    /// Capture state while in `Scene::KeyConfig`; `None` otherwise.
    pub key_config: Option<KeyConfigState>,
}

/// A pause action as plain values.
pub enum ActionView {
    Resume,
    StepMusicVolume(bool),
    StepSfxVolume(bool),
    ToggleFullscreen,
    ResetGame,
    ClearSave,
    SetKeymap(Seq<Option<i32>>),
    Quit,
}

/// The menu as plain values: open, open before this frame, view,
/// the three selections, and the capture (staging keymap, action).
pub type MenuView = (bool, bool, Scene, int, int, int, Option<(Seq<Option<i32>>, int)>);

pub open spec fn action_view(a: PauseAction) -> ActionView {
    match a {
        PauseAction::Resume => ActionView::Resume,
        PauseAction::StepMusicVolume(up) => ActionView::StepMusicVolume(up),
        PauseAction::StepSfxVolume(up) => ActionView::StepSfxVolume(up),
        PauseAction::ToggleFullscreen => ActionView::ToggleFullscreen,
        PauseAction::ResetGame => ActionView::ResetGame,
        PauseAction::ClearSave => ActionView::ClearSave,
        PauseAction::SetKeymap(k) => ActionView::SetKeymap(k.overrides@),
        PauseAction::Quit => ActionView::Quit,
    }
}

pub open spec fn opt_action_view(a: Option<PauseAction>) -> Option<ActionView> {
    match a {
        Some(a) => Some(action_view(a)),
        None => None,
    }
}

impl View for PauseMenu {
    type V = MenuView;

    open spec fn view(&self) -> MenuView {
        (
            self.open,
            self.last_open,
            self.scene,
            self.top_selected as int,
            self.input_menu_selected as int,
            self.confirm_selected as int,
            match self.key_config {
                Some(k) => Some((k.staging@, k.action_index as int)),
                None => None,
            },
        )
    }
}

/// A menu state the transition can start from: selections in range,
/// and a capture exactly while in Key Config, on one of the actions.
pub open spec fn menu_wf(m: MenuView) -> bool {
    &&& 0 <= m.3 < TOP_COUNT
    &&& 0 <= m.4 < INPUT_MENU_COUNT
    &&& 0 <= m.5 < 2
    &&& (m.2 == Scene::KeyConfig) == (m.6 is Some)
    &&& match m.6 {
        Some((s, i)) => s.len() == ACTION_COUNT && 0 <= i < ACTION_COUNT,
        None => true,
    }
}

/// `m` showing another scene.
pub open spec fn with_scene(m: MenuView, scene: Scene) -> MenuView {
    (m.0, m.1, scene, m.3, m.4, m.5, m.6)
}

/// The Top view's answer to the inputs (the menu is open, no toggle).
pub open spec fn top_step(m: MenuView, i: MenuInputs) -> (MenuView, Option<ActionView>) {
    if i.btn2 {
        ((false, m.1, m.2, m.3, m.4, m.5, m.6), Some(ActionView::Resume))
    } else {
        let a = if i.up {
            if m.3 == 0 {
                TOP_COUNT - 1
            } else {
                m.3 - 1
            }
        } else {
            m.3
        };
        let sel = if i.down {
            (a + 1) % (TOP_COUNT as int)
        } else {
            a
        };
        let m1 = (m.0, m.1, m.2, sel, m.4, m.5, m.6);
        if (i.left || i.right) && sel == ITEM_MUSIC {
            (m1, Some(ActionView::StepMusicVolume(i.right)))
        } else if (i.left || i.right) && sel == ITEM_SFX {
            (m1, Some(ActionView::StepSfxVolume(i.right)))
        } else if (i.left || i.right || i.btn1) && sel == ITEM_FULLSCREEN {
            (m1, Some(ActionView::ToggleFullscreen))
        } else if !i.btn1 {
            (m1, None)
        } else if sel == ITEM_CONTINUE {
            ((false, m.1, m.2, sel, m.4, m.5, m.6), Some(ActionView::Resume))
        } else if sel == ITEM_INPUT {
            ((m.0, m.1, Scene::InputMenu, sel, 0, m.5, m.6), None)
        } else if sel == ITEM_CLEAR {
            ((m.0, m.1, Scene::ConfirmClearSave, sel, m.4, 0, m.6), None)
        } else if sel == ITEM_RESET {
            ((false, m.1, m.2, sel, m.4, m.5, m.6), Some(ActionView::ResetGame))
        } else if sel == ITEM_QUIT {
            (m1, Some(ActionView::Quit))
        } else {
            (m1, None)
        }
    }
}

/// The Input sub-menu's answer: btn2 back to Top, up or down switch
/// items, btn1 enters the Tester or starts a capture seeded from the
/// current keymap.
pub open spec fn input_menu_step(m: MenuView, i: MenuInputs, keymap: Seq<Option<i32>>) -> (MenuView, Option<ActionView>) {
    if i.btn2 {
        (with_scene(m, Scene::Top), None)
    } else {
        let sel = if i.up || i.down {
            (m.4 + 1) % (INPUT_MENU_COUNT as int)
        } else {
            m.4
        };
        if i.btn1 && sel == INPUT_ITEM_TEST {
            ((m.0, m.1, Scene::InputTester, m.3, sel, m.5, m.6), None)
        } else if i.btn1 && sel == INPUT_ITEM_CONFIGURE {
            ((m.0, m.1, Scene::KeyConfig, m.3, sel, m.5, Some((keymap, 0))), None)
        } else {
            ((m.0, m.1, m.2, m.3, sel, m.5, m.6), None)
        }
    }
}

/// The dialog's answer: btn2 back to Top, up or down switch between No
/// and Yes, btn1 back to Top, clearing the save on Yes.
pub open spec fn confirm_step(m: MenuView, i: MenuInputs) -> (MenuView, Option<ActionView>) {
    if i.btn2 {
        (with_scene(m, Scene::Top), None)
    } else {
        let sel = if i.up || i.down {
            (m.5 + 1) % 2
        } else {
            m.5
        };
        if i.btn1 {
            (
                (m.0, m.1, Scene::Top, m.3, m.4, sel, m.6),
                if sel == 1 {
                    Some(ActionView::ClearSave)
                } else {
                    None
                },
            )
        } else {
            ((m.0, m.1, m.2, m.3, m.4, sel, m.6), None)
        }
    }
}

/// `key` was captured for an action before `i` in `staging`.
pub open spec fn captured_before(staging: Seq<Option<i32>>, i: int, key: i32) -> bool {
    exists|j: int| 0 <= j < i && #[trigger] staging[j] == Some(key)
}

/// Key Config's answer: delete sets the default keymap, backspace steps
/// back one action and empties its slot, a captured key (not one already
/// captured this pass) fills the current action and moves on, and the
/// last action's key sets the staged keymap. Both of those return to
/// the Tester.
pub open spec fn key_config_step(m: MenuView, kc: KeyConfigInputs) -> (MenuView, Option<ActionView>) {
    let (staging, idx) = m.6.unwrap();
    if kc.delete {
        ((m.0, m.1, Scene::InputTester, m.3, m.4, m.5, None), Some(ActionView::SetKeymap(no_overrides())))
    } else if kc.backspace {
        if idx > 0 {
            ((m.0, m.1, m.2, m.3, m.4, m.5, Some((staging.update(idx - 1, None), idx - 1))), None)
        } else {
            (m, None)
        }
    } else {
        match kc.captured_key {
            None => (m, None),
            Some(key) => if captured_before(staging, idx, key) {
                (m, None)
            } else if idx + 1 == ACTION_COUNT {
                (
                    (m.0, m.1, Scene::InputTester, m.3, m.4, m.5, None),
                    Some(ActionView::SetKeymap(staging.update(idx, Some(key)))),
                )
            } else {
                ((m.0, m.1, m.2, m.3, m.4, m.5, Some((staging.update(idx, Some(key)), idx + 1))), None)
            },
        }
    }
}

/// One frame of the menu. Closed, only the toggle does anything: it
/// opens on Top. Open, the toggle climbs one level (Top closes with
/// `Resume`, Key Config drops its capture); otherwise the view answers.
pub open spec fn pause_step(m: MenuView, i: MenuInputs, keymap: Seq<Option<i32>>, kc: KeyConfigInputs) -> (MenuView, Option<ActionView>) {
    let m = (m.0, m.0, m.2, m.3, m.4, m.5, m.6);
    if !m.0 {
        if i.toggle {
            ((true, m.1, Scene::Top, 0, m.4, m.5, None), None)
        } else {
            (m, None)
        }
    } else if i.toggle {
        match m.2 {
            Scene::Top => ((false, m.1, m.2, m.3, m.4, m.5, None), Some(ActionView::Resume)),
            Scene::InputMenu => (with_scene(m, Scene::Top), None),
            Scene::InputTester => (with_scene(m, Scene::InputMenu), None),
            Scene::KeyConfig => ((m.0, m.1, Scene::InputMenu, m.3, m.4, m.5, None), None),
            Scene::ConfirmClearSave => (with_scene(m, Scene::Top), None),
        }
    } else {
        match m.2 {
            Scene::Top => top_step(m, i),
            Scene::InputMenu => input_menu_step(m, i, keymap),
            Scene::InputTester => (m, None),
            Scene::KeyConfig => key_config_step(m, kc),
            Scene::ConfirmClearSave => confirm_step(m, i),
        }
    }
}

/// A frame with no navigation input.
pub open spec fn idle_inputs() -> MenuInputs {
    MenuInputs { up: false, down: false, left: false, right: false, btn1: false, btn2: false, toggle: false }
}

/// A frame whose only input is btn1 (Enter / A: choose).
pub open spec fn only_btn1() -> MenuInputs {
    MenuInputs { up: false, down: false, left: false, right: false, btn1: true, btn2: false, toggle: false }
}

/// A frame whose only input is btn2 (back).
pub open spec fn only_btn2() -> MenuInputs {
    MenuInputs { up: false, down: false, left: false, right: false, btn1: false, btn2: true, toggle: false }
}

/// Choosing an item on Top: Continue resumes and closes the menu, Reset
/// resets and closes it, Quit quits, Fullscreen toggles it, Input opens
/// the Input sub-menu on Test, Clear Save asks first with No selected;
/// btn2 resumes and closes.
pub proof fn lemma_top_choices(m: MenuView, keymap: Seq<Option<i32>>, kc: KeyConfigInputs)
    requires
        menu_wf(m),
        m.0,
        m.2 == Scene::Top,
    ensures
        ({
            let (n, a) = pause_step(m, only_btn1(), keymap, kc);
            &&& m.3 == ITEM_CONTINUE ==> !n.0 && a == Some(ActionView::Resume)
            &&& m.3 == ITEM_RESET ==> !n.0 && a == Some(ActionView::ResetGame)
            &&& m.3 == ITEM_QUIT ==> a == Some(ActionView::Quit)
            &&& m.3 == ITEM_FULLSCREEN ==> n.0 && a == Some(ActionView::ToggleFullscreen)
            &&& m.3 == ITEM_INPUT ==> n.0 && n.2 == Scene::InputMenu && n.4 == INPUT_ITEM_TEST && a is None
            &&& m.3 == ITEM_CLEAR ==> n.0 && n.2 == Scene::ConfirmClearSave && n.5 == 0 && a is None
        }),
        ({
            let (n, a) = pause_step(m, only_btn2(), keymap, kc);
            !n.0 && a == Some(ActionView::Resume)
        }),
{
}

/// Choosing in the sub-views: in the Input sub-menu, Test opens the
/// Tester and Configure Keys starts a capture on the first action seeded
/// with the current keymap; in the dialog, Yes clears the save and No
/// does nothing, both returning to Top; btn2 in either returns to Top
/// without an action.
pub proof fn lemma_sub_view_choices(m: MenuView, keymap: Seq<Option<i32>>, kc: KeyConfigInputs)
    requires
        menu_wf(m),
        m.0,
    ensures
        m.2 == Scene::InputMenu ==> ({
            let (n, a) = pause_step(m, only_btn1(), keymap, kc);
            &&& m.4 == INPUT_ITEM_TEST ==> n.2 == Scene::InputTester && a is None
            &&& m.4 == INPUT_ITEM_CONFIGURE ==> n.2 == Scene::KeyConfig && n.6 == Some((keymap, 0int))
                && a is None
        }),
        m.2 == Scene::ConfirmClearSave ==> ({
            let (n, a) = pause_step(m, only_btn1(), keymap, kc);
            &&& n.0 && n.2 == Scene::Top
            &&& m.5 == 1 ==> a == Some(ActionView::ClearSave)
            &&& m.5 == 0 ==> a is None
        }),
        m.2 == Scene::InputMenu || m.2 == Scene::ConfirmClearSave ==> ({
            let (n, a) = pause_step(m, only_btn2(), keymap, kc);
            n.0 && n.2 == Scene::Top && a is None
        }),
        m.2 == Scene::InputTester ==> ({
            let (n, a) = pause_step(m, only_btn1(), keymap, kc);
            let (n2, a2) = pause_step(m, only_btn2(), keymap, kc);
            n.2 == Scene::InputTester && a is None && n2.2 == Scene::InputTester && a2 is None
        }),
{
}

/// In Key Config, delete hands on the default keymap and returns to the
/// Tester; backspace steps back one action and empties its slot (and
/// does nothing on the first action).
pub proof fn lemma_key_config_gestures(m: MenuView, keymap: Seq<Option<i32>>)
    requires
        menu_wf(m),
        m.0,
        m.2 == Scene::KeyConfig,
    ensures
        ({
            let kc = KeyConfigInputs { captured_key: None, delete: true, backspace: false };
            let (n, a) = pause_step(m, idle_inputs(), keymap, kc);
            n.2 == Scene::InputTester && n.6 is None && a == Some(ActionView::SetKeymap(Seq::new(7, |i: int| None::<i32>)))
        }),
        ({
            let kc = KeyConfigInputs { captured_key: None, delete: false, backspace: true };
            let (n, a) = pause_step(m, idle_inputs(), keymap, kc);
            let (staging, idx) = m.6.unwrap();
            &&& a is None
            &&& n.2 == Scene::KeyConfig
            &&& idx == 0 ==> n.6 == m.6
            &&& idx > 0 ==> n.6 == Some((staging.update(idx - 1, None), idx - 1))
        }),
{
    assert(no_overrides() =~= Seq::new(7, |i: int| None::<i32>));
}

/// The toggle climbs one level, the same rule in every scene: closed,
/// it opens the menu on Top; on Top it closes the menu with `Resume`;
/// from the Input sub-menu and the dialog it returns to Top, from the
/// Tester and Key Config to the Input sub-menu (dropping any capture),
/// all without an action.
pub proof fn lemma_toggle_climbs_one_level(
    m: MenuView,
    i: MenuInputs,
    keymap: Seq<Option<i32>>,
    kc: KeyConfigInputs,
)
    requires
        menu_wf(m),
        i.toggle,
    ensures
        ({
            let (n, a) = pause_step(m, i, keymap, kc);
            if !m.0 {
                n.0 && n.2 == Scene::Top && n.3 == 0 && a is None
            } else {
                match m.2 {
                    Scene::Top => !n.0 && a == Some(ActionView::Resume),
                    Scene::InputMenu => n.0 && n.2 == Scene::Top && a is None,
                    Scene::ConfirmClearSave => n.0 && n.2 == Scene::Top && a is None,
                    Scene::InputTester => n.0 && n.2 == Scene::InputMenu && a is None,
                    Scene::KeyConfig => n.0 && n.2 == Scene::InputMenu && n.6 is None && a is None,
                }
            }
        }),
{
}

/// Key Config captures one key per action, in order: a key not yet
/// captured in this pass fills the current action and moves to the
/// next, and the last action's key hands the whole staged keymap on and
/// returns to the Tester. A key captured earlier in the pass changes
/// nothing.
pub proof fn lemma_key_capture(m: MenuView, keymap: Seq<Option<i32>>, key: i32)
    requires
        menu_wf(m),
        m.0,
        m.2 == Scene::KeyConfig,
    ensures
        ({
            let kc = KeyConfigInputs { captured_key: Some(key), delete: false, backspace: false };
            let (n, a) = pause_step(m, idle_inputs(), keymap, kc);
            let (staging, idx) = m.6.unwrap();
            if captured_before(staging, idx, key) {
                n.6 == m.6 && n.2 == Scene::KeyConfig && a is None
            } else if idx + 1 == ACTION_COUNT {
                n.2 == Scene::InputTester && n.6 is None && a == Some(
                    ActionView::SetKeymap(staging.update(idx, Some(key))),
                )
            } else {
                n.2 == Scene::KeyConfig && n.6 == Some((staging.update(idx, Some(key)), idx + 1))
                    && a is None
            }
        }),
{
}

/// A frame whose only input is the captured key `key`.
pub open spec fn capture_input(key: i32) -> KeyConfigInputs {
    KeyConfigInputs { captured_key: Some(key), delete: false, backspace: false }
}

/// The menu after capturing `keys[0..j)` in turn, and the last frame's
/// action.
pub open spec fn run_captures(m: MenuView, keys: Seq<i32>, j: int, keymap: Seq<Option<i32>>) -> (MenuView, Option<ActionView>)
    decreases j,
{
    if j <= 0 {
        (m, None)
    } else {
        let p = run_captures(m, keys, j - 1, keymap).0;
        pause_step(p, idle_inputs(), keymap, capture_input(keys[j - 1]))
    }
}

/// `staging` with its first `j` actions set to `keys`.
pub open spec fn staged(staging: Seq<Option<i32>>, keys: Seq<i32>, j: int) -> Seq<Option<i32>> {
    Seq::new(staging.len(), |q: int| if q < j { Some(keys[q]) } else { staging[q] })
}

proof fn lemma_captures_so_far(m: MenuView, keys: Seq<i32>, j: int, keymap: Seq<Option<i32>>)
    requires
        menu_wf(m),
        m.0,
        m.2 == Scene::KeyConfig,
        m.6.unwrap().1 == 0,
        keys.len() == ACTION_COUNT,
        forall|a: int, b: int| 0 <= a < b < keys.len() ==> keys[a] != keys[b],
        1 <= j < ACTION_COUNT,
    ensures
        run_captures(m, keys, j, keymap) == (
            (true, true, Scene::KeyConfig, m.3, m.4, m.5, Some((staged(m.6.unwrap().0, keys, j), j))),
            None::<ActionView>,
        ),
    decreases j,
{
    let s0 = m.6.unwrap().0;
    if j > 1 {
        lemma_captures_so_far(m, keys, j - 1, keymap);
    }
    let p = run_captures(m, keys, j - 1, keymap).0;
    let prev = if j == 1 { s0 } else { staged(s0, keys, j - 1) };
    if j == 1 {
        assert(p == m);
    }
    assert(!captured_before(prev, j - 1, keys[j - 1])) by {
        if captured_before(prev, j - 1, keys[j - 1]) {
            let q = choose|q: int| 0 <= q < j - 1 && #[trigger] prev[q] == Some(keys[j - 1]);
            assert(prev[q] == Some(keys[q]));
        }
    }
    assert(prev.update(j - 1, Some(keys[j - 1])) =~= staged(s0, keys, j));
}

/// Capturing one distinct key per action, from the start of a capture,
/// hands on exactly those keys as the new keymap and returns to the
/// Tester; no frame before the last emits anything.
pub proof fn lemma_full_capture_sets_keymap(m: MenuView, keys: Seq<i32>, keymap: Seq<Option<i32>>)
    requires
        menu_wf(m),
        m.0,
        m.2 == Scene::KeyConfig,
        m.6.unwrap().1 == 0,
        keys.len() == ACTION_COUNT,
        forall|a: int, b: int| 0 <= a < b < keys.len() ==> keys[a] != keys[b],
    ensures
        forall|j: int| 1 <= j < ACTION_COUNT ==> (#[trigger] run_captures(m, keys, j, keymap)).1 is None,
        ({
            let (n, a) = run_captures(m, keys, ACTION_COUNT as int, keymap);
            &&& n.2 == Scene::InputTester
            &&& n.6 is None
            &&& a == Some(ActionView::SetKeymap(keys.map_values(|k: i32| Some(k))))
        }),
{
    assert forall|j: int| 1 <= j < ACTION_COUNT implies (#[trigger] run_captures(m, keys, j, keymap)).1 is None by {
        lemma_captures_so_far(m, keys, j, keymap);
    }
    lemma_captures_so_far(m, keys, 6, keymap);
    let s0 = m.6.unwrap().0;
    let prev = staged(s0, keys, 6);
    assert(!captured_before(prev, 6, keys[6])) by {
        if captured_before(prev, 6, keys[6]) {
            let q = choose|q: int| 0 <= q < 6 && #[trigger] prev[q] == Some(keys[6]);
            assert(prev[q] == Some(keys[q]));
        }
    }
    assert(prev.update(6, Some(keys[6])) =~= keys.map_values(|k: i32| Some(k)));
}

impl PauseMenu {
    /// A closed menu on Top.
    pub fn new() -> (r: Self)
        ensures
            r@ == (false, false, Scene::Top, 0int, 0int, 0int, None::<(Seq<Option<i32>>, int)>),
            menu_wf(r@),
    {
        PauseMenu {
            open: false,
            last_open: false,
            scene: Scene::Top,
            top_selected: 0,
            input_menu_selected: 0,
            confirm_selected: 0,
            key_config: None,
        }
    }

    /// The menu opened this frame.
    pub fn just_opened(&self) -> (r: bool)
        ensures
            r == (self.open && !self.last_open),
    {
        self.open && !self.last_open
    }

    /// The menu closed this frame.
    pub fn just_closed(&self) -> (r: bool)
        ensures
            r == (!self.open && self.last_open),
    {
        !self.open && self.last_open
    }

    fn handle_top(&mut self, inputs: MenuInputs) -> (r: Option<PauseAction>)
        requires
            menu_wf(old(self)@),
            old(self).open,
        ensures
            (final(self)@, opt_action_view(r)) == top_step(old(self)@, inputs),
    {
        if inputs.btn2 {
            self.open = false;
            return Some(PauseAction::Resume);
        }
        if inputs.up {
            self.top_selected = if self.top_selected == 0 {
                TOP_COUNT - 1
            } else {
                self.top_selected - 1
            };
        }
        if inputs.down {
            self.top_selected = (self.top_selected + 1) % TOP_COUNT;
        }
        let sel = self.top_selected;
        if (inputs.left || inputs.right) && sel == ITEM_MUSIC {
            return Some(PauseAction::StepMusicVolume(inputs.right));
        }
        if (inputs.left || inputs.right) && sel == ITEM_SFX {
            return Some(PauseAction::StepSfxVolume(inputs.right));
        }
        if (inputs.left || inputs.right || inputs.btn1) && sel == ITEM_FULLSCREEN {
            return Some(PauseAction::ToggleFullscreen);
        }
        if !inputs.btn1 {
            return None;
        }
        if sel == ITEM_CONTINUE {
            self.open = false;
            Some(PauseAction::Resume)
        } else if sel == ITEM_INPUT {
            self.scene = Scene::InputMenu;
            self.input_menu_selected = 0;
            None
        } else if sel == ITEM_CLEAR {
            self.scene = Scene::ConfirmClearSave;
            self.confirm_selected = 0;
            None
        } else if sel == ITEM_RESET {
            self.open = false;
            Some(PauseAction::ResetGame)
        } else if sel == ITEM_QUIT {
            Some(PauseAction::Quit)
        } else {
            None
        }
    }

    fn handle_input_menu(&mut self, inputs: MenuInputs, keymap: &Keymap) -> (r: Option<PauseAction>)
        requires
            menu_wf(old(self)@),
        ensures
            (final(self)@, opt_action_view(r)) == input_menu_step(old(self)@, inputs, keymap.overrides@),
    {
        if inputs.btn2 {
            self.scene = Scene::Top;
            return None;
        }
        if inputs.up || inputs.down {
            self.input_menu_selected = (self.input_menu_selected + 1) % INPUT_MENU_COUNT;
        }
        if inputs.btn1 && self.input_menu_selected == INPUT_ITEM_TEST {
            self.scene = Scene::InputTester;
        } else if inputs.btn1 && self.input_menu_selected == INPUT_ITEM_CONFIGURE {
            self.scene = Scene::KeyConfig;
            self.key_config = Some(KeyConfigState { staging: keymap.overrides, action_index: 0 });
        }
        None
    }

    fn handle_confirm_clear(&mut self, inputs: MenuInputs) -> (r: Option<PauseAction>)
        requires
            menu_wf(old(self)@),
        ensures
            (final(self)@, opt_action_view(r)) == confirm_step(old(self)@, inputs),
    {
        if inputs.btn2 {
            self.scene = Scene::Top;
            return None;
        }
        if inputs.up || inputs.down {
            self.confirm_selected = (self.confirm_selected + 1) % 2;
        }
        if inputs.btn1 {
            self.scene = Scene::Top;
            if self.confirm_selected == 1 {
                return Some(PauseAction::ClearSave);
            }
        }
        None
    }

    fn handle_key_config(&mut self, kc: KeyConfigInputs) -> (r: Option<PauseAction>)
        requires
            menu_wf(old(self)@),
            old(self).scene == Scene::KeyConfig,
        ensures
            (final(self)@, opt_action_view(r)) == key_config_step(old(self)@, kc),
    {
        let state = match self.key_config {
            Some(s) => s,
            None => return None,
        };
        if kc.delete {
            self.scene = Scene::InputTester;
            self.key_config = None;
            return Some(PauseAction::SetKeymap(Keymap::default()));
        }
        let idx = state.action_index;
        if kc.backspace {
            if idx > 0 {
                let mut staging = state.staging;
                staging[idx - 1] = None;
                self.key_config = Some(KeyConfigState { staging, action_index: idx - 1 });
            }
            return None;
        }
        let key = match kc.captured_key {
            Some(k) => k,
            None => return None,
        };
        let mut j: usize = 0;
        while j < idx
            invariant
                j <= idx < ACTION_COUNT,
                forall|q: int| 0 <= q < j ==> state.staging@[q] != Some(key),
                *self == *old(self),
                old(self).key_config == Some(state),
                idx == state.action_index,
                kc.captured_key == Some(key),
                !kc.delete,
                !kc.backspace,
            decreases idx - j,
        {
            if state.staging[j] == Some(key) {
                proof {
                    assert(captured_before(state.staging@, idx as int, key));
                }
                return None;
            }
            j = j + 1;
        }
        let mut staging = state.staging;
        staging[idx] = Some(key);
        if idx + 1 == ACTION_COUNT {
            self.scene = Scene::InputTester;
            self.key_config = None;
            Some(PauseAction::SetKeymap(Keymap { overrides: staging }))
        } else {
            self.key_config = Some(KeyConfigState { staging, action_index: idx + 1 });
            None
        }
    }

    /// One frame of the menu as a pure transition (`pause_step`).
    pub fn update_with(
        &mut self,
        inputs: MenuInputs,
        keymap: &Keymap,
        kc: KeyConfigInputs,
    ) -> (r: Option<PauseAction>)
        requires
            menu_wf(old(self)@),
        ensures
            (final(self)@, opt_action_view(r)) == pause_step(old(self)@, inputs, keymap.overrides@, kc),
            menu_wf(final(self)@),
            old(self).open && old(self).scene == Scene::Top && inputs == only_btn1() ==> {
                let sel = old(self).top_selected;
                &&& sel == ITEM_CONTINUE ==> (r == Some(PauseAction::Resume) && !final(self).open)
                &&& sel == ITEM_RESET ==> (r == Some(PauseAction::ResetGame) && !final(self).open)
                &&& sel == ITEM_QUIT ==> r == Some(PauseAction::Quit)
                &&& sel == ITEM_FULLSCREEN ==> (r == Some(PauseAction::ToggleFullscreen) && final(self).open)
                &&& sel == ITEM_INPUT ==> (r is None && final(self).open && final(self).scene == Scene::InputMenu
                    && final(self).input_menu_selected == INPUT_ITEM_TEST)
                &&& sel == ITEM_CLEAR ==> (r is None && final(self).open && final(self).scene
                    == Scene::ConfirmClearSave && final(self).confirm_selected == 0)
            },
            old(self).open && old(self).scene == Scene::Top && inputs == only_btn2() ==> (r == Some(PauseAction::Resume) && !final(self).open),
    {
        self.last_open = self.open;
        if !self.open {
            if inputs.toggle {
                self.open = true;
                self.scene = Scene::Top;
                self.top_selected = 0;
                self.key_config = None;
            }
            return None;
        }
        if inputs.toggle {
            return match self.scene {
                Scene::Top => {
                    self.open = false;
                    self.key_config = None;
                    Some(PauseAction::Resume)
                },
                Scene::InputMenu => {
                    self.scene = Scene::Top;
                    None
                },
                Scene::InputTester => {
                    self.scene = Scene::InputMenu;
                    None
                },
                Scene::KeyConfig => {
                    self.scene = Scene::InputMenu;
                    self.key_config = None;
                    None
                },
                Scene::ConfirmClearSave => {
                    self.scene = Scene::Top;
                    None
                },
            };
        }
        match self.scene {
            Scene::Top => self.handle_top(inputs),
            Scene::InputMenu => self.handle_input_menu(inputs, keymap),
            Scene::InputTester => None,
            Scene::KeyConfig => self.handle_key_config(kc),
            Scene::ConfirmClearSave => self.handle_confirm_clear(inputs),
        }
    }
}

} // verus!
