//! Abstract input actions. User Lua references actions via `input.LEFT`
//! etc. (integer IDs); at runtime each action is a union over keyboard
//! keys, gamepad buttons, and analog-stick directions.

use crate::keys::{
    GAMEPAD_AXIS_LEFT_X, GAMEPAD_AXIS_LEFT_Y, GAMEPAD_BUTTON_LEFT_FACE_DOWN,
    GAMEPAD_BUTTON_LEFT_FACE_LEFT, GAMEPAD_BUTTON_LEFT_FACE_RIGHT, GAMEPAD_BUTTON_LEFT_FACE_UP,
    GAMEPAD_BUTTON_LEFT_TRIGGER_1, GAMEPAD_BUTTON_RIGHT_FACE_DOWN, GAMEPAD_BUTTON_RIGHT_FACE_LEFT,
    GAMEPAD_BUTTON_RIGHT_FACE_RIGHT, GAMEPAD_BUTTON_RIGHT_FACE_UP, GAMEPAD_BUTTON_RIGHT_TRIGGER_1,
    KEY_A, KEY_C, KEY_D, KEY_DOWN, KEY_J, KEY_K, KEY_L, KEY_LEFT, KEY_RIGHT, KEY_S, KEY_UP, KEY_W,
    KEY_X, KEY_Z,
};
use crate::keymap::Keymap;
use crate::project_name::opt_str_view;
use crate::text::{
    ascii_lower, ascii_lower_chars, ascii_lower_exec, ascii_lower_seq, chars_of, contains_chars,
    contains_seq, push_all, starts_with_chars, starts_with_seq, string_of,
};
use vstd::prelude::*;

verus! {

// Action IDs. Stable integers exposed to Lua as `input.LEFT` etc.
pub const ACTION_LEFT: u32 = 1;
pub const ACTION_RIGHT: u32 = 2;
pub const ACTION_UP: u32 = 3;
pub const ACTION_DOWN: u32 = 4;
pub const ACTION_BTN1: u32 = 5;
pub const ACTION_BTN2: u32 = 6;
pub const ACTION_BTN3: u32 = 7;

// Mouse button ids exposed to Lua as `input.MOUSE_LEFT` / `MOUSE_RIGHT`;
// they equal the platform's codes.
pub const MOUSE_LEFT: u32 = 0;
pub const MOUSE_RIGHT: u32 = 1;

/// Number of abstract actions.
pub const ACTION_COUNT: usize = 7;

/// Display names of the actions, indexed by `action - 1`.
pub open spec fn action_names() -> Seq<Seq<char>> {
    seq![
        seq!['L', 'E', 'F', 'T'],
        seq!['R', 'I', 'G', 'H', 'T'],
        seq!['U', 'P'],
        seq!['D', 'O', 'W', 'N'],
        seq!['B', 'T', 'N', '1'],
        seq!['B', 'T', 'N', '2'],
        seq!['B', 'T', 'N', '3'],
    ]
}

/// Display name of the action at index `i` (`action - 1`).
pub fn action_name(i: usize) -> (r: &'static str)
    requires
        i < ACTION_COUNT,
    ensures
        r@ == action_names()[i as int],
{
    match i {
        0 => {
            proof {
                reveal_strlit("LEFT");
                assert("LEFT"@ =~= action_names()[0]);
            }
            "LEFT"
        },
        1 => {
            proof {
                reveal_strlit("RIGHT");
                assert("RIGHT"@ =~= action_names()[1]);
            }
            "RIGHT"
        },
        2 => {
            proof {
                reveal_strlit("UP");
                assert("UP"@ =~= action_names()[2]);
            }
            "UP"
        },
        3 => {
            proof {
                reveal_strlit("DOWN");
                assert("DOWN"@ =~= action_names()[3]);
            }
            "DOWN"
        },
        4 => {
            proof {
                reveal_strlit("BTN1");
                assert("BTN1"@ =~= action_names()[4]);
            }
            "BTN1"
        },
        5 => {
            proof {
                reveal_strlit("BTN2");
                assert("BTN2"@ =~= action_names()[5]);
            }
            "BTN2"
        },
        _ => {
            proof {
                reveal_strlit("BTN3");
                assert("BTN3"@ =~= action_names()[6]);
            }
            "BTN3"
        },
    }
}

/// ASCII case-insensitive equality (`str::eq_ignore_ascii_case`).
pub open spec fn eq_ignore_ascii_case(a: Seq<char>, b: Seq<char>) -> bool {
    a.len() == b.len() && forall|i: int| 0 <= i < a.len() ==> ascii_lower(a[i]) == ascii_lower(b[i])
}

pub fn eq_ignore_ascii_case_exec(a: &Vec<char>, b: &Vec<char>) -> (r: bool)
    ensures
        r == eq_ignore_ascii_case(a@, b@),
{
    if a.len() != b.len() {
        return false;
    }
    let mut i: usize = 0;
    while i < a.len()
        invariant
            a.len() == b.len(),
            i <= a.len(),
            forall|k: int| 0 <= k < i ==> ascii_lower(a@[k]) == ascii_lower(b@[k]),
        decreases a.len() - i,
    {
        if ascii_lower_exec(a[i]) != ascii_lower_exec(b[i]) {
            return false;
        }
        i = i + 1;
    }
    true
}

/// The action index (`action - 1`) whose name equals `name` ignoring
/// ASCII case, if any.
pub open spec fn action_index_of(name: Seq<char>) -> Option<int> {
    if exists|i: int| 0 <= i < 7 && eq_ignore_ascii_case(#[trigger] action_names()[i], name) {
        Some(choose|i: int| 0 <= i < 7 && eq_ignore_ascii_case(#[trigger] action_names()[i], name))
    } else {
        None
    }
}

/// The only action whose name could match a string of this length, first
/// and last character (lowercased): the names differ in one of these.
pub open spec fn action_candidate(len: int, first: char, last: char) -> Option<int> {
    if len == 4 && first == 'l' && last == 't' {
        Some(0)
    } else if len == 5 && first == 'r' && last == 't' {
        Some(1)
    } else if len == 2 && first == 'u' && last == 'p' {
        Some(2)
    } else if len == 4 && first == 'd' && last == 'n' {
        Some(3)
    } else if len == 4 && first == 'b' && last == '1' {
        Some(4)
    } else if len == 4 && first == 'b' && last == '2' {
        Some(5)
    } else if len == 4 && first == 'b' && last == '3' {
        Some(6)
    } else {
        None
    }
}

proof fn lemma_action_candidate(i: int, name: Seq<char>)
    requires
        0 <= i < 7,
        eq_ignore_ascii_case(action_names()[i], name),
    ensures
        name.len() > 0,
        action_candidate(name.len() as int, ascii_lower(name[0]), ascii_lower(name.last()))
            == Some(i),
{
    let n = action_names()[i];
    assert(ascii_lower(n[0]) == ascii_lower(name[0]));
    assert(ascii_lower(n[n.len() - 1]) == ascii_lower(name[name.len() - 1]));
}

/// Action names are distinct ignoring case: at most one matches a string.
pub proof fn lemma_action_names_distinct(i: int, j: int, name: Seq<char>)
    requires
        0 <= i < 7,
        0 <= j < 7,
        eq_ignore_ascii_case(action_names()[i], name),
        eq_ignore_ascii_case(action_names()[j], name),
    ensures
        i == j,
{
    lemma_action_candidate(i, name);
    lemma_action_candidate(j, name);
}

/// Each action name is recognised as its own action.
pub proof fn lemma_action_index_of_name(i: int)
    requires
        0 <= i < 7,
    ensures
        action_index_of(action_names()[i]) == Some(i),
{
    assert(eq_ignore_ascii_case(action_names()[i], action_names()[i]));
    let j = choose|j: int|
        0 <= j < 7 && eq_ignore_ascii_case(#[trigger] action_names()[j], action_names()[i]);
    lemma_action_names_distinct(i, j, action_names()[i]);
}

fn action_candidate_exec(len: usize, first: char, last: char) -> (r: Option<usize>)
    ensures
        match r {
            Some(i) => action_candidate(len as int, first, last) == Some(i as int),
            None => action_candidate(len as int, first, last) is None,
        },
{
    if len == 4 && first == 'l' && last == 't' {
        Some(0)
    } else if len == 5 && first == 'r' && last == 't' {
        Some(1)
    } else if len == 2 && first == 'u' && last == 'p' {
        Some(2)
    } else if len == 4 && first == 'd' && last == 'n' {
        Some(3)
    } else if len == 4 && first == 'b' && last == '1' {
        Some(4)
    } else if len == 4 && first == 'b' && last == '2' {
        Some(5)
    } else if len == 4 && first == 'b' && last == '3' {
        Some(6)
    } else {
        None
    }
}

/// The action index whose name matches `name` ignoring ASCII case.
pub fn action_index_of_name(name: &str) -> (r: Option<usize>)
    ensures
        match r {
            Some(i) => action_index_of(name@) == Some(i as int),
            None => action_index_of(name@) is None,
        },
{
    let v = chars_of(name);
    if v.len() == 0 {
        proof {
            assert forall|i: int| 0 <= i < 7 implies !eq_ignore_ascii_case(
                #[trigger] action_names()[i],
                name@,
            ) by {
                if eq_ignore_ascii_case(action_names()[i], name@) {
                    lemma_action_candidate(i, name@);
                }
            }
        }
        return None;
    }
    let first = ascii_lower_exec(v[0]);
    let last = ascii_lower_exec(v[v.len() - 1]);
    match action_candidate_exec(v.len(), first, last) {
        Some(i) => {
            let n = chars_of(action_name(i));
            if eq_ignore_ascii_case_exec(&n, &v) {
                proof {
                    let j = choose|j: int|
                        0 <= j < 7 && eq_ignore_ascii_case(#[trigger] action_names()[j], name@);
                    lemma_action_names_distinct(i as int, j, name@);
                }
                Some(i)
            } else {
                proof {
                    assert forall|j: int| 0 <= j < 7 implies !eq_ignore_ascii_case(
                        #[trigger] action_names()[j],
                        name@,
                    ) by {
                        if eq_ignore_ascii_case(action_names()[j], name@) {
                            lemma_action_candidate(j, name@);
                        }
                    }
                }
                None
            }
        },
        None => {
            proof {
                assert forall|j: int| 0 <= j < 7 implies !eq_ignore_ascii_case(
                    #[trigger] action_names()[j],
                    name@,
                ) by {
                    if eq_ignore_ascii_case(action_names()[j], name@) {
                        lemma_action_candidate(j, name@);
                    }
                }
            }
            None
        },
    }
}


/// Keyboard keys bound to the action at index `i` (`action - 1`).
pub open spec fn binding_keys(i: int) -> Seq<i32> {
    if i == 0 {
        seq![KEY_LEFT, KEY_A]
    } else if i == 1 {
        seq![KEY_RIGHT, KEY_D]
    } else if i == 2 {
        seq![KEY_UP, KEY_W]
    } else if i == 3 {
        seq![KEY_DOWN, KEY_S]
    } else if i == 4 {
        seq![KEY_Z, KEY_J]
    } else if i == 5 {
        seq![KEY_X, KEY_K]
    } else if i == 6 {
        seq![KEY_C, KEY_L]
    } else {
        seq![]
    }
}

/// Gamepad buttons bound to the action at index `i`: the dpad for the
/// directions; south face + left bumper for BTN1, east face + right
/// bumper for BTN2, north + west faces for BTN3.
pub open spec fn binding_buttons(i: int) -> Seq<i32> {
    if i == 0 {
        seq![GAMEPAD_BUTTON_LEFT_FACE_LEFT]
    } else if i == 1 {
        seq![GAMEPAD_BUTTON_LEFT_FACE_RIGHT]
    } else if i == 2 {
        seq![GAMEPAD_BUTTON_LEFT_FACE_UP]
    } else if i == 3 {
        seq![GAMEPAD_BUTTON_LEFT_FACE_DOWN]
    } else if i == 4 {
        seq![GAMEPAD_BUTTON_RIGHT_FACE_DOWN, GAMEPAD_BUTTON_LEFT_TRIGGER_1]
    } else if i == 5 {
        seq![GAMEPAD_BUTTON_RIGHT_FACE_RIGHT, GAMEPAD_BUTTON_RIGHT_TRIGGER_1]
    } else if i == 6 {
        seq![GAMEPAD_BUTTON_RIGHT_FACE_UP, GAMEPAD_BUTTON_RIGHT_FACE_LEFT]
    } else {
        seq![]
    }
}

/// Analog-stick directions `(axis, sign)` bound to the action at index
/// `i`; tilting the axis past the deadzone in the sign's direction fires
/// the action.
pub open spec fn binding_axes(i: int) -> Seq<(i32, i8)> {
    if i == 0 {
        seq![(GAMEPAD_AXIS_LEFT_X, -1i8)]
    } else if i == 1 {
        seq![(GAMEPAD_AXIS_LEFT_X, 1i8)]
    } else if i == 2 {
        seq![(GAMEPAD_AXIS_LEFT_Y, -1i8)]
    } else if i == 3 {
        seq![(GAMEPAD_AXIS_LEFT_Y, 1i8)]
    } else {
        seq![]
    }
}

/// `action` is one of the `ACTION_*` ids.
pub open spec fn is_valid_action_spec(action: u32) -> bool {
    1 <= action && action <= 7
}

/// True if `action` is one of the exposed `ACTION_*` constants.
pub fn is_valid_action(action: u32) -> (r: bool)
    ensures
        r == is_valid_action_spec(action),
{
    action >= 1 && action <= 7
}

/// The keyboard keys of the action at index `i`.
pub fn binding_keys_exec(i: usize) -> (r: Vec<i32>)
    requires
        i < ACTION_COUNT,
    ensures
        r@ == binding_keys(i as int),
{
    let r = match i {
        0 => vec![KEY_LEFT, KEY_A],
        1 => vec![KEY_RIGHT, KEY_D],
        2 => vec![KEY_UP, KEY_W],
        3 => vec![KEY_DOWN, KEY_S],
        4 => vec![KEY_Z, KEY_J],
        5 => vec![KEY_X, KEY_K],
        _ => vec![KEY_C, KEY_L],
    };
    proof {
        assert(r@ =~= binding_keys(i as int));
    }
    r
}

/// The gamepad buttons of the action at index `i`.
pub fn binding_buttons_exec(i: usize) -> (r: Vec<i32>)
    requires
        i < ACTION_COUNT,
    ensures
        r@ == binding_buttons(i as int),
{
    let r = match i {
        0 => vec![GAMEPAD_BUTTON_LEFT_FACE_LEFT],
        1 => vec![GAMEPAD_BUTTON_LEFT_FACE_RIGHT],
        2 => vec![GAMEPAD_BUTTON_LEFT_FACE_UP],
        3 => vec![GAMEPAD_BUTTON_LEFT_FACE_DOWN],
        4 => vec![GAMEPAD_BUTTON_RIGHT_FACE_DOWN, GAMEPAD_BUTTON_LEFT_TRIGGER_1],
        5 => vec![GAMEPAD_BUTTON_RIGHT_FACE_RIGHT, GAMEPAD_BUTTON_RIGHT_TRIGGER_1],
        _ => vec![GAMEPAD_BUTTON_RIGHT_FACE_UP, GAMEPAD_BUTTON_RIGHT_FACE_LEFT],
    };
    proof {
        assert(r@ =~= binding_buttons(i as int));
    }
    r
}

/// The stick directions of the action at index `i`.
pub fn binding_axes_exec(i: usize) -> (r: Vec<(i32, i8)>)
    requires
        i < ACTION_COUNT,
    ensures
        r@ == binding_axes(i as int),
{
    let r = match i {
        0 => vec![(GAMEPAD_AXIS_LEFT_X, -1i8)],
        1 => vec![(GAMEPAD_AXIS_LEFT_X, 1i8)],
        2 => vec![(GAMEPAD_AXIS_LEFT_Y, -1i8)],
        3 => vec![(GAMEPAD_AXIS_LEFT_Y, 1i8)],
        _ => Vec::new(),
    };
    proof {
        assert(r@ =~= binding_axes(i as int));
    }
    r
}

/// Face-button glyph family, detected from the connected gamepad's name;
/// Xbox for unknown, generic and Steam Deck pads.
#[derive(Clone, Copy, Debug, PartialEq, Eq, Structural)]
pub enum GamepadFamily {
    Xbox,
    PlayStation,
    Nintendo,
}

impl Default for GamepadFamily {
    fn default() -> (r: Self)
        ensures
            r == GamepadFamily::Xbox,
    {
        GamepadFamily::Xbox
    }
}

/// Face buttons that fire `action` on a pad of `family`: the static
/// binding, except that Nintendo pads swap the south and east faces for
/// BTN1 and BTN2 (A = primary, B = cancel); bumpers and BTN3 stay put.
pub open spec fn effective_face_buttons_spec(action: u32, family: GamepadFamily) -> Seq<i32> {
    if action == ACTION_BTN1 && family == GamepadFamily::Nintendo {
        seq![GAMEPAD_BUTTON_RIGHT_FACE_RIGHT, GAMEPAD_BUTTON_LEFT_TRIGGER_1]
    } else if action == ACTION_BTN2 && family == GamepadFamily::Nintendo {
        seq![GAMEPAD_BUTTON_RIGHT_FACE_DOWN, GAMEPAD_BUTTON_RIGHT_TRIGGER_1]
    } else if is_valid_action_spec(action) {
        binding_buttons(action - 1)
    } else {
        seq![]
    }
}

/// Gamepad face buttons that fire `action` for the given family.
pub fn effective_face_buttons(action: u32, family: GamepadFamily) -> (r: Vec<i32>)
    ensures
        r@ == effective_face_buttons_spec(action, family),
{
    if action == ACTION_BTN1 && family == GamepadFamily::Nintendo {
        let r = vec![GAMEPAD_BUTTON_RIGHT_FACE_RIGHT, GAMEPAD_BUTTON_LEFT_TRIGGER_1];
        proof {
            assert(r@ =~= effective_face_buttons_spec(action, family));
        }
        r
    } else if action == ACTION_BTN2 && family == GamepadFamily::Nintendo {
        let r = vec![GAMEPAD_BUTTON_RIGHT_FACE_DOWN, GAMEPAD_BUTTON_RIGHT_TRIGGER_1];
        proof {
            assert(r@ =~= effective_face_buttons_spec(action, family));
        }
        r
    } else if is_valid_action(action) {
        binding_buttons_exec((action - 1) as usize)
    } else {
        let r: Vec<i32> = Vec::new();
        proof {
            assert(r@ =~= effective_face_buttons_spec(action, family));
        }
        r
    }
}

/// Family of a pad with the given name: ASCII case-insensitive substring
/// matches, loose on purpose since names vary by OS and driver.
pub open spec fn family_of_name(name: Seq<char>) -> GamepadFamily {
    let n = ascii_lower_seq(name);
    if contains_seq(n, seq!['p', 'l', 'a', 'y', 's', 't', 'a', 't', 'i', 'o', 'n'])
        || contains_seq(n, seq!['d', 'u', 'a', 'l', 's', 'h', 'o', 'c', 'k'])
        || contains_seq(n, seq!['d', 'u', 'a', 'l', 's', 'e', 'n', 's', 'e'])
        || contains_seq(n, seq!['s', 'o', 'n', 'y'])
        || starts_with_seq(n, seq!['p', 's']) {
        GamepadFamily::PlayStation
    } else if contains_seq(n, seq!['s', 'w', 'i', 't', 'c', 'h'])
        || contains_seq(n, seq!['n', 'i', 'n', 't', 'e', 'n', 'd', 'o'])
        || contains_seq(n, seq!['j', 'o', 'y', '-', 'c', 'o', 'n'])
        || contains_seq(n, seq!['p', 'r', 'o', ' ', 'c', 'o', 'n', 't', 'r', 'o', 'l', 'l', 'e', 'r']) {
        GamepadFamily::Nintendo
    } else {
        GamepadFamily::Xbox
    }
}

/// A needle for the family matcher, as characters.
fn needle(s: &str) -> (r: Vec<char>)
    ensures
        r@ == s@,
{
    chars_of(s)
}

impl GamepadFamily {
    /// Substring-matches the gamepad name reported by the platform.
    pub fn detect(name: &str) -> (r: Self)
        ensures
            r == family_of_name(name@),
    {
        let n = ascii_lower_chars(&chars_of(name));
        let k0 = needle("playstation");
        let k1 = needle("dualshock");
        let k2 = needle("dualsense");
        let k3 = needle("sony");
        let k4 = needle("ps");
        let k5 = needle("switch");
        let k6 = needle("nintendo");
        let k7 = needle("joy-con");
        let k8 = needle("pro controller");
        proof {
            reveal_strlit("playstation");
            assert(k0@ =~= seq!['p', 'l', 'a', 'y', 's', 't', 'a', 't', 'i', 'o', 'n']);
            reveal_strlit("dualshock");
            assert(k1@ =~= seq!['d', 'u', 'a', 'l', 's', 'h', 'o', 'c', 'k']);
            reveal_strlit("dualsense");
            assert(k2@ =~= seq!['d', 'u', 'a', 'l', 's', 'e', 'n', 's', 'e']);
            reveal_strlit("sony");
            assert(k3@ =~= seq!['s', 'o', 'n', 'y']);
            reveal_strlit("ps");
            assert(k4@ =~= seq!['p', 's']);
            reveal_strlit("switch");
            assert(k5@ =~= seq!['s', 'w', 'i', 't', 'c', 'h']);
            reveal_strlit("nintendo");
            assert(k6@ =~= seq!['n', 'i', 'n', 't', 'e', 'n', 'd', 'o']);
            reveal_strlit("joy-con");
            assert(k7@ =~= seq!['j', 'o', 'y', '-', 'c', 'o', 'n']);
            reveal_strlit("pro controller");
            assert(k8@ =~= seq!['p', 'r', 'o', ' ', 'c', 'o', 'n', 't', 'r', 'o', 'l', 'l', 'e', 'r']);
        }
        if contains_chars(&n, &k0)
            || contains_chars(&n, &k1)
            || contains_chars(&n, &k2)
            || contains_chars(&n, &k3)
            || starts_with_chars(&n, &k4) {
            return GamepadFamily::PlayStation;
        }
        if contains_chars(&n, &k5)
            || contains_chars(&n, &k6)
            || contains_chars(&n, &k7)
            || contains_chars(&n, &k8) {
            return GamepadFamily::Nintendo;
        }
        GamepadFamily::Xbox
    }
}

/// Short label of a default-bound key, `?` for any other key.
pub open spec fn short_key_label(k: i32) -> Seq<char> {
    if k == KEY_LEFT {
        seq!['L', 'e', 'f', 't']
    } else if k == KEY_RIGHT {
        seq!['R', 'i', 'g', 'h', 't']
    } else if k == KEY_UP {
        seq!['U', 'p']
    } else if k == KEY_DOWN {
        seq!['D', 'o', 'w', 'n']
    } else if k == KEY_A {
        seq!['A']
    } else if k == KEY_D {
        seq!['D']
    } else if k == KEY_W {
        seq!['W']
    } else if k == KEY_S {
        seq!['S']
    } else if k == KEY_Z {
        seq!['Z']
    } else if k == KEY_X {
        seq!['X']
    } else if k == KEY_C {
        seq!['C']
    } else if k == KEY_J {
        seq!['J']
    } else if k == KEY_K {
        seq!['K']
    } else if k == KEY_L {
        seq!['L']
    } else {
        seq!['?']
    }
}

/// Short label of a key as shown in the pause menu.
pub fn key_label(k: i32) -> (r: &'static str)
    ensures
        r@ == short_key_label(k),
{
    if k == KEY_LEFT {
        proof {
            reveal_strlit("Left");
            assert("Left"@ =~= seq!['L', 'e', 'f', 't']);
        }
        "Left"
    } else if k == KEY_RIGHT {
        proof {
            reveal_strlit("Right");
            assert("Right"@ =~= seq!['R', 'i', 'g', 'h', 't']);
        }
        "Right"
    } else if k == KEY_UP {
        proof {
            reveal_strlit("Up");
            assert("Up"@ =~= seq!['U', 'p']);
        }
        "Up"
    } else if k == KEY_DOWN {
        proof {
            reveal_strlit("Down");
            assert("Down"@ =~= seq!['D', 'o', 'w', 'n']);
        }
        "Down"
    } else if k == KEY_A {
        proof {
            reveal_strlit("A");
            assert("A"@ =~= seq!['A']);
        }
        "A"
    } else if k == KEY_D {
        proof {
            reveal_strlit("D");
            assert("D"@ =~= seq!['D']);
        }
        "D"
    } else if k == KEY_W {
        proof {
            reveal_strlit("W");
            assert("W"@ =~= seq!['W']);
        }
        "W"
    } else if k == KEY_S {
        proof {
            reveal_strlit("S");
            assert("S"@ =~= seq!['S']);
        }
        "S"
    } else if k == KEY_Z {
        proof {
            reveal_strlit("Z");
            assert("Z"@ =~= seq!['Z']);
        }
        "Z"
    } else if k == KEY_X {
        proof {
            reveal_strlit("X");
            assert("X"@ =~= seq!['X']);
        }
        "X"
    } else if k == KEY_C {
        proof {
            reveal_strlit("C");
            assert("C"@ =~= seq!['C']);
        }
        "C"
    } else if k == KEY_J {
        proof {
            reveal_strlit("J");
            assert("J"@ =~= seq!['J']);
        }
        "J"
    } else if k == KEY_K {
        proof {
            reveal_strlit("K");
            assert("K"@ =~= seq!['K']);
        }
        "K"
    } else if k == KEY_L {
        proof {
            reveal_strlit("L");
            assert("L"@ =~= seq!['L']);
        }
        "L"
    } else {
        proof {
            reveal_strlit("?");
            assert("?"@ =~= seq!['?']);
        }
        "?"
    }
}

/// Label of a gamepad button for a family: the face buttons read A/B/X/Y
/// on Xbox, Cross/Circle/Triangle/Square on PlayStation and the mirrored
/// B/A/X/Y on Nintendo; the dpad is family-agnostic; bumpers are LB/RB,
/// L1/R1 or L/R; `?` for anything else.
pub open spec fn button_label_spec(b: i32, family: GamepadFamily) -> Seq<char> {
    if b == GAMEPAD_BUTTON_RIGHT_FACE_DOWN {
        match family {
            GamepadFamily::Xbox => seq!['A'],
            GamepadFamily::PlayStation => seq!['C', 'r', 'o', 's', 's'],
            GamepadFamily::Nintendo => seq!['B'],
        }
    } else if b == GAMEPAD_BUTTON_RIGHT_FACE_RIGHT {
        match family {
            GamepadFamily::Xbox => seq!['B'],
            GamepadFamily::PlayStation => seq!['C', 'i', 'r', 'c', 'l', 'e'],
            GamepadFamily::Nintendo => seq!['A'],
        }
    } else if b == GAMEPAD_BUTTON_RIGHT_FACE_UP {
        match family {
            GamepadFamily::Xbox => seq!['Y'],
            GamepadFamily::PlayStation => seq!['T', 'r', 'i', 'a', 'n', 'g', 'l', 'e'],
            GamepadFamily::Nintendo => seq!['X'],
        }
    } else if b == GAMEPAD_BUTTON_RIGHT_FACE_LEFT {
        match family {
            GamepadFamily::Xbox => seq!['X'],
            GamepadFamily::PlayStation => seq!['S', 'q', 'u', 'a', 'r', 'e'],
            GamepadFamily::Nintendo => seq!['Y'],
        }
    } else if b == GAMEPAD_BUTTON_LEFT_TRIGGER_1 {
        match family {
            GamepadFamily::Xbox => seq!['L', 'B'],
            GamepadFamily::PlayStation => seq!['L', '1'],
            GamepadFamily::Nintendo => seq!['L'],
        }
    } else if b == GAMEPAD_BUTTON_RIGHT_TRIGGER_1 {
        match family {
            GamepadFamily::Xbox => seq!['R', 'B'],
            GamepadFamily::PlayStation => seq!['R', '1'],
            GamepadFamily::Nintendo => seq!['R'],
        }
    } else if b == GAMEPAD_BUTTON_LEFT_FACE_LEFT {
        seq!['L', 'e', 'f', 't']
    } else if b == GAMEPAD_BUTTON_LEFT_FACE_RIGHT {
        seq!['R', 'i', 'g', 'h', 't']
    } else if b == GAMEPAD_BUTTON_LEFT_FACE_UP {
        seq!['U', 'p']
    } else if b == GAMEPAD_BUTTON_LEFT_FACE_DOWN {
        seq!['D', 'o', 'w', 'n']
    } else {
        seq!['?']
    }
}

/// Label of a gamepad button for a family.
pub fn button_label(b: i32, family: GamepadFamily) -> (r: &'static str)
    ensures
        r@ == button_label_spec(b, family),
{
    if b == GAMEPAD_BUTTON_RIGHT_FACE_DOWN {
        match family {
            GamepadFamily::Xbox => {
                proof {
                    reveal_strlit("A");
                    assert("A"@ =~= seq!['A']);
                }
                "A"
            },
            GamepadFamily::PlayStation => {
                proof {
                    reveal_strlit("Cross");
                    assert("Cross"@ =~= seq!['C', 'r', 'o', 's', 's']);
                }
                "Cross"
            },
            GamepadFamily::Nintendo => {
                proof {
                    reveal_strlit("B");
                    assert("B"@ =~= seq!['B']);
                }
                "B"
            },
        }
    } else if b == GAMEPAD_BUTTON_RIGHT_FACE_RIGHT {
        match family {
            GamepadFamily::Xbox => {
                proof {
                    reveal_strlit("B");
                    assert("B"@ =~= seq!['B']);
                }
                "B"
            },
            GamepadFamily::PlayStation => {
                proof {
                    reveal_strlit("Circle");
                    assert("Circle"@ =~= seq!['C', 'i', 'r', 'c', 'l', 'e']);
                }
                "Circle"
            },
            GamepadFamily::Nintendo => {
                proof {
                    reveal_strlit("A");
                    assert("A"@ =~= seq!['A']);
                }
                "A"
            },
        }
    } else if b == GAMEPAD_BUTTON_RIGHT_FACE_UP {
        match family {
            GamepadFamily::Xbox => {
                proof {
                    reveal_strlit("Y");
                    assert("Y"@ =~= seq!['Y']);
                }
                "Y"
            },
            GamepadFamily::PlayStation => {
                proof {
                    reveal_strlit("Triangle");
                    assert("Triangle"@ =~= seq!['T', 'r', 'i', 'a', 'n', 'g', 'l', 'e']);
                }
                "Triangle"
            },
            GamepadFamily::Nintendo => {
                proof {
                    reveal_strlit("X");
                    assert("X"@ =~= seq!['X']);
                }
                "X"
            },
        }
    } else if b == GAMEPAD_BUTTON_RIGHT_FACE_LEFT {
        match family {
            GamepadFamily::Xbox => {
                proof {
                    reveal_strlit("X");
                    assert("X"@ =~= seq!['X']);
                }
                "X"
            },
            GamepadFamily::PlayStation => {
                proof {
                    reveal_strlit("Square");
                    assert("Square"@ =~= seq!['S', 'q', 'u', 'a', 'r', 'e']);
                }
                "Square"
            },
            GamepadFamily::Nintendo => {
                proof {
                    reveal_strlit("Y");
                    assert("Y"@ =~= seq!['Y']);
                }
                "Y"
            },
        }
    } else if b == GAMEPAD_BUTTON_LEFT_TRIGGER_1 {
        match family {
            GamepadFamily::Xbox => {
                proof {
                    reveal_strlit("LB");
                    assert("LB"@ =~= seq!['L', 'B']);
                }
                "LB"
            },
            GamepadFamily::PlayStation => {
                proof {
                    reveal_strlit("L1");
                    assert("L1"@ =~= seq!['L', '1']);
                }
                "L1"
            },
            GamepadFamily::Nintendo => {
                proof {
                    reveal_strlit("L");
                    assert("L"@ =~= seq!['L']);
                }
                "L"
            },
        }
    } else if b == GAMEPAD_BUTTON_RIGHT_TRIGGER_1 {
        match family {
            GamepadFamily::Xbox => {
                proof {
                    reveal_strlit("RB");
                    assert("RB"@ =~= seq!['R', 'B']);
                }
                "RB"
            },
            GamepadFamily::PlayStation => {
                proof {
                    reveal_strlit("R1");
                    assert("R1"@ =~= seq!['R', '1']);
                }
                "R1"
            },
            GamepadFamily::Nintendo => {
                proof {
                    reveal_strlit("R");
                    assert("R"@ =~= seq!['R']);
                }
                "R"
            },
        }
    } else if b == GAMEPAD_BUTTON_LEFT_FACE_LEFT {
        proof {
            reveal_strlit("Left");
            assert("Left"@ =~= seq!['L', 'e', 'f', 't']);
        }
        "Left"
    } else if b == GAMEPAD_BUTTON_LEFT_FACE_RIGHT {
        proof {
            reveal_strlit("Right");
            assert("Right"@ =~= seq!['R', 'i', 'g', 'h', 't']);
        }
        "Right"
    } else if b == GAMEPAD_BUTTON_LEFT_FACE_UP {
        proof {
            reveal_strlit("Up");
            assert("Up"@ =~= seq!['U', 'p']);
        }
        "Up"
    } else if b == GAMEPAD_BUTTON_LEFT_FACE_DOWN {
        proof {
            reveal_strlit("Down");
            assert("Down"@ =~= seq!['D', 'o', 'w', 'n']);
        }
        "Down"
    } else {
        proof {
            reveal_strlit("?");
            assert("?"@ =~= seq!['?']);
        }
        "?"
    }
}

/// Label of a stick direction: the left stick reads as a dpad by the
/// sign of the tilt; `?` for other axes and for a zero sign.
pub open spec fn axis_label_spec(axis: i32, sign: i8) -> Seq<char> {
    if axis == GAMEPAD_AXIS_LEFT_X && sign < 0 {
        seq!['L', 'e', 'f', 't']
    } else if axis == GAMEPAD_AXIS_LEFT_X && sign > 0 {
        seq!['R', 'i', 'g', 'h', 't']
    } else if axis == GAMEPAD_AXIS_LEFT_Y && sign < 0 {
        seq!['U', 'p']
    } else if axis == GAMEPAD_AXIS_LEFT_Y && sign > 0 {
        seq!['D', 'o', 'w', 'n']
    } else {
        seq!['?']
    }
}

/// Label of a stick direction.
pub fn axis_label(axis: i32, sign: i8) -> (r: &'static str)
    ensures
        r@ == axis_label_spec(axis, sign),
{
    if axis == GAMEPAD_AXIS_LEFT_X && sign < 0 {
        proof {
            reveal_strlit("Left");
            assert("Left"@ =~= seq!['L', 'e', 'f', 't']);
        }
        "Left"
    } else if axis == GAMEPAD_AXIS_LEFT_X && sign > 0 {
        proof {
            reveal_strlit("Right");
            assert("Right"@ =~= seq!['R', 'i', 'g', 'h', 't']);
        }
        "Right"
    } else if axis == GAMEPAD_AXIS_LEFT_Y && sign < 0 {
        proof {
            reveal_strlit("Up");
            assert("Up"@ =~= seq!['U', 'p']);
        }
        "Up"
    } else if axis == GAMEPAD_AXIS_LEFT_Y && sign > 0 {
        proof {
            reveal_strlit("Down");
            assert("Down"@ =~= seq!['D', 'o', 'w', 'n']);
        }
        "Down"
    } else {
        proof {
            reveal_strlit("?");
            assert("?"@ =~= seq!['?']);
        }
        "?"
    }
}

/// Which input source most recently fired a bound action; drives which
/// glyphs `mapping_for` reports.
#[derive(Clone, Copy, Debug, PartialEq, Eq, Structural)]
pub enum InputSource {
    Keyboard,
    Gamepad,
}

impl Default for InputSource {
    fn default() -> (r: Self)
        ensures
            r == InputSource::Keyboard,
    {
        InputSource::Keyboard
    }
}

/// Lowercase name of a source, as exposed to Lua.
pub open spec fn source_name(s: InputSource) -> Seq<char> {
    match s {
        InputSource::Keyboard => seq!['k', 'e', 'y', 'b', 'o', 'a', 'r', 'd'],
        InputSource::Gamepad => seq!['g', 'a', 'm', 'e', 'p', 'a', 'd'],
    }
}

impl InputSource {
    /// Lowercase name exposed to Lua as `input.last_source()`.
    pub fn as_str(self) -> (r: &'static str)
        ensures
            r@ == source_name(self),
    {
        match self {
            InputSource::Keyboard => {
                proof {
                    reveal_strlit("keyboard");
                    assert("keyboard"@ =~= source_name(self));
                }
                "keyboard"
            },
            InputSource::Gamepad => {
                proof {
                    reveal_strlit("gamepad");
                    assert("gamepad"@ =~= source_name(self));
                }
                "gamepad"
            },
        }
    }
}



/// `k` is some action's keyboard override.
pub open spec fn claimed(m: Seq<Option<i32>>, k: i32) -> bool {
    exists|i: int| 0 <= i < 7 && #[trigger] m[i] == Some(k)
}

/// The first of `keys` that no action claims as its override.
pub open spec fn first_unclaimed(keys: Seq<i32>, m: Seq<Option<i32>>) -> Option<i32>
    decreases keys.len(),
{
    if keys.len() == 0 {
        None
    } else if !claimed(m, keys[0]) {
        Some(keys[0])
    } else {
        first_unclaimed(keys.drop_first(), m)
    }
}

/// Label of the primary binding of `action` on `source`: on the keyboard
/// the override if one is set, else the first default key not claimed by
/// another action's override; on a gamepad the first face button of the
/// family, else the first stick direction. `None` for unknown actions and
/// when no binding is left on that source.
pub open spec fn mapping_spec(
    action: u32,
    m: Seq<Option<i32>>,
    source: InputSource,
    family: GamepadFamily,
) -> Option<Seq<char>> {
    if !is_valid_action_spec(action) {
        None
    } else {
        match source {
            InputSource::Keyboard => match m[action - 1] {
                Some(k) => Some(short_key_label(k)),
                None => match first_unclaimed(binding_keys(action - 1), m) {
                    Some(k) => Some(short_key_label(k)),
                    None => None,
                },
            },
            InputSource::Gamepad => {
                let bs = effective_face_buttons_spec(action, family);
                let axes = binding_axes(action - 1);
                if bs.len() > 0 {
                    Some(button_label_spec(bs[0], family))
                } else if axes.len() > 0 {
                    Some(axis_label_spec(axes[0].0, axes[0].1))
                } else {
                    None
                }
            },
        }
    }
}

/// Label of the primary binding for `action` on the given input source,
/// honoring keymap overrides and the suppress-overridden-defaults rule.
pub fn mapping_for(
    action: u32,
    keymap: &Keymap,
    source: InputSource,
    family: GamepadFamily,
) -> (r: Option<&'static str>)
    ensures
        opt_str_view(r) == mapping_spec(action, keymap.overrides@, source, family),
{
    if !is_valid_action(action) {
        return None;
    }
    let i = (action - 1) as usize;
    match source {
        InputSource::Keyboard => {
            if let Some(k) = keymap.override_for(action) {
                return Some(key_label(k));
            }
            let keys = binding_keys_exec(i);
            let ghost m = keymap.overrides@;
            proof {
                assert(keys@.subrange(0, keys.len() as int) =~= keys@);
                assert(m[action - 1] is None);
            }
            let mut j: usize = 0;
            while j < keys.len()
                invariant
                    j <= keys.len(),
                    m == keymap.overrides@,
                    keys@ == binding_keys(i as int),
                    i == action - 1,
                    is_valid_action_spec(action),
                    source == InputSource::Keyboard,
                    m[action - 1] is None,
                    first_unclaimed(keys@, m) == first_unclaimed(
                        keys@.subrange(j as int, keys.len() as int),
                        m,
                    ),
                decreases keys.len() - j,
            {
                let ghost rest = keys@.subrange(j as int, keys.len() as int);
                if !keymap.is_used_as_override(keys[j]) {
                    proof {
                        assert(rest[0] == keys@[j as int]);
                        assert(!claimed(m, rest[0]));
                        assert(first_unclaimed(rest, m) == Some(keys@[j as int]));
                    }
                    return Some(key_label(keys[j]));
                }
                proof {
                    assert(rest[0] == keys@[j as int]);
                    assert(rest.drop_first() =~= keys@.subrange(j + 1, keys.len() as int));
                }
                j = j + 1;
            }
            proof {
                assert(keys@.subrange(keys.len() as int, keys.len() as int).len() == 0);
            }
            None
        },
        InputSource::Gamepad => {
            let buttons = effective_face_buttons(action, family);
            if buttons.len() > 0 {
                return Some(button_label(buttons[0], family));
            }
            let axes = binding_axes_exec(i);
            if axes.len() > 0 {
                let (axis, sign) = axes[0];
                return Some(axis_label(axis, sign));
            }
            None
        },
    }
}

/// Parts joined with ", " between them.
pub open spec fn join_comma(ws: Seq<Seq<char>>) -> Seq<char>
    decreases ws.len(),
{
    if ws.len() == 0 {
        seq![]
    } else if ws.len() == 1 {
        ws[0]
    } else {
        join_comma(ws.drop_last()) + seq![',', ' '] + ws.last()
    }
}

/// The views of a list of character vectors.
pub open spec fn char_views(ps: Seq<Vec<char>>) -> Seq<Seq<char>> {
    ps.map_values(|p: Vec<char>| p@)
}

/// Joins the parts with ", ".
pub fn join_comma_exec(parts: &Vec<Vec<char>>) -> (r: Vec<char>)
    ensures
        r@ == join_comma(char_views(parts@)),
{
    let ghost ws = char_views(parts@);
    let mut out: Vec<char> = Vec::new();
    if parts.len() == 0 {
        return out;
    }
    push_all(&mut out, parts[0].as_slice());
    proof {
        assert(ws.subrange(0, 1).len() == 1);
        assert(out@ =~= join_comma(ws.subrange(0, 1)));
    }
    let mut i: usize = 1;
    while i < parts.len()
        invariant
            1 <= i <= parts.len(),
            ws == char_views(parts@),
            out@ == join_comma(ws.subrange(0, i as int)),
        decreases parts.len() - i,
    {
        let ghost before = out@;
        out.push(',');
        out.push(' ');
        push_all(&mut out, parts[i].as_slice());
        proof {
            let w = ws.subrange(0, i + 1);
            assert(w.drop_last() =~= ws.subrange(0, i as int));
            assert(w.last() == parts@[i as int]@);
            assert(out@ =~= before + seq![',', ' '] + parts@[i as int]@);
        }
        i = i + 1;
    }
    proof {
        assert(ws.subrange(0, parts.len() as int) =~= ws);
    }
    out
}

/// Keyboard column of the input table for the action at index `i`: the
/// override's label if one is set, else the default keys' labels.
pub open spec fn kb_column(m: Seq<Option<i32>>, i: int) -> Seq<char> {
    match m[i] {
        Some(k) => short_key_label(k),
        None => join_comma(binding_keys(i).map_values(|k: i32| short_key_label(k))),
    }
}

/// Gamepad column of the input table for the action at index `i`: the
/// family's face buttons, then the stick directions.
pub open spec fn gp_column(i: int, family: GamepadFamily) -> Seq<char> {
    join_comma(
        effective_face_buttons_spec((i + 1) as u32, family).map_values(
            |b: i32| button_label_spec(b, family),
        ) + binding_axes(i).map_values(|a: (i32, i8)| axis_label_spec(a.0, a.1)),
    )
}

/// Labels of the given keys.
fn key_label_parts(keys: &Vec<i32>) -> (r: Vec<Vec<char>>)
    ensures
        char_views(r@) == keys@.map_values(|k: i32| short_key_label(k)),
{
    let mut out: Vec<Vec<char>> = Vec::new();
    let mut j: usize = 0;
    while j < keys.len()
        invariant
            j <= keys.len(),
            char_views(out@) =~= keys@.subrange(0, j as int).map_values(
                |k: i32| short_key_label(k),
            ),
        decreases keys.len() - j,
    {
        let part = chars_of(key_label(keys[j]));
        let ghost before = out@;
        out.push(part);
        proof {
            assert(char_views(out@) =~= char_views(before).push(part@));
            assert(keys@.subrange(0, j + 1) =~= keys@.subrange(0, j as int).push(keys@[j as int]));
        }
        j = j + 1;
    }
    proof {
        assert(keys@.subrange(0, keys.len() as int) =~= keys@);
    }
    out
}

/// Gamepad labels of the action at index `i`.
fn pad_label_parts(i: usize, family: GamepadFamily) -> (r: Vec<Vec<char>>)
    requires
        i < ACTION_COUNT,
    ensures
        char_views(r@) == effective_face_buttons_spec((i + 1) as u32, family).map_values(
            |b: i32| button_label_spec(b, family),
        ) + binding_axes(i as int).map_values(|a: (i32, i8)| axis_label_spec(a.0, a.1)),
{
    let buttons = effective_face_buttons((i + 1) as u32, family);
    let axes = binding_axes_exec(i);
    let ghost bl = buttons@.map_values(|b: i32| button_label_spec(b, family));
    let ghost al = axes@.map_values(|a: (i32, i8)| axis_label_spec(a.0, a.1));
    let mut out: Vec<Vec<char>> = Vec::new();
    let mut j: usize = 0;
    while j < buttons.len()
        invariant
            j <= buttons.len(),
            bl == buttons@.map_values(|b: i32| button_label_spec(b, family)),
            char_views(out@) =~= bl.subrange(0, j as int),
        decreases buttons.len() - j,
    {
        let part = chars_of(button_label(buttons[j], family));
        let ghost before = out@;
        out.push(part);
        proof {
            assert(char_views(out@) =~= char_views(before).push(part@));
            assert(bl.subrange(0, j + 1) =~= bl.subrange(0, j as int).push(bl[j as int]));
        }
        j = j + 1;
    }
    proof {
        assert(bl.subrange(0, buttons.len() as int) =~= bl);
    }
    let mut k: usize = 0;
    while k < axes.len()
        invariant
            k <= axes.len(),
            al == axes@.map_values(|a: (i32, i8)| axis_label_spec(a.0, a.1)),
            char_views(out@) =~= bl + al.subrange(0, k as int),
        decreases axes.len() - k,
    {
        let (axis, sign) = axes[k];
        let part = chars_of(axis_label(axis, sign));
        let ghost before = out@;
        out.push(part);
        proof {
            assert(char_views(out@) =~= char_views(before).push(part@));
            assert(al.subrange(0, k + 1) =~= al.subrange(0, k as int).push(al[k as int]));
        }
        k = k + 1;
    }
    proof {
        assert(al.subrange(0, axes.len() as int) =~= al);
    }
    out
}

/// Per-action binding split into keyboard and gamepad strings for the
/// pause menu's input table. An override replaces the keyboard portion,
/// as it does for the input queries.
pub fn binding_columns(keymap: &Keymap, family: GamepadFamily) -> (r: Vec<
    (&'static str, String, String),
>)
    ensures
        r.len() == ACTION_COUNT,
        forall|i: int|
            0 <= i < 7 ==> {
                &&& (#[trigger] r@[i]).0@ == action_names()[i]
                &&& r@[i].1@ == kb_column(keymap.overrides@, i)
                &&& r@[i].2@ == gp_column(i, family)
            },
{
    let mut out: Vec<(&'static str, String, String)> = Vec::new();
    let mut i: usize = 0;
    while i < ACTION_COUNT
        invariant
            i <= ACTION_COUNT,
            out.len() == i,
            forall|j: int|
                0 <= j < i ==> {
                    &&& (#[trigger] out@[j]).0@ == action_names()[j]
                    &&& out@[j].1@ == kb_column(keymap.overrides@, j)
                    &&& out@[j].2@ == gp_column(j, family)
                },
        decreases ACTION_COUNT - i,
    {
        let kb: Vec<char> = match keymap.override_for((i + 1) as u32) {
            Some(k) => chars_of(key_label(k)),
            None => {
                let keys = binding_keys_exec(i);
                let parts = key_label_parts(&keys);
                join_comma_exec(&parts)
            },
        };
        let gp_parts = pad_label_parts(i, family);
        let gp = join_comma_exec(&gp_parts);
        out.push((action_name(i), string_of(kb.as_slice()), string_of(gp.as_slice())));
        i = i + 1;
    }
    out
}

/// Nintendo pads swap the south and east faces of BTN1 and BTN2 and keep
/// everything else: the bumpers stay with their action, and BTN3 and the
/// directions read the same for every family.
pub proof fn lemma_nintendo_swaps_only_primary_faces(action: u32, family: GamepadFamily)
    ensures
        (action != ACTION_BTN1 && action != ACTION_BTN2) || family != GamepadFamily::Nintendo
            ==> effective_face_buttons_spec(action, family) == effective_face_buttons_spec(
            action,
            GamepadFamily::Xbox,
        ),
        effective_face_buttons_spec(ACTION_BTN1, GamepadFamily::Nintendo)[0]
            == effective_face_buttons_spec(ACTION_BTN2, GamepadFamily::Xbox)[0],
        effective_face_buttons_spec(ACTION_BTN2, GamepadFamily::Nintendo)[0]
            == effective_face_buttons_spec(ACTION_BTN1, GamepadFamily::Xbox)[0],
        effective_face_buttons_spec(ACTION_BTN1, GamepadFamily::Nintendo)[1]
            == effective_face_buttons_spec(ACTION_BTN1, GamepadFamily::Xbox)[1],
        effective_face_buttons_spec(ACTION_BTN2, GamepadFamily::Nintendo)[1]
            == effective_face_buttons_spec(ACTION_BTN2, GamepadFamily::Xbox)[1],
{
}

/// Every action has a keyboard key and a gamepad button bound, so each
/// can fire from either device.
pub proof fn lemma_every_action_is_bound(i: int)
    requires
        0 <= i < 7,
    ensures
        binding_keys(i).len() > 0,
        binding_buttons(i).len() > 0,
{
}

} // verus!
