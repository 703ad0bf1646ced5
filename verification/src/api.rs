//! The Lua-facing API's plain values: the constants the `gfx` and
//! `input` tables carry, and the error bookkeeping around calls into the
//! game's callbacks (the latest failure is kept, prefixed with the
//! callback's name, so it can be shown on screen). Installing them into
//! a Lua VM is the host's.

use crate::input::{
    source_name, InputSource, ACTION_BTN1, ACTION_BTN2, ACTION_BTN3, ACTION_DOWN, ACTION_LEFT,
    ACTION_RIGHT, ACTION_UP, MOUSE_LEFT, MOUSE_RIGHT,
};
use crate::input_state::{key_table_codes, key_table_codes_exec, key_table_name, key_table_names, KEY_TABLE_LEN};
use crate::text::{chars_of, push_all, string_of};
use vstd::prelude::*;

verus! {

/// Name of palette colour `i` in the `gfx` table.
pub open spec fn color_name(i: int) -> Seq<char> {
    if i == 0 { "COLOR_BLACK"@ }
    else if i == 1 { "COLOR_DARK_BLUE"@ }
    else if i == 2 { "COLOR_DARK_PURPLE"@ }
    else if i == 3 { "COLOR_DARK_GREEN"@ }
    else if i == 4 { "COLOR_BROWN"@ }
    else if i == 5 { "COLOR_DARK_GRAY"@ }
    else if i == 6 { "COLOR_LIGHT_GRAY"@ }
    else if i == 7 { "COLOR_WHITE"@ }
    else if i == 8 { "COLOR_RED"@ }
    else if i == 9 { "COLOR_ORANGE"@ }
    else if i == 10 { "COLOR_YELLOW"@ }
    else if i == 11 { "COLOR_GREEN"@ }
    else if i == 12 { "COLOR_BLUE"@ }
    else if i == 13 { "COLOR_INDIGO"@ }
    else if i == 14 { "COLOR_PINK"@ }
    else { "COLOR_PEACH"@ }
}

fn color_name_exec(i: u32) -> (r: &'static str)
    requires
        i < 16,
    ensures
        r@ == color_name(i as int),
{
    if i == 0 { "COLOR_BLACK" }
    else if i == 1 { "COLOR_DARK_BLUE" }
    else if i == 2 { "COLOR_DARK_PURPLE" }
    else if i == 3 { "COLOR_DARK_GREEN" }
    else if i == 4 { "COLOR_BROWN" }
    else if i == 5 { "COLOR_DARK_GRAY" }
    else if i == 6 { "COLOR_LIGHT_GRAY" }
    else if i == 7 { "COLOR_WHITE" }
    else if i == 8 { "COLOR_RED" }
    else if i == 9 { "COLOR_ORANGE" }
    else if i == 10 { "COLOR_YELLOW" }
    else if i == 11 { "COLOR_GREEN" }
    else if i == 12 { "COLOR_BLUE" }
    else if i == 13 { "COLOR_INDIGO" }
    else if i == 14 { "COLOR_PINK" }
    else { "COLOR_PEACH" }
}

/// A list of named constants as plain values.
pub open spec fn constants_view(v: Seq<(String, u32)>) -> Seq<(Seq<char>, u32)> {
    v.map_values(|c: (String, u32)| (c.0@, c.1))
}

/// The `gfx` table's colour constants: each palette colour's name with
/// its index.
pub fn color_constants() -> (r: Vec<(String, u32)>)
    ensures
        constants_view(r@) == Seq::new(16, |i: int| (color_name(i), i as u32)),
{
    let mut r: Vec<(String, u32)> = Vec::new();
    let mut i: u32 = 0;
    while i < 16
        invariant
            i <= 16,
            constants_view(r@) == Seq::new(i as nat, |k: int| (color_name(k), k as u32)),
        decreases 16 - i,
    {
        let ghost before = r@;
        let name = color_name_exec(i).to_owned();
        r.push((name, i));
        proof {
            assert(r@ == before.push((name, i)));
            assert(constants_view(r@) =~= constants_view(before).push((name@, i)));
            assert(constants_view(r@) =~= Seq::new((i + 1) as nat, |k: int| (color_name(k), k as u32)));
        }
        i = i + 1;
    }
    r
}

/// The `input` table's numeric constants, in order: the seven actions,
/// the two mouse buttons, then the direct-read keys with their codes.
pub open spec fn input_number_constants_spec() -> Seq<(Seq<char>, u32)> {
    seq![
        ("LEFT"@, ACTION_LEFT),
        ("RIGHT"@, ACTION_RIGHT),
        ("UP"@, ACTION_UP),
        ("DOWN"@, ACTION_DOWN),
        ("BTN1"@, ACTION_BTN1),
        ("BTN2"@, ACTION_BTN2),
        ("BTN3"@, ACTION_BTN3),
        ("MOUSE_LEFT"@, MOUSE_LEFT),
        ("MOUSE_RIGHT"@, MOUSE_RIGHT),
    ] + Seq::new(KEY_TABLE_LEN as nat, |i: int| (key_table_names()[i], key_table_codes()[i] as u32))
}

/// The `input` table's numeric constants.
pub fn input_number_constants() -> (r: Vec<(String, u32)>)
    ensures
        constants_view(r@) == input_number_constants_spec(),
{
    let mut r: Vec<(String, u32)> = Vec::new();
    r.push(("LEFT".to_owned(), ACTION_LEFT));
    r.push(("RIGHT".to_owned(), ACTION_RIGHT));
    r.push(("UP".to_owned(), ACTION_UP));
    r.push(("DOWN".to_owned(), ACTION_DOWN));
    r.push(("BTN1".to_owned(), ACTION_BTN1));
    r.push(("BTN2".to_owned(), ACTION_BTN2));
    r.push(("BTN3".to_owned(), ACTION_BTN3));
    r.push(("MOUSE_LEFT".to_owned(), MOUSE_LEFT));
    r.push(("MOUSE_RIGHT".to_owned(), MOUSE_RIGHT));
    let ghost head = constants_view(r@);
    proof {
        assert(head =~= seq![
            ("LEFT"@, ACTION_LEFT),
            ("RIGHT"@, ACTION_RIGHT),
            ("UP"@, ACTION_UP),
            ("DOWN"@, ACTION_DOWN),
            ("BTN1"@, ACTION_BTN1),
            ("BTN2"@, ACTION_BTN2),
            ("BTN3"@, ACTION_BTN3),
            ("MOUSE_LEFT"@, MOUSE_LEFT),
            ("MOUSE_RIGHT"@, MOUSE_RIGHT),
        ]);
    }
    let codes = key_table_codes_exec();
    let mut i: usize = 0;
    while i < KEY_TABLE_LEN
        invariant
            i <= KEY_TABLE_LEN,
            codes@ == key_table_codes(),
            constants_view(r@) == head + Seq::new(i as nat, |k: int| (key_table_names()[k], key_table_codes()[k] as u32)),
        decreases KEY_TABLE_LEN - i,
    {
        proof {
            assert(0 <= key_table_codes()[i as int]) by {
                assert(forall|k: int| 0 <= k < KEY_TABLE_LEN ==> 0 <= #[trigger] key_table_codes()[k]);
            }
        }
        let ghost before = r@;
        let name = key_table_name(i).to_owned();
        let code = codes[i] as u32;
        r.push((name, code));
        proof {
            assert(r@ == before.push((name, code)));
            assert(constants_view(r@) =~= constants_view(before).push((name@, code)));
            assert(constants_view(r@) =~= head + Seq::new((i + 1) as nat, |k: int| (key_table_names()[k], key_table_codes()[k] as u32)));
        }
        i = i + 1;
    }
    r
}

/// The `input` table's input-source names: `SOURCE_KEYBOARD` and
/// `SOURCE_GAMEPAD`, each with the name `input.last_source()` reports.
pub fn input_source_constants() -> (r: Vec<(String, String)>)
    ensures
        r.len() == 2,
        r@[0].0@ == "SOURCE_KEYBOARD"@ && r@[0].1@ == source_name(InputSource::Keyboard),
        r@[1].0@ == "SOURCE_GAMEPAD"@ && r@[1].1@ == source_name(InputSource::Gamepad),
{
    let mut r: Vec<(String, String)> = Vec::new();
    r.push(("SOURCE_KEYBOARD".to_owned(), InputSource::Keyboard.as_str().to_owned()));
    r.push(("SOURCE_GAMEPAD".to_owned(), InputSource::Gamepad.as_str().to_owned()));
    r
}

/// The stored text of a failure of callback `label` with message `msg`.
pub open spec fn labeled(label: Seq<char>, msg: Seq<char>) -> Seq<char> {
    label + ": "@ + msg
}

/// `label: msg`.
pub fn labeled_message(label: &str, msg: &str) -> (r: String)
    ensures
        r@ == labeled(label@, msg@),
{
    let mut v = chars_of(label);
    push_all(&mut v, chars_of(": ").as_slice());
    push_all(&mut v, chars_of(msg).as_slice());
    string_of(v.as_slice())
}

/// Records the outcome of a callback: a failure replaces the stored
/// message with `label: <error>`; success leaves the state alone, so an
/// earlier error stays visible until it is cleared.
pub fn record_err(state: &mut Option<String>, label: &str, result: Result<(), String>)
    ensures
        match result {
            Ok(()) => *final(state) == *old(state),
            Err(e) => *final(state) matches Some(m) && m@ == labeled(label@, e@),
        },
{
    match result {
        Ok(()) => {},
        Err(e) => {
            *state = Some(labeled_message(label, e.as_str()));
        },
    }
}

} // verus!
