//! Per-game gamepad remapping for BTN1/BTN2/BTN3, stored as
//! `pad_map.json` beside `settings.json`. At most one override per
//! action. Directional actions (LEFT/RIGHT/UP/DOWN) are not remappable
//! here; they stay on dpad + left stick.
//!
//! An override replaces the gamepad portion of the binding entirely:
//! when set, the default face buttons and triggers for that action no
//! longer fire, and the Nintendo south/east swap does not apply.

use crate::input::{
    action_index_of, action_index_of_name, action_name, action_names, lemma_action_index_of_name,
    ACTION_BTN1, ACTION_BTN2, ACTION_BTN3,
};
use crate::json::{entries_view, json_field_entries, parse_field_entries};
use crate::keymap::{as_read, pairs_view};
use crate::paths::{joined_path, path_join};
use crate::project_name::opt_str_view;
use crate::text::{chars_eq, chars_of};
use vstd::prelude::*;

verus! {

/// One slot per remappable action. Index 0 = BTN1, 1 = BTN2, 2 = BTN3.
pub const PAD_OVERRIDE_COUNT: usize = 3;

#[derive(Debug, Clone, Copy, PartialEq, Eq)]
pub struct PadMap {
    pub overrides: [Option<i32>; 3],
}

/// The pad map with no overrides.
pub open spec fn no_pad_overrides() -> Seq<Option<i32>> {
    Seq::new(3, |i: int| None)
}

impl Default for PadMap {
    fn default() -> (r: Self)
        ensures
            r.overrides@ == no_pad_overrides(),
    {
        let r = PadMap { overrides: [None, None, None] };
        proof {
            assert(r.overrides@ =~= no_pad_overrides());
        }
        r
    }
}

/// The action ids the pad config screen iterates over, in slot order.
pub open spec fn pad_actions() -> Seq<u32> {
    seq![ACTION_BTN1, ACTION_BTN2, ACTION_BTN3]
}

pub open spec fn slot_for_action_spec(action: u32) -> Option<int> {
    if action == ACTION_BTN1 {
        Some(0)
    } else if action == ACTION_BTN2 {
        Some(1)
    } else if action == ACTION_BTN3 {
        Some(2)
    } else {
        None
    }
}

/// Translates `ACTION_BTN*` into a slot of `PadMap::overrides`; `None`
/// for any other action so directional actions skip the override path.
pub fn slot_for_action(action: u32) -> (r: Option<usize>)
    ensures
        match r {
            Some(i) => slot_for_action_spec(action) == Some(i as int),
            None => slot_for_action_spec(action) is None,
        },
{
    if action == ACTION_BTN1 {
        Some(0)
    } else if action == ACTION_BTN2 {
        Some(1)
    } else if action == ACTION_BTN3 {
        Some(2)
    } else {
        None
    }
}

impl PadMap {
    pub fn override_for(&self, action: u32) -> (r: Option<i32>)
        ensures
            r == match slot_for_action_spec(action) {
                Some(i) => self.overrides@[i],
                None => None,
            },
    {
        match slot_for_action(action) {
            Some(i) => self.overrides[i],
            None => None,
        }
    }

    /// True if `b` is bound as any action's override, so the input layer
    /// can suppress default buttons whose physical button was remapped.
    pub fn is_used_as_override(&self, b: i32) -> (r: bool)
        ensures
            r == (exists|i: int| 0 <= i < 3 && #[trigger] self.overrides@[i] == Some(b)),
    {
        let mut i: usize = 0;
        while i < 3
            invariant
                i <= 3,
                forall|j: int| 0 <= j < i ==> self.overrides@[j] != Some(b),
            decreases 3 - i,
        {
            if self.overrides[i] == Some(b) {
                return true;
            }
            i = i + 1;
        }
        false
    }
}

/// Buttons the pad config flow accepts as overrides: the 4 right-side
/// face buttons and the 4 shoulder/trigger positions. Dpad, thumb
/// clicks, and middle (Start/Select/Home) buttons are excluded.
pub open spec fn bindable_buttons() -> Seq<i32> {
    seq![7, 6, 5, 8, 9, 10, 11, 12]
}

pub fn bindable_buttons_exec() -> (r: Vec<i32>)
    ensures
        r@ == bindable_buttons(),
{
    let r = vec![7, 6, 5, 8, 9, 10, 11, 12];
    proof {
        assert(r@ =~= bindable_buttons());
    }
    r
}

/// Canonical, family-agnostic name of a bindable button, as stored in
/// `pad_map.json`; `None` for every other button.
pub open spec fn button_canonical_spec(b: i32) -> Option<Seq<char>> {
    match b {
        7 => Some(seq!['F', 'a', 'c', 'e', 'D', 'o', 'w', 'n']),
        6 => Some(seq!['F', 'a', 'c', 'e', 'R', 'i', 'g', 'h', 't']),
        5 => Some(seq!['F', 'a', 'c', 'e', 'U', 'p']),
        8 => Some(seq!['F', 'a', 'c', 'e', 'L', 'e', 'f', 't']),
        9 => Some(seq!['L', '1']),
        10 => Some(seq!['L', '2']),
        11 => Some(seq!['R', '1']),
        12 => Some(seq!['R', '2']),
        _ => None,
    }
}

/// The button a name points to through its length, first and last
/// character (the canonical names differ in one of these).
pub open spec fn button_candidate(len: int, first: char, last: char) -> Option<i32> {
    if len == 8 && first == 'F' && last == 'n' {
        Some(7)
    } else if len == 9 && first == 'F' && last == 't' {
        Some(6)
    } else if len == 6 && first == 'F' && last == 'p' {
        Some(5)
    } else if len == 8 && first == 'F' && last == 't' {
        Some(8)
    } else if len == 2 && first == 'L' && last == '1' {
        Some(9)
    } else if len == 2 && first == 'L' && last == '2' {
        Some(10)
    } else if len == 2 && first == 'R' && last == '1' {
        Some(11)
    } else if len == 2 && first == 'R' && last == '2' {
        Some(12)
    } else {
        None
    }
}

/// Canonical, family-agnostic name used in `pad_map.json`. Face buttons
/// are named by their position on the diamond (FaceDown / FaceRight /
/// ...) instead of A/B/X/Y so the same file works for every gamepad
/// family.
pub fn button_canonical(b: i32) -> (r: Option<&'static str>)
    ensures
        opt_str_view(r) == button_canonical_spec(b),
{
    match b {
        7 => {
            proof {
                reveal_strlit("FaceDown");
                assert("FaceDown"@ =~= seq!['F', 'a', 'c', 'e', 'D', 'o', 'w', 'n']);
            }
            Some("FaceDown")
        },
        6 => {
            proof {
                reveal_strlit("FaceRight");
                assert("FaceRight"@ =~= seq!['F', 'a', 'c', 'e', 'R', 'i', 'g', 'h', 't']);
            }
            Some("FaceRight")
        },
        5 => {
            proof {
                reveal_strlit("FaceUp");
                assert("FaceUp"@ =~= seq!['F', 'a', 'c', 'e', 'U', 'p']);
            }
            Some("FaceUp")
        },
        8 => {
            proof {
                reveal_strlit("FaceLeft");
                assert("FaceLeft"@ =~= seq!['F', 'a', 'c', 'e', 'L', 'e', 'f', 't']);
            }
            Some("FaceLeft")
        },
        9 => {
            proof {
                reveal_strlit("L1");
                assert("L1"@ =~= seq!['L', '1']);
            }
            Some("L1")
        },
        10 => {
            proof {
                reveal_strlit("L2");
                assert("L2"@ =~= seq!['L', '2']);
            }
            Some("L2")
        },
        11 => {
            proof {
                reveal_strlit("R1");
                assert("R1"@ =~= seq!['R', '1']);
            }
            Some("R1")
        },
        12 => {
            proof {
                reveal_strlit("R2");
                assert("R2"@ =~= seq!['R', '2']);
            }
            Some("R2")
        },
        _ => None,
    }
}

fn button_candidate_exec(len: usize, first: char, last: char) -> (r: Option<i32>)
    ensures
        r == button_candidate(len as int, first, last),
{
    if len == 8 && first == 'F' && last == 'n' {
        Some(7)
    } else if len == 9 && first == 'F' && last == 't' {
        Some(6)
    } else if len == 6 && first == 'F' && last == 'p' {
        Some(5)
    } else if len == 8 && first == 'F' && last == 't' {
        Some(8)
    } else if len == 2 && first == 'L' && last == '1' {
        Some(9)
    } else if len == 2 && first == 'L' && last == '2' {
        Some(10)
    } else if len == 2 && first == 'R' && last == '1' {
        Some(11)
    } else if len == 2 && first == 'R' && last == '2' {
        Some(12)
    } else {
        None
    }
}

/// The button a name points to through its length, first and last
/// character.
pub open spec fn name_candidate(l: Seq<char>) -> Option<i32> {
    if l.len() == 0 {
        None
    } else {
        button_candidate(l.len() as int, l[0], l.last())
    }
}

proof fn lemma_name_candidate(b: i32)
    requires
        button_canonical_spec(b) is Some,
    ensures
        name_candidate(button_canonical_spec(b).unwrap()) == Some(b),
{
}

/// No two buttons share a canonical name.
pub proof fn lemma_button_canonical_injective(a: i32, b: i32)
    requires
        button_canonical_spec(a) is Some,
        button_canonical_spec(a) == button_canonical_spec(b),
    ensures
        a == b,
{
    lemma_name_candidate(a);
    lemma_name_candidate(b);
}

/// Exactly the bindable buttons have a canonical name.
pub proof fn lemma_bindable_have_names(b: i32)
    ensures
        button_canonical_spec(b) is Some <==> bindable_buttons().contains(b),
{
    if button_canonical_spec(b) is Some {
        let i: int = if b == 7 { 0 } else if b == 6 { 1 } else if b == 5 { 2 } else if b == 8 { 3 } else if b == 9 { 4 } else if b == 10 { 5 } else if b == 11 { 6 } else { 7 };
        assert(bindable_buttons()[i] == b);
    }
}

/// The button whose canonical name is `l`, if any.
pub open spec fn button_from_canonical_spec(l: Seq<char>) -> Option<i32> {
    if exists|b: i32| #[trigger] button_canonical_spec(b) == Some(l) {
        Some(choose|b: i32| #[trigger] button_canonical_spec(b) == Some(l))
    } else {
        None
    }
}

/// Inverse of `button_canonical`.
pub fn button_from_canonical(label: &str) -> (r: Option<i32>)
    ensures
        r == button_from_canonical_spec(label@),
{
    let v = chars_of(label);
    let cand = if v.len() == 0 {
        None
    } else {
        button_candidate_exec(v.len(), v[0], v[v.len() - 1])
    };
    let found = match cand {
        Some(b) => match button_canonical(b) {
            Some(s) => {
                let sv = chars_of(s);
                if chars_eq(sv.as_slice(), v.as_slice()) {
                    Some(b)
                } else {
                    None
                }
            },
            None => None,
        },
        None => None,
    };
    proof {
        assert(cand == name_candidate(label@));
        match found {
            Some(b) => {
                let c = choose|c: i32| #[trigger] button_canonical_spec(c) == Some(label@);
                lemma_button_canonical_injective(b, c);
            },
            None => {
                assert forall|c: i32| #[trigger] button_canonical_spec(c) != Some(label@) by {
                    if button_canonical_spec(c) == Some(label@) {
                        lemma_name_candidate(c);
                    }
                }
            },
        }
    }
    found
}

/// A bindable button reads back from its own canonical name.
pub proof fn lemma_canonical_round_trip(b: i32)
    requires
        button_canonical_spec(b) is Some,
    ensures
        button_from_canonical_spec(button_canonical_spec(b).unwrap()) == Some(b),
{
    let l = button_canonical_spec(b).unwrap();
    let c = choose|c: i32| #[trigger] button_canonical_spec(c) == Some(l);
    lemma_button_canonical_injective(b, c);
}

/// The pad slot an entry's action name selects: BTN1/BTN2/BTN3 (ignoring
/// ASCII case) give slots 0/1/2.
pub open spec fn pad_slot_of_name(name: Seq<char>) -> Option<int> {
    match action_index_of(name) {
        Some(i) => if i >= 4 {
            Some(i - 4)
        } else {
            None
        },
        None => None,
    }
}

pub open spec fn apply_pad_entry(m: Seq<Option<i32>>, e: (Seq<char>, Option<Seq<char>>)) -> Seq<
    Option<i32>,
> {
    match pad_slot_of_name(e.0) {
        Some(i) => match e.1 {
            Some(l) => match button_from_canonical_spec(l) {
                Some(b) => m.update(i, Some(b)),
                None => m,
            },
            None => m,
        },
        None => m,
    }
}

pub open spec fn apply_pad_entries(es: Seq<(Seq<char>, Option<Seq<char>>)>) -> Seq<Option<i32>>
    decreases es.len(),
{
    if es.len() == 0 {
        no_pad_overrides()
    } else {
        apply_pad_entry(apply_pad_entries(es.drop_last()), es.last())
    }
}

/// Applies `"overrides"` entries, as read from the JSON object, to an
/// empty pad map. Directional actions and unknown names are ignored.
pub fn parse_entries(es: &Vec<(String, Option<String>)>) -> (r: PadMap)
    ensures
        r.overrides@ == apply_pad_entries(entries_view(*es)),
{
    let mut pm = PadMap::default();
    let mut i: usize = 0;
    while i < es.len()
        invariant
            i <= es.len(),
            pm.overrides@ == apply_pad_entries(entries_view(*es).take(i as int)),
        decreases es.len() - i,
    {
        let ghost before = pm.overrides@;
        let (name, value) = (&es[i].0, &es[i].1);
        proof {
            let ev = entries_view(*es);
            assert(ev.take(i + 1).drop_last() =~= ev.take(i as int));
            assert(ev.take(i + 1).last() == (name@, crate::json::opt_string_view(*value)));
        }
        match action_index_of_name(name.as_str()) {
            Some(a) => {
                if a >= 4 {
                    match value {
                        Some(l) => match button_from_canonical(l.as_str()) {
                            Some(b) => {
                                pm.overrides[a - 4] = Some(b);
                            },
                            None => {},
                        },
                        None => {},
                    }
                }
            },
            None => {},
        }
        proof {
            assert(pm.overrides@ =~= apply_pad_entry(
                before,
                (name@, crate::json::opt_string_view(*value)),
            ));
        }
        i = i + 1;
    }
    proof {
        assert(entries_view(*es).take(es.len() as int) =~= entries_view(*es));
    }
    pm
}

/// The pad map stored in a `pad_map.json` body. A body that isn't JSON,
/// or has no `"overrides"` object, gives the pad map with no overrides.
pub fn parse(body: &str) -> (r: PadMap)
    ensures
        r.overrides@ == match json_field_entries(body@, "overrides"@) {
            Some(es) => apply_pad_entries(es),
            None => no_pad_overrides(),
        },
{
    match parse_field_entries(body, "overrides") {
        Some(es) => parse_entries(&es),
        None => PadMap::default(),
    }
}

pub open spec fn pad_entries_upto(m: Seq<Option<i32>>, n: int) -> Seq<(Seq<char>, Seq<char>)>
    decreases n,
{
    if n <= 0 {
        seq![]
    } else {
        let prev = pad_entries_upto(m, n - 1);
        match m[n - 1] {
            Some(b) => match button_canonical_spec(b) {
                Some(l) => prev.push((action_names()[n + 3], l)),
                None => prev,
            },
            None => prev,
        }
    }
}

pub open spec fn pad_entries_spec(m: Seq<Option<i32>>) -> Seq<(Seq<char>, Seq<char>)> {
    pad_entries_upto(m, 3)
}

/// The entries the `"overrides"` object of `pad_map.json` is written
/// from: one `(action name, canonical button)` pair per override of a
/// bindable button, in slot order.
pub fn override_entries(pm: &PadMap) -> (r: Vec<(String, String)>)
    ensures
        pairs_view(r) == pad_entries_spec(pm.overrides@),
{
    let mut out: Vec<(String, String)> = Vec::new();
    let mut i: usize = 0;
    while i < 3
        invariant
            i <= 3,
            pairs_view(out) == pad_entries_upto(pm.overrides@, i as int),
        decreases 3 - i,
    {
        match pm.overrides[i] {
            Some(b) => match button_canonical(b) {
                Some(l) => {
                    let ghost before = pairs_view(out);
                    out.push((action_name(i + 4).to_owned(), l.to_owned()));
                    proof {
                        assert(pairs_view(out) =~= before.push((action_names()[i + 4], l@)));
                    }
                },
                None => {},
            },
            None => {},
        }
        i = i + 1;
    }
    out
}

pub open spec fn pad_storable(m: Seq<Option<i32>>) -> bool {
    m.len() == 3 && forall|i: int|
        0 <= i < 3 ==> (#[trigger] m[i] matches Some(b) ==> button_canonical_spec(b) is Some)
}

proof fn lemma_pad_round_trip_upto(m: Seq<Option<i32>>, n: int)
    requires
        pad_storable(m),
        0 <= n <= 3,
    ensures
        apply_pad_entries(as_read(pad_entries_upto(m, n))) == Seq::new(
            3,
            |i: int| if i < n { m[i] } else { None },
        ),
    decreases n,
{
    if n == 0 {
        assert(as_read(pad_entries_upto(m, 0)) =~= seq![]);
        assert(no_pad_overrides() =~= Seq::new(3, |i: int| if i < 0 { m[i] } else { None }));
    } else {
        lemma_pad_round_trip_upto(m, n - 1);
        let prev = pad_entries_upto(m, n - 1);
        let target = Seq::new(3, |i: int| if i < n { m[i] } else { None });
        let before = Seq::new(3, |i: int| if i < n - 1 { m[i] } else { None });
        match m[n - 1] {
            Some(b) => {
                let l = button_canonical_spec(b).unwrap();
                let cur = prev.push((action_names()[n + 3], l));
                assert(pad_entries_upto(m, n) == cur);
                assert(as_read(cur).drop_last() =~= as_read(prev));
                assert(as_read(cur).last() == (action_names()[n + 3], Some(l)));
                lemma_action_index_of_name(n + 3);
                lemma_canonical_round_trip(b);
                assert(apply_pad_entries(as_read(cur)) == before.update(n - 1, Some(b)));
                assert(before.update(n - 1, Some(b)) =~= target);
            },
            None => {
                assert(pad_entries_upto(m, n) == prev);
                assert(before =~= target);
            },
        }
    }
}

/// Writing a pad map and reading the entries back gives the same pad
/// map, for every pad map whose overrides are all bindable buttons.
pub proof fn lemma_pad_map_round_trip(m: Seq<Option<i32>>)
    requires
        pad_storable(m),
    ensures
        apply_pad_entries(as_read(pad_entries_spec(m))) == m,
{
    lemma_pad_round_trip_upto(m, 3);
    assert(Seq::new(3, |i: int| if i < 3 { m[i] } else { None }) =~= m);
}

/// Path of `pad_map.json` inside the per-game data directory.
pub fn pad_map_path(save_dir: &str) -> (r: String)
    ensures
        r@ == joined_path(save_dir@, "pad_map.json"@),
{
    path_join(save_dir, "pad_map.json")
}

} // verus!
