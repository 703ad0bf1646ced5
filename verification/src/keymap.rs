//! Per-game keyboard remapping, stored as `keymap.json` beside
//! `settings.json`. At most one keyboard override per action; gamepad
//! and axis bindings stay at their defaults. An override replaces the
//! action's keyboard defaults.
//!
//! Keys are raylib key codes. Each key in the capture set has a stable,
//! layout-independent label used in the JSON file; reserved keys (Esc,
//! Enter, Delete, Backspace, F-keys, modifiers) have none, so a
//! hand-edited file can't bind them.

use crate::input::{
    action_index_of, action_index_of_name, action_name, action_names, lemma_action_index_of_name,
    ACTION_COUNT,
};
use crate::json::{entries_view, json_field_entries, parse_field_entries};
use crate::paths::{joined_path, path_join};
use crate::project_name::opt_str_view;
use crate::text::{chars_eq, chars_of};
use vstd::prelude::*;

verus! {

/// Per-action keyboard override. `overrides[i]` belongs to action id
/// `i + 1`.
#[derive(Debug, Clone, Copy, PartialEq, Eq)]
pub struct Keymap {
    pub overrides: [Option<i32>; 7],
}

/// The keymap with no overrides.
pub open spec fn no_overrides() -> Seq<Option<i32>> {
    Seq::new(7, |i: int| None)
}

impl Default for Keymap {
    fn default() -> (r: Self)
        ensures
            r.overrides@ == no_overrides(),
    {
        let r = Keymap { overrides: [None, None, None, None, None, None, None] };
        proof {
            assert(r.overrides@ =~= no_overrides());
        }
        r
    }
}

impl Keymap {
    /// Override for `action` (1-based) if one is set; `None` for unknown
    /// action ids.
    pub fn override_for(&self, action: u32) -> (r: Option<i32>)
        ensures
            r == (if 1 <= action <= 7 {
                self.overrides@[action - 1]
            } else {
                None
            }),
    {
        if action >= 1 && action <= 7 {
            self.overrides[(action - 1) as usize]
        } else {
            None
        }
    }

    /// True if `k` is bound as any action's override. Lets the input
    /// layer suppress default keys whose physical key was remapped
    /// elsewhere, so each key fires only its current owner.
    pub fn is_used_as_override(&self, k: i32) -> (r: bool)
        ensures
            r == (exists|i: int| 0 <= i < 7 && #[trigger] self.overrides@[i] == Some(k)),
    {
        let mut i: usize = 0;
        while i < 7
            invariant
                i <= 7,
                forall|j: int| 0 <= j < i ==> self.overrides@[j] != Some(k),
            decreases 7 - i,
        {
            if self.overrides[i] == Some(k) {
                return true;
            }
            i = i + 1;
        }
        false
    }
}

/// Canonical, layout-independent label of a key in the capture set;
/// `None` for every other key.
pub open spec fn key_label_spec(k: i32) -> Option<Seq<char>> {
    match k {
        65 => Some(seq!['A']),
        66 => Some(seq!['B']),
        67 => Some(seq!['C']),
        68 => Some(seq!['D']),
        69 => Some(seq!['E']),
        70 => Some(seq!['F']),
        71 => Some(seq!['G']),
        72 => Some(seq!['H']),
        73 => Some(seq!['I']),
        74 => Some(seq!['J']),
        75 => Some(seq!['K']),
        76 => Some(seq!['L']),
        77 => Some(seq!['M']),
        78 => Some(seq!['N']),
        79 => Some(seq!['O']),
        80 => Some(seq!['P']),
        81 => Some(seq!['Q']),
        82 => Some(seq!['R']),
        83 => Some(seq!['S']),
        84 => Some(seq!['T']),
        85 => Some(seq!['U']),
        86 => Some(seq!['V']),
        87 => Some(seq!['W']),
        88 => Some(seq!['X']),
        89 => Some(seq!['Y']),
        90 => Some(seq!['Z']),
        48 => Some(seq!['0']),
        49 => Some(seq!['1']),
        50 => Some(seq!['2']),
        51 => Some(seq!['3']),
        52 => Some(seq!['4']),
        53 => Some(seq!['5']),
        54 => Some(seq!['6']),
        55 => Some(seq!['7']),
        56 => Some(seq!['8']),
        57 => Some(seq!['9']),
        263 => Some(seq!['L', 'e', 'f', 't']),
        262 => Some(seq!['R', 'i', 'g', 'h', 't']),
        265 => Some(seq!['U', 'p']),
        264 => Some(seq!['D', 'o', 'w', 'n']),
        32 => Some(seq!['S', 'p', 'a', 'c', 'e']),
        258 => Some(seq!['T', 'a', 'b']),
        46 => Some(seq!['P', 'e', 'r', 'i', 'o', 'd']),
        44 => Some(seq!['C', 'o', 'm', 'm', 'a']),
        47 => Some(seq!['S', 'l', 'a', 's', 'h']),
        39 => Some(seq!['A', 'p', 'o', 's', 't', 'r', 'o', 'p', 'h', 'e']),
        59 => Some(seq!['S', 'e', 'm', 'i', 'c', 'o', 'l', 'o', 'n']),
        45 => Some(seq!['M', 'i', 'n', 'u', 's']),
        61 => Some(seq!['E', 'q', 'u', 'a', 'l']),
        91 => Some(seq!['L', 'e', 'f', 't', 'B', 'r', 'a', 'c', 'k', 'e', 't']),
        93 => Some(seq!['R', 'i', 'g', 'h', 't', 'B', 'r', 'a', 'c', 'k', 'e', 't']),
        92 => Some(seq!['B', 'a', 'c', 'k', 's', 'l', 'a', 's', 'h']),
        96 => Some(seq!['B', 'a', 'c', 'k', 't', 'i', 'c', 'k']),
        260 => Some(seq!['I', 'n', 's', 'e', 'r', 't']),
        268 => Some(seq!['H', 'o', 'm', 'e']),
        269 => Some(seq!['E', 'n', 'd']),
        266 => Some(seq!['P', 'a', 'g', 'e', 'U', 'p']),
        267 => Some(seq!['P', 'a', 'g', 'e', 'D', 'o', 'w', 'n']),
        _ => None,
    }
}

/// The key a label's length and first two characters point to (the
/// labels of the capture set differ in at least one of these).
pub open spec fn key_candidate(len: int, c0: char, c1: char) -> Option<i32> {
    if len == 1 && c0 == 'A' && c1 == ' ' {
        Some(65)
    } else if len == 1 && c0 == 'B' && c1 == ' ' {
        Some(66)
    } else if len == 1 && c0 == 'C' && c1 == ' ' {
        Some(67)
    } else if len == 1 && c0 == 'D' && c1 == ' ' {
        Some(68)
    } else if len == 1 && c0 == 'E' && c1 == ' ' {
        Some(69)
    } else if len == 1 && c0 == 'F' && c1 == ' ' {
        Some(70)
    } else if len == 1 && c0 == 'G' && c1 == ' ' {
        Some(71)
    } else if len == 1 && c0 == 'H' && c1 == ' ' {
        Some(72)
    } else if len == 1 && c0 == 'I' && c1 == ' ' {
        Some(73)
    } else if len == 1 && c0 == 'J' && c1 == ' ' {
        Some(74)
    } else if len == 1 && c0 == 'K' && c1 == ' ' {
        Some(75)
    } else if len == 1 && c0 == 'L' && c1 == ' ' {
        Some(76)
    } else if len == 1 && c0 == 'M' && c1 == ' ' {
        Some(77)
    } else if len == 1 && c0 == 'N' && c1 == ' ' {
        Some(78)
    } else if len == 1 && c0 == 'O' && c1 == ' ' {
        Some(79)
    } else if len == 1 && c0 == 'P' && c1 == ' ' {
        Some(80)
    } else if len == 1 && c0 == 'Q' && c1 == ' ' {
        Some(81)
    } else if len == 1 && c0 == 'R' && c1 == ' ' {
        Some(82)
    } else if len == 1 && c0 == 'S' && c1 == ' ' {
        Some(83)
    } else if len == 1 && c0 == 'T' && c1 == ' ' {
        Some(84)
    } else if len == 1 && c0 == 'U' && c1 == ' ' {
        Some(85)
    } else if len == 1 && c0 == 'V' && c1 == ' ' {
        Some(86)
    } else if len == 1 && c0 == 'W' && c1 == ' ' {
        Some(87)
    } else if len == 1 && c0 == 'X' && c1 == ' ' {
        Some(88)
    } else if len == 1 && c0 == 'Y' && c1 == ' ' {
        Some(89)
    } else if len == 1 && c0 == 'Z' && c1 == ' ' {
        Some(90)
    } else if len == 1 && c0 == '0' && c1 == ' ' {
        Some(48)
    } else if len == 1 && c0 == '1' && c1 == ' ' {
        Some(49)
    } else if len == 1 && c0 == '2' && c1 == ' ' {
        Some(50)
    } else if len == 1 && c0 == '3' && c1 == ' ' {
        Some(51)
    } else if len == 1 && c0 == '4' && c1 == ' ' {
        Some(52)
    } else if len == 1 && c0 == '5' && c1 == ' ' {
        Some(53)
    } else if len == 1 && c0 == '6' && c1 == ' ' {
        Some(54)
    } else if len == 1 && c0 == '7' && c1 == ' ' {
        Some(55)
    } else if len == 1 && c0 == '8' && c1 == ' ' {
        Some(56)
    } else if len == 1 && c0 == '9' && c1 == ' ' {
        Some(57)
    } else if len == 4 && c0 == 'L' && c1 == 'e' {
        Some(263)
    } else if len == 5 && c0 == 'R' && c1 == 'i' {
        Some(262)
    } else if len == 2 && c0 == 'U' && c1 == 'p' {
        Some(265)
    } else if len == 4 && c0 == 'D' && c1 == 'o' {
        Some(264)
    } else if len == 5 && c0 == 'S' && c1 == 'p' {
        Some(32)
    } else if len == 3 && c0 == 'T' && c1 == 'a' {
        Some(258)
    } else if len == 6 && c0 == 'P' && c1 == 'e' {
        Some(46)
    } else if len == 5 && c0 == 'C' && c1 == 'o' {
        Some(44)
    } else if len == 5 && c0 == 'S' && c1 == 'l' {
        Some(47)
    } else if len == 10 && c0 == 'A' && c1 == 'p' {
        Some(39)
    } else if len == 9 && c0 == 'S' && c1 == 'e' {
        Some(59)
    } else if len == 5 && c0 == 'M' && c1 == 'i' {
        Some(45)
    } else if len == 5 && c0 == 'E' && c1 == 'q' {
        Some(61)
    } else if len == 11 && c0 == 'L' && c1 == 'e' {
        Some(91)
    } else if len == 12 && c0 == 'R' && c1 == 'i' {
        Some(93)
    } else if len == 9 && c0 == 'B' && c1 == 'a' {
        Some(92)
    } else if len == 8 && c0 == 'B' && c1 == 'a' {
        Some(96)
    } else if len == 6 && c0 == 'I' && c1 == 'n' {
        Some(260)
    } else if len == 4 && c0 == 'H' && c1 == 'o' {
        Some(268)
    } else if len == 3 && c0 == 'E' && c1 == 'n' {
        Some(269)
    } else if len == 6 && c0 == 'P' && c1 == 'a' {
        Some(266)
    } else if len == 8 && c0 == 'P' && c1 == 'a' {
        Some(267)
    } else {
        None
    }
}

/// Stable canonical label for a key, layout-independent. Returns `None`
/// for keys outside the supported capture set; reserved keys (Esc,
/// Enter, Delete, Backspace, F-keys, modifiers) are intentionally absent.
pub fn key_label(k: i32) -> (r: Option<&'static str>)
    ensures
        opt_str_view(r) == key_label_spec(k),
{
    match k {
        65 => {
            proof {
                reveal_strlit("A");
                assert("A"@ =~= seq!['A']);
            }
            Some("A")
        },
        66 => {
            proof {
                reveal_strlit("B");
                assert("B"@ =~= seq!['B']);
            }
            Some("B")
        },
        67 => {
            proof {
                reveal_strlit("C");
                assert("C"@ =~= seq!['C']);
            }
            Some("C")
        },
        68 => {
            proof {
                reveal_strlit("D");
                assert("D"@ =~= seq!['D']);
            }
            Some("D")
        },
        69 => {
            proof {
                reveal_strlit("E");
                assert("E"@ =~= seq!['E']);
            }
            Some("E")
        },
        70 => {
            proof {
                reveal_strlit("F");
                assert("F"@ =~= seq!['F']);
            }
            Some("F")
        },
        71 => {
            proof {
                reveal_strlit("G");
                assert("G"@ =~= seq!['G']);
            }
            Some("G")
        },
        72 => {
            proof {
                reveal_strlit("H");
                assert("H"@ =~= seq!['H']);
            }
            Some("H")
        },
        73 => {
            proof {
                reveal_strlit("I");
                assert("I"@ =~= seq!['I']);
            }
            Some("I")
        },
        74 => {
            proof {
                reveal_strlit("J");
                assert("J"@ =~= seq!['J']);
            }
            Some("J")
        },
        75 => {
            proof {
                reveal_strlit("K");
                assert("K"@ =~= seq!['K']);
            }
            Some("K")
        },
        76 => {
            proof {
                reveal_strlit("L");
                assert("L"@ =~= seq!['L']);
            }
            Some("L")
        },
        77 => {
            proof {
                reveal_strlit("M");
                assert("M"@ =~= seq!['M']);
            }
            Some("M")
        },
        78 => {
            proof {
                reveal_strlit("N");
                assert("N"@ =~= seq!['N']);
            }
            Some("N")
        },
        79 => {
            proof {
                reveal_strlit("O");
                assert("O"@ =~= seq!['O']);
            }
            Some("O")
        },
        80 => {
            proof {
                reveal_strlit("P");
                assert("P"@ =~= seq!['P']);
            }
            Some("P")
        },
        81 => {
            proof {
                reveal_strlit("Q");
                assert("Q"@ =~= seq!['Q']);
            }
            Some("Q")
        },
        82 => {
            proof {
                reveal_strlit("R");
                assert("R"@ =~= seq!['R']);
            }
            Some("R")
        },
        83 => {
            proof {
                reveal_strlit("S");
                assert("S"@ =~= seq!['S']);
            }
            Some("S")
        },
        84 => {
            proof {
                reveal_strlit("T");
                assert("T"@ =~= seq!['T']);
            }
            Some("T")
        },
        85 => {
            proof {
                reveal_strlit("U");
                assert("U"@ =~= seq!['U']);
            }
            Some("U")
        },
        86 => {
            proof {
                reveal_strlit("V");
                assert("V"@ =~= seq!['V']);
            }
            Some("V")
        },
        87 => {
            proof {
                reveal_strlit("W");
                assert("W"@ =~= seq!['W']);
            }
            Some("W")
        },
        88 => {
            proof {
                reveal_strlit("X");
                assert("X"@ =~= seq!['X']);
            }
            Some("X")
        },
        89 => {
            proof {
                reveal_strlit("Y");
                assert("Y"@ =~= seq!['Y']);
            }
            Some("Y")
        },
        90 => {
            proof {
                reveal_strlit("Z");
                assert("Z"@ =~= seq!['Z']);
            }
            Some("Z")
        },
        48 => {
            proof {
                reveal_strlit("0");
                assert("0"@ =~= seq!['0']);
            }
            Some("0")
        },
        49 => {
            proof {
                reveal_strlit("1");
                assert("1"@ =~= seq!['1']);
            }
            Some("1")
        },
        50 => {
            proof {
                reveal_strlit("2");
                assert("2"@ =~= seq!['2']);
            }
            Some("2")
        },
        51 => {
            proof {
                reveal_strlit("3");
                assert("3"@ =~= seq!['3']);
            }
            Some("3")
        },
        52 => {
            proof {
                reveal_strlit("4");
                assert("4"@ =~= seq!['4']);
            }
            Some("4")
        },
        53 => {
            proof {
                reveal_strlit("5");
                assert("5"@ =~= seq!['5']);
            }
            Some("5")
        },
        54 => {
            proof {
                reveal_strlit("6");
                assert("6"@ =~= seq!['6']);
            }
            Some("6")
        },
        55 => {
            proof {
                reveal_strlit("7");
                assert("7"@ =~= seq!['7']);
            }
            Some("7")
        },
        56 => {
            proof {
                reveal_strlit("8");
                assert("8"@ =~= seq!['8']);
            }
            Some("8")
        },
        57 => {
            proof {
                reveal_strlit("9");
                assert("9"@ =~= seq!['9']);
            }
            Some("9")
        },
        263 => {
            proof {
                reveal_strlit("Left");
                assert("Left"@ =~= seq!['L', 'e', 'f', 't']);
            }
            Some("Left")
        },
        262 => {
            proof {
                reveal_strlit("Right");
                assert("Right"@ =~= seq!['R', 'i', 'g', 'h', 't']);
            }
            Some("Right")
        },
        265 => {
            proof {
                reveal_strlit("Up");
                assert("Up"@ =~= seq!['U', 'p']);
            }
            Some("Up")
        },
        264 => {
            proof {
                reveal_strlit("Down");
                assert("Down"@ =~= seq!['D', 'o', 'w', 'n']);
            }
            Some("Down")
        },
        32 => {
            proof {
                reveal_strlit("Space");
                assert("Space"@ =~= seq!['S', 'p', 'a', 'c', 'e']);
            }
            Some("Space")
        },
        258 => {
            proof {
                reveal_strlit("Tab");
                assert("Tab"@ =~= seq!['T', 'a', 'b']);
            }
            Some("Tab")
        },
        46 => {
            proof {
                reveal_strlit("Period");
                assert("Period"@ =~= seq!['P', 'e', 'r', 'i', 'o', 'd']);
            }
            Some("Period")
        },
        44 => {
            proof {
                reveal_strlit("Comma");
                assert("Comma"@ =~= seq!['C', 'o', 'm', 'm', 'a']);
            }
            Some("Comma")
        },
        47 => {
            proof {
                reveal_strlit("Slash");
                assert("Slash"@ =~= seq!['S', 'l', 'a', 's', 'h']);
            }
            Some("Slash")
        },
        39 => {
            proof {
                reveal_strlit("Apostrophe");
                assert("Apostrophe"@ =~= seq!['A', 'p', 'o', 's', 't', 'r', 'o', 'p', 'h', 'e']);
            }
            Some("Apostrophe")
        },
        59 => {
            proof {
                reveal_strlit("Semicolon");
                assert("Semicolon"@ =~= seq!['S', 'e', 'm', 'i', 'c', 'o', 'l', 'o', 'n']);
            }
            Some("Semicolon")
        },
        45 => {
            proof {
                reveal_strlit("Minus");
                assert("Minus"@ =~= seq!['M', 'i', 'n', 'u', 's']);
            }
            Some("Minus")
        },
        61 => {
            proof {
                reveal_strlit("Equal");
                assert("Equal"@ =~= seq!['E', 'q', 'u', 'a', 'l']);
            }
            Some("Equal")
        },
        91 => {
            proof {
                reveal_strlit("LeftBracket");
                assert("LeftBracket"@ =~= seq!['L', 'e', 'f', 't', 'B', 'r', 'a', 'c', 'k', 'e', 't']);
            }
            Some("LeftBracket")
        },
        93 => {
            proof {
                reveal_strlit("RightBracket");
                assert("RightBracket"@ =~= seq!['R', 'i', 'g', 'h', 't', 'B', 'r', 'a', 'c', 'k', 'e', 't']);
            }
            Some("RightBracket")
        },
        92 => {
            proof {
                reveal_strlit("Backslash");
                assert("Backslash"@ =~= seq!['B', 'a', 'c', 'k', 's', 'l', 'a', 's', 'h']);
            }
            Some("Backslash")
        },
        96 => {
            proof {
                reveal_strlit("Backtick");
                assert("Backtick"@ =~= seq!['B', 'a', 'c', 'k', 't', 'i', 'c', 'k']);
            }
            Some("Backtick")
        },
        260 => {
            proof {
                reveal_strlit("Insert");
                assert("Insert"@ =~= seq!['I', 'n', 's', 'e', 'r', 't']);
            }
            Some("Insert")
        },
        268 => {
            proof {
                reveal_strlit("Home");
                assert("Home"@ =~= seq!['H', 'o', 'm', 'e']);
            }
            Some("Home")
        },
        269 => {
            proof {
                reveal_strlit("End");
                assert("End"@ =~= seq!['E', 'n', 'd']);
            }
            Some("End")
        },
        266 => {
            proof {
                reveal_strlit("PageUp");
                assert("PageUp"@ =~= seq!['P', 'a', 'g', 'e', 'U', 'p']);
            }
            Some("PageUp")
        },
        267 => {
            proof {
                reveal_strlit("PageDown");
                assert("PageDown"@ =~= seq!['P', 'a', 'g', 'e', 'D', 'o', 'w', 'n']);
            }
            Some("PageDown")
        },
        _ => None,
    }
}

fn key_candidate_exec(len: usize, c0: char, c1: char) -> (r: Option<i32>)
    ensures
        r == key_candidate(len as int, c0, c1),
{
    if len == 1 && c0 == 'A' && c1 == ' ' {
        Some(65)
    } else if len == 1 && c0 == 'B' && c1 == ' ' {
        Some(66)
    } else if len == 1 && c0 == 'C' && c1 == ' ' {
        Some(67)
    } else if len == 1 && c0 == 'D' && c1 == ' ' {
        Some(68)
    } else if len == 1 && c0 == 'E' && c1 == ' ' {
        Some(69)
    } else if len == 1 && c0 == 'F' && c1 == ' ' {
        Some(70)
    } else if len == 1 && c0 == 'G' && c1 == ' ' {
        Some(71)
    } else if len == 1 && c0 == 'H' && c1 == ' ' {
        Some(72)
    } else if len == 1 && c0 == 'I' && c1 == ' ' {
        Some(73)
    } else if len == 1 && c0 == 'J' && c1 == ' ' {
        Some(74)
    } else if len == 1 && c0 == 'K' && c1 == ' ' {
        Some(75)
    } else if len == 1 && c0 == 'L' && c1 == ' ' {
        Some(76)
    } else if len == 1 && c0 == 'M' && c1 == ' ' {
        Some(77)
    } else if len == 1 && c0 == 'N' && c1 == ' ' {
        Some(78)
    } else if len == 1 && c0 == 'O' && c1 == ' ' {
        Some(79)
    } else if len == 1 && c0 == 'P' && c1 == ' ' {
        Some(80)
    } else if len == 1 && c0 == 'Q' && c1 == ' ' {
        Some(81)
    } else if len == 1 && c0 == 'R' && c1 == ' ' {
        Some(82)
    } else if len == 1 && c0 == 'S' && c1 == ' ' {
        Some(83)
    } else if len == 1 && c0 == 'T' && c1 == ' ' {
        Some(84)
    } else if len == 1 && c0 == 'U' && c1 == ' ' {
        Some(85)
    } else if len == 1 && c0 == 'V' && c1 == ' ' {
        Some(86)
    } else if len == 1 && c0 == 'W' && c1 == ' ' {
        Some(87)
    } else if len == 1 && c0 == 'X' && c1 == ' ' {
        Some(88)
    } else if len == 1 && c0 == 'Y' && c1 == ' ' {
        Some(89)
    } else if len == 1 && c0 == 'Z' && c1 == ' ' {
        Some(90)
    } else if len == 1 && c0 == '0' && c1 == ' ' {
        Some(48)
    } else if len == 1 && c0 == '1' && c1 == ' ' {
        Some(49)
    } else if len == 1 && c0 == '2' && c1 == ' ' {
        Some(50)
    } else if len == 1 && c0 == '3' && c1 == ' ' {
        Some(51)
    } else if len == 1 && c0 == '4' && c1 == ' ' {
        Some(52)
    } else if len == 1 && c0 == '5' && c1 == ' ' {
        Some(53)
    } else if len == 1 && c0 == '6' && c1 == ' ' {
        Some(54)
    } else if len == 1 && c0 == '7' && c1 == ' ' {
        Some(55)
    } else if len == 1 && c0 == '8' && c1 == ' ' {
        Some(56)
    } else if len == 1 && c0 == '9' && c1 == ' ' {
        Some(57)
    } else if len == 4 && c0 == 'L' && c1 == 'e' {
        Some(263)
    } else if len == 5 && c0 == 'R' && c1 == 'i' {
        Some(262)
    } else if len == 2 && c0 == 'U' && c1 == 'p' {
        Some(265)
    } else if len == 4 && c0 == 'D' && c1 == 'o' {
        Some(264)
    } else if len == 5 && c0 == 'S' && c1 == 'p' {
        Some(32)
    } else if len == 3 && c0 == 'T' && c1 == 'a' {
        Some(258)
    } else if len == 6 && c0 == 'P' && c1 == 'e' {
        Some(46)
    } else if len == 5 && c0 == 'C' && c1 == 'o' {
        Some(44)
    } else if len == 5 && c0 == 'S' && c1 == 'l' {
        Some(47)
    } else if len == 10 && c0 == 'A' && c1 == 'p' {
        Some(39)
    } else if len == 9 && c0 == 'S' && c1 == 'e' {
        Some(59)
    } else if len == 5 && c0 == 'M' && c1 == 'i' {
        Some(45)
    } else if len == 5 && c0 == 'E' && c1 == 'q' {
        Some(61)
    } else if len == 11 && c0 == 'L' && c1 == 'e' {
        Some(91)
    } else if len == 12 && c0 == 'R' && c1 == 'i' {
        Some(93)
    } else if len == 9 && c0 == 'B' && c1 == 'a' {
        Some(92)
    } else if len == 8 && c0 == 'B' && c1 == 'a' {
        Some(96)
    } else if len == 6 && c0 == 'I' && c1 == 'n' {
        Some(260)
    } else if len == 4 && c0 == 'H' && c1 == 'o' {
        Some(268)
    } else if len == 3 && c0 == 'E' && c1 == 'n' {
        Some(269)
    } else if len == 6 && c0 == 'P' && c1 == 'a' {
        Some(266)
    } else if len == 8 && c0 == 'P' && c1 == 'a' {
        Some(267)
    } else {
        None
    }
}

/// The key a label points to through its length and first two
/// characters.
pub open spec fn label_candidate(l: Seq<char>) -> Option<i32> {
    if l.len() == 0 {
        None
    } else {
        key_candidate(l.len() as int, l[0], if l.len() > 1 { l[1] } else { ' ' })
    }
}

proof fn lemma_label_candidate(k: i32)
    requires
        key_label_spec(k) is Some,
    ensures
        label_candidate(key_label_spec(k).unwrap()) == Some(k),
{
}

/// No two keys share a label.
pub proof fn lemma_key_label_injective(a: i32, b: i32)
    requires
        key_label_spec(a) is Some,
        key_label_spec(a) == key_label_spec(b),
    ensures
        a == b,
{
    lemma_label_candidate(a);
    lemma_label_candidate(b);
}

/// The key whose label is `l`, if any.
pub open spec fn key_from_label_spec(l: Seq<char>) -> Option<i32> {
    if exists|k: i32| #[trigger] key_label_spec(k) == Some(l) {
        Some(choose|k: i32| #[trigger] key_label_spec(k) == Some(l))
    } else {
        None
    }
}

/// Inverse of `key_label`. Anything outside the supported capture set
/// returns `None` so a hand-edited keymap.json can't smuggle in
/// reserved keys.
pub fn key_from_label(label: &str) -> (r: Option<i32>)
    ensures
        r == key_from_label_spec(label@),
{
    let v = chars_of(label);
    let cand = if v.len() == 0 {
        None
    } else {
        let c1 = if v.len() > 1 {
            v[1]
        } else {
            ' '
        };
        key_candidate_exec(v.len(), v[0], c1)
    };
    let found = match cand {
        Some(k) => match key_label(k) {
            Some(s) => {
                let sv = chars_of(s);
                if chars_eq(sv.as_slice(), v.as_slice()) {
                    Some(k)
                } else {
                    None
                }
            },
            None => None,
        },
        None => None,
    };
    proof {
        assert(cand == label_candidate(label@));
        match found {
            Some(k) => {
                let c = choose|c: i32| #[trigger] key_label_spec(c) == Some(label@);
                lemma_key_label_injective(k, c);
            },
            None => {
                assert forall|c: i32| #[trigger] key_label_spec(c) != Some(label@) by {
                    if key_label_spec(c) == Some(label@) {
                        lemma_label_candidate(c);
                    }
                }
            },
        }
    }
    found
}

/// A key in the capture set reads back from its own label.
pub proof fn lemma_label_round_trip(k: i32)
    requires
        key_label_spec(k) is Some,
    ensures
        key_from_label_spec(key_label_spec(k).unwrap()) == Some(k),
{
    let l = key_label_spec(k).unwrap();
    let c = choose|c: i32| #[trigger] key_label_spec(c) == Some(l);
    lemma_key_label_injective(k, c);
}

/// A label that names a key is that key's label.
pub proof fn lemma_from_label_round_trip(l: Seq<char>)
    requires
        key_from_label_spec(l) is Some,
    ensures
        key_label_spec(key_from_label_spec(l).unwrap()) == Some(l),
{
}

/// One `"ACTION": "Label"` entry applied to the overrides: a recognised
/// action name (ignoring ASCII case) with a string value naming a key in
/// the capture set sets that action's override; anything else is
/// ignored.
pub open spec fn apply_entry(m: Seq<Option<i32>>, e: (Seq<char>, Option<Seq<char>>)) -> Seq<
    Option<i32>,
> {
    match action_index_of(e.0) {
        Some(i) => match e.1 {
            Some(l) => match key_from_label_spec(l) {
                Some(k) => m.update(i, Some(k)),
                None => m,
            },
            None => m,
        },
        None => m,
    }
}

/// The overrides read from a list of entries, later entries winning.
pub open spec fn apply_entries(es: Seq<(Seq<char>, Option<Seq<char>>)>) -> Seq<Option<i32>>
    decreases es.len(),
{
    if es.len() == 0 {
        no_overrides()
    } else {
        apply_entry(apply_entries(es.drop_last()), es.last())
    }
}

/// Applies `"overrides"` entries, as read from the JSON object, to an
/// empty keymap.
pub fn parse_entries(es: &Vec<(String, Option<String>)>) -> (r: Keymap)
    ensures
        r.overrides@ == apply_entries(entries_view(*es)),
{
    let mut km = Keymap::default();
    let mut i: usize = 0;
    while i < es.len()
        invariant
            i <= es.len(),
            km.overrides@ == apply_entries(entries_view(*es).take(i as int)),
        decreases es.len() - i,
    {
        let ghost before = km.overrides@;
        let (name, value) = (&es[i].0, &es[i].1);
        proof {
            let ev = entries_view(*es);
            assert(ev.take(i + 1).drop_last() =~= ev.take(i as int));
            assert(ev.take(i + 1).last() == (name@, crate::json::opt_string_view(*value)));
        }
        match action_index_of_name(name.as_str()) {
            Some(a) => match value {
                Some(l) => match key_from_label(l.as_str()) {
                    Some(k) => {
                        km.overrides[a] = Some(k);
                    },
                    None => {},
                },
                None => {},
            },
            None => {},
        }
        proof {
            assert(km.overrides@ =~= apply_entry(before, (name@, crate::json::opt_string_view(*value))));
        }
        i = i + 1;
    }
    proof {
        assert(entries_view(*es).take(es.len() as int) =~= entries_view(*es));
    }
    km
}

/// The keymap stored in a `keymap.json` body. A body that isn't JSON, or
/// has no `"overrides"` object, gives the keymap with no overrides.
pub fn parse(body: &str) -> (r: Keymap)
    ensures
        r.overrides@ == match json_field_entries(body@, "overrides"@) {
            Some(es) => apply_entries(es),
            None => no_overrides(),
        },
{
    match parse_field_entries(body, "overrides") {
        Some(es) => parse_entries(&es),
        None => Keymap::default(),
    }
}

/// The `"overrides"` entries written for a keymap: one `(action name,
/// key label)` pair per override whose key is in the capture set, in
/// action order.
pub open spec fn override_entries_upto(m: Seq<Option<i32>>, n: int) -> Seq<(Seq<char>, Seq<char>)>
    decreases n,
{
    if n <= 0 {
        seq![]
    } else {
        let prev = override_entries_upto(m, n - 1);
        match m[n - 1] {
            Some(k) => match key_label_spec(k) {
                Some(l) => prev.push((action_names()[n - 1], l)),
                None => prev,
            },
            None => prev,
        }
    }
}

pub open spec fn override_entries_spec(m: Seq<Option<i32>>) -> Seq<(Seq<char>, Seq<char>)> {
    override_entries_upto(m, 7)
}

pub open spec fn pairs_view(v: Vec<(String, String)>) -> Seq<(Seq<char>, Seq<char>)> {
    v@.map_values(|e: (String, String)| (e.0@, e.1@))
}

/// The entries the `"overrides"` object of `keymap.json` is written from.
pub fn override_entries(km: &Keymap) -> (r: Vec<(String, String)>)
    ensures
        pairs_view(r) == override_entries_spec(km.overrides@),
{
    let mut out: Vec<(String, String)> = Vec::new();
    let mut i: usize = 0;
    while i < ACTION_COUNT
        invariant
            i <= 7,
            pairs_view(out) == override_entries_upto(km.overrides@, i as int),
        decreases 7 - i,
    {
        match km.overrides[i] {
            Some(k) => match key_label(k) {
                Some(l) => {
                    let ghost before = pairs_view(out);
                    out.push((action_name(i).to_owned(), l.to_owned()));
                    proof {
                        assert(pairs_view(out) =~= before.push((action_names()[i as int], l@)));
                    }
                },
                None => {},
            },
            None => {},
        }
        i = i + 1;
    }
    out
}

/// A keymap is writable when every override is a key in the capture set.
pub open spec fn storable(m: Seq<Option<i32>>) -> bool {
    m.len() == 7 && forall|i: int| 0 <= i < 7 ==> (#[trigger] m[i] matches Some(k) ==> key_label_spec(k) is Some)
}

pub open spec fn as_read(es: Seq<(Seq<char>, Seq<char>)>) -> Seq<(Seq<char>, Option<Seq<char>>)> {
    es.map_values(|e: (Seq<char>, Seq<char>)| (e.0, Some(e.1)))
}

/// Reading back what was written restores the slots written so far.
proof fn lemma_round_trip_upto(m: Seq<Option<i32>>, n: int)
    requires
        storable(m),
        0 <= n <= 7,
    ensures
        apply_entries(as_read(override_entries_upto(m, n))) == Seq::new(
            7,
            |i: int| if i < n { m[i] } else { None },
        ),
    decreases n,
{
    if n == 0 {
        assert(as_read(override_entries_upto(m, 0)) =~= seq![]);
        assert(no_overrides() =~= Seq::new(7, |i: int| if i < 0 { m[i] } else { None }));
    } else {
        lemma_round_trip_upto(m, n - 1);
        let prev = override_entries_upto(m, n - 1);
        let target = Seq::new(7, |i: int| if i < n { m[i] } else { None });
        let before = Seq::new(7, |i: int| if i < n - 1 { m[i] } else { None });
        match m[n - 1] {
            Some(k) => {
                let l = key_label_spec(k).unwrap();
                let cur = prev.push((action_names()[n - 1], l));
                assert(override_entries_upto(m, n) == cur);
                assert(as_read(cur).drop_last() =~= as_read(prev));
                assert(as_read(cur).last() == (action_names()[n - 1], Some(l)));
                lemma_action_index_of_name(n - 1);
                lemma_label_round_trip(k);
                assert(apply_entries(as_read(cur)) == before.update(n - 1, Some(k)));
                assert(before.update(n - 1, Some(k)) =~= target);
            },
            None => {
                assert(override_entries_upto(m, n) == prev);
                assert(before =~= target);
            },
        }
    }
}

/// Writing a keymap and reading the entries back gives the same keymap,
/// for every keymap whose overrides are all in the capture set.
pub proof fn lemma_keymap_round_trip(m: Seq<Option<i32>>)
    requires
        storable(m),
    ensures
        apply_entries(as_read(override_entries_spec(m))) == m,
{
    lemma_round_trip_upto(m, 7);
    assert(Seq::new(7, |i: int| if i < 7 { m[i] } else { None }) =~= m);
}

/// Path of `keymap.json` inside the per-game data directory.
pub fn keymap_path(save_dir: &str) -> (r: String)
    ensures
        r@ == joined_path(save_dir@, "keymap.json"@),
{
    path_join(save_dir, "keymap.json")
}

} // verus!
