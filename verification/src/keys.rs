//! Raylib keyboard, gamepad and mouse codes, the integer identities the
//! engine's tables and the Lua-facing `input.KEY_*` constants are written
//! in.

use vstd::prelude::*;

verus! {

pub const KEY_APOSTROPHE: i32 = 39;
pub const KEY_COMMA: i32 = 44;
pub const KEY_MINUS: i32 = 45;
pub const KEY_PERIOD: i32 = 46;
pub const KEY_SLASH: i32 = 47;
pub const KEY_ZERO: i32 = 48;
pub const KEY_ONE: i32 = 49;
pub const KEY_TWO: i32 = 50;
pub const KEY_THREE: i32 = 51;
pub const KEY_FOUR: i32 = 52;
pub const KEY_FIVE: i32 = 53;
pub const KEY_SIX: i32 = 54;
pub const KEY_SEVEN: i32 = 55;
pub const KEY_EIGHT: i32 = 56;
pub const KEY_NINE: i32 = 57;
pub const KEY_SEMICOLON: i32 = 59;
pub const KEY_EQUAL: i32 = 61;
pub const KEY_A: i32 = 65;
pub const KEY_B: i32 = 66;
pub const KEY_C: i32 = 67;
pub const KEY_D: i32 = 68;
pub const KEY_E: i32 = 69;
pub const KEY_F: i32 = 70;
pub const KEY_G: i32 = 71;
pub const KEY_H: i32 = 72;
pub const KEY_I: i32 = 73;
pub const KEY_J: i32 = 74;
pub const KEY_K: i32 = 75;
pub const KEY_L: i32 = 76;
pub const KEY_M: i32 = 77;
pub const KEY_N: i32 = 78;
pub const KEY_O: i32 = 79;
pub const KEY_P: i32 = 80;
pub const KEY_Q: i32 = 81;
pub const KEY_R: i32 = 82;
pub const KEY_S: i32 = 83;
pub const KEY_T: i32 = 84;
pub const KEY_U: i32 = 85;
pub const KEY_V: i32 = 86;
pub const KEY_W: i32 = 87;
pub const KEY_X: i32 = 88;
pub const KEY_Y: i32 = 89;
pub const KEY_Z: i32 = 90;
pub const KEY_LEFT_BRACKET: i32 = 91;
pub const KEY_BACKSLASH: i32 = 92;
pub const KEY_RIGHT_BRACKET: i32 = 93;
pub const KEY_GRAVE: i32 = 96;
pub const KEY_SPACE: i32 = 32;
pub const KEY_ESCAPE: i32 = 256;
pub const KEY_ENTER: i32 = 257;
pub const KEY_TAB: i32 = 258;
pub const KEY_BACKSPACE: i32 = 259;
pub const KEY_INSERT: i32 = 260;
pub const KEY_DELETE: i32 = 261;
pub const KEY_RIGHT: i32 = 262;
pub const KEY_LEFT: i32 = 263;
pub const KEY_DOWN: i32 = 264;
pub const KEY_UP: i32 = 265;
pub const KEY_PAGE_UP: i32 = 266;
pub const KEY_PAGE_DOWN: i32 = 267;
pub const KEY_HOME: i32 = 268;
pub const KEY_END: i32 = 269;
pub const KEY_F1: i32 = 290;
pub const KEY_F2: i32 = 291;
pub const KEY_F3: i32 = 292;
pub const KEY_F4: i32 = 293;
pub const KEY_F5: i32 = 294;
pub const KEY_F6: i32 = 295;
pub const KEY_F7: i32 = 296;
pub const KEY_F8: i32 = 297;
pub const KEY_F9: i32 = 298;
pub const KEY_F10: i32 = 299;
pub const KEY_F11: i32 = 300;
pub const KEY_F12: i32 = 301;
pub const KEY_LEFT_SHIFT: i32 = 340;
pub const KEY_LEFT_CONTROL: i32 = 341;
pub const KEY_LEFT_ALT: i32 = 342;
pub const KEY_RIGHT_SHIFT: i32 = 344;
pub const KEY_RIGHT_CONTROL: i32 = 345;
pub const KEY_RIGHT_ALT: i32 = 346;

pub const GAMEPAD_BUTTON_UNKNOWN: i32 = 0;
pub const GAMEPAD_BUTTON_LEFT_FACE_UP: i32 = 1;
pub const GAMEPAD_BUTTON_LEFT_FACE_RIGHT: i32 = 2;
pub const GAMEPAD_BUTTON_LEFT_FACE_DOWN: i32 = 3;
pub const GAMEPAD_BUTTON_LEFT_FACE_LEFT: i32 = 4;
pub const GAMEPAD_BUTTON_RIGHT_FACE_UP: i32 = 5;
pub const GAMEPAD_BUTTON_RIGHT_FACE_RIGHT: i32 = 6;
pub const GAMEPAD_BUTTON_RIGHT_FACE_DOWN: i32 = 7;
pub const GAMEPAD_BUTTON_RIGHT_FACE_LEFT: i32 = 8;
pub const GAMEPAD_BUTTON_LEFT_TRIGGER_1: i32 = 9;
pub const GAMEPAD_BUTTON_LEFT_TRIGGER_2: i32 = 10;
pub const GAMEPAD_BUTTON_RIGHT_TRIGGER_1: i32 = 11;
pub const GAMEPAD_BUTTON_RIGHT_TRIGGER_2: i32 = 12;
pub const GAMEPAD_BUTTON_MIDDLE_LEFT: i32 = 13;
pub const GAMEPAD_BUTTON_MIDDLE: i32 = 14;
pub const GAMEPAD_BUTTON_MIDDLE_RIGHT: i32 = 15;
pub const GAMEPAD_BUTTON_LEFT_THUMB: i32 = 16;
pub const GAMEPAD_BUTTON_RIGHT_THUMB: i32 = 17;

pub const GAMEPAD_AXIS_LEFT_X: i32 = 0;
pub const GAMEPAD_AXIS_LEFT_Y: i32 = 1;

pub const MOUSE_BUTTON_LEFT: u32 = 0;
pub const MOUSE_BUTTON_RIGHT: u32 = 1;

} // verus!
