//! Project config: the fields a game sets about itself (name, id, icon,
//! render size, sprite cell size, pause menu, fullscreen), read from up to
//! three sources and merged per field, highest precedence first:
//! frontmatter comments at the top of `main.lua` (`-- name = Foo`), then
//! `usagi.conf` at the project root in the same `key = value` form, then
//! the table a deprecated `_config()` returns. Missing fields fall through
//! to the engine default.
//!
//! Render dimensions are whatever the platform reads a number as; the
//! text parsers keep their raw text (`Partial<String>`), and the merge is
//! generic over the parsed value.

use crate::text::{
    all_digits, ascii_lower_chars, ascii_lower_seq, chars_eq, chars_of, digits_value, lines,
    line_views, parse_unsigned, parse_unsigned_spec, split_lines, split_once, split_once_exec,
    starts_with_chars, starts_with_seq, string_of, trim, trim_chars, trim_start,
    trim_start_chars,
};
use vstd::prelude::*;

verus! {

/// Default side, in pixels, of one cell of `sprites.png`.
pub const DEFAULT_SPRITE_SIZE: i32 = 16;

/// Game render dimensions, in whatever the platform measures them.
#[derive(Clone, Copy, Debug)]
pub struct Resolution<D> {
    pub w: D,
    pub h: D,
}

/// One source's contribution: every field optional, so "unset" stays
/// distinct from "set to the default value" during the merge.
pub struct Partial<D> {
    pub name: Option<String>,
    pub pixel_perfect: Option<bool>,
    pub game_id: Option<String>,
    pub icon: Option<u32>,
    pub game_width: Option<D>,
    pub game_height: Option<D>,
    pub sprite_size: Option<i32>,
    pub pause_menu: Option<bool>,
    pub initial_fullscreen: Option<bool>,
}

/// The fields of a partial, strings as characters.
#[verifier::ext_equal]
pub struct Fields<D> {
    pub name: Option<Seq<char>>,
    pub pixel_perfect: Option<bool>,
    pub game_id: Option<Seq<char>>,
    pub icon: Option<u32>,
    pub game_width: Option<D>,
    pub game_height: Option<D>,
    pub sprite_size: Option<i32>,
    pub pause_menu: Option<bool>,
    pub initial_fullscreen: Option<bool>,
}

/// An optional string as characters.
pub open spec fn str_opt(o: Option<String>) -> Option<Seq<char>> {
    match o {
        Some(s) => Some(s@),
        None => None,
    }
}

/// The fields of a partial; dimensions as they are.
pub open spec fn fields_of<D>(p: Partial<D>) -> Fields<D> {
    Fields {
        name: str_opt(p.name),
        pixel_perfect: p.pixel_perfect,
        game_id: str_opt(p.game_id),
        icon: p.icon,
        game_width: p.game_width,
        game_height: p.game_height,
        sprite_size: p.sprite_size,
        pause_menu: p.pause_menu,
        initial_fullscreen: p.initial_fullscreen,
    }
}

/// The fields of a text partial; dimensions as their raw text.
pub open spec fn text_fields(p: Partial<String>) -> Fields<Seq<char>> {
    Fields {
        name: str_opt(p.name),
        pixel_perfect: p.pixel_perfect,
        game_id: str_opt(p.game_id),
        icon: p.icon,
        game_width: str_opt(p.game_width),
        game_height: str_opt(p.game_height),
        sprite_size: p.sprite_size,
        pause_menu: p.pause_menu,
        initial_fullscreen: p.initial_fullscreen,
    }
}

/// No field set.
pub open spec fn no_fields<D>() -> Fields<D> {
    Fields {
        name: None,
        pixel_perfect: None,
        game_id: None,
        icon: None,
        game_width: None,
        game_height: None,
        sprite_size: None,
        pause_menu: None,
        initial_fullscreen: None,
    }
}

impl<D> Default for Partial<D> {
    fn default() -> (r: Self)
        ensures
            fields_of(r) == no_fields::<D>(),
            r.game_width is None,
            r.game_height is None,
    {
        Partial {
            name: None,
            pixel_perfect: None,
            game_id: None,
            icon: None,
            game_width: None,
            game_height: None,
            sprite_size: None,
            pause_menu: None,
            initial_fullscreen: None,
        }
    }
}

/// `true` or `false`, ignoring ASCII case.
pub open spec fn parse_bool_spec(v: Seq<char>) -> Option<bool> {
    let l = ascii_lower_seq(v);
    if l == seq!['t', 'r', 'u', 'e'] {
        Some(true)
    } else if l == seq!['f', 'a', 'l', 's', 'e'] {
        Some(false)
    } else {
        None
    }
}

/// A whole number that fits `u32`.
pub open spec fn parse_index_spec(v: Seq<char>) -> Option<u32> {
    match parse_unsigned_spec(v, u32::MAX as int) {
        Some(n) => Some(n as u32),
        None => None,
    }
}

/// An integer of at least 1 that fits `i32`.
pub open spec fn parse_size_spec(v: Seq<char>) -> Option<i32> {
    match parse_unsigned_spec(v, i32::MAX as int) {
        Some(n) => if n >= 1 {
            Some(n as i32)
        } else {
            None
        },
        None => None,
    }
}

/// Parses a boolean field value.
pub fn parse_bool(value: &Vec<char>) -> (r: Option<bool>)
    ensures
        r == parse_bool_spec(value@),
{
    let l = ascii_lower_chars(value);
    let t = chars_of("true");
    let f = chars_of("false");
    proof {
        reveal_strlit("true");
        reveal_strlit("false");
        assert(t@ =~= seq!['t', 'r', 'u', 'e']);
        assert(f@ =~= seq!['f', 'a', 'l', 's', 'e']);
    }
    if chars_eq(l.as_slice(), t.as_slice()) {
        Some(true)
    } else if chars_eq(l.as_slice(), f.as_slice()) {
        Some(false)
    } else {
        None
    }
}

/// Parses a whole-number field value.
pub fn parse_index(value: &Vec<char>) -> (r: Option<u32>)
    ensures
        r == parse_index_spec(value@),
{
    match parse_unsigned(value, 0xFFFF_FFFF) {
        Some(n) => Some(n as u32),
        None => None,
    }
}

/// Parses a positive-size field value.
pub fn parse_size(value: &Vec<char>) -> (r: Option<i32>)
    ensures
        r == parse_size_spec(value@),
{
    match parse_unsigned(value, 0x7FFF_FFFF) {
        Some(n) => if n >= 1 {
            Some(n as i32)
        } else {
            None
        },
        None => None,
    }
}

/// One `key = value` pair applied to a text partial. Empty values are
/// ignored, so `name =` falls through to a lower source; a value that
/// does not parse clears the field; dimensions keep their raw text;
/// unknown keys change nothing.
pub open spec fn apply_pair_spec(p: Fields<Seq<char>>, key: Seq<char>, value: Seq<char>) -> Fields<Seq<char>> {
    if value.len() == 0 {
        p
    } else if key == seq!['n', 'a', 'm', 'e'] {
        Fields { name: Some(value), pixel_perfect: p.pixel_perfect, game_id: p.game_id, icon: p.icon, game_width: p.game_width, game_height: p.game_height, sprite_size: p.sprite_size, pause_menu: p.pause_menu, initial_fullscreen: p.initial_fullscreen }
    } else if key == seq!['g', 'a', 'm', 'e', '_', 'i', 'd'] {
        Fields { name: p.name, pixel_perfect: p.pixel_perfect, game_id: Some(value), icon: p.icon, game_width: p.game_width, game_height: p.game_height, sprite_size: p.sprite_size, pause_menu: p.pause_menu, initial_fullscreen: p.initial_fullscreen }
    } else if key == seq!['p', 'i', 'x', 'e', 'l', '_', 'p', 'e', 'r', 'f', 'e', 'c', 't'] {
        Fields { name: p.name, pixel_perfect: parse_bool_spec(value), game_id: p.game_id, icon: p.icon, game_width: p.game_width, game_height: p.game_height, sprite_size: p.sprite_size, pause_menu: p.pause_menu, initial_fullscreen: p.initial_fullscreen }
    } else if key == seq!['p', 'a', 'u', 's', 'e', '_', 'm', 'e', 'n', 'u'] {
        Fields { name: p.name, pixel_perfect: p.pixel_perfect, game_id: p.game_id, icon: p.icon, game_width: p.game_width, game_height: p.game_height, sprite_size: p.sprite_size, pause_menu: parse_bool_spec(value), initial_fullscreen: p.initial_fullscreen }
    } else if key == seq!['i', 'n', 'i', 't', 'i', 'a', 'l', '_', 'f', 'u', 'l', 'l', 's', 'c', 'r', 'e', 'e', 'n'] {
        Fields { name: p.name, pixel_perfect: p.pixel_perfect, game_id: p.game_id, icon: p.icon, game_width: p.game_width, game_height: p.game_height, sprite_size: p.sprite_size, pause_menu: p.pause_menu, initial_fullscreen: parse_bool_spec(value) }
    } else if key == seq!['g', 'a', 'm', 'e', '_', 'w', 'i', 'd', 't', 'h'] {
        Fields { name: p.name, pixel_perfect: p.pixel_perfect, game_id: p.game_id, icon: p.icon, game_width: Some(value), game_height: p.game_height, sprite_size: p.sprite_size, pause_menu: p.pause_menu, initial_fullscreen: p.initial_fullscreen }
    } else if key == seq!['g', 'a', 'm', 'e', '_', 'h', 'e', 'i', 'g', 'h', 't'] {
        Fields { name: p.name, pixel_perfect: p.pixel_perfect, game_id: p.game_id, icon: p.icon, game_width: p.game_width, game_height: Some(value), sprite_size: p.sprite_size, pause_menu: p.pause_menu, initial_fullscreen: p.initial_fullscreen }
    } else if key == seq!['s', 'p', 'r', 'i', 't', 'e', '_', 's', 'i', 'z', 'e'] {
        Fields { name: p.name, pixel_perfect: p.pixel_perfect, game_id: p.game_id, icon: p.icon, game_width: p.game_width, game_height: p.game_height, sprite_size: parse_size_spec(value), pause_menu: p.pause_menu, initial_fullscreen: p.initial_fullscreen }
    } else if key == seq!['i', 'c', 'o', 'n'] {
        Fields { name: p.name, pixel_perfect: p.pixel_perfect, game_id: p.game_id, icon: parse_index_spec(value), game_width: p.game_width, game_height: p.game_height, sprite_size: p.sprite_size, pause_menu: p.pause_menu, initial_fullscreen: p.initial_fullscreen }
    } else {
        p
    }
}

/// Whether `k` is the key `lit`.
fn is_key(k: &Vec<char>, lit: &str) -> (r: bool)
    ensures
        r == (k@ == lit@),
{
    let l = chars_of(lit);
    chars_eq(k.as_slice(), l.as_slice())
}

/// A copy of a string.
fn copy_string(s: &Vec<char>) -> (r: String)
    ensures
        r@ == s@,
{
    string_of(s.as_slice())
}

/// Applies one `key = value` pair to a partial, coercing per the field's
/// type.
pub fn apply_pair(p: &mut Partial<String>, key: &Vec<char>, value: &Vec<char>)
    ensures
        text_fields(*final(p)) == apply_pair_spec(text_fields(*old(p)), key@, value@),
{
    if value.len() == 0 {
        return;
    }
    proof {
        reveal_strlit("name");
        assert("name"@ =~= seq!['n', 'a', 'm', 'e']);
        reveal_strlit("game_id");
        assert("game_id"@ =~= seq!['g', 'a', 'm', 'e', '_', 'i', 'd']);
        reveal_strlit("pixel_perfect");
        assert("pixel_perfect"@ =~= seq!['p', 'i', 'x', 'e', 'l', '_', 'p', 'e', 'r', 'f', 'e', 'c', 't']);
        reveal_strlit("pause_menu");
        assert("pause_menu"@ =~= seq!['p', 'a', 'u', 's', 'e', '_', 'm', 'e', 'n', 'u']);
        reveal_strlit("initial_fullscreen");
        assert("initial_fullscreen"@ =~= seq!['i', 'n', 'i', 't', 'i', 'a', 'l', '_', 'f', 'u', 'l', 'l', 's', 'c', 'r', 'e', 'e', 'n']);
        reveal_strlit("game_width");
        assert("game_width"@ =~= seq!['g', 'a', 'm', 'e', '_', 'w', 'i', 'd', 't', 'h']);
        reveal_strlit("game_height");
        assert("game_height"@ =~= seq!['g', 'a', 'm', 'e', '_', 'h', 'e', 'i', 'g', 'h', 't']);
        reveal_strlit("sprite_size");
        assert("sprite_size"@ =~= seq!['s', 'p', 'r', 'i', 't', 'e', '_', 's', 'i', 'z', 'e']);
        reveal_strlit("icon");
        assert("icon"@ =~= seq!['i', 'c', 'o', 'n']);
    }
    if is_key(key, "name") {
        p.name = Some(copy_string(value));
    } else if is_key(key, "game_id") {
        p.game_id = Some(copy_string(value));
    } else if is_key(key, "pixel_perfect") {
        p.pixel_perfect = parse_bool(value);
    } else if is_key(key, "pause_menu") {
        p.pause_menu = parse_bool(value);
    } else if is_key(key, "initial_fullscreen") {
        p.initial_fullscreen = parse_bool(value);
    } else if is_key(key, "game_width") {
        p.game_width = Some(copy_string(value));
    } else if is_key(key, "game_height") {
        p.game_height = Some(copy_string(value));
    } else if is_key(key, "sprite_size") {
        p.sprite_size = parse_size(value);
    } else if is_key(key, "icon") {
        p.icon = parse_index(value);
    }
    proof {
        assert(text_fields(*p) =~= apply_pair_spec(text_fields(*old(p)), key@, value@));
    }
}

/// A line of the leading comment block: `--` after any indentation.
pub open spec fn is_comment(line: Seq<char>) -> bool {
    starts_with_seq(trim_start(line), seq!['-', '-'])
}

/// A `key = value` pair split at the first `=`, both sides trimmed.
pub open spec fn pair_of(s: Seq<char>) -> Option<(Seq<char>, Seq<char>)> {
    match split_once(s, '=') {
        Some((k, v)) => Some((trim(k), trim(v))),
        None => None,
    }
}

/// A comment line of the leading block applied to a partial: the text
/// after `--`, trimmed, applied when it holds an `=`; prose is ignored.
pub open spec fn comment_step(p: Fields<Seq<char>>, line: Seq<char>) -> Fields<Seq<char>> {
    let t = trim_start(line);
    match pair_of(trim(t.subrange(2, t.len() as int))) {
        Some((k, v)) => apply_pair_spec(p, k, v),
        None => p,
    }
}

/// The leading comment block of `ls` applied to `p`: line by line up to
/// the first line that isn't a `--` comment (a blank line ends it too).
pub open spec fn frontmatter_spec(p: Fields<Seq<char>>, ls: Seq<Seq<char>>) -> Fields<Seq<char>>
    decreases ls.len(),
{
    if ls.len() == 0 || !is_comment(ls[0]) {
        p
    } else {
        frontmatter_spec(comment_step(p, ls[0]), ls.drop_first())
    }
}

/// A `usagi.conf` line applied to a partial: blank lines and `#` comments
/// skipped, `key = value` applied, anything else ignored.
pub open spec fn conf_step(p: Fields<Seq<char>>, line: Seq<char>) -> Fields<Seq<char>> {
    let t = trim(line);
    if t.len() == 0 || t[0] == '#' {
        p
    } else {
        match pair_of(t) {
            Some((k, v)) => apply_pair_spec(p, k, v),
            None => p,
        }
    }
}

/// Every line of `ls` applied to `p` as `usagi.conf` lines.
pub open spec fn conf_spec(p: Fields<Seq<char>>, ls: Seq<Seq<char>>) -> Fields<Seq<char>>
    decreases ls.len(),
{
    if ls.len() == 0 {
        p
    } else {
        conf_spec(conf_step(p, ls[0]), ls.drop_first())
    }
}

/// Splits a trimmed line at its first `=` and applies the pair.
fn apply_line_pair(p: &mut Partial<String>, t: &Vec<char>)
    ensures
        text_fields(*final(p)) == match pair_of(t@) {
            Some((k, v)) => apply_pair_spec(text_fields(*old(p)), k, v),
            None => text_fields(*old(p)),
        },
{
    match split_once_exec(t, '=') {
        Some((k, v)) => {
            let k = trim_chars(&k);
            let v = trim_chars(&v);
            apply_pair(p, &k, &v);
        },
        None => {},
    }
}

/// Extracts config from the leading comment block of a Lua script.
pub fn frontmatter_partial(script: &str) -> (r: Partial<String>)
    ensures
        text_fields(r) == frontmatter_spec(no_fields(), lines(script@)),
{
    let ls = split_lines(&chars_of(script));
    let ghost all = line_views(ls@);
    let mut p: Partial<String> = Partial::default();
    proof {
        assert(text_fields(p) =~= no_fields());
        assert(all.subrange(0, all.len() as int) =~= all);
    }
    let dash = chars_of("--");
    proof {
        reveal_strlit("--");
        assert(dash@ =~= seq!['-', '-']);
    }
    let mut i: usize = 0;
    while i < ls.len()
        invariant
            i <= ls.len(),
            all == line_views(ls@),
            all == lines(script@),
            dash@ == seq!['-', '-'],
            frontmatter_spec(text_fields(p), all.subrange(i as int, all.len() as int))
                == frontmatter_spec(no_fields(), all),
        decreases ls.len() - i,
    {
        let ghost rest = all.subrange(i as int, all.len() as int);
        proof {
            assert(rest[0] == ls@[i as int]@);
            assert(rest.drop_first() =~= all.subrange(i + 1, all.len() as int));
        }
        let t = trim_start_chars(&ls[i]);
        if !starts_with_chars(&t, &dash) {
            proof {
                assert(!is_comment(rest[0]));
            }
            return p;
        }
        let body = trim_chars(&slice_rest(&t, 2));
        apply_line_pair(&mut p, &body);
        i = i + 1;
    }
    proof {
        assert(all.subrange(ls.len() as int, all.len() as int).len() == 0);
    }
    p
}

/// `v` from position `lo` on.
fn slice_rest(v: &Vec<char>, lo: usize) -> (r: Vec<char>)
    requires
        lo <= v.len(),
    ensures
        r@ == v@.subrange(lo as int, v.len() as int),
{
    crate::text::slice_chars(v, lo, v.len())
}

/// Parses a `usagi.conf` file.
pub fn conf_partial(text: &str) -> (r: Partial<String>)
    ensures
        text_fields(r) == conf_spec(no_fields(), lines(text@)),
{
    let ls = split_lines(&chars_of(text));
    let ghost all = line_views(ls@);
    let mut p: Partial<String> = Partial::default();
    proof {
        assert(text_fields(p) =~= no_fields());
        assert(all.subrange(0, all.len() as int) =~= all);
    }
    let mut i: usize = 0;
    while i < ls.len()
        invariant
            i <= ls.len(),
            all == line_views(ls@),
            conf_spec(text_fields(p), all.subrange(i as int, all.len() as int)) == conf_spec(
                no_fields(),
                all,
            ),
        decreases ls.len() - i,
    {
        let ghost rest = all.subrange(i as int, all.len() as int);
        proof {
            assert(rest[0] == ls@[i as int]@);
            assert(rest.drop_first() =~= all.subrange(i + 1, all.len() as int));
        }
        let t = trim_chars(&ls[i]);
        if !(t.len() == 0 || t[0] == '#') {
            apply_line_pair(&mut p, &t);
        }
        i = i + 1;
    }
    proof {
        assert(all.subrange(ls.len() as int, all.len() as int).len() == 0);
    }
    p
}

/// The warning for a value of `key` that is not what the key expects.
pub open spec fn expects_text(key: Seq<char>, what: Seq<char>, value: Seq<char>) -> Seq<char> {
    "usagi.conf: '"@ + key + "' expects "@ + what + ", got '"@ + value + "'"@
}

/// The warning a `usagi.conf` pair earns: a value the key's type rejects
/// (`true or false`, `an integer >= 1`, `a whole number`), or an unknown
/// key. Empty values, names, ids, and the render dimensions (read as
/// numbers where the platform parses them) earn none here.
pub open spec fn pair_warning(key: Seq<char>, value: Seq<char>) -> Option<Seq<char>> {
    if value.len() == 0 {
        None
    } else if key == "name"@ || key == "game_id"@ || key == "game_width"@ || key == "game_height"@ {
        None
    } else if key == "pixel_perfect"@ || key == "pause_menu"@ || key == "initial_fullscreen"@ {
        if parse_bool_spec(value) is None {
            Some(expects_text(key, "true or false"@, value))
        } else {
            None
        }
    } else if key == "sprite_size"@ {
        if parse_size_spec(value) is None {
            Some(expects_text(key, "an integer >= 1"@, value))
        } else {
            None
        }
    } else if key == "icon"@ {
        if parse_index_spec(value) is None {
            Some(expects_text(key, "a whole number"@, value))
        } else {
            None
        }
    } else {
        Some("usagi.conf: unknown key '"@ + key + "'"@)
    }
}

/// The warning a `usagi.conf` line earns: blank lines and `#` comments
/// none, a line without `=` is malformed, a pair as `pair_warning`.
pub open spec fn line_warning(line: Seq<char>) -> Option<Seq<char>> {
    let t = trim(line);
    if t.len() == 0 || t[0] == '#' {
        None
    } else {
        match pair_of(t) {
            Some((k, v)) => pair_warning(k, v),
            None => Some("usagi.conf: ignoring malformed line '"@ + t + "'"@),
        }
    }
}

/// The warnings of the lines `ls`, in order.
pub open spec fn conf_warnings_spec(ls: Seq<Seq<char>>) -> Seq<Seq<char>>
    decreases ls.len(),
{
    if ls.len() == 0 {
        seq![]
    } else {
        conf_warnings_spec(ls.drop_last()) + match line_warning(ls.last()) {
            Some(w) => seq![w],
            None => seq![],
        }
    }
}

/// Strings as plain text.
pub open spec fn string_views(v: Seq<String>) -> Seq<Seq<char>> {
    v.map_values(|s: String| s@)
}

/// `a` followed by `b` and `c`.
fn joined3(a: &str, b: &Vec<char>, c: &str) -> (r: String)
    ensures
        r@ == a@ + b@ + c@,
{
    let mut v = chars_of(a);
    crate::text::push_all(&mut v, b.as_slice());
    crate::text::push_all(&mut v, chars_of(c).as_slice());
    string_of(v.as_slice())
}

/// The warning for a value the key's type rejects.
fn expects_warning(key: &Vec<char>, what: &str, value: &Vec<char>) -> (r: String)
    ensures
        r@ == expects_text(key@, what@, value@),
{
    let mut v = chars_of("usagi.conf: '");
    crate::text::push_all(&mut v, key.as_slice());
    crate::text::push_all(&mut v, chars_of("' expects ").as_slice());
    crate::text::push_all(&mut v, chars_of(what).as_slice());
    crate::text::push_all(&mut v, chars_of(", got '").as_slice());
    crate::text::push_all(&mut v, value.as_slice());
    crate::text::push_all(&mut v, chars_of("'").as_slice());
    string_of(v.as_slice())
}

/// The warning a `key = value` pair of `usagi.conf` earns, if any.
pub fn pair_warning_exec(key: &Vec<char>, value: &Vec<char>) -> (r: Option<String>)
    ensures
        match r {
            Some(w) => pair_warning(key@, value@) == Some(w@),
            None => pair_warning(key@, value@) is None,
        },
{
    if value.len() == 0 {
        return None;
    }
    if is_key(key, "name") || is_key(key, "game_id") || is_key(key, "game_width") || is_key(key, "game_height") {
        return None;
    }
    if is_key(key, "pixel_perfect") || is_key(key, "pause_menu") || is_key(key, "initial_fullscreen") {
        return match parse_bool(value) {
            Some(_) => None,
            None => Some(expects_warning(key, "true or false", value)),
        };
    }
    if is_key(key, "sprite_size") {
        return match parse_size(value) {
            Some(_) => None,
            None => Some(expects_warning(key, "an integer >= 1", value)),
        };
    }
    if is_key(key, "icon") {
        return match parse_index(value) {
            Some(_) => None,
            None => Some(expects_warning(key, "a whole number", value)),
        };
    }
    Some(joined3("usagi.conf: unknown key '", key, "'"))
}

/// The warnings reading `usagi.conf` text earns, one per offending line,
/// in order: malformed lines, unknown keys, and values a key's type
/// rejects.
pub fn conf_warnings(text: &str) -> (r: Vec<String>)
    ensures
        string_views(r@) == conf_warnings_spec(lines(text@)),
{
    let ls = split_lines(&chars_of(text));
    let ghost all = line_views(ls@);
    let mut out: Vec<String> = Vec::new();
    let mut i: usize = 0;
    proof {
        assert(string_views(out@) =~= conf_warnings_spec(all.subrange(0, 0)));
    }
    while i < ls.len()
        invariant
            i <= ls.len(),
            all == line_views(ls@),
            all == lines(text@),
            string_views(out@) == conf_warnings_spec(all.subrange(0, i as int)),
        decreases ls.len() - i,
    {
        let ghost before = out@;
        proof {
            assert(all.subrange(0, i + 1).drop_last() =~= all.subrange(0, i as int));
            assert(all.subrange(0, i + 1).last() == ls@[i as int]@);
        }
        let t = trim_chars(&ls[i]);
        if !(t.len() == 0 || t[0] == '#') {
            match split_once_exec(&t, '=') {
                Some((k, v)) => {
                    let k = trim_chars(&k);
                    let v = trim_chars(&v);
                    match pair_warning_exec(&k, &v) {
                        Some(w) => out.push(w),
                        None => {},
                    }
                },
                None => out.push(joined3("usagi.conf: ignoring malformed line '", &t, "'")),
            }
        }
        proof {
            assert(string_views(out@) =~= conf_warnings_spec(all.subrange(0, i + 1)));
        }
        i = i + 1;
    }
    proof {
        assert(all.subrange(0, ls.len() as int) =~= all);
    }
    out
}

/// `s` without a leading byte-order mark.
pub open spec fn strip_bom_spec(s: Seq<char>) -> Seq<char> {
    if s.len() > 0 && s[0] == '\u{feff}' {
        s.drop_first()
    } else {
        s
    }
}

/// Drops a leading UTF-8 byte-order mark, which some editors prepend, so
/// it doesn't hide the first frontmatter or conf line.
pub fn strip_bom(s: &str) -> (r: String)
    ensures
        r@ == strip_bom_spec(s@),
{
    let v = chars_of(s);
    if v.len() > 0 && v[0] == '\u{feff}' {
        string_of(slice_rest(&v, 1).as_slice())
    } else {
        string_of(v.as_slice())
    }
}

/// The highest-precedence value set: frontmatter, then `usagi.conf`, then
/// `_config`.
pub open spec fn pick_spec<T>(fm: Option<T>, conf: Option<T>, lua: Option<T>) -> Option<T> {
    if fm is Some {
        fm
    } else if conf is Some {
        conf
    } else {
        lua
    }
}

/// Picks the highest-precedence value for one field.
pub fn pick<T>(fm: Option<T>, conf: Option<T>, lua: Option<T>) -> (r: Option<T>)
    ensures
        r == pick_spec(fm, conf, lua),
{
    match fm {
        Some(v) => Some(v),
        None => match conf {
            Some(v) => Some(v),
            None => lua,
        },
    }
}

/// The sources that set a field, highest precedence first, joined with
/// " and ".
pub open spec fn setting_sources(fm: bool, conf: bool, lua: bool) -> Seq<char> {
    if fm && conf && lua {
        "frontmatter and usagi.conf and _config"@
    } else if fm && conf {
        "frontmatter and usagi.conf"@
    } else if fm && lua {
        "frontmatter and _config"@
    } else {
        "usagi.conf and _config"@
    }
}

/// The warning when more than one source sets `field`: which set it,
/// and that the highest-precedence one wins. `None` when at most one
/// source sets it.
pub open spec fn pick_warning_spec(field: Seq<char>, fm: bool, conf: bool, lua: bool) -> Option<Seq<char>> {
    if (fm && conf) || (fm && lua) || (conf && lua) {
        let winner = if fm {
            "frontmatter"@
        } else {
            "usagi.conf"@
        };
        Some("config: '"@ + field + "' set by "@ + setting_sources(fm, conf, lua) + "; using "@ + winner)
    } else {
        None
    }
}

/// The conflict warning for a field set by several sources.
pub fn pick_warning(field: &str, fm: bool, conf: bool, lua: bool) -> (r: Option<String>)
    ensures
        match r {
            Some(w) => pick_warning_spec(field@, fm, conf, lua) == Some(w@),
            None => pick_warning_spec(field@, fm, conf, lua) is None,
        },
{
    if !((fm && conf) || (fm && lua) || (conf && lua)) {
        return None;
    }
    let sources = if fm && conf && lua {
        "frontmatter and usagi.conf and _config"
    } else if fm && conf {
        "frontmatter and usagi.conf"
    } else if fm && lua {
        "frontmatter and _config"
    } else {
        "usagi.conf and _config"
    };
    let winner = if fm {
        "frontmatter"
    } else {
        "usagi.conf"
    };
    let mut v = chars_of("config: '");
    crate::text::push_all(&mut v, chars_of(field).as_slice());
    crate::text::push_all(&mut v, chars_of("' set by ").as_slice());
    crate::text::push_all(&mut v, chars_of(sources).as_slice());
    crate::text::push_all(&mut v, chars_of("; using ").as_slice());
    crate::text::push_all(&mut v, chars_of(winner).as_slice());
    Some(string_of(v.as_slice()))
}

/// Fully-resolved project config, defaults filled in for fields no source
/// set.
pub struct Config<D> {
    /// Display name, resolved with a fallback by `ProjectName`.
    pub name: Option<String>,
    /// Upscale at integer multiples only, letterboxing the rest.
    pub pixel_perfect: bool,
    /// Reverse-DNS game id.
    pub game_id: Option<String>,
    /// 1-based tile of `sprites.png` used as the window icon.
    pub icon: Option<u32>,
    /// Game render dimensions.
    pub resolution: Resolution<D>,
    /// Side of one cell of `sprites.png`.
    pub sprite_size: i32,
    /// The engine's pause menu intercepts Esc / P / Enter / Start.
    pub pause_menu: bool,
    /// Launch fullscreen unless the player saved otherwise.
    pub initial_fullscreen: bool,
}

/// What a config holds, strings as characters.
#[verifier::ext_equal]
pub struct ConfigView<D> {
    pub name: Option<Seq<char>>,
    pub pixel_perfect: bool,
    pub game_id: Option<Seq<char>>,
    pub icon: Option<u32>,
    pub w: D,
    pub h: D,
    pub sprite_size: i32,
    pub pause_menu: bool,
    pub initial_fullscreen: bool,
}

/// The view of a config.
pub open spec fn config_view<D>(c: Config<D>) -> ConfigView<D> {
    ConfigView {
        name: str_opt(c.name),
        pixel_perfect: c.pixel_perfect,
        game_id: str_opt(c.game_id),
        icon: c.icon,
        w: c.resolution.w,
        h: c.resolution.h,
        sprite_size: c.sprite_size,
        pause_menu: c.pause_menu,
        initial_fullscreen: c.initial_fullscreen,
    }
}

/// A value, or the default when unset.
pub open spec fn or_default<T>(o: Option<T>, d: T) -> T {
    match o {
        Some(v) => v,
        None => d,
    }
}

/// The config merged from three sources' fields, per field, the
/// defaults (not pixel-perfect, 16-pixel sprites, pause menu on,
/// windowed, the given resolution) filling what no source set.
pub open spec fn combine_spec<D>(
    lua: Fields<D>,
    conf: Fields<D>,
    fm: Fields<D>,
    default: Resolution<D>,
) -> ConfigView<D> {
    ConfigView {
        name: pick_spec(fm.name, conf.name, lua.name),
        pixel_perfect: or_default(
            pick_spec(fm.pixel_perfect, conf.pixel_perfect, lua.pixel_perfect),
            false,
        ),
        game_id: pick_spec(fm.game_id, conf.game_id, lua.game_id),
        icon: pick_spec(fm.icon, conf.icon, lua.icon),
        w: or_default(pick_spec(fm.game_width, conf.game_width, lua.game_width), default.w),
        h: or_default(pick_spec(fm.game_height, conf.game_height, lua.game_height), default.h),
        sprite_size: or_default(
            pick_spec(fm.sprite_size, conf.sprite_size, lua.sprite_size),
            DEFAULT_SPRITE_SIZE,
        ),
        pause_menu: or_default(pick_spec(fm.pause_menu, conf.pause_menu, lua.pause_menu), true),
        initial_fullscreen: or_default(
            pick_spec(fm.initial_fullscreen, conf.initial_fullscreen, lua.initial_fullscreen),
            false,
        ),
    }
}

/// The fields of an optional partial; none when absent.
pub open spec fn opt_fields<D>(p: Option<Partial<D>>) -> Fields<D> {
    match p {
        Some(q) => fields_of(q),
        None => no_fields(),
    }
}

/// Merges the three sources into a resolved config. Per field, the
/// frontmatter's value wins when it sets one; else `usagi.conf`'s; else
/// `_config`'s; a field none of them sets keeps the engine default (not
/// pixel-perfect, 16-pixel sprites, pause menu on, windowed, the given
/// resolution).
pub fn combine<D: Copy>(
    lua: Option<Partial<D>>,
    conf: Partial<D>,
    fm: Partial<D>,
    default: Resolution<D>,
) -> (r: Config<D>)
    ensures
        config_view(r) == combine_spec(opt_fields(lua), fields_of(conf), fields_of(fm), default),
        fm.name matches Some(v) ==> str_opt(r.name) == Some(v@),
        fm.name is None ==> (conf.name matches Some(v) ==> str_opt(r.name) == Some(v@)),
        fm.name is None && conf.name is None ==> (lua matches Some(l) ==> (l.name matches Some(v) ==> str_opt(r.name) == Some(v@))),
        fm.name is None && conf.name is None && (lua matches Some(l) ==> l.name is None) ==> r.name is None,
        fm.game_id matches Some(v) ==> str_opt(r.game_id) == Some(v@),
        fm.game_id is None ==> (conf.game_id matches Some(v) ==> str_opt(r.game_id) == Some(v@)),
        fm.game_id is None && conf.game_id is None ==> (lua matches Some(l) ==> (l.game_id matches Some(v) ==> str_opt(r.game_id) == Some(v@))),
        fm.game_id is None && conf.game_id is None && (lua matches Some(l) ==> l.game_id is None) ==> r.game_id is None,
        fm.icon matches Some(v) ==> r.icon == Some(v),
        fm.icon is None ==> (conf.icon matches Some(v) ==> r.icon == Some(v)),
        fm.icon is None && conf.icon is None ==> (lua matches Some(l) ==> (l.icon matches Some(v) ==> r.icon == Some(v))),
        fm.icon is None && conf.icon is None && (lua matches Some(l) ==> l.icon is None) ==> r.icon is None,
        fm.pixel_perfect matches Some(v) ==> r.pixel_perfect == v,
        fm.pixel_perfect is None ==> (conf.pixel_perfect matches Some(v) ==> r.pixel_perfect == v),
        fm.pixel_perfect is None && conf.pixel_perfect is None ==> (lua matches Some(l) ==> (l.pixel_perfect matches Some(v) ==> r.pixel_perfect == v)),
        fm.pixel_perfect is None && conf.pixel_perfect is None && (lua matches Some(l) ==> l.pixel_perfect is None) ==> r.pixel_perfect == false,
        fm.game_width matches Some(v) ==> r.resolution.w == v,
        fm.game_width is None ==> (conf.game_width matches Some(v) ==> r.resolution.w == v),
        fm.game_width is None && conf.game_width is None ==> (lua matches Some(l) ==> (l.game_width matches Some(v) ==> r.resolution.w == v)),
        fm.game_width is None && conf.game_width is None && (lua matches Some(l) ==> l.game_width is None) ==> r.resolution.w == default.w,
        fm.game_height matches Some(v) ==> r.resolution.h == v,
        fm.game_height is None ==> (conf.game_height matches Some(v) ==> r.resolution.h == v),
        fm.game_height is None && conf.game_height is None ==> (lua matches Some(l) ==> (l.game_height matches Some(v) ==> r.resolution.h == v)),
        fm.game_height is None && conf.game_height is None && (lua matches Some(l) ==> l.game_height is None) ==> r.resolution.h == default.h,
        fm.sprite_size matches Some(v) ==> r.sprite_size == v,
        fm.sprite_size is None ==> (conf.sprite_size matches Some(v) ==> r.sprite_size == v),
        fm.sprite_size is None && conf.sprite_size is None ==> (lua matches Some(l) ==> (l.sprite_size matches Some(v) ==> r.sprite_size == v)),
        fm.sprite_size is None && conf.sprite_size is None && (lua matches Some(l) ==> l.sprite_size is None) ==> r.sprite_size == DEFAULT_SPRITE_SIZE,
        fm.pause_menu matches Some(v) ==> r.pause_menu == v,
        fm.pause_menu is None ==> (conf.pause_menu matches Some(v) ==> r.pause_menu == v),
        fm.pause_menu is None && conf.pause_menu is None ==> (lua matches Some(l) ==> (l.pause_menu matches Some(v) ==> r.pause_menu == v)),
        fm.pause_menu is None && conf.pause_menu is None && (lua matches Some(l) ==> l.pause_menu is None) ==> r.pause_menu == true,
        fm.initial_fullscreen matches Some(v) ==> r.initial_fullscreen == v,
        fm.initial_fullscreen is None ==> (conf.initial_fullscreen matches Some(v) ==> r.initial_fullscreen == v),
        fm.initial_fullscreen is None && conf.initial_fullscreen is None ==> (lua matches Some(l) ==> (l.initial_fullscreen matches Some(v) ==> r.initial_fullscreen == v)),
        fm.initial_fullscreen is None && conf.initial_fullscreen is None && (lua matches Some(l) ==> l.initial_fullscreen is None) ==> r.initial_fullscreen == false,
{
    let lua = match lua {
        Some(p) => p,
        None => Partial::default(),
    };
    let w = match pick(fm.game_width, conf.game_width, lua.game_width) {
        Some(w) => w,
        None => default.w,
    };
    let h = match pick(fm.game_height, conf.game_height, lua.game_height) {
        Some(h) => h,
        None => default.h,
    };
    let r = Config {
        name: pick(fm.name, conf.name, lua.name),
        pixel_perfect: match pick(fm.pixel_perfect, conf.pixel_perfect, lua.pixel_perfect) {
            Some(b) => b,
            None => false,
        },
        game_id: pick(fm.game_id, conf.game_id, lua.game_id),
        icon: pick(fm.icon, conf.icon, lua.icon),
        resolution: Resolution { w, h },
        sprite_size: match pick(fm.sprite_size, conf.sprite_size, lua.sprite_size) {
            Some(s) => s,
            None => DEFAULT_SPRITE_SIZE,
        },
        pause_menu: match pick(fm.pause_menu, conf.pause_menu, lua.pause_menu) {
            Some(b) => b,
            None => true,
        },
        initial_fullscreen: match pick(
            fm.initial_fullscreen,
            conf.initial_fullscreen,
            lua.initial_fullscreen,
        ) {
            Some(b) => b,
            None => false,
        },
    };
    r
}

/// A copy of an optional string.
fn copy_opt_string(o: &Option<String>) -> (r: Option<String>)
    ensures
        str_opt(r) == str_opt(*o),
{
    match o {
        Some(s) => Some(string_of(chars_of(s.as_str()).as_slice())),
        None => None,
    }
}

/// A copy of a partial.
pub fn copy_partial<D: Copy>(p: &Partial<D>) -> (r: Partial<D>)
    ensures
        fields_of(r) == fields_of(*p),
{
    Partial {
        name: copy_opt_string(&p.name),
        pixel_perfect: p.pixel_perfect,
        game_id: copy_opt_string(&p.game_id),
        icon: p.icon,
        game_width: p.game_width,
        game_height: p.game_height,
        sprite_size: p.sprite_size,
        pause_menu: p.pause_menu,
        initial_fullscreen: p.initial_fullscreen,
    }
}

impl<D> Partial<D> {
    /// The same partial with the dimensions replaced, as read by the
    /// platform from the raw text.
    pub fn with_dims<E>(self, game_width: Option<E>, game_height: Option<E>) -> (r: Partial<E>)
        ensures
            r.game_width == game_width,
            r.game_height == game_height,
            r.name == self.name,
            r.game_id == self.game_id,
            r.pixel_perfect == self.pixel_perfect,
            r.icon == self.icon,
            r.sprite_size == self.sprite_size,
            r.pause_menu == self.pause_menu,
            r.initial_fullscreen == self.initial_fullscreen,
    {
        Partial {
            name: self.name,
            pixel_perfect: self.pixel_perfect,
            game_id: self.game_id,
            icon: self.icon,
            game_width,
            game_height,
            sprite_size: self.sprite_size,
            pause_menu: self.pause_menu,
            initial_fullscreen: self.initial_fullscreen,
        }
    }
}

/// Frontmatter and `usagi.conf` partials, parsed once per boot and
/// shared by the early dimension seed and the authoritative resolve.
pub struct TextSources<D> {
    pub fm: Partial<D>,
    pub conf: Partial<D>,
}

impl<D: Copy> Config<D> {
    /// The engine defaults, with the given resolution.
    pub fn default_with(resolution: Resolution<D>) -> (r: Self)
        ensures
            config_view(r) == combine_spec(no_fields(), no_fields(), no_fields(), resolution),
    {
        Config {
            name: None,
            pixel_perfect: false,
            game_id: None,
            icon: None,
            resolution,
            sprite_size: DEFAULT_SPRITE_SIZE,
            pause_menu: true,
            initial_fullscreen: false,
        }
    }

    /// Resolves config from the text sources alone (no `_config`).
    pub fn from_text(text: &TextSources<D>, default: Resolution<D>) -> (r: Self)
        ensures
            config_view(r) == combine_spec(
                no_fields(),
                fields_of(text.conf),
                fields_of(text.fm),
                default,
            ),
    {
        combine(None, copy_partial(&text.conf), copy_partial(&text.fm), default)
    }

    /// Authoritative resolution: the `_config()` partial, if the game has
    /// one, merged under the text sources.
    pub fn resolve(lua: Option<Partial<D>>, text: &TextSources<D>, default: Resolution<D>) -> (r:
        Self)
        ensures
            config_view(r) == combine_spec(
                opt_fields(lua),
                fields_of(text.conf),
                fields_of(text.fm),
                default,
            ),
    {
        combine(lua, copy_partial(&text.conf), copy_partial(&text.fm), default)
    }
}

/// A field the frontmatter leaves unset takes `usagi.conf`'s value when
/// it sets one, whatever `_config` says, for every field.
pub proof fn lemma_conf_fills_what_frontmatter_leaves<D>(
    lua: Fields<D>,
    conf: Fields<D>,
    fm: Fields<D>,
    default: Resolution<D>,
)
    ensures
        ({
            let c = combine_spec(lua, conf, fm, default);
            &&& (fm.name is None && conf.name is Some ==> c.name == conf.name)
            &&& (fm.game_id is None && conf.game_id is Some ==> c.game_id == conf.game_id)
            &&& (fm.icon is None && conf.icon is Some ==> c.icon == conf.icon)
            &&& (fm.pixel_perfect is None && conf.pixel_perfect is Some ==> c.pixel_perfect == conf.pixel_perfect->Some_0)
            &&& (fm.game_width is None && conf.game_width is Some ==> c.w == conf.game_width->Some_0)
            &&& (fm.game_height is None && conf.game_height is Some ==> c.h == conf.game_height->Some_0)
            &&& (fm.sprite_size is None && conf.sprite_size is Some ==> c.sprite_size == conf.sprite_size->Some_0)
            &&& (fm.pause_menu is None && conf.pause_menu is Some ==> c.pause_menu == conf.pause_menu->Some_0)
            &&& (fm.initial_fullscreen is None && conf.initial_fullscreen is Some ==> c.initial_fullscreen == conf.initial_fullscreen->Some_0)
        }),
{
}

/// A field no source sets keeps the engine default: pause menu on,
/// windowed, not pixel-perfect, 16-pixel sprites, the given resolution,
/// no name, id or icon.
pub proof fn lemma_unset_fields_keep_defaults<D>(default: Resolution<D>)
    ensures
        ({
            let c = combine_spec(no_fields::<D>(), no_fields::<D>(), no_fields::<D>(), default);
            &&& c.pause_menu
            &&& !c.initial_fullscreen
            &&& !c.pixel_perfect
            &&& c.sprite_size == 16
            &&& c.w == default.w
            &&& c.h == default.h
            &&& c.name is None
            &&& c.game_id is None
            &&& c.icon is None
        }),
{
}

/// Sources merge per field: the highest-precedence source that set a
/// field wins, and a field no source set falls through to the next.
pub proof fn lemma_precedence<T>(fm: Option<T>, conf: Option<T>, lua: Option<T>)
    ensures
        fm is Some ==> pick_spec(fm, conf, lua) == fm,
        fm is None && conf is Some ==> pick_spec(fm, conf, lua) == conf,
        fm is None && conf is None ==> pick_spec(fm, conf, lua) == lua,
{
}

/// An empty value never changes a partial, so `name =` falls through to a
/// lower source rather than clobbering it.
pub proof fn lemma_empty_value_is_ignored(p: Fields<Seq<char>>, key: Seq<char>)
    ensures
        apply_pair_spec(p, key, seq![]) == p,
{
}

/// Nothing after the first non-comment line affects the frontmatter.
pub proof fn lemma_frontmatter_stops_at_first_non_comment(
    p: Fields<Seq<char>>,
    before: Seq<Seq<char>>,
    line: Seq<char>,
    after: Seq<Seq<char>>,
)
    requires
        !is_comment(line),
    ensures
        frontmatter_spec(p, before + seq![line] + after) == frontmatter_spec(
            p,
            before + seq![line],
        ),
    decreases before.len(),
{
    let all = before + seq![line] + after;
    let head = before + seq![line];
    if before.len() == 0 {
        assert(all[0] == line);
        assert(head[0] == line);
    } else {
        assert(all[0] == before[0]);
        assert(head[0] == before[0]);
        if is_comment(before[0]) {
            let q = comment_step(p, before[0]);
            lemma_frontmatter_stops_at_first_non_comment(q, before.drop_first(), line, after);
            assert(all.drop_first() =~= before.drop_first() + seq![line] + after);
            assert(head.drop_first() =~= before.drop_first() + seq![line]);
        }
    }
}

/// A leading byte-order mark hides nothing.
pub proof fn lemma_bom_is_transparent(s: Seq<char>)
    ensures
        strip_bom_spec(seq!['\u{feff}'] + s) == s,
{
    assert((seq!['\u{feff}'] + s).drop_first() =~= s);
}

} // verus!
