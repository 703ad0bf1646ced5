//! `usagi loveify` checks: porting an Usagi project to Love2D (LuaJIT)
//! copies the sources over; this module holds the decisions about what
//! is copied and what the developer is warned about — Lua 5.3+/5.4
//! features LuaJIT lacks, found by a cheap line-level scan.

use crate::text::{
    chars_eq, chars_of, concat3, contains_chars, contains_seq, is_ascii_alnum, is_ascii_alnum_exec, lines,
    line_views, occurs_at, slice_chars, split_lines, starts_at, string_of,
};
use vstd::prelude::*;

verus! {

/// A LuaJIT-incompatible feature found in a ported file.
pub struct Warning {
    pub file: String,
    pub line: usize,
    pub feature: &'static str,
    pub hint: &'static str,
}

/// A warning as characters: file, line number, feature, hint.
pub open spec fn warning_view(w: Warning) -> (Seq<char>, int, Seq<char>, Seq<char>) {
    (w.file@, w.line as int, w.feature@, w.hint@)
}

/// The bytes read one character per byte. On valid UTF-8 the ASCII
/// characters (line breaks and the patterns looked for) sit where the
/// text has them, and no ASCII byte belongs to a multi-byte character.
pub open spec fn byte_chars(bytes: Seq<u8>) -> Seq<char> {
    bytes.map_values(|b: u8| b as char)
}

/// A byte that can sit on either side of a binary operator: space, tab,
/// ASCII letter or digit, `_`, or a bracket that ends or opens an
/// operand.
pub open spec fn is_token_boundary(c: char) -> bool {
    c == ' ' || c == '\t' || is_ascii_alnum(c) || c == '_' || c == ')' || c == ']' || c == '('
}

/// Whether a byte can sit on either side of a binary operator.
pub fn is_token_boundary_byte(b: u8) -> (r: bool)
    ensures
        r == is_token_boundary(b as char),
{
    let c = b as char;
    c == ' ' || c == '\t' || is_ascii_alnum_exec(c) || c == '_' || c == ')' || c == ']' || c == '('
}

/// The bitwise scan from position `i`: a single `&` or `|` with a token
/// boundary on both sides (a doubled one is skipped whole), or a `<<` or
/// `>>`, anywhere from `i` on.
pub open spec fn bitwise_from(s: Seq<char>, i: int) -> bool
    decreases s.len() - i,
{
    if i < 0 || i >= s.len() {
        false
    } else {
        let c = s[i];
        if (c == '&' || c == '|') && i > 0 && i + 1 < s.len() && s[i + 1] == c {
            bitwise_from(s, i + 2)
        } else if (c == '&' || c == '|') && i > 0 && i + 1 < s.len() && is_token_boundary(s[i - 1])
            && is_token_boundary(s[i + 1]) {
            true
        } else if (c == '<' || c == '>') && i + 1 < s.len() && s[i + 1] == c {
            true
        } else {
            bitwise_from(s, i + 1)
        }
    }
}

/// A line looks like it uses a Lua 5.3 bitwise operator.
pub open spec fn looks_like_bitwise_spec(line: Seq<char>) -> bool {
    bitwise_from(line, 0)
}

/// Heuristic for a binary `&`, `|`, `<<` or `>>` between two word-ish
/// tokens, skipping `&&` and `||`.
pub fn looks_like_bitwise(line: &Vec<char>) -> (r: bool)
    ensures
        r == looks_like_bitwise_spec(line@),
{
    let mut i: usize = 0;
    while i < line.len()
        invariant
            i <= line.len() + 1,
            bitwise_from(line@, i as int) == bitwise_from(line@, 0),
        decreases line.len() + 1 - i,
    {
        let c = line[i];
        if (c == '&' || c == '|') && i > 0 && i + 1 < line.len() {
            if line[i + 1] == c {
                i = i + 2;
                continue;
            }
            if is_token_boundary_byte_char(line[i - 1]) && is_token_boundary_byte_char(line[i + 1]) {
                return true;
            }
        }
        if c == '<' && i + 1 < line.len() && line[i + 1] == '<' {
            return true;
        }
        if c == '>' && i + 1 < line.len() && line[i + 1] == '>' {
            return true;
        }
        i = i + 1;
    }
    false
}

/// Whether a character can sit on either side of a binary operator.
fn is_token_boundary_byte_char(c: char) -> (r: bool)
    ensures
        r == is_token_boundary(c),
{
    c == ' ' || c == '\t' || is_ascii_alnum_exec(c) || c == '_' || c == ')' || c == ']' || c == '('
}

/// Position of the first `n` in `s`.
pub open spec fn find_seq(s: Seq<char>, n: Seq<char>) -> Option<int> {
    if exists|i: int| occurs_at(s, n, i) {
        Some(choose|i: int| occurs_at(s, n, i) && forall|j: int| 0 <= j < i ==> !occurs_at(s, n, j))
    } else {
        None
    }
}

/// The code of a line: the text before its first `--` short comment.
pub open spec fn code_part(line: Seq<char>) -> Seq<char> {
    match find_seq(line, seq!['-', '-']) {
        Some(j) => line.subrange(0, j),
        None => line,
    }
}

/// The warnings for one line (numbered `n`) of `file`, in order.
pub open spec fn line_warnings(file: Seq<char>, n: int, raw: Seq<char>) -> Seq<(Seq<char>, int, Seq<char>, Seq<char>)> {
    let l = code_part(raw);
    (if contains_seq(l, seq!['/', '/']) {
        seq![(file, n, seq!['/', '/', ' ', '(', 'i', 'n', 't', 'e', 'g', 'e', 'r', ' ', 'd', 'i', 'v', 'i', 's', 'i', 'o', 'n', ',', ' ', 'L', 'u', 'a', ' ', '5', '.', '3', '+', ')'], seq!['r', 'e', 'w', 'r', 'i', 't', 'e', ' ', 'a', 's', ' ', 'm', 'a', 't', 'h', '.', 'f', 'l', 'o', 'o', 'r', '(', 'a', ' ', '/', ' ', 'b', ')', ';', ' ', 'L', 'u', 'a', 'J', 'I', 'T', ' ', 'h', 'a', 's', ' ', 'n', 'o', ' ', '/', '/', ' ', 'o', 'p', 'e', 'r', 'a', 't', 'o', 'r'])]
    } else {
        seq![]
    })
        + (if contains_seq(l, seq!['s', 't', 'r', 'i', 'n', 'g', '.', 'p', 'a', 'c', 'k']) || contains_seq(l, seq!['s', 't', 'r', 'i', 'n', 'g', '.', 'u', 'n', 'p', 'a', 'c', 'k']) {
        seq![(file, n, seq!['s', 't', 'r', 'i', 'n', 'g', '.', 'p', 'a', 'c', 'k', ' ', '/', ' ', 's', 't', 'r', 'i', 'n', 'g', '.', 'u', 'n', 'p', 'a', 'c', 'k', ' ', '(', 'L', 'u', 'a', ' ', '5', '.', '3', '+', ')'], seq!['n', 'o', ' ', 'L', 'u', 'a', 'J', 'I', 'T', ' ', 'e', 'q', 'u', 'i', 'v', 'a', 'l', 'e', 'n', 't', ';', ' ', 'r', 'e', 'w', 'r', 'i', 't', 'e', ' ', 'b', 'y', ' ', 'h', 'a', 'n', 'd', ' ', 'u', 's', 'i', 'n', 'g', ' ', 's', 't', 'r', 'i', 'n', 'g', '.', 'b', 'y', 't', 'e', '/', 'c', 'h', 'a', 'r'])]
    } else {
        seq![]
    })
        + (if contains_seq(l, seq!['<', 'c', 'o', 'n', 's', 't', '>']) || contains_seq(l, seq!['<', 'c', 'l', 'o', 's', 'e', '>']) {
        seq![(file, n, seq!['<', 'c', 'o', 'n', 's', 't', '>', '/', '<', 'c', 'l', 'o', 's', 'e', '>', ' ', 'a', 't', 't', 'r', 'i', 'b', 'u', 't', 'e', ' ', '(', 'L', 'u', 'a', ' ', '5', '.', '4', '+', ')'], seq!['s', 't', 'r', 'i', 'p', ' ', 't', 'h', 'e', ' ', 'a', 't', 't', 'r', 'i', 'b', 'u', 't', 'e', ';', ' ', 'L', 'u', 'a', 'J', 'I', 'T', ' ', 'w', 'i', 'l', 'l', ' ', 'r', 'e', 'j', 'e', 'c', 't', ' ', 't', 'h', 'e', ' ', 's', 'y', 'n', 't', 'a', 'x'])]
    } else {
        seq![]
    })
        + (if looks_like_bitwise_spec(l) {
        seq![(file, n, seq!['b', 'i', 't', 'w', 'i', 's', 'e', ' ', 'o', 'p', 'e', 'r', 'a', 't', 'o', 'r', ' ', '(', 'L', 'u', 'a', ' ', '5', '.', '3', '+', ')'], seq!['u', 's', 'e', ' ', 'L', 'u', 'a', 'J', 'I', 'T', '\'', 's', ' ', 'b', 'i', 't', ' ', 'm', 'o', 'd', 'u', 'l', 'e', ':', ' ', 'b', 'i', 't', '.', 'b', 'a', 'n', 'd', ',', ' ', 'b', 'o', 'r', ',', ' ', 'b', 'x', 'o', 'r', ',', ' ', 'l', 's', 'h', 'i', 'f', 't', ',', ' ', 'r', 's', 'h', 'i', 'f', 't'])]
    } else {
        seq![]
    })
}

/// The warnings of the first `k` lines.
pub open spec fn lines_warnings(file: Seq<char>, ls: Seq<Seq<char>>, k: int) -> Seq<(Seq<char>, int, Seq<char>, Seq<char>)>
    decreases k,
{
    if k <= 0 {
        seq![]
    } else {
        lines_warnings(file, ls, k - 1) + line_warnings(file, k, ls[k - 1])
    }
}

/// The warnings of a file: none unless it is UTF-8, else those of each
/// line.
pub open spec fn scan_spec(bytes: Seq<u8>, file: Seq<char>) -> Seq<(Seq<char>, int, Seq<char>, Seq<char>)> {
    if !vstd::utf8::valid_utf8(bytes) {
        seq![]
    } else {
        let ls = lines(byte_chars(bytes));
        lines_warnings(file, ls, ls.len() as int)
    }
}

/// Warnings as characters.
pub open spec fn warnings_view(ws: Seq<Warning>) -> Seq<(Seq<char>, int, Seq<char>, Seq<char>)> {
    ws.map_values(|w: Warning| warning_view(w))
}

/// The bytes one character per byte.
fn bytes_to_chars(bytes: &[u8]) -> (r: Vec<char>)
    ensures
        r@ == byte_chars(bytes@),
{
    let mut out: Vec<char> = Vec::new();
    let mut i: usize = 0;
    while i < bytes.len()
        invariant
            i <= bytes.len(),
            out@ =~= byte_chars(bytes@).subrange(0, i as int),
        decreases bytes.len() - i,
    {
        out.push(bytes[i] as char);
        i = i + 1;
    }
    out
}

/// The code part of a line.
fn code_part_exec(line: &Vec<char>) -> (r: Vec<char>)
    ensures
        r@ == code_part(line@),
{
    let dd: Vec<char> = vec!['-', '-'];
    proof {
        assert(dd@ =~= seq!['-', '-']);
    }
    if line.len() < 2 {
        proof {
            assert forall|i: int| !occurs_at(line@, dd@, i) by {}
        }
        return slice_chars(line, 0, line.len());
    }
    let mut j: usize = 0;
    while j < line.len() - 1
        invariant
            line.len() >= 2,
            j <= line.len() - 1,
            dd@ == seq!['-', '-'],
            forall|k: int| 0 <= k < j ==> !occurs_at(line@, dd@, k),
        decreases line.len() - j,
    {
        if starts_at(line, &dd, j) {
            proof {
                let c = choose|i: int| occurs_at(line@, dd@, i) && forall|k: int| 0 <= k < i ==> !occurs_at(line@, dd@, k);
                if c < j {
                } else if j < c {
                    assert(!occurs_at(line@, dd@, j as int));
                }
            }
            return slice_chars(line, 0, j);
        }
        j = j + 1;
    }
    proof {
        assert forall|i: int| !occurs_at(line@, dd@, i) by {
            if 0 <= i < j {
            }
        }
    }
    slice_chars(line, 0, line.len())
}

/// Appends a warning.
fn warn(out: &mut Vec<Warning>, file: &str, n: usize, feature: &'static str, hint: &'static str)
    ensures
        warnings_view(final(out)@) == warnings_view(old(out)@).push((file@, n as int, feature@, hint@)),
{
    let ghost before = out@;
    out.push(Warning { file: string_of(chars_of(file).as_slice()), line: n, feature, hint });
    proof {
        assert(warnings_view(out@) =~= warnings_view(before).push((file@, n as int, feature@, hint@)));
    }
}

/// Appends the warnings of one line.
fn line_scan(out: &mut Vec<Warning>, file: &str, n: usize, raw: &Vec<char>)
    ensures
        warnings_view(final(out)@) == warnings_view(old(out)@) + line_warnings(file@, n as int, raw@),
{
    let ghost start = warnings_view(out@);
    let l = code_part_exec(raw);
    let p0_0 = chars_of("//");
    let p1_0 = chars_of("string.pack");
    let p1_1 = chars_of("string.unpack");
    let p2_0 = chars_of("<const>");
    let p2_1 = chars_of("<close>");
    proof {
        reveal_strlit("//");
        reveal_strlit("string.pack");
        reveal_strlit("string.unpack");
        reveal_strlit("<const>");
        reveal_strlit("<close>");
        reveal_strlit("// (integer division, Lua 5.3+)");
        reveal_strlit("string.pack / string.unpack (Lua 5.3+)");
        reveal_strlit("<const>/<close> attribute (Lua 5.4+)");
        reveal_strlit("rewrite as math.floor(a / b); LuaJIT has no // operator");
        reveal_strlit("no LuaJIT equivalent; rewrite by hand using string.byte/char");
        reveal_strlit("strip the attribute; LuaJIT will reject the syntax");
        reveal_strlit("bitwise operator (Lua 5.3+)");
        reveal_strlit("use LuaJIT's bit module: bit.band, bor, bxor, lshift, rshift");
        assert("//"@ =~= seq!['/', '/']);
        assert("string.pack"@ =~= seq!['s', 't', 'r', 'i', 'n', 'g', '.', 'p', 'a', 'c', 'k']);
        assert("string.unpack"@ =~= seq!['s', 't', 'r', 'i', 'n', 'g', '.', 'u', 'n', 'p', 'a', 'c', 'k']);
        assert("<const>"@ =~= seq!['<', 'c', 'o', 'n', 's', 't', '>']);
        assert("<close>"@ =~= seq!['<', 'c', 'l', 'o', 's', 'e', '>']);
        assert("// (integer division, Lua 5.3+)"@ =~= seq!['/', '/', ' ', '(', 'i', 'n', 't', 'e', 'g', 'e', 'r', ' ', 'd', 'i', 'v', 'i', 's', 'i', 'o', 'n', ',', ' ', 'L', 'u', 'a', ' ', '5', '.', '3', '+', ')']);
        assert("string.pack / string.unpack (Lua 5.3+)"@ =~= seq!['s', 't', 'r', 'i', 'n', 'g', '.', 'p', 'a', 'c', 'k', ' ', '/', ' ', 's', 't', 'r', 'i', 'n', 'g', '.', 'u', 'n', 'p', 'a', 'c', 'k', ' ', '(', 'L', 'u', 'a', ' ', '5', '.', '3', '+', ')']);
        assert("<const>/<close> attribute (Lua 5.4+)"@ =~= seq!['<', 'c', 'o', 'n', 's', 't', '>', '/', '<', 'c', 'l', 'o', 's', 'e', '>', ' ', 'a', 't', 't', 'r', 'i', 'b', 'u', 't', 'e', ' ', '(', 'L', 'u', 'a', ' ', '5', '.', '4', '+', ')']);
        assert("rewrite as math.floor(a / b); LuaJIT has no // operator"@ =~= seq!['r', 'e', 'w', 'r', 'i', 't', 'e', ' ', 'a', 's', ' ', 'm', 'a', 't', 'h', '.', 'f', 'l', 'o', 'o', 'r', '(', 'a', ' ', '/', ' ', 'b', ')', ';', ' ', 'L', 'u', 'a', 'J', 'I', 'T', ' ', 'h', 'a', 's', ' ', 'n', 'o', ' ', '/', '/', ' ', 'o', 'p', 'e', 'r', 'a', 't', 'o', 'r']);
        assert("no LuaJIT equivalent; rewrite by hand using string.byte/char"@ =~= seq!['n', 'o', ' ', 'L', 'u', 'a', 'J', 'I', 'T', ' ', 'e', 'q', 'u', 'i', 'v', 'a', 'l', 'e', 'n', 't', ';', ' ', 'r', 'e', 'w', 'r', 'i', 't', 'e', ' ', 'b', 'y', ' ', 'h', 'a', 'n', 'd', ' ', 'u', 's', 'i', 'n', 'g', ' ', 's', 't', 'r', 'i', 'n', 'g', '.', 'b', 'y', 't', 'e', '/', 'c', 'h', 'a', 'r']);
        assert("strip the attribute; LuaJIT will reject the syntax"@ =~= seq!['s', 't', 'r', 'i', 'p', ' ', 't', 'h', 'e', ' ', 'a', 't', 't', 'r', 'i', 'b', 'u', 't', 'e', ';', ' ', 'L', 'u', 'a', 'J', 'I', 'T', ' ', 'w', 'i', 'l', 'l', ' ', 'r', 'e', 'j', 'e', 'c', 't', ' ', 't', 'h', 'e', ' ', 's', 'y', 'n', 't', 'a', 'x']);
        assert("bitwise operator (Lua 5.3+)"@ =~= seq!['b', 'i', 't', 'w', 'i', 's', 'e', ' ', 'o', 'p', 'e', 'r', 'a', 't', 'o', 'r', ' ', '(', 'L', 'u', 'a', ' ', '5', '.', '3', '+', ')']);
        assert("use LuaJIT's bit module: bit.band, bor, bxor, lshift, rshift"@ =~= seq!['u', 's', 'e', ' ', 'L', 'u', 'a', 'J', 'I', 'T', '\'', 's', ' ', 'b', 'i', 't', ' ', 'm', 'o', 'd', 'u', 'l', 'e', ':', ' ', 'b', 'i', 't', '.', 'b', 'a', 'n', 'd', ',', ' ', 'b', 'o', 'r', ',', ' ', 'b', 'x', 'o', 'r', ',', ' ', 'l', 's', 'h', 'i', 'f', 't', ',', ' ', 'r', 's', 'h', 'i', 'f', 't']);
    }
    let ghost b0 = warnings_view(out@);
    if contains_chars(&l, &p0_0) {
        warn(out, file, n, "// (integer division, Lua 5.3+)", "rewrite as math.floor(a / b); LuaJIT has no // operator");
    }
    let ghost b1 = warnings_view(out@);
    if contains_chars(&l, &p1_0) || contains_chars(&l, &p1_1) {
        warn(out, file, n, "string.pack / string.unpack (Lua 5.3+)", "no LuaJIT equivalent; rewrite by hand using string.byte/char");
    }
    let ghost b2 = warnings_view(out@);
    if contains_chars(&l, &p2_0) || contains_chars(&l, &p2_1) {
        warn(out, file, n, "<const>/<close> attribute (Lua 5.4+)", "strip the attribute; LuaJIT will reject the syntax");
    }
    let ghost b3 = warnings_view(out@);
    if looks_like_bitwise(&l) {
        warn(out, file, n, "bitwise operator (Lua 5.3+)", "use LuaJIT's bit module: bit.band, bor, bxor, lshift, rshift");
    }
    proof {
        assert(warnings_view(out@) =~= start + line_warnings(file@, n as int, raw@));
    }
}

/// A warning of a line stays among those of every later prefix of lines.
proof fn lemma_line_warning_kept(
    file: Seq<char>,
    ls: Seq<Seq<char>>,
    total: int,
    k: int,
    w: (Seq<char>, int, Seq<char>, Seq<char>),
)
    requires
        0 <= k < total <= ls.len(),
        line_warnings(file, k + 1, ls[k]).contains(w),
    ensures
        lines_warnings(file, ls, total).contains(w),
    decreases total,
{
    let a = lines_warnings(file, ls, total - 1);
    let b = line_warnings(file, total, ls[total - 1]);
    assert(lines_warnings(file, ls, total) == a + b);
    if k == total - 1 {
        let i = choose|i: int| 0 <= i < b.len() && b[i] == w;
        assert((a + b)[a.len() + i] == w);
    } else {
        lemma_line_warning_kept(file, ls, total - 1, k, w);
        let i = choose|i: int| 0 <= i < a.len() && a[i] == w;
        assert((a + b)[i] == w);
    }
}

/// The Lua 5.3 string packing feature.
pub open spec fn pack_feature() -> Seq<char> {
    "string.pack / string.unpack (Lua 5.3+)"@
}

/// A UTF-8 file whose line `k + 1` calls `string.pack` or
/// `string.unpack` in its code (before any `--` comment) gets a warning
/// for that line naming the string packing feature.
pub proof fn lemma_string_packing_is_flagged(bytes: Seq<u8>, file: Seq<char>, k: int, pat: Seq<char>)
    requires
        vstd::utf8::valid_utf8(bytes),
        0 <= k < lines(byte_chars(bytes)).len(),
        pat == "string.pack"@ || pat == "string.unpack"@,
        contains_seq(code_part(lines(byte_chars(bytes))[k]), pat),
    ensures
        exists|w: (Seq<char>, int, Seq<char>, Seq<char>)|
            scan_spec(bytes, file).contains(w) && w.0 == file && w.1 == k + 1 && w.2 == pack_feature(),
{
    reveal_strlit("string.pack");
    reveal_strlit("string.unpack");
    reveal_strlit("string.pack / string.unpack (Lua 5.3+)");
    assert("string.pack"@ =~= seq!['s', 't', 'r', 'i', 'n', 'g', '.', 'p', 'a', 'c', 'k']);
    assert("string.unpack"@ =~= seq!['s', 't', 'r', 'i', 'n', 'g', '.', 'u', 'n', 'p', 'a', 'c', 'k']);
    let feature = seq!['s', 't', 'r', 'i', 'n', 'g', '.', 'p', 'a', 'c', 'k', ' ', '/', ' ', 's', 't', 'r', 'i', 'n', 'g', '.', 'u', 'n', 'p', 'a', 'c', 'k', ' ', '(', 'L', 'u', 'a', ' ', '5', '.', '3', '+', ')'];
    assert(pack_feature() =~= feature);
    let ls = lines(byte_chars(bytes));
    let l = code_part(ls[k]);
    let lw = line_warnings(file, k + 1, ls[k]);
    let a = if contains_seq(l, seq!['/', '/']) {
        seq![(file, k + 1, seq!['/', '/', ' ', '(', 'i', 'n', 't', 'e', 'g', 'e', 'r', ' ', 'd', 'i', 'v', 'i', 's', 'i', 'o', 'n', ',', ' ', 'L', 'u', 'a', ' ', '5', '.', '3', '+', ')'], seq!['r', 'e', 'w', 'r', 'i', 't', 'e', ' ', 'a', 's', ' ', 'm', 'a', 't', 'h', '.', 'f', 'l', 'o', 'o', 'r', '(', 'a', ' ', '/', ' ', 'b', ')', ';', ' ', 'L', 'u', 'a', 'J', 'I', 'T', ' ', 'h', 'a', 's', ' ', 'n', 'o', ' ', '/', '/', ' ', 'o', 'p', 'e', 'r', 'a', 't', 'o', 'r'])]
    } else {
        seq![]
    };
    let w = lw[a.len() as int];
    assert(w.0 == file && w.1 == k + 1 && w.2 == feature);
    assert(lw.contains(w));
    lemma_line_warning_kept(file, ls, ls.len() as int, k, w);
    assert(scan_spec(bytes, file) == lines_warnings(file, ls, ls.len() as int));
    assert(scan_spec(bytes, file).contains(w));
}

/// The integer division feature.
pub open spec fn floor_div_feature() -> Seq<char> {
    "// (integer division, Lua 5.3+)"@
}

/// The Lua 5.4 variable attributes feature.
pub open spec fn attribute_feature() -> Seq<char> {
    "<const>/<close> attribute (Lua 5.4+)"@
}

/// A UTF-8 file whose line `k + 1` uses `//` in its code gets a warning
/// for that line naming integer division; one that uses `<const>` or
/// `<close>` gets one naming the attribute.
pub proof fn lemma_other_features_are_flagged(bytes: Seq<u8>, file: Seq<char>, k: int)
    requires
        vstd::utf8::valid_utf8(bytes),
        0 <= k < lines(byte_chars(bytes)).len(),
    ensures
        contains_seq(code_part(lines(byte_chars(bytes))[k]), "//"@) ==> exists|
            w: (Seq<char>, int, Seq<char>, Seq<char>),
        | scan_spec(bytes, file).contains(w) && w.0 == file && w.1 == k + 1 && w.2 == floor_div_feature(),
        contains_seq(code_part(lines(byte_chars(bytes))[k]), "<const>"@) || contains_seq(
            code_part(lines(byte_chars(bytes))[k]),
            "<close>"@,
        ) ==> exists|w: (Seq<char>, int, Seq<char>, Seq<char>)|
            scan_spec(bytes, file).contains(w) && w.0 == file && w.1 == k + 1 && w.2 == attribute_feature(),
{
    reveal_strlit("//");
    reveal_strlit("<const>");
    reveal_strlit("<close>");
    reveal_strlit("// (integer division, Lua 5.3+)");
    reveal_strlit("<const>/<close> attribute (Lua 5.4+)");
    assert("//"@ =~= seq!['/', '/']);
    assert("<const>"@ =~= seq!['<', 'c', 'o', 'n', 's', 't', '>']);
    assert("<close>"@ =~= seq!['<', 'c', 'l', 'o', 's', 'e', '>']);
    assert(floor_div_feature() =~= seq!['/', '/', ' ', '(', 'i', 'n', 't', 'e', 'g', 'e', 'r', ' ', 'd', 'i', 'v', 'i', 's', 'i', 'o', 'n', ',', ' ', 'L', 'u', 'a', ' ', '5', '.', '3', '+', ')']);
    assert(attribute_feature() =~= seq!['<', 'c', 'o', 'n', 's', 't', '>', '/', '<', 'c', 'l', 'o', 's', 'e', '>', ' ', 'a', 't', 't', 'r', 'i', 'b', 'u', 't', 'e', ' ', '(', 'L', 'u', 'a', ' ', '5', '.', '4', '+', ')']);
    let ls = lines(byte_chars(bytes));
    let l = code_part(ls[k]);
    let lw = line_warnings(file, k + 1, ls[k]);
    assert(scan_spec(bytes, file) == lines_warnings(file, ls, ls.len() as int));
    if contains_seq(l, "//"@) {
        let w = lw[0];
        assert(w.0 == file && w.1 == k + 1 && w.2 == floor_div_feature());
        assert(lw.contains(w));
        lemma_line_warning_kept(file, ls, ls.len() as int, k, w);
        assert(scan_spec(bytes, file).contains(w));
    }
    if contains_seq(l, "<const>"@) || contains_seq(l, "<close>"@) {
        let a = if contains_seq(l, seq!['/', '/']) { 1int } else { 0int };
        let b = if contains_seq(l, seq!['s', 't', 'r', 'i', 'n', 'g', '.', 'p', 'a', 'c', 'k']) || contains_seq(l, seq!['s', 't', 'r', 'i', 'n', 'g', '.', 'u', 'n', 'p', 'a', 'c', 'k']) { 1int } else { 0int };
        let w = lw[a + b];
        assert(w.0 == file && w.1 == k + 1 && w.2 == attribute_feature());
        assert(lw.contains(w));
        lemma_line_warning_kept(file, ls, ls.len() as int, k, w);
        assert(scan_spec(bytes, file).contains(w));
    }
}

/// Surfaces features LuaJIT (Love's runtime) doesn't support so the
/// developer can hand-fix them; appends one warning per feature per
/// line. Text that is not UTF-8 is skipped.
pub fn scan_for_warnings(bytes: &[u8], file: &str, out: &mut Vec<Warning>)
    ensures
        warnings_view(final(out)@) == warnings_view(old(out)@) + scan_spec(bytes@, file@),
        vstd::utf8::valid_utf8(bytes@) ==> forall|k: int|
            0 <= k < lines(byte_chars(bytes@)).len() && (contains_seq(
                code_part(#[trigger] lines(byte_chars(bytes@))[k]),
                "string.pack"@,
            ) || contains_seq(code_part(lines(byte_chars(bytes@))[k]), "string.unpack"@)) ==> exists|
                w: (Seq<char>, int, Seq<char>, Seq<char>),
            |
                warnings_view(final(out)@).contains(w) && w.0 == file@ && w.1 == k + 1 && w.2
                    == "string.pack / string.unpack (Lua 5.3+)"@,
{
    if crate::text::utf8_string(bytes).is_err() {
        proof {
            assert(warnings_view(out@) =~= warnings_view(old(out)@) + scan_spec(bytes@, file@));
        }
        return;
    }
    let ls = split_lines(&bytes_to_chars(bytes));
    let ghost lv = line_views(ls@);
    let ghost start = warnings_view(out@);
    let mut i: usize = 0;
    while i < ls.len()
        invariant
            i <= ls.len(),
            lv == line_views(ls@),
            warnings_view(out@) == start + lines_warnings(file@, lv, i as int),
        decreases ls.len() - i,
    {
        line_scan(out, file, i + 1, &ls[i]);
        proof {
            assert(lv[i as int] == ls@[i as int]@);
            assert(warnings_view(out@) =~= start + lines_warnings(file@, lv, i + 1));
        }
        i = i + 1;
    }
    proof {
        assert(lv == lines(byte_chars(bytes@)));
        assert(warnings_view(out@) == warnings_view(old(out)@) + scan_spec(bytes@, file@));
        assert forall|k: int|
            0 <= k < lines(byte_chars(bytes@)).len() && (contains_seq(
                code_part(#[trigger] lines(byte_chars(bytes@))[k]),
                "string.pack"@,
            ) || contains_seq(code_part(lines(byte_chars(bytes@))[k]), "string.unpack"@)) implies exists|
                w: (Seq<char>, int, Seq<char>, Seq<char>),
            |
                warnings_view(out@).contains(w) && w.0 == file@ && w.1 == k + 1 && w.2
                    == "string.pack / string.unpack (Lua 5.3+)"@ by {
            let pat = if contains_seq(code_part(lines(byte_chars(bytes@))[k]), "string.pack"@) {
                "string.pack"@
            } else {
                "string.unpack"@
            };
            lemma_string_packing_is_flagged(bytes@, file@, k, pat);
            let w = choose|w: (Seq<char>, int, Seq<char>, Seq<char>)|
                scan_spec(bytes@, file@).contains(w) && w.0 == file@ && w.1 == k + 1 && w.2 == pack_feature();
            let sc = scan_spec(bytes@, file@);
            let j = choose|j: int| 0 <= j < sc.len() && sc[j] == w;
            let o = warnings_view(old(out)@);
            assert((o + sc)[o.len() + j] == w);
            assert(warnings_view(out@).contains(w));
        }
    }
}

/// Directories at the project root the port skips: export artifacts,
/// editor stubs, and version control.
pub open spec fn skipped_top_level_dir(name: Seq<char>) -> bool {
    name == seq!['e', 'x', 'p', 'o', 'r', 't'] || name == seq!['m', 'e', 't', 'a'] || name == seq!['.', 'g', 'i', 't']
}

/// Whether a directory at the project root is skipped by the port.
pub fn skip_top_level_dir(name: &str) -> (r: bool)
    ensures
        r == skipped_top_level_dir(name@),
{
    let n = chars_of(name);
    let a = chars_of("export");
    let b = chars_of("meta");
    let c = chars_of(".git");
    proof {
        reveal_strlit("export");
        reveal_strlit("meta");
        reveal_strlit(".git");
        assert(a@ =~= seq!['e', 'x', 'p', 'o', 'r', 't']);
        assert(b@ =~= seq!['m', 'e', 't', 'a']);
        assert(c@ =~= seq!['.', 'g', 'i', 't']);
    }
    chars_eq(n.as_slice(), a.as_slice()) || chars_eq(n.as_slice(), b.as_slice()) || chars_eq(
        n.as_slice(),
        c.as_slice(),
    )
}

/// The line `main.lua` gets in front so the shim takes over Love's
/// callbacks.
pub open spec fn shim_require() -> Seq<u8> {
    seq![114u8, 101u8, 113u8, 117u8, 105u8, 114u8, 101u8, 32u8, 34u8, 117u8, 115u8, 97u8, 103u8, 105u8, 95u8, 115u8, 104u8, 105u8, 109u8, 34u8, 10u8, 10u8]
}

/// A ported Lua file's bytes: `main.lua` gets the shim `require` in
/// front, other files are kept.
pub fn with_shim_require(is_main: bool, bytes: &Vec<u8>) -> (r: Vec<u8>)
    ensures
        r@ == (if is_main {
            shim_require() + bytes@
        } else {
            bytes@
        }),
{
    let mut out: Vec<u8> = Vec::new();
    if is_main {
        out = vec![114u8, 101u8, 113u8, 117u8, 105u8, 114u8, 101u8, 32u8, 34u8, 117u8, 115u8, 97u8, 103u8, 105u8, 95u8, 115u8, 104u8, 105u8, 109u8, 34u8, 10u8, 10u8];
        proof {
            assert(out@ =~= shim_require());
        }
    }
    let ghost head = out@;
    let mut i: usize = 0;
    while i < bytes.len()
        invariant
            i <= bytes.len(),
            out@ =~= head + bytes@.subrange(0, i as int),
        decreases bytes.len() - i,
    {
        out.push(bytes[i]);
        i = i + 1;
    }
    proof {
        assert(bytes@.subrange(0, bytes.len() as int) =~= bytes@);
        if !is_main {
            assert(head.len() == 0);
        }
    }
    out
}

/// What the disk reported about the source and destination of a port.
pub struct PortProbe {
    pub src_exists: bool,
    pub src_is_dir: bool,
    /// `<src>/main.lua` exists.
    pub main_exists: bool,
    pub dst_exists: bool,
    /// The destination resolves to a path inside the source.
    pub dst_inside_src: bool,
}

/// Why a port is refused before anything is written, checked in this
/// order; `None` when it may go ahead.
pub open spec fn port_refusal(src: Seq<char>, dst: Seq<char>, p: PortProbe) -> Option<Seq<char>> {
    if !p.src_exists {
        Some("source path '"@ + src + "' does not exist"@)
    } else if !p.src_is_dir {
        Some("source path '"@ + src + "' is not a directory"@)
    } else if !p.main_exists {
        Some("source '"@ + src + "' has no main.lua at its root. loveify expects an Usagi project directory."@)
    } else if p.dst_exists {
        Some("destination '"@ + dst + "' already exists. Refusing to overwrite \u{2014} remove it or pick a different path."@)
    } else if p.dst_inside_src {
        Some("destination '"@ + dst + "' is inside the source project '"@ + src
            + "'. loveify can't port a project into itself. Pick a destination outside the source directory."@)
    } else {
        None
    }
}

/// Checks a port before it starts: the source must be a project
/// directory with `main.lua`, and the destination must be new and not
/// inside the source (the walk would otherwise copy into itself).
pub fn check_port(src: &str, dst: &str, p: &PortProbe) -> (r: Result<(), String>)
    ensures
        match r {
            Ok(()) => port_refusal(src@, dst@, *p) is None,
            Err(m) => port_refusal(src@, dst@, *p) == Some(m@),
        },
{
    if !p.src_exists {
        return Err(concat3("source path '", src, "' does not exist"));
    }
    if !p.src_is_dir {
        return Err(concat3("source path '", src, "' is not a directory"));
    }
    if !p.main_exists {
        return Err(
            concat3(
                "source '",
                src,
                "' has no main.lua at its root. loveify expects an Usagi project directory.",
            ),
        );
    }
    if p.dst_exists {
        return Err(
            concat3(
                "destination '",
                dst,
                "' already exists. Refusing to overwrite \u{2014} remove it or pick a different path.",
            ),
        );
    }
    if p.dst_inside_src {
        let head = concat3("destination '", dst, "' is inside the source project '");
        return Err(
            concat3(
                head.as_str(),
                src,
                "'. loveify can't port a project into itself. Pick a destination outside the source directory.",
            ),
        );
    }
    Ok(())
}

} // verus!
