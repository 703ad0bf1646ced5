//! Character-level building blocks shared by the parsers and name
//! formatters: classification of ASCII and whitespace characters,
//! trimming, and the conversions between `str`/`String` and `Vec<char>`
//! that the verified string code works on.

use vstd::prelude::*;

verus! {

/// ASCII letter or digit.
pub open spec fn is_ascii_alnum(c: char) -> bool {
    ('0' <= c && c <= '9') || ('a' <= c && c <= 'z') || ('A' <= c && c <= 'Z')
}

/// ASCII uppercase letter.
pub open spec fn is_ascii_upper(c: char) -> bool {
    'A' <= c && c <= 'Z'
}

/// ASCII lowercase mapping: uppercase letters shift down, everything else
/// is unchanged.
pub open spec fn ascii_lower(c: char) -> char {
    if is_ascii_upper(c) {
        ((c as u32) + 32) as char
    } else {
        c
    }
}

/// Character-wise ASCII lowercasing of a whole sequence.
pub open spec fn ascii_lower_seq(s: Seq<char>) -> Seq<char> {
    Seq::new(s.len(), |i: int| ascii_lower(s[i]))
}

/// The Unicode `White_Space` property, the set `char::is_whitespace`
/// tests against.
pub open spec fn is_whitespace(c: char) -> bool {
    let u = c as u32;
    ||| (0x09 <= u && u <= 0x0D)
    ||| u == 0x20
    ||| u == 0x85
    ||| u == 0xA0
    ||| u == 0x1680
    ||| (0x2000 <= u && u <= 0x200A)
    ||| u == 0x2028
    ||| u == 0x2029
    ||| u == 0x202F
    ||| u == 0x205F
    ||| u == 0x3000
}

/// Index of the first non-whitespace character at or after `i`
/// (`s.len()` when there is none).
pub open spec fn first_non_ws(s: Seq<char>, i: int) -> int
    decreases s.len() - i,
{
    if i >= s.len() {
        s.len() as int
    } else if !is_whitespace(s[i]) {
        i
    } else {
        first_non_ws(s, i + 1)
    }
}

/// One past the last non-whitespace character before `j`
/// (`lo` when the range `lo..j` is all whitespace).
pub open spec fn last_non_ws_end(s: Seq<char>, lo: int, j: int) -> int
    decreases j - lo,
{
    if j <= lo {
        lo
    } else if !is_whitespace(s[j - 1]) {
        j
    } else {
        last_non_ws_end(s, lo, j - 1)
    }
}

/// `s` with leading and trailing whitespace removed (`str::trim`).
pub open spec fn trim(s: Seq<char>) -> Seq<char> {
    let lo = first_non_ws(s, 0);
    s.subrange(lo, last_non_ws_end(s, lo, s.len() as int))
}

/// `s` with leading whitespace removed (`str::trim_start`).
pub open spec fn trim_start(s: Seq<char>) -> Seq<char> {
    s.subrange(first_non_ws(s, 0), s.len() as int)
}

pub fn is_ascii_alnum_exec(c: char) -> (b: bool)
    ensures
        b == is_ascii_alnum(c),
{
    ('0' <= c && c <= '9') || ('a' <= c && c <= 'z') || ('A' <= c && c <= 'Z')
}

pub fn ascii_lower_exec(c: char) -> (r: char)
    ensures
        r == ascii_lower(c),
{
    if 'A' <= c && c <= 'Z' {
        let u: u32 = (c as u32) + 32;
        proof {
            assert(0x61 <= u && u <= 0x7A);
        }
        char_from_ascii(u)
    } else {
        c
    }
}

/// Builds the character with code `u` (an ASCII code).
pub fn char_from_ascii(u: u32) -> (c: char)
    requires
        u < 0x80,
    ensures
        c == u as char,
{
    let b: u8 = u as u8;
    b as char
}

pub fn is_whitespace_exec(c: char) -> (b: bool)
    ensures
        b == is_whitespace(c),
{
    let u: u32 = c as u32;
    (0x09 <= u && u <= 0x0D) || u == 0x20 || u == 0x85 || u == 0xA0 || u == 0x1680 || (0x2000
        <= u && u <= 0x200A) || u == 0x2028 || u == 0x2029 || u == 0x202F || u == 0x205F || u
        == 0x3000
}

/// `first_non_ws` stays inside `i..=len` for a start inside the sequence.
pub proof fn lemma_first_non_ws_bounds(s: Seq<char>, i: int)
    requires
        0 <= i <= s.len(),
    ensures
        i <= first_non_ws(s, i) <= s.len(),
        forall|k: int| i <= k < first_non_ws(s, i) ==> is_whitespace(#[trigger] s[k]),
        first_non_ws(s, i) < s.len() ==> !is_whitespace(s[first_non_ws(s, i)]),
    decreases s.len() - i,
{
    if i < s.len() && is_whitespace(s[i]) {
        lemma_first_non_ws_bounds(s, i + 1);
    }
}

/// `last_non_ws_end` stays inside `lo..=j`.
pub proof fn lemma_last_non_ws_end_bounds(s: Seq<char>, lo: int, j: int)
    requires
        0 <= lo <= j <= s.len(),
    ensures
        lo <= last_non_ws_end(s, lo, j) <= j,
        forall|k: int| last_non_ws_end(s, lo, j) <= k < j ==> is_whitespace(#[trigger] s[k]),
        last_non_ws_end(s, lo, j) > lo ==> !is_whitespace(s[last_non_ws_end(s, lo, j) - 1]),
    decreases j - lo,
{
    if j > lo && is_whitespace(s[j - 1]) {
        lemma_last_non_ws_end_bounds(s, lo, j - 1);
    }
}

/// The characters of a string slice, in order.
#[verifier::external_body]
pub(crate) fn chars_of(s: &str) -> (v: Vec<char>)
    ensures
        v@ == s@,
{
    s.chars().collect()
}

/// A `String` holding exactly the given characters.
#[verifier::external_body]
pub(crate) fn string_of(v: &[char]) -> (s: String)
    ensures
        s@ == v@,
{
    v.iter().collect()
}

/// Position of the first non-whitespace character at or after `start`.
pub fn skip_ws_forward(v: &Vec<char>, start: usize) -> (r: usize)
    requires
        start <= v.len(),
    ensures
        r == first_non_ws(v@, start as int),
{
    let mut i = start;
    while i < v.len() && is_whitespace_exec(v[i])
        invariant
            start <= i <= v.len(),
            first_non_ws(v@, i as int) == first_non_ws(v@, start as int),
        decreases v.len() - i,
    {
        i = i + 1;
    }
    i
}

/// One past the last non-whitespace character in `lo..end`.
pub fn skip_ws_backward(v: &Vec<char>, lo: usize, end: usize) -> (r: usize)
    requires
        lo <= end <= v.len(),
    ensures
        r == last_non_ws_end(v@, lo as int, end as int),
{
    let mut j = end;
    while j > lo && is_whitespace_exec(v[j - 1])
        invariant
            lo <= j <= end,
            end <= v.len(),
            last_non_ws_end(v@, lo as int, j as int) == last_non_ws_end(
                v@,
                lo as int,
                end as int,
            ),
        decreases j - lo,
    {
        j = j - 1;
    }
    j
}

/// The characters `v[lo..hi]` as a new vector.
pub fn slice_chars(v: &Vec<char>, lo: usize, hi: usize) -> (r: Vec<char>)
    requires
        lo <= hi <= v.len(),
    ensures
        r@ == v@.subrange(lo as int, hi as int),
{
    let mut out: Vec<char> = Vec::new();
    let mut i = lo;
    while i < hi
        invariant
            lo <= i <= hi <= v.len(),
            out@ == v@.subrange(lo as int, i as int),
        decreases hi - i,
    {
        out.push(v[i]);
        i = i + 1;
        proof {
            assert(out@ =~= v@.subrange(lo as int, i as int));
        }
    }
    out
}

/// The trimmed characters of `v` (`str::trim`).
pub fn trim_chars(v: &Vec<char>) -> (r: Vec<char>)
    ensures
        r@ == trim(v@),
{
    let lo = skip_ws_forward(v, 0);
    proof {
        lemma_first_non_ws_bounds(v@, 0);
    }
    let hi = skip_ws_backward(v, lo, v.len());
    proof {
        lemma_last_non_ws_end_bounds(v@, lo as int, v.len() as int);
    }
    slice_chars(v, lo, hi)
}

/// Whether two character sequences are equal.
pub fn chars_eq(a: &[char], b: &[char]) -> (r: bool)
    ensures
        r == (a@ == b@),
{
    if a.len() != b.len() {
        return false;
    }
    let mut i: usize = 0;
    while i < a.len()
        invariant
            a.len() == b.len(),
            i <= a.len(),
            forall|k: int| 0 <= k < i ==> a@[k] == b@[k],
        decreases a.len() - i,
    {
        if a[i] != b[i] {
            return false;
        }
        i = i + 1;
    }
    proof {
        assert(a@ =~= b@);
    }
    true
}

/// Appends all of `src` to `dst`.
pub fn push_all(dst: &mut Vec<char>, src: &[char])
    ensures
        final(dst)@ == old(dst)@ + src@,
{
    let mut i: usize = 0;
    while i < src.len()
        invariant
            i <= src.len(),
            dst@ == old(dst)@ + src@.subrange(0, i as int),
        decreases src.len() - i,
    {
        dst.push(src[i]);
        i = i + 1;
        proof {
            assert(dst@ =~= old(dst)@ + src@.subrange(0, i as int));
        }
    }
    proof {
        assert(src@.subrange(0, src.len() as int) =~= src@);
    }
}

/// Decimal digits of `n`, most significant first, without leading zeros
/// (`0` is the single digit `0`).
pub open spec fn decimal(n: nat) -> Seq<char>
    decreases n,
{
    if n < 10 {
        seq![digit_char(n)]
    } else {
        decimal(n / 10).push(digit_char(n % 10))
    }
}

pub open spec fn digit_char(d: nat) -> char {
    ((d + 0x30) as u32) as char
}

/// `{}` of a signed integer.
pub open spec fn signed_text(n: int) -> Seq<char> {
    if n < 0 {
        seq!['-'] + decimal((-n) as nat)
    } else {
        decimal(n as nat)
    }
}

/// `{}` of an `i32`.
pub fn signed_text_exec(n: i32) -> (r: Vec<char>)
    ensures
        r@ == signed_text(n as int),
{
    if n < 0 {
        let mut v: Vec<char> = Vec::new();
        v.push('-');
        let m: i64 = -(n as i64);
        push_all(&mut v, decimal_exec(m as u64).as_slice());
        v
    } else {
        decimal_exec(n as u64)
    }
}

/// Lowercase hexadecimal digit of `d` (`0..16`).
pub open spec fn hex_digit_char(d: nat) -> char {
    if d < 10 {
        ((d + 0x30) as u32) as char
    } else {
        ((d - 10 + 0x61) as u32) as char
    }
}

/// Lowercase hexadecimal digits of `n`, without leading zeros.
pub open spec fn hex(n: nat) -> Seq<char>
    decreases n,
{
    if n < 16 {
        seq![hex_digit_char(n)]
    } else {
        hex(n / 16).push(hex_digit_char(n % 16))
    }
}

/// Lowercase hexadecimal digit of `d`.
fn hex_digit_exec(d: u64) -> (c: char)
    requires
        d < 16,
    ensures
        c == hex_digit_char(d as nat),
{
    if d < 10 {
        char_from_ascii((d as u32) + 0x30)
    } else {
        char_from_ascii((d as u32) - 10 + 0x61)
    }
}

/// Hexadecimal text of `n` (`format!("{:x}", n)`).
pub fn hex_exec(n: u64) -> (r: Vec<char>)
    ensures
        r@ == hex(n as nat),
    decreases n,
{
    if n < 16 {
        let mut v: Vec<char> = Vec::new();
        v.push(hex_digit_exec(n));
        v
    } else {
        let mut v = hex_exec(n / 16);
        v.push(hex_digit_exec(n % 16));
        v
    }
}

/// Decimal text of `n` (`u64::to_string`).
pub fn decimal_exec(n: u64) -> (r: Vec<char>)
    ensures
        r@ == decimal(n as nat),
    decreases n,
{
    if n < 10 {
        let mut v: Vec<char> = Vec::new();
        v.push(char_from_ascii((n as u32) + 0x30));
        v
    } else {
        let mut v = decimal_exec(n / 10);
        v.push(char_from_ascii(((n % 10) as u32) + 0x30));
        v
    }
}

/// Decimal text of a signed value, with a leading `-` for negatives.
pub open spec fn signed_decimal(n: int) -> Seq<char> {
    if n < 0 {
        seq!['-'] + decimal((-n) as nat)
    } else {
        decimal(n as nat)
    }
}

pub fn signed_decimal_exec(n: i64) -> (r: Vec<char>)
    ensures
        r@ == signed_decimal(n as int),
{
    if n < 0 {
        let m: u64 = if n == i64::MIN {
            9223372036854775808u64
        } else {
            (-n) as u64
        };
        let mut v: Vec<char> = Vec::new();
        v.push('-');
        let d = decimal_exec(m);
        push_all(&mut v, d.as_slice());
        proof {
            assert(v@ =~= seq!['-'] + decimal((-(n as int)) as nat));
        }
        v
    } else {
        decimal_exec(n as u64)
    }
}

/// `a`, then `b`, then `c`, as one `String`.
pub fn concat3(a: &str, b: &str, c: &str) -> (r: String)
    ensures
        r@ == a@ + b@ + c@,
{
    let mut v = chars_of(a);
    let vb = chars_of(b);
    let vc = chars_of(c);
    push_all(&mut v, vb.as_slice());
    push_all(&mut v, vc.as_slice());
    string_of(v.as_slice())
}

/// `a` followed by `b`, as one `String`.
pub fn concat2(a: &str, b: &str) -> (r: String)
    ensures
        r@ == a@ + b@,
{
    let mut v = chars_of(a);
    let vb = chars_of(b);
    push_all(&mut v, vb.as_slice());
    string_of(v.as_slice())
}

/// `n` occurs in `h` starting at position `i`.
pub open spec fn occurs_at(h: Seq<char>, n: Seq<char>, i: int) -> bool {
    0 <= i && i + n.len() <= h.len() && h.subrange(i, i + n.len()) == n
}

/// `n` occurs somewhere in `h` (`str::contains`).
pub open spec fn contains_seq(h: Seq<char>, n: Seq<char>) -> bool {
    exists|i: int| occurs_at(h, n, i)
}

/// `h` begins with `n` (`str::starts_with`).
pub open spec fn starts_with_seq(h: Seq<char>, n: Seq<char>) -> bool {
    occurs_at(h, n, 0)
}

/// Whether `n` occurs in `h`.
pub fn contains_chars(h: &Vec<char>, n: &Vec<char>) -> (r: bool)
    ensures
        r == contains_seq(h@, n@),
{
    if n.len() > h.len() {
        proof {
            assert forall|j: int| !occurs_at(h@, n@, j) by {}
        }
        return false;
    }
    let last = h.len() - n.len();
    let mut i: usize = 0;
    while i < last
        invariant
            i <= last,
            last + n.len() == h.len(),
            forall|j: int| 0 <= j < i ==> !occurs_at(h@, n@, j),
        decreases last - i,
    {
        if starts_at(h, n, i) {
            return true;
        }
        i = i + 1;
    }
    if starts_at(h, n, last) {
        return true;
    }
    proof {
        assert forall|j: int| !occurs_at(h@, n@, j) by {
            if 0 <= j < last {
            } else if j == last {
            } else {
            }
        }
    }
    false
}

/// Whether `n` occurs in `h` at position `i`.
pub fn starts_at(h: &Vec<char>, n: &Vec<char>, i: usize) -> (r: bool)
    requires
        i + n.len() <= h.len(),
    ensures
        r == occurs_at(h@, n@, i as int),
{
    let s = slice_chars(h, i, i + n.len());
    chars_eq(s.as_slice(), n.as_slice())
}

/// Whether `h` begins with `n`.
pub fn starts_with_chars(h: &Vec<char>, n: &Vec<char>) -> (r: bool)
    ensures
        r == starts_with_seq(h@, n@),
{
    if n.len() > h.len() {
        false
    } else {
        starts_at(h, n, 0)
    }
}

/// Character-wise ASCII lowercasing (`str::to_ascii_lowercase`).
pub fn ascii_lower_chars(v: &Vec<char>) -> (r: Vec<char>)
    ensures
        r@ == ascii_lower_seq(v@),
{
    let mut out: Vec<char> = Vec::new();
    let mut i: usize = 0;
    while i < v.len()
        invariant
            i <= v.len(),
            out@ =~= ascii_lower_seq(v@.subrange(0, i as int)),
        decreases v.len() - i,
    {
        out.push(ascii_lower_exec(v[i]));
        i = i + 1;
    }
    proof {
        assert(v@.subrange(0, v.len() as int) =~= v@);
    }
    out
}


/// Index of the first `c` at or after `i` (`s.len()` when there is none).
pub open spec fn find_from(s: Seq<char>, c: char, i: int) -> int
    decreases s.len() - i,
{
    if i >= s.len() {
        s.len() as int
    } else if s[i] == c {
        i
    } else {
        find_from(s, c, i + 1)
    }
}

pub proof fn lemma_find_from_bounds(s: Seq<char>, c: char, i: int)
    requires
        0 <= i <= s.len(),
    ensures
        i <= find_from(s, c, i) <= s.len(),
        find_from(s, c, i) < s.len() ==> s[find_from(s, c, i)] == c,
        forall|k: int| i <= k < find_from(s, c, i) ==> s[k] != c,
    decreases s.len() - i,
{
    if i < s.len() && s[i] != c {
        lemma_find_from_bounds(s, c, i + 1);
    }
}

/// `find_from` lands on the first `c` after a run without one.
pub proof fn lemma_find_from_at(s: Seq<char>, c: char, i: int, m: int)
    requires
        0 <= i <= m <= s.len(),
        forall|k: int| i <= k < m ==> s[k] != c,
        m == s.len() || s[m] == c,
    ensures
        find_from(s, c, i) == m,
    decreases m - i,
{
    if i < m {
        lemma_find_from_at(s, c, i + 1, m);
    }
}

/// A line without its `\r` terminator, if it has one.
pub open spec fn strip_cr(l: Seq<char>) -> Seq<char> {
    if l.len() > 0 && l.last() == '\r' {
        l.drop_last()
    } else {
        l
    }
}

/// The lines of `s` (`str::lines`): split at `\n`, a `\r` before the
/// `\n` dropped, and no empty line after a final terminator.
pub open spec fn lines(s: Seq<char>) -> Seq<Seq<char>>
    decreases s.len(),
{
    if s.len() == 0 {
        seq![]
    } else {
        let j = find_from(s, '\n', 0);
        if 0 <= j < s.len() {
            seq![strip_cr(s.subrange(0, j))] + lines(s.subrange(j + 1, s.len() as int))
        } else {
            seq![s]
        }
    }
}

/// The views of a list of character vectors.
pub open spec fn line_views(ps: Seq<Vec<char>>) -> Seq<Seq<char>> {
    ps.map_values(|p: Vec<char>| p@)
}

/// The characters of `v` without a final `\r`.
fn strip_cr_exec(v: Vec<char>) -> (r: Vec<char>)
    ensures
        r@ == strip_cr(v@),
{
    let ghost orig = v@;
    let mut v = v;
    if v.len() > 0 && v[v.len() - 1] == '\r' {
        v.pop();
        proof {
            assert(v@ =~= strip_cr(orig));
        }
    }
    v
}

/// The lines of `v` (`str::lines`).
pub fn split_lines(v: &Vec<char>) -> (r: Vec<Vec<char>>)
    ensures
        line_views(r@) == lines(v@),
{
    let mut out: Vec<Vec<char>> = Vec::new();
    let mut start: usize = 0;
    let mut j: usize = 0;
    proof {
        assert(v@.subrange(0, v.len() as int) =~= v@);
    }
    while j < v.len()
        invariant
            start <= j <= v.len(),
            line_views(out@) + lines(v@.subrange(start as int, v.len() as int)) == lines(v@),
            forall|k: int| start <= k < j ==> v@[k] != '\n',
        decreases v.len() - j,
    {
        if v[j] == '\n' {
            let ghost s = v@.subrange(start as int, v.len() as int);
            proof {
                assert forall|k: int| 0 <= k < j - start implies s[k] != '\n' by {
                    assert(s[k] == v@[start + k]);
                }
                assert(s[j - start] == '\n');
                lemma_find_from_at(s, '\n', 0, j - start);
                assert(s.subrange(0, j - start) =~= v@.subrange(start as int, j as int));
                assert(s.subrange(j - start + 1, s.len() as int) =~= v@.subrange(
                    j + 1,
                    v.len() as int,
                ));
            }
            let line = strip_cr_exec(slice_chars(v, start, j));
            let ghost before = out@;
            out.push(line);
            proof {
                assert(line_views(out@) =~= line_views(before).push(line@));
                assert(lines(s) == seq![line@] + lines(
                    v@.subrange(j + 1, v.len() as int),
                ));
                assert(line_views(out@) + lines(v@.subrange(j + 1, v.len() as int))
                    =~= line_views(before) + lines(s));
            }
            start = j + 1;
        }
        j = j + 1;
    }
    if start < v.len() {
        let ghost s = v@.subrange(start as int, v.len() as int);
        proof {
            assert forall|k: int| 0 <= k < s.len() implies s[k] != '\n' by {
                assert(s[k] == v@[start + k]);
            }
            lemma_find_from_at(s, '\n', 0, s.len() as int);
        }
        let line = slice_chars(v, start, v.len());
        let ghost before = out@;
        out.push(line);
        proof {
            assert(line_views(out@) =~= line_views(before).push(line@));
            assert(line_views(out@) =~= line_views(before) + lines(s));
        }
    } else {
        proof {
            assert(v@.subrange(start as int, v.len() as int).len() == 0);
            assert(line_views(out@) + lines(v@.subrange(start as int, v.len() as int))
                =~= line_views(out@));
        }
    }
    out
}

/// `s` split around its first `c` (`str::split_once`).
pub open spec fn split_once(s: Seq<char>, c: char) -> Option<(Seq<char>, Seq<char>)> {
    let j = find_from(s, c, 0);
    if 0 <= j < s.len() {
        Some((s.subrange(0, j), s.subrange(j + 1, s.len() as int)))
    } else {
        None
    }
}

/// Splits `v` around its first `c`.
pub fn split_once_exec(v: &Vec<char>, c: char) -> (r: Option<(Vec<char>, Vec<char>)>)
    ensures
        match r {
            Some((a, b)) => split_once(v@, c) == Some((a@, b@)),
            None => split_once(v@, c) is None,
        },
{
    let mut j: usize = 0;
    while j < v.len()
        invariant
            j <= v.len(),
            forall|k: int| 0 <= k < j ==> v@[k] != c,
        decreases v.len() - j,
    {
        if v[j] == c {
            proof {
                lemma_find_from_at(v@, c, 0, j as int);
            }
            return Some((slice_chars(v, 0, j), slice_chars(v, j + 1, v.len())));
        }
        j = j + 1;
    }
    proof {
        lemma_find_from_at(v@, c, 0, v.len() as int);
    }
    None
}

/// The characters of `v` without leading whitespace (`str::trim_start`).
pub fn trim_start_chars(v: &Vec<char>) -> (r: Vec<char>)
    ensures
        r@ == trim_start(v@),
{
    let lo = skip_ws_forward(v, 0);
    proof {
        lemma_first_non_ws_bounds(v@, 0);
    }
    slice_chars(v, lo, v.len())
}

/// Every character is an ASCII digit.
pub open spec fn all_digits(s: Seq<char>) -> bool {
    forall|i: int| 0 <= i < s.len() ==> '0' <= #[trigger] s[i] <= '9'
}

/// Value of a run of decimal digits.
pub open spec fn digits_value(s: Seq<char>) -> int
    decreases s.len(),
{
    if s.len() == 0 {
        0
    } else {
        digits_value(s.drop_last()) * 10 + (s.last() as int - '0' as int)
    }
}

proof fn lemma_digits_value_prefix(s: Seq<char>, k: int)
    requires
        all_digits(s),
        0 <= k <= s.len(),
    ensures
        0 <= digits_value(s.subrange(0, k)) <= digits_value(s),
    decreases s.len() - k,
{
    if k < s.len() {
        lemma_digits_value_prefix(s, k + 1);
        let p = s.subrange(0, k + 1);
        assert(p.drop_last() =~= s.subrange(0, k));
        assert(all_digits(p.drop_last()));
        lemma_digits_nonneg(p.drop_last());
    } else {
        assert(s.subrange(0, k) =~= s);
        lemma_digits_nonneg(s);
    }
}

proof fn lemma_digits_nonneg(s: Seq<char>)
    requires
        all_digits(s),
    ensures
        digits_value(s) >= 0,
    decreases s.len(),
{
    if s.len() > 0 {
        assert(all_digits(s.drop_last()));
        lemma_digits_nonneg(s.drop_last());
    }
}

/// Text of an unsigned integer as the integer parsers of std read it: an
/// optional `+`, then one or more ASCII digits, with a value no larger
/// than `limit`.
pub open spec fn parse_unsigned_spec(s: Seq<char>, limit: int) -> Option<int> {
    let d = if s.len() > 0 && s[0] == '+' {
        s.drop_first()
    } else {
        s
    };
    if d.len() > 0 && all_digits(d) && digits_value(d) <= limit {
        Some(digits_value(d))
    } else {
        None
    }
}

/// Parses an unsigned integer no larger than `limit`.
pub fn parse_unsigned(v: &Vec<char>, limit: u64) -> (r: Option<u64>)
    requires
        limit <= u32::MAX,
    ensures
        match r {
            Some(n) => parse_unsigned_spec(v@, limit as int) == Some(n as int),
            None => parse_unsigned_spec(v@, limit as int) is None,
        },
{
    let start: usize = if v.len() > 0 && v[0] == '+' {
        1
    } else {
        0
    };
    let ghost d = v@.subrange(start as int, v.len() as int);
    proof {
        if v.len() > 0 && v@[0] == '+' {
            assert(d =~= v@.drop_first());
        } else {
            assert(d =~= v@);
        }
    }
    if start == v.len() {
        return None;
    }
    let mut acc: u64 = 0;
    let mut i: usize = start;
    while i < v.len()
        invariant
            start <= i <= v.len(),
            start == (if v@.len() > 0 && v@[0] == '+' {
                1int
            } else {
                0int
            }),
            d == (if v@.len() > 0 && v@[0] == '+' {
                v@.drop_first()
            } else {
                v@
            }),
            d == v@.subrange(start as int, v.len() as int),
            acc <= limit,
            limit <= u32::MAX,
            all_digits(v@.subrange(start as int, i as int)),
            acc as int == digits_value(v@.subrange(start as int, i as int)),
        decreases v.len() - i,
    {
        let c = v[i];
        if !('0' <= c && c <= '9') {
            proof {
                assert(d[i - start] == c);
                assert(!all_digits(d));
            }
            return None;
        }
        let ghost p = v@.subrange(start as int, i + 1);
        proof {
            assert(p.drop_last() =~= v@.subrange(start as int, i as int));
            assert(p.last() == c);
        }
        acc = acc * 10 + ((c as u32) - ('0' as u32)) as u64;
        if acc > limit {
            proof {
                if all_digits(d) {
                    assert(p =~= d.subrange(0, i + 1 - start));
                    lemma_digits_value_prefix(d, i + 1 - start);
                }
            }
            return None;
        }
        i = i + 1;
    }
    proof {
        assert(v@.subrange(start as int, v.len() as int) =~= d);
    }
    Some(acc)
}


/// Text of a signed integer as `i32::from_str` reads it: an optional `+`
/// or `-`, then one or more ASCII digits, within `i32`'s range.
pub open spec fn parse_i32_spec(s: Seq<char>) -> Option<i32> {
    if s.len() > 0 && s[0] == '-' {
        let d = s.drop_first();
        if d.len() > 0 && all_digits(d) && digits_value(d) <= 0x8000_0000 {
            Some((-digits_value(d)) as i32)
        } else {
            None
        }
    } else {
        match parse_unsigned_spec(s, 0x7FFF_FFFF) {
            Some(n) => Some(n as i32),
            None => None,
        }
    }
}

/// Parses a signed 32-bit integer.
pub fn parse_i32(v: &Vec<char>) -> (r: Option<i32>)
    ensures
        r == parse_i32_spec(v@),
{
    if v.len() > 0 && v[0] == '-' {
        let rest = slice_chars(v, 1, v.len());
        proof {
            assert(rest@ =~= v@.drop_first());
            if rest@.len() > 0 && rest@[0] == '+' {
                assert(!all_digits(rest@));
            }
        }
        if rest.len() > 0 && rest[0] == '+' {
            return None;
        }
        match parse_unsigned(&rest, 0x8000_0000) {
            Some(n) => {
                proof {
                    assert(parse_unsigned_spec(rest@, 0x8000_0000) == Some(n as int));
                }
                Some((0i64 - n as i64) as i32)
            },
            None => None,
        }
    } else {
        match parse_unsigned(v, 0x7FFF_FFFF) {
            Some(n) => Some(n as i32),
            None => None,
        }
    }
}


/// The text `Utf8Error` displays for bytes that are not UTF-8.
pub uninterp spec fn utf8_error_text(bytes: Seq<u8>) -> Seq<char>;

/// Calls `std::str::from_utf8`: the text when the bytes are valid UTF-8
/// (as `vstd::utf8` defines validity and decoding), else the error's
/// display text, named by `utf8_error_text`.
#[verifier::external_body]
pub(crate) fn utf8_string(bytes: &[u8]) -> (r: Result<String, String>)
    ensures
        match r {
            Ok(s) => vstd::utf8::valid_utf8(bytes@) && s@ == vstd::utf8::decode_utf8(bytes@),
            Err(e) => !vstd::utf8::valid_utf8(bytes@) && e@ == utf8_error_text(bytes@),
        },
{
    match std::str::from_utf8(bytes) {
        Ok(s) => Ok(s.to_string()),
        Err(e) => Err(e.to_string()),
    }
}

/// `str::replace` of a nonempty pattern, scanning from position `i`:
/// each occurrence, left to right and not overlapping, becomes `rep`.
pub open spec fn replace_from(s: Seq<char>, pat: Seq<char>, rep: Seq<char>, i: int) -> Seq<char>
    decreases s.len() - i,
{
    if i < 0 || i >= s.len() {
        seq![]
    } else if pat.len() > 0 && occurs_at(s, pat, i) {
        rep + replace_from(s, pat, rep, i + pat.len())
    } else {
        seq![s[i]] + replace_from(s, pat, rep, i + 1)
    }
}

/// Replaces every occurrence of the nonempty `pat` in `s` with `rep`
/// (`str::replace`).
pub fn replace_all(s: &str, pat: &str, rep: &str) -> (r: String)
    requires
        pat@.len() > 0,
    ensures
        r@ == replace_from(s@, pat@, rep@, 0),
{
    let h = chars_of(s);
    let n = chars_of(pat);
    let rv = chars_of(rep);
    let mut out: Vec<char> = Vec::new();
    let mut i: usize = 0;
    while i < h.len()
        invariant
            i <= h.len(),
            h@ == s@,
            n@ == pat@,
            rv@ == rep@,
            n@.len() > 0,
            out@ + replace_from(h@, n@, rv@, i as int) == replace_from(h@, n@, rv@, 0),
        decreases h.len() - i,
    {
        if n.len() <= h.len() - i && starts_at(&h, &n, i) {
            let ghost before = out@;
            push_all(&mut out, rv.as_slice());
            proof {
                assert(before + replace_from(h@, n@, rv@, i as int) =~= out@ + replace_from(
                    h@,
                    n@,
                    rv@,
                    i + n@.len(),
                ));
            }
            i = i + n.len();
        } else {
            let ghost before = out@;
            out.push(h[i]);
            proof {
                assert(!occurs_at(h@, n@, i as int));
                assert(before + replace_from(h@, n@, rv@, i as int) =~= out@ + replace_from(
                    h@,
                    n@,
                    rv@,
                    i + 1,
                ));
            }
            i = i + 1;
        }
    }
    proof {
        assert(replace_from(h@, n@, rv@, i as int) =~= Seq::<char>::empty());
        assert(out@ =~= out@ + replace_from(h@, n@, rv@, i as int));
    }
    string_of(out.as_slice())
}

/// Text with no occurrence of the pattern comes out of `replace`
/// unchanged.
pub proof fn lemma_replace_without_match(s: Seq<char>, pat: Seq<char>, rep: Seq<char>, i: int)
    requires
        0 <= i <= s.len(),
        !contains_seq(s, pat),
    ensures
        replace_from(s, pat, rep, i) == s.subrange(i, s.len() as int),
    decreases s.len() - i,
{
    if i < s.len() {
        assert(!occurs_at(s, pat, i));
        lemma_replace_without_match(s, pat, rep, i + 1);
        assert(s.subrange(i, s.len() as int) =~= seq![s[i]] + s.subrange(i + 1, s.len() as int));
    } else {
        assert(s.subrange(i, s.len() as int) =~= Seq::<char>::empty());
    }
}

} // verus!
