//! Display + filesystem-safe rendering of a game's project name.
//! `display()` is the verbatim (trimmed) user string for window titles
//! and app bundle names; `slug()` is the ASCII kebab-case form for
//! archive filenames, exe names, and the bundle binary. Source of truth
//! is the configured `name`, with the project directory name (passed by
//! the caller) as fallback.

use crate::text::{
    ascii_lower, ascii_lower_exec, ascii_lower_seq, chars_of, is_ascii_alnum, is_ascii_alnum_exec,
    string_of, trim, trim_chars,
};
use vstd::prelude::*;

verus! {

/// Display name used when neither the config nor the path gives one.
pub const FALLBACK_DISPLAY: &'static str = "Usagi";

/// Slug used when nothing slug-able survives anywhere.
pub const FALLBACK_SLUG: &'static str = "game";

/// Display name used when neither the config nor the path gives one.
pub open spec fn fallback_display() -> Seq<char> {
    "Usagi"@
}

/// Slug used when nothing slug-able survives anywhere.
pub open spec fn fallback_slug() -> Seq<char> {
    "game"@
}

/// The maximal runs of ASCII alphanumeric characters of `s`, in order.
/// Every other character is a separator.
pub open spec fn words(s: Seq<char>) -> Seq<Seq<char>>
    decreases s.len(),
{
    if s.len() == 0 {
        seq![]
    } else {
        let prev = s.drop_last();
        let w = words(prev);
        let c = s.last();
        if !is_ascii_alnum(c) {
            w
        } else if prev.len() > 0 && is_ascii_alnum(prev.last()) {
            w.update(w.len() - 1, w.last().push(c))
        } else {
            w.push(seq![c])
        }
    }
}

/// Words joined with single dashes.
pub open spec fn join_dash(ws: Seq<Seq<char>>) -> Seq<char>
    decreases ws.len(),
{
    if ws.len() == 0 {
        seq![]
    } else if ws.len() == 1 {
        ws[0]
    } else {
        join_dash(ws.drop_last()) + seq!['-'] + ws.last()
    }
}

/// Lowercase ASCII kebab-case of `s`: its alphanumeric runs, lowercased
/// and joined by `-`. `None` when `s` has no ASCII alphanumeric
/// character at all.
pub open spec fn slug_of(s: Seq<char>) -> Option<Seq<char>> {
    if words(s).len() == 0 {
        None
    } else {
        Some(ascii_lower_seq(join_dash(words(s))))
    }
}

/// A name source after trimming, with blank values treated as unset.
pub open spec fn nonblank(o: Option<Seq<char>>) -> Option<Seq<char>> {
    match o {
        Some(x) => if trim(x).len() > 0 {
            Some(trim(x))
        } else {
            None
        },
        None => None,
    }
}

pub open spec fn opt_str_view(o: Option<&str>) -> Option<Seq<char>> {
    match o {
        Some(s) => Some(s@),
        None => None,
    }
}

/// Display name: configured name, else path hint, else the engine default.
pub open spec fn resolved_display(config_name: Option<Seq<char>>, hint: Option<Seq<char>>) -> Seq<
    char,
> {
    match nonblank(config_name) {
        Some(d) => d,
        None => match nonblank(hint) {
            Some(h) => h,
            None => fallback_display(),
        },
    }
}

/// Slug: from the display name, else from the hint, else `game`.
pub open spec fn resolved_slug(config_name: Option<Seq<char>>, hint: Option<Seq<char>>) -> Seq<
    char,
> {
    match slug_of(resolved_display(config_name, hint)) {
        Some(s) => s,
        None => match nonblank(hint) {
            Some(h) => match slug_of(h) {
                Some(s) => s,
                None => fallback_slug(),
            },
            None => fallback_slug(),
        },
    }
}

/// Whether `s` is a well-formed slug: nonempty, lowercase ASCII letters,
/// digits and single dashes, never starting or ending with a dash.
pub open spec fn is_slug(s: Seq<char>) -> bool {
    &&& s.len() > 0
    &&& forall|i: int|
        0 <= i < s.len() ==> (#[trigger] is_slug_char(s[i]))
    &&& s[0] != '-'
    &&& s.last() != '-'
    &&& forall|i: int| 0 <= i < s.len() - 1 ==> !(#[trigger] s[i] == '-' && s[i + 1] == '-')
}

pub open spec fn is_slug_char(c: char) -> bool {
    ('0' <= c && c <= '9') || ('a' <= c && c <= 'z') || c == '-'
}

#[derive(Debug, Clone, PartialEq, Eq)]
pub struct ProjectName {
    display: String,
    slug: String,
}

impl View for ProjectName {
    type V = (Seq<char>, Seq<char>);

    closed spec fn view(&self) -> (Seq<char>, Seq<char>) {
        (self.display@, self.slug@)
    }
}

impl ProjectName {
    /// Order: configured `name` → path-derived hint → engine defaults.
    /// Both sources are trimmed and blank values count as unset; the
    /// slug falls through to the hint (then to `game`) when the display
    /// name has nothing slug-able.
    pub fn resolve(config_name: Option<&str>, fallback_hint: Option<&str>) -> (r: Self)
        ensures
            r@.0 == resolved_display(opt_str_view(config_name), opt_str_view(fallback_hint)),
            r@.1 == resolved_slug(opt_str_view(config_name), opt_str_view(fallback_hint)),
    {
        let configured = trimmed_nonblank(config_name);
        let hint = trimmed_nonblank(fallback_hint);
        let display: Vec<char> = match &configured {
            Some(c) => c.clone(),
            None => match &hint {
                Some(h) => h.clone(),
                None => chars_of(FALLBACK_DISPLAY),
            },
        };
        let slug: Vec<char> = match slugify_chars(&display) {
            Some(s) => s,
            None => match &hint {
                Some(h) => match slugify_chars(h) {
                    Some(s) => s,
                    None => chars_of(FALLBACK_SLUG),
                },
                None => chars_of(FALLBACK_SLUG),
            },
        };
        ProjectName { display: string_of(&display), slug: string_of(&slug) }
    }

    pub fn display(&self) -> (r: &str)
        ensures
            r@ == self@.0,
    {
        self.display.as_str()
    }

    pub fn slug(&self) -> (r: &str)
        ensures
            r@ == self@.1,
    {
        self.slug.as_str()
    }
}

/// The trimmed characters of a name source, or `None` when absent or blank.
fn trimmed_nonblank(o: Option<&str>) -> (r: Option<Vec<char>>)
    ensures
        match r {
            Some(v) => nonblank(opt_str_view(o)) == Some(v@),
            None => nonblank(opt_str_view(o)) is None,
        },
{
    match o {
        Some(s) => {
            let cs = chars_of(s);
            let t = trim_chars(&cs);
            if t.len() > 0 {
                Some(t)
            } else {
                None
            }
        },
        None => None,
    }
}

proof fn lemma_join_dash_extend(ws: Seq<Seq<char>>, c: char)
    requires
        ws.len() > 0,
    ensures
        join_dash(ws.update(ws.len() - 1, ws.last().push(c))) == join_dash(ws).push(c),
{
    let w2 = ws.update(ws.len() - 1, ws.last().push(c));
    if ws.len() == 1 {
        assert(w2.len() == 1);
    } else {
        assert(w2.drop_last() =~= ws.drop_last());
        assert(join_dash(w2) == join_dash(ws.drop_last()) + seq!['-'] + ws.last().push(c));
        assert(join_dash(w2) =~= join_dash(ws).push(c));
    }
}

proof fn lemma_join_dash_push(ws: Seq<Seq<char>>, c: char)
    ensures
        join_dash(ws.push(seq![c])) == if ws.len() == 0 {
            seq![c]
        } else {
            join_dash(ws).push('-').push(c)
        },
{
    let w2 = ws.push(seq![c]);
    assert(w2.drop_last() =~= ws);
    if ws.len() > 0 {
        assert(join_dash(w2) =~= join_dash(ws).push('-').push(c));
    }
}

proof fn lemma_lower_push(s: Seq<char>, c: char)
    ensures
        ascii_lower_seq(s.push(c)) == ascii_lower_seq(s).push(ascii_lower(c)),
{
    assert(ascii_lower_seq(s.push(c)) =~= ascii_lower_seq(s).push(ascii_lower(c)));
}

/// Lowercase ASCII kebab-case. Non-alphanumeric and non-ASCII chars
/// are separators; runs collapse; ends are trimmed. `None` when nothing
/// alphanumeric survives.
pub fn slugify(s: &str) -> (r: Option<String>)
    ensures
        match r {
            Some(x) => slug_of(s@) == Some(x@),
            None => slug_of(s@) is None,
        },
{
    let cs = chars_of(s);
    match slugify_chars(&cs) {
        Some(v) => Some(string_of(&v)),
        None => None,
    }
}

fn slugify_chars(s: &Vec<char>) -> (r: Option<Vec<char>>)
    ensures
        match r {
            Some(x) => slug_of(s@) == Some(x@),
            None => slug_of(s@) is None,
        },
{
    let mut out: Vec<char> = Vec::new();
    let mut in_word = false;
    let mut have_word = false;
    let mut i: usize = 0;
    while i < s.len()
        invariant
            i <= s.len(),
            out@ == ascii_lower_seq(join_dash(words(s@.take(i as int)))),
            in_word == (i > 0 && is_ascii_alnum(s@[i - 1])),
            have_word == (words(s@.take(i as int)).len() > 0),
            in_word ==> have_word,
        decreases s.len() - i,
    {
        let c = s[i];
        let ghost t = s@.take(i as int);
        let ghost t2 = s@.take(i + 1);
        proof {
            assert(t2.drop_last() =~= t);
            assert(t2.last() == c);
            if i > 0 {
                assert(t.last() == s@[i - 1]);
            }
        }
        if is_ascii_alnum_exec(c) {
            let lc = ascii_lower_exec(c);
            if in_word {
                proof {
                    lemma_join_dash_extend(words(t), c);
                    lemma_lower_push(join_dash(words(t)), c);
                }
                out.push(lc);
            } else {
                proof {
                    lemma_join_dash_push(words(t), c);
                    if words(t).len() > 0 {
                        lemma_lower_push(join_dash(words(t)), '-');
                        lemma_lower_push(join_dash(words(t)).push('-'), c);
                    } else {
                        assert(ascii_lower_seq(seq![c]) =~= seq![ascii_lower(c)]);
                    }
                }
                if have_word {
                    out.push('-');
                }
                out.push(lc);
                proof {
                    if !have_word {
                        assert(out@ =~= seq![lc]);
                    }
                }
            }
            in_word = true;
            have_word = true;
        } else {
            in_word = false;
        }
        i = i + 1;
    }
    proof {
        assert(s@.take(s.len() as int) =~= s@);
    }
    if have_word {
        Some(out)
    } else {
        None
    }
}

/// Every slug `slugify` produces is well formed: nonempty, made of
/// lowercase ASCII letters, digits and single inner dashes.
pub proof fn lemma_slug_well_formed(s: Seq<char>)
    requires
        slug_of(s) is Some,
    ensures
        is_slug(slug_of(s).unwrap()),
{
    lemma_words_wf(s);
    lemma_join_wf(words(s));
    let j = join_dash(words(s));
    let l = ascii_lower_seq(j);
    assert forall|i: int| 0 <= i < l.len() implies #[trigger] is_slug_char(l[i]) by {
        assert(is_ascii_alnum(j[i]) || j[i] == '-');
    }
    assert forall|i: int| 0 <= i < l.len() - 1 implies !(#[trigger] l[i] == '-' && l[i + 1]
        == '-') by {
        assert(!(j[i] == '-' && j[i + 1] == '-'));
        if l[i] == '-' {
            assert(j[i] == '-');
        }
        if l[i + 1] == '-' {
            assert(j[i + 1] == '-');
        }
    }
    assert(l[0] == ascii_lower(j[0]));
    assert(l.last() == ascii_lower(j.last()));
}

/// Every word is a nonempty run of ASCII alphanumerics.
proof fn lemma_words_wf(s: Seq<char>)
    ensures
        forall|k: int|
            0 <= k < words(s).len() ==> (#[trigger] words(s)[k]).len() > 0 && forall|m: int|
                0 <= m < words(s)[k].len() ==> is_ascii_alnum(#[trigger] words(s)[k][m]),
    decreases s.len(),
{
    if s.len() > 0 {
        lemma_words_wf(s.drop_last());
        let w = words(s.drop_last());
        let c = s.last();
        if is_ascii_alnum(c) && s.drop_last().len() > 0 && is_ascii_alnum(s.drop_last().last()) {
            lemma_words_nonempty_after_alnum(s.drop_last());
            let w2 = words(s);
            assert forall|k: int| 0 <= k < w2.len() implies (#[trigger] w2[k]).len() > 0
                && forall|m: int| 0 <= m < w2[k].len() ==> is_ascii_alnum(#[trigger] w2[k][m]) by {
                if k == w.len() - 1 {
                    assert(w2[k] == w.last().push(c));
                    assert forall|m: int| 0 <= m < w2[k].len() implies is_ascii_alnum(
                        #[trigger] w2[k][m],
                    ) by {
                        if m < w.last().len() {
                            assert(w2[k][m] == w[k][m]);
                        }
                    }
                }
            }
        }
    }
}

/// A sequence ending in an alphanumeric character has at least one word.
proof fn lemma_words_nonempty_after_alnum(s: Seq<char>)
    requires
        s.len() > 0,
        is_ascii_alnum(s.last()),
    ensures
        words(s).len() > 0,
    decreases s.len(),
{
    let prev = s.drop_last();
    if prev.len() > 0 && is_ascii_alnum(prev.last()) {
        lemma_words_nonempty_after_alnum(prev);
    }
}

/// Joining nonempty alphanumeric words gives a string of alphanumerics
/// and single dashes that starts and ends with an alphanumeric.
proof fn lemma_join_wf(ws: Seq<Seq<char>>)
    requires
        forall|k: int|
            0 <= k < ws.len() ==> (#[trigger] ws[k]).len() > 0 && forall|m: int|
                0 <= m < ws[k].len() ==> is_ascii_alnum(#[trigger] ws[k][m]),
    ensures
        ws.len() > 0 ==> {
            let j = join_dash(ws);
            &&& j.len() > 0
            &&& is_ascii_alnum(j[0])
            &&& is_ascii_alnum(j.last())
            &&& forall|i: int| 0 <= i < j.len() ==> is_ascii_alnum(#[trigger] j[i]) || j[i] == '-'
            &&& forall|i: int| 0 <= i < j.len() - 1 ==> !(#[trigger] j[i] == '-' && j[i + 1] == '-')
        },
    decreases ws.len(),
{
    if ws.len() == 1 {
        assert(is_ascii_alnum(ws[0][0]));
        assert(is_ascii_alnum(ws[0][ws[0].len() - 1]));
    } else if ws.len() > 1 {
        let p = ws.drop_last();
        assert forall|k: int| 0 <= k < p.len() implies (#[trigger] p[k]).len() > 0 && forall|m: int|
            0 <= m < p[k].len() ==> is_ascii_alnum(#[trigger] p[k][m]) by {
            assert(p[k] == ws[k]);
        }
        lemma_join_wf(p);
        let jp = join_dash(p);
        let l = ws.last();
        let j = join_dash(ws);
        assert(j == jp + seq!['-'] + l);
        assert(is_ascii_alnum(l[0]));
        assert(is_ascii_alnum(l[l.len() - 1]));
        assert(j[0] == jp[0]);
        assert(j.last() == l[l.len() - 1]);
        assert forall|i: int| 0 <= i < j.len() implies is_ascii_alnum(#[trigger] j[i]) || j[i]
            == '-' by {
            if i < jp.len() {
                assert(j[i] == jp[i]);
            } else if i > jp.len() {
                assert(j[i] == l[i - jp.len() - 1]);
            }
        }
        assert forall|i: int| 0 <= i < j.len() - 1 implies !(#[trigger] j[i] == '-' && j[i + 1]
            == '-') by {
            if i + 1 < jp.len() {
                assert(j[i] == jp[i]);
                assert(j[i + 1] == jp[i + 1]);
            } else if i + 1 == jp.len() {
                assert(j[i] == jp[i]);
            } else if i == jp.len() {
                assert(j[i + 1] == l[0]);
            } else {
                assert(j[i] == l[i - jp.len() - 1]);
            }
        }
    }
}

} // verus!
