//! `usagi export`: package a game for distribution. This module holds
//! the planning side of an export: flag validation, the project-name
//! and output-path resolution, the web-shell choice, template archive
//! naming, and the Windows PE subsystem patch applied to fused exes.
//! Fetching templates, fusing the bundle and zipping are done by the
//! caller from the plan.

use crate::cli::{resolve_script_path, script_choice, ScriptProbe};
use crate::error::Error;
use crate::paths::{
    file_name_of, file_stem_of, joined_path, parent_of, path_canonicalize, path_file_name, path_file_stem, path_is_file,
    path_join, path_parent,
};
use crate::project_name::{opt_str_view, resolved_display, resolved_slug, ProjectName};
use crate::text::{
    chars_eq, chars_of, concat2, contains_seq, hex, hex_exec, lemma_replace_without_match, push_all,
    replace_all, replace_from, signed_text, signed_text_exec, string_of,
};
use vstd::prelude::*;

verus! {

#[derive(Copy, Clone, Debug, PartialEq, Eq, Structural)]
pub enum ExportTarget {
    /// All four platform zips plus the portable `.usagi` bundle.
    All,
    /// Portable `.usagi` bundle file (run with `usagi run`).
    Bundle,
    /// Linux x86_64 fused exe, packaged as `<name>-linux.zip`.
    Linux,
    /// macOS aarch64 fused exe, packaged as `<name>-macos.zip`.
    Macos,
    /// Windows x86_64 fused exe, packaged as `<name>-windows.zip`.
    Windows,
    /// Web export packaged as `<name>-web.zip`.
    Web,
}

/// Runtime template platforms.
#[derive(Copy, Clone, Debug, PartialEq, Eq, Structural)]
pub enum Target {
    Linux,
    Macos,
    Windows,
    Wasm,
}

/// Whether the export writes a web build (`web`, or `all`).
pub fn target_produces_web(target: ExportTarget) -> (r: bool)
    ensures
        r == (target == ExportTarget::All || target == ExportTarget::Web),
{
    match target {
        ExportTarget::All | ExportTarget::Web => true,
        _ => false,
    }
}

pub open spec fn template_target_spec(target: ExportTarget) -> Option<Target> {
    match target {
        ExportTarget::Linux => Some(Target::Linux),
        ExportTarget::Macos => Some(Target::Macos),
        ExportTarget::Windows => Some(Target::Windows),
        ExportTarget::Web => Some(Target::Wasm),
        _ => None,
    }
}

/// Maps the CLI export target to the template platform. `None` for
/// targets that don't use templates (`all`, `bundle`).
pub fn template_target_for(target: ExportTarget) -> (r: Option<Target>)
    ensures
        r == template_target_spec(target),
        target == ExportTarget::Linux ==> r == Some(Target::Linux),
        target == ExportTarget::Macos ==> r == Some(Target::Macos),
        target == ExportTarget::Windows ==> r == Some(Target::Windows),
        target == ExportTarget::Web ==> r == Some(Target::Wasm),
        target == ExportTarget::All || target == ExportTarget::Bundle ==> r is None,
{
    match target {
        ExportTarget::Linux => Some(Target::Linux),
        ExportTarget::Macos => Some(Target::Macos),
        ExportTarget::Windows => Some(Target::Windows),
        ExportTarget::Web => Some(Target::Wasm),
        _ => None,
    }
}

/// Path-derived name: the parent directory when the script is `main.lua`
/// (so `examples/spr/main.lua` gives `spr`), the file stem otherwise
/// (`examples/snake.lua` gives `snake`).
pub open spec fn path_name_hint_spec(p: Seq<char>) -> Seq<char> {
    let stem = match file_stem_of(p) {
        Some(s) => s,
        None => "game"@,
    };
    if stem == "main"@ {
        match parent_of(p) {
            Some(par) => match file_name_of(par) {
                Some(n) => n,
                None => stem,
            },
            None => stem,
        }
    } else {
        stem
    }
}

/// Path-derived name hint, used as fallback for the project name and as
/// input to the game id.
pub fn path_name_hint(script_path: &str) -> (r: String)
    ensures
        r@ == path_name_hint_spec(script_path@),
{
    let stem = match path_file_stem(script_path) {
        Some(s) => s,
        None => "game".to_owned(),
    };
    let sv = chars_of(stem.as_str());
    let mv = chars_of("main");
    if chars_eq(sv.as_slice(), mv.as_slice()) {
        match path_parent(script_path) {
            Some(par) => match path_file_name(par.as_str()) {
                Some(n) => n,
                None => stem,
            },
            None => stem,
        }
    } else {
        stem
    }
}

pub open spec fn default_output_spec(slug: Seq<char>, target: ExportTarget) -> Seq<char> {
    match target {
        ExportTarget::All => "export"@,
        ExportTarget::Bundle => slug + ".usagi"@,
        ExportTarget::Linux => slug + "-linux.zip"@,
        ExportTarget::Macos => slug + "-macos.zip"@,
        ExportTarget::Windows => slug + "-windows.zip"@,
        ExportTarget::Web => slug + "-web.zip"@,
    }
}

/// Different targets never share a default output path, whatever the
/// slug: no export overwrites another's archive.
pub proof fn lemma_default_outputs_distinct(slug: Seq<char>, a: ExportTarget, b: ExportTarget)
    requires
        a != b,
    ensures
        default_output_spec(slug, a) != default_output_spec(slug, b),
{
    reveal_strlit("export");
    reveal_strlit(".usagi");
    reveal_strlit("-linux.zip");
    reveal_strlit("-macos.zip");
    reveal_strlit("-windows.zip");
    reveal_strlit("-web.zip");
    let n = slug.len() as int;
    let x = default_output_spec(slug, a);
    let y = default_output_spec(slug, b);
    if x == y {
        assert(x.len() == y.len());
        if n == 0 && (a == ExportTarget::All || b == ExportTarget::All) {
            assert(x[0] == y[0]);
        } else if n >= 0 {
            assert(x[n + 1] == y[n + 1]);
            assert(x[n] == y[n]);
        }
    }
}

/// Default output path for a target: `export/` for `all` (project-
/// agnostic so one gitignore entry covers any game), otherwise a file
/// named from the project slug.
pub fn default_output_path(project_name: &ProjectName, target: ExportTarget) -> (r: String)
    ensures
        r@ == default_output_spec(project_name@.1, target),
        target == ExportTarget::All ==> r@ == "export"@,
        target == ExportTarget::Bundle ==> r@ == project_name@.1 + ".usagi"@,
        target == ExportTarget::Linux ==> r@ == project_name@.1 + "-linux.zip"@,
        target == ExportTarget::Macos ==> r@ == project_name@.1 + "-macos.zip"@,
        target == ExportTarget::Windows ==> r@ == project_name@.1 + "-windows.zip"@,
        target == ExportTarget::Web ==> r@ == project_name@.1 + "-web.zip"@,
{
    let slug = project_name.slug();
    match target {
        ExportTarget::All => "export".to_owned(),
        ExportTarget::Bundle => concat2(slug, ".usagi"),
        ExportTarget::Linux => concat2(slug, "-linux.zip"),
        ExportTarget::Macos => concat2(slug, "-macos.zip"),
        ExportTarget::Windows => concat2(slug, "-windows.zip"),
        ExportTarget::Web => concat2(slug, "-web.zip"),
    }
}

/// File name of the fused binary inside the staging directory.
pub fn staged_exe_name(slug: &str, target: Target) -> (r: String)
    ensures
        r@ == (if target == Target::Windows {
            slug@ + ".exe"@
        } else {
            slug@
        }),
{
    match target {
        Target::Windows => concat2(slug, ".exe"),
        _ => slug.to_owned(),
    }
}

/// Index of the first `?` or `#` at or after `i` (the length when none).
pub open spec fn first_query_mark(s: Seq<char>, i: int) -> int
    decreases s.len() - i,
{
    if i >= s.len() {
        s.len() as int
    } else if s[i] == '?' || s[i] == '#' {
        i
    } else {
        first_query_mark(s, i + 1)
    }
}

/// Start of the final `/`-separated segment of `s[..j]`.
pub open spec fn after_last_slash(s: Seq<char>, j: int) -> int
    decreases j,
{
    if j <= 0 {
        0
    } else if s[j - 1] == '/' {
        j
    } else {
        after_last_slash(s, j - 1)
    }
}

pub open spec fn ends_with(s: Seq<char>, suffix: Seq<char>) -> bool {
    s.len() >= suffix.len() && s.subrange(s.len() - suffix.len(), s.len() as int) == suffix
}

/// The last path segment of a URL, ignoring any query or fragment.
pub open spec fn url_basename(url: Seq<char>) -> Seq<char> {
    let t = url.take(first_query_mark(url, 0));
    t.subrange(after_last_slash(t, t.len() as int), t.len() as int)
}

/// Local file name for a downloaded template: the URL's basename when it
/// has a known archive extension, else `template.tar.gz`.
pub open spec fn archive_name_spec(url: Seq<char>) -> Seq<char> {
    let b = url_basename(url);
    if ends_with(b, ".tar.gz"@) || ends_with(b, ".tgz"@) || ends_with(b, ".zip"@) {
        b
    } else {
        "template.tar.gz"@
    }
}

proof fn lemma_first_query_mark_bounds(s: Seq<char>, i: int)
    requires
        0 <= i <= s.len(),
    ensures
        i <= first_query_mark(s, i) <= s.len(),
    decreases s.len() - i,
{
    if i < s.len() && !(s[i] == '?' || s[i] == '#') {
        lemma_first_query_mark_bounds(s, i + 1);
    }
}

proof fn lemma_after_last_slash_bounds(s: Seq<char>, j: int)
    requires
        0 <= j <= s.len(),
    ensures
        0 <= after_last_slash(s, j) <= j,
    decreases j,
{
    if j > 0 && s[j - 1] != '/' {
        lemma_after_last_slash_bounds(s, j - 1);
    }
}

fn ends_with_exec(s: &Vec<char>, suffix: &str) -> (r: bool)
    ensures
        r == ends_with(s@, suffix@),
{
    let suf = chars_of(suffix);
    if s.len() < suf.len() {
        return false;
    }
    let start = s.len() - suf.len();
    let mut i: usize = 0;
    while i < suf.len()
        invariant
            start + suf.len() == s.len(),
            suf@ == suffix@,
            i <= suf.len(),
            forall|k: int| 0 <= k < i ==> s@[start + k] == suf@[k],
        decreases suf.len() - i,
    {
        if s[start + i] != suf[i] {
            proof {
                let sub = s@.subrange(start as int, s.len() as int);
                assert(sub[i as int] == s@[start + i]);
                assert(sub[i as int] != suf@[i as int]);
            }
            return false;
        }
        i = i + 1;
    }
    proof {
        assert(s@.subrange(start as int, s.len() as int) =~= suf@);
    }
    true
}

/// Picks a local filename for a downloaded template, preserving the
/// URL's extension so extraction can dispatch by suffix. Falls back to a
/// generic name when the URL has no usable basename.
pub fn archive_name_from_url(url: &str) -> (r: String)
    ensures
        r@ == archive_name_spec(url@),
{
    let u = chars_of(url);
    let mut stop: usize = 0;
    while stop < u.len() && !(u[stop] == '?' || u[stop] == '#')
        invariant
            stop <= u.len(),
            first_query_mark(u@, stop as int) == first_query_mark(u@, 0),
        decreases u.len() - stop,
    {
        stop = stop + 1;
    }
    let mut start: usize = stop;
    while start > 0 && u[start - 1] != '/'
        invariant
            start <= stop <= u.len(),
            after_last_slash(u@.take(stop as int), start as int) == after_last_slash(
                u@.take(stop as int),
                stop as int,
            ),
        decreases start,
    {
        proof {
            assert(u@.take(stop as int)[start - 1] == u@[start - 1]);
        }
        start = start - 1;
    }
    proof {
        let t = u@.take(stop as int);
        if start > 0 {
            assert(t[start - 1] == u@[start - 1]);
        }
        assert(after_last_slash(t, start as int) == start);
    }
    let mut base: Vec<char> = Vec::new();
    let mut i = start;
    while i < stop
        invariant
            start <= i <= stop <= u.len(),
            base@ == u@.subrange(start as int, i as int),
        decreases stop - i,
    {
        base.push(u[i]);
        i = i + 1;
        proof {
            assert(base@ =~= u@.subrange(start as int, i as int));
        }
    }
    proof {
        assert(base@ =~= url_basename(url@));
    }
    if ends_with_exec(&base, ".tar.gz") || ends_with_exec(&base, ".tgz") || ends_with_exec(
        &base,
        ".zip",
    ) {
        string_of(base.as_slice())
    } else {
        "template.tar.gz".to_owned()
    }
}

/// Why a file could not be patched as a Windows PE image.
#[derive(Copy, Clone, Debug, PartialEq, Eq, Structural)]
pub enum PeError {
    /// Shorter than a DOS header or missing the `MZ` magic.
    NotPe,
    /// No `PE\0\0` signature at the offset the DOS header points to.
    MissingSignature(u32),
    /// The file ends before the optional header's subsystem field.
    Truncated,
}

/// Little-endian 32-bit value at `at`.
pub open spec fn le_u32(b: Seq<u8>, at: int) -> int {
    b[at] + b[at + 1] * 256 + b[at + 2] * 65536 + b[at + 3] * 16777216
}

/// Where the subsystem field sits, or why the image is rejected. The
/// DOS header's `e_lfanew` at 0x3C points at the PE signature; after the
/// 4-byte signature and the 20-byte COFF header comes the optional
/// header, whose subsystem field is at offset 0x44.
pub open spec fn pe_subsystem_offset(b: Seq<u8>) -> Result<int, PeError> {
    if b.len() < 0x40 || b[0] != 0x4D || b[1] != 0x5A {
        Err(PeError::NotPe)
    } else {
        let off = le_u32(b, 0x3C);
        if b.len() < off + 4 || b[off] != 0x50 || b[off + 1] != 0x45 || b[off + 2] != 0 || b[off
            + 3] != 0 {
            Err(PeError::MissingSignature(off as u32))
        } else if b.len() < off + 4 + 20 + 0x44 + 2 {
            Err(PeError::Truncated)
        } else {
            Ok(off + 4 + 20 + 0x44)
        }
    }
}

/// Rewrites the PE optional header's subsystem field from console (3) to
/// windowed GUI (2), so exported games don't open a console window. On
/// success exactly the two bytes of that field change; on failure the
/// bytes are untouched.
pub fn patch_windows_subsystem(bytes: &mut Vec<u8>) -> (r: Result<(), PeError>)
    ensures
        match pe_subsystem_offset(old(bytes)@) {
            Ok(sub) => r is Ok && final(bytes)@ == old(bytes)@.update(sub, 2u8).update(
                sub + 1,
                0u8,
            ),
            Err(e) => r == Err::<(), PeError>(e) && final(bytes)@ == old(bytes)@,
        },
{
    if bytes.len() < 0x40 || bytes[0] != 0x4D || bytes[1] != 0x5A {
        return Err(PeError::NotPe);
    }
    let off: u64 = (bytes[0x3C] as u64) + (bytes[0x3D] as u64) * 256 + (bytes[0x3E] as u64)
        * 65536 + (bytes[0x3F] as u64) * 16777216;
    proof {
        assert(off == le_u32(bytes@, 0x3C));
        assert(off < 0x1_0000_0000);
    }
    let len: u64 = bytes.len() as u64;
    if len < off + 4 {
        return Err(PeError::MissingSignature(off as u32));
    }
    let o: usize = off as usize;
    if bytes[o] != 0x50 || bytes[o + 1] != 0x45 || bytes[o + 2] != 0 || bytes[o + 3] != 0 {
        return Err(PeError::MissingSignature(off as u32));
    }
    if len < off + 4 + 20 + 0x44 + 2 {
        return Err(PeError::Truncated);
    }
    let sub: usize = o + 4 + 20 + 0x44;
    bytes.set(sub, 0x02);
    bytes.set(sub + 1, 0x00);
    Ok(())
}

/// The message a failed PE patch of the file at `path` reports.
pub open spec fn pe_error_message_spec(path: Seq<char>, e: PeError) -> Seq<char> {
    match e {
        PeError::NotPe => path + " is not a PE file (missing MZ header)"@,
        PeError::MissingSignature(off) => path + " missing PE signature at offset 0x"@ + hex(
            off as nat,
        ),
        PeError::Truncated => path + " truncated before PE Optional Header subsystem field"@,
    }
}

/// The message a failed PE patch of the file at `path` reports; the
/// signature offset is printed in hexadecimal.
pub fn pe_error_message(path: &str, e: PeError) -> (r: String)
    ensures
        r@ == pe_error_message_spec(path@, e),
{
    match e {
        PeError::NotPe => concat2(path, " is not a PE file (missing MZ header)"),
        PeError::MissingSignature(off) => {
            let mut v = chars_of(path);
            push_all(&mut v, chars_of(" missing PE signature at offset 0x").as_slice());
            push_all(&mut v, hex_exec(off as u64).as_slice());
            string_of(v.as_slice())
        },
        PeError::Truncated => concat2(path, " truncated before PE Optional Header subsystem field"),
    }
}

/// The canvas attributes of the bundled web shell: the default game
/// size's 2x backing store.
pub open spec fn default_canvas_attrs() -> Seq<char> {
    "width=\"640\" height=\"360\""@
}

/// Canvas attributes for a `cw` by `ch` backing store.
pub open spec fn canvas_attrs(cw: i32, ch: i32) -> Seq<char> {
    "width=\""@ + signed_text(cw as int) + "\" height=\""@ + signed_text(ch as int) + "\""@
}

/// The web shell HTML with the default canvas attributes replaced by
/// the game's backing-store size. A custom shell without the default
/// attributes passes through unchanged.
pub fn render_web_shell(html: &str, cw: i32, ch: i32) -> (r: String)
    ensures
        r@ == replace_from(html@, default_canvas_attrs(), canvas_attrs(cw, ch), 0),
{
    let mut rep = chars_of("width=\"");
    push_all(&mut rep, signed_text_exec(cw).as_slice());
    push_all(&mut rep, chars_of("\" height=\"").as_slice());
    push_all(&mut rep, signed_text_exec(ch).as_slice());
    push_all(&mut rep, chars_of("\"").as_slice());
    let rep = string_of(rep.as_slice());
    proof {
        reveal_strlit("width=\"640\" height=\"360\"");
    }
    replace_all(html, "width=\"640\" height=\"360\"", rep.as_str())
}

/// A custom web shell without the default canvas attributes is staged
/// verbatim: its author owns the canvas size.
pub proof fn lemma_custom_shell_passes_through(html: Seq<char>, cw: i32, ch: i32)
    requires
        !contains_seq(html, default_canvas_attrs()),
    ensures
        replace_from(html, default_canvas_attrs(), canvas_attrs(cw, ch), 0) == html,
{
    lemma_replace_without_match(html, default_canvas_attrs(), canvas_attrs(cw, ch), 0);
    assert(html.subrange(0, html.len() as int) =~= html);
}

pub open spec fn web_shell_missing_message(p: Seq<char>) -> Seq<char> {
    "--web-shell file not found: "@ + p
}

/// The sibling `shell.html` a script's web export picks up by default.
pub open spec fn sibling_shell(script_path: Seq<char>) -> Seq<char> {
    let dir = match parent_of(script_path) {
        Some(p) => p,
        None => "."@,
    };
    joined_path(dir, "shell.html"@)
}

/// The web-shell rule, given what the disk reports: the explicit
/// `--web-shell` flag wins (an error when it names no file), then a
/// sibling `shell.html` next to the script, otherwise none (the
/// template's default shell is used).
pub open spec fn web_shell_choice(
    script_path: Seq<char>,
    flag: Option<Seq<char>>,
    flag_is_file: bool,
    sibling_is_file: bool,
) -> Result<Option<Seq<char>>, Seq<char>> {
    match flag {
        Some(p) => if flag_is_file {
            Ok(Some(p))
        } else {
            Err(web_shell_missing_message(p))
        },
        None => if sibling_is_file {
            Ok(Some(sibling_shell(script_path)))
        } else {
            Ok(None)
        },
    }
}

/// A web-shell result as plain values; a Lua error has no place in it.
pub open spec fn web_shell_view(r: Result<Option<String>, Error>) -> Option<Result<Option<Seq<char>>, Seq<char>>> {
    match r {
        Ok(o) => Some(Ok(opt_string_view(o))),
        Err(Error::Cli(m)) => Some(Err(m@)),
        Err(Error::Lua(_)) => None,
    }
}

/// Applies the web-shell rule to the disk's answers: whether the flag's
/// path is a file, and whether the script's sibling `shell.html` is.
pub fn choose_web_shell(script_path: &str, flag: Option<&str>, flag_is_file: bool, sibling_is_file: bool) -> (r: Result<
    Option<String>,
    Error,
>)
    ensures
        web_shell_view(r) == Some(web_shell_choice(script_path@, opt_str_view(flag), flag_is_file, sibling_is_file)),
{
    match flag {
        Some(p) => {
            if !flag_is_file {
                return Err(Error::Cli(concat2("--web-shell file not found: ", p)));
            }
            Ok(Some(p.to_owned()))
        },
        None => {
            if sibling_is_file {
                Ok(Some(sibling_shell_path(script_path)))
            } else {
                Ok(None)
            }
        },
    }
}

/// The sibling `shell.html` of a script.
fn sibling_shell_path(script_path: &str) -> (r: String)
    ensures
        r@ == sibling_shell(script_path@),
{
    let dir = match path_parent(script_path) {
        Some(d) => d,
        None => ".".to_owned(),
    };
    path_join(dir.as_str(), "shell.html")
}

/// Picks the web export's shell.html source by `web_shell_choice`,
/// asking the disk whether the flag's path (when given) or else the
/// sibling `shell.html` is a file. The answers are the disk's.
pub fn resolve_web_shell_override(script_path: &str, flag: Option<&str>) -> (r: Result<
    Option<String>,
    Error,
>)
    ensures
        exists|flag_is_file: bool, sibling_is_file: bool|
            web_shell_view(r) == Some(#[trigger] web_shell_choice(
                script_path@,
                opt_str_view(flag),
                flag_is_file,
                sibling_is_file,
            )),
{
    let (flag_is_file, sibling_is_file) = match flag {
        Some(p) => (path_is_file(p), false),
        None => (false, path_is_file(sibling_shell_path(script_path).as_str())),
    };
    let r = choose_web_shell(script_path, flag, flag_is_file, sibling_is_file);
    proof {
        assert(web_shell_view(r) == Some(web_shell_choice(script_path@, opt_str_view(flag), flag_is_file, sibling_is_file)));
    }
    r
}

/// Resolves an export's script argument as `resolve_script_path` does,
/// handing its error on as a CLI error with the text unchanged. A
/// resolved path is canonicalized (so `.` names its directory) when the
/// disk allows it, and kept as resolved otherwise.
pub fn resolve_export_script(path_arg: &str) -> (r: Result<String, Error>)
    ensures
        exists|p: ScriptProbe|
            match #[trigger] script_choice(path_arg@, p) {
                Ok(_) => r is Ok,
                Err(m) => r matches Err(Error::Cli(e)) && e@ == m,
            },
{
    match resolve_script_path(path_arg) {
        Ok(s) => match path_canonicalize(s.as_str()) {
            Some(c) => Ok(c),
            None => Ok(s),
        },
        Err(m) => Err(Error::Cli(m)),
    }
}

/// Everything an export needs after validation: the target, where the
/// runtime comes from, the resolved project name and output path, and
/// the web shell to use.
pub struct ExportPlan {
    pub target: ExportTarget,
    /// Template platform; `None` for `all` and `bundle`.
    pub template_target: Option<Target>,
    pub template_path: Option<String>,
    pub template_url: Option<String>,
    pub no_cache: bool,
    /// Path-derived name hint (also the game-id fallback).
    pub path_hint: String,
    pub project_name: ProjectName,
    pub out_path: String,
    pub web_shell_override: Option<String>,
}

pub open spec fn template_flags_message() -> Seq<char> {
    "--template-path / --template-url only apply to --target {linux,macos,windows,web}"@
}

pub open spec fn web_shell_flag_message() -> Seq<char> {
    "--web-shell only applies to --target {web,all}"@
}

pub open spec fn opt_string_view(o: Option<String>) -> Option<Seq<char>> {
    match o {
        Some(s) => Some(s@),
        None => None,
    }
}

/// What planning an export from the resolved script `script_path`
/// gives: the flag errors in order, then the plan or the web-shell error.
pub open spec fn plan_outcome(
    script_path: Seq<char>,
    output: Option<Seq<char>>,
    target: ExportTarget,
    template_path: Option<Seq<char>>,
    template_url: Option<Seq<char>>,
    no_cache: bool,
    web_shell: Option<Seq<char>>,
    config_name: Option<Seq<char>>,
    r: Result<ExportPlan, Error>,
) -> bool {
    &&& (template_target_spec(target) is None && (template_path is Some || template_url is Some)
            ==> (r matches Err(Error::Cli(m)) && m@ == template_flags_message()))
    &&& (!(template_target_spec(target) is None && (template_path is Some || template_url is Some))
            && web_shell is Some && !(target == ExportTarget::All || target == ExportTarget::Web)
            ==> (r matches Err(Error::Cli(m)) && m@ == web_shell_flag_message()))
    &&& (!(template_target_spec(target) is None && (template_path is Some || template_url is Some))
            && (web_shell is Some ==> (target == ExportTarget::All || target == ExportTarget::Web))
            ==> match r {
            Ok(plan) => {
                let hint = path_name_hint_spec(script_path);
                &&& plan.target == target
                &&& plan.template_target == template_target_spec(target)
                &&& opt_string_view(plan.template_path) == template_path
                &&& opt_string_view(plan.template_url) == template_url
                &&& plan.no_cache == no_cache
                &&& plan.path_hint@ == hint
                &&& plan.project_name@.0 == resolved_display(config_name, Some(hint))
                &&& plan.project_name@.1 == resolved_slug(config_name, Some(hint))
                &&& plan.out_path@ == match output {
                    Some(o) => o,
                    None => default_output_spec(plan.project_name@.1, target),
                }
                &&& exists|a: bool, b: bool|
                    #[trigger] web_shell_choice(script_path, web_shell, a, b) == Ok::<
                        Option<Seq<char>>,
                        Seq<char>,
                    >(opt_string_view(plan.web_shell_override))
            },
            Err(Error::Cli(m)) => exists|a: bool, b: bool|
                #[trigger] web_shell_choice(script_path, web_shell, a, b) == Err::<
                    Option<Seq<char>>,
                    Seq<char>,
                >(m@),
            Err(Error::Lua(_)) => false,
        })
}

/// Validates the export flags and resolves the plan for the project whose
/// (resolved) script is `script_path` and whose configured name is
/// `config_name`. Errors, in order: template flags on a target without a
/// template, `--web-shell` on a target without a web build, and a
/// `--web-shell` naming no file.
pub fn plan(
    script_path: &str,
    output: Option<&str>,
    target: ExportTarget,
    template_path: Option<&str>,
    template_url: Option<&str>,
    no_cache: bool,
    web_shell: Option<&str>,
    config_name: Option<&str>,
) -> (r: Result<ExportPlan, Error>)
    ensures
        plan_outcome(
            script_path@,
            opt_str_view(output),
            target,
            opt_str_view(template_path),
            opt_str_view(template_url),
            no_cache,
            opt_str_view(web_shell),
            opt_str_view(config_name),
            r,
        ),
{
    let path_hint = path_name_hint(script_path);
    let template_target = template_target_for(target);
    if template_target.is_none() && (template_path.is_some() || template_url.is_some()) {
        return Err(
            Error::Cli(
                "--template-path / --template-url only apply to --target {linux,macos,windows,web}".to_owned(),
            ),
        );
    }
    if web_shell.is_some() && !target_produces_web(target) {
        return Err(Error::Cli("--web-shell only applies to --target {web,all}".to_owned()));
    }
    let web_shell_override = match resolve_web_shell_override(script_path, web_shell) {
        Ok(w) => w,
        Err(e) => return Err(e),
    };
    let project_name = ProjectName::resolve(config_name, Some(path_hint.as_str()));
    let out_path = match output {
        Some(o) => o.to_owned(),
        None => default_output_path(&project_name, target),
    };
    let template_path = match template_path {
        Some(p) => Some(p.to_owned()),
        None => None,
    };
    let template_url = match template_url {
        Some(u) => Some(u.to_owned()),
        None => None,
    };
    Ok(
        ExportPlan {
            target,
            template_target,
            template_path,
            template_url,
            no_cache,
            path_hint,
            project_name,
            out_path,
            web_shell_override,
        },
    )
}


/// Entry of an export: `script` is the resolution of the script argument
/// (`resolve_export_script`). A resolution error comes back unchanged,
/// before any plan is made; otherwise the plan is `plan`'s.
pub fn run(
    script: Result<String, Error>,
    output: Option<&str>,
    target: ExportTarget,
    template_path: Option<&str>,
    template_url: Option<&str>,
    no_cache: bool,
    web_shell: Option<&str>,
    config_name: Option<&str>,
) -> (r: Result<ExportPlan, Error>)
    ensures
        match script {
            Err(e) => r == Err::<ExportPlan, Error>(e),
            Ok(p) => plan_outcome(
                p@,
                opt_str_view(output),
                target,
                opt_str_view(template_path),
                opt_str_view(template_url),
                no_cache,
                opt_str_view(web_shell),
                opt_str_view(config_name),
                r,
            ),
        },
{
    match script {
        Err(e) => Err(e),
        Ok(p) => plan(p.as_str(), output, target, template_path, template_url, no_cache, web_shell, config_name),
    }
}

} // verus!
