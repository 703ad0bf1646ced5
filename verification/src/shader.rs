//! Post-process shaders: where a game's shader source is looked up and
//! how a portable `*.usagi.fs` body is turned into a complete fragment
//! shader for the platform's GLSL dialect.

use crate::text::{
    chars_of, concat3, contains_chars, contains_seq, find_from, lemma_find_from_bounds,
    push_all, slice_chars, string_of, trim, trim_chars, utf8_error_text, utf8_string,
};
use vstd::prelude::*;

verus! {

/// The platform a build targets.
#[derive(Clone, Copy, Debug, PartialEq, Eq, Structural)]
pub enum ShaderBuildTarget {
    Desktop,
    Web,
}

/// The GLSL dialect generated shaders are written in.
#[derive(Clone, Copy, Debug, PartialEq, Eq, Structural)]
pub enum ShaderProfile {
    DesktopGlsl330,
    WebGlslEs100,
}

/// GLSL 330 on desktop, GLSL ES 100 on the web.
pub open spec fn profile_for(target: ShaderBuildTarget) -> ShaderProfile {
    match target {
        ShaderBuildTarget::Desktop => ShaderProfile::DesktopGlsl330,
        ShaderBuildTarget::Web => ShaderProfile::WebGlslEs100,
    }
}

impl ShaderProfile {
    /// The dialect of a build target.
    pub fn for_build_target(target: ShaderBuildTarget) -> (r: Self)
        ensures
            r == profile_for(target),
    {
        match target {
            ShaderBuildTarget::Desktop => ShaderProfile::DesktopGlsl330,
            ShaderBuildTarget::Web => ShaderProfile::WebGlslEs100,
        }
    }
}

/// `shaders/<name><suffix>.<ext>`.
pub open spec fn shader_key(name: Seq<char>, suffix: Seq<char>, ext: Seq<char>) -> Seq<char> {
    seq!['s', 'h', 'a', 'd', 'e', 'r', 's', '/'] + name + suffix + seq!['.'] + ext
}

/// The native source tried first: the platform's own file.
pub open spec fn primary_key_spec(target: ShaderBuildTarget, name: Seq<char>, ext: Seq<char>) -> Seq<char> {
    match target {
        ShaderBuildTarget::Desktop => shader_key(name, seq![], ext),
        ShaderBuildTarget::Web => shader_key(name, seq!['_', 'e', 's'], ext),
    }
}

/// The native source tried second: the other platform's file.
pub open spec fn alt_key_spec(target: ShaderBuildTarget, name: Seq<char>, ext: Seq<char>) -> Seq<char> {
    match target {
        ShaderBuildTarget::Desktop => shader_key(name, seq!['_', 'e', 's'], ext),
        ShaderBuildTarget::Web => shader_key(name, seq![], ext),
    }
}

/// `shaders/<name><suffix>.<ext>` as a string.
fn shader_key_exec(name: &str, suffix: &str, ext: &str) -> (r: String)
    ensures
        r@ == shader_key(name@, suffix@, ext@),
{
    let mut v = chars_of("shaders/");
    crate::text::push_all(&mut v, chars_of(name).as_slice());
    crate::text::push_all(&mut v, chars_of(suffix).as_slice());
    crate::text::push_all(&mut v, chars_of(".").as_slice());
    crate::text::push_all(&mut v, chars_of(ext).as_slice());
    proof {
        reveal_strlit("shaders/");
        reveal_strlit(".");
        assert(v@ =~= shader_key(name@, suffix@, ext@));
    }
    string_of(v.as_slice())
}

/// Key of the native source tried first.
pub fn primary_key_for_target(target: ShaderBuildTarget, name: &str, ext: &str) -> (r: String)
    ensures
        r@ == primary_key_spec(target, name@, ext@),
{
    match target {
        ShaderBuildTarget::Desktop => {
            proof {
                reveal_strlit("");
                assert(""@ =~= Seq::<char>::empty());
            }
            shader_key_exec(name, "", ext)
        },
        ShaderBuildTarget::Web => {
            proof {
                reveal_strlit("_es");
                assert("_es"@ =~= seq!['_', 'e', 's']);
            }
            shader_key_exec(name, "_es", ext)
        },
    }
}

/// Key of the native source tried second.
pub fn alt_key_for_target(target: ShaderBuildTarget, name: &str, ext: &str) -> (r: String)
    ensures
        r@ == alt_key_spec(target, name@, ext@),
{
    match target {
        ShaderBuildTarget::Desktop => {
            proof {
                reveal_strlit("_es");
                assert("_es"@ =~= seq!['_', 'e', 's']);
            }
            shader_key_exec(name, "_es", ext)
        },
        ShaderBuildTarget::Web => {
            proof {
                reveal_strlit("");
                assert(""@ =~= Seq::<char>::empty());
            }
            shader_key_exec(name, "", ext)
        },
    }
}

/// Key of a portable shader: `shaders/<name>.usagi.fs`.
pub open spec fn generic_key_spec(name: Seq<char>) -> Seq<char> {
    shader_key(name, seq!['.', 'u', 's', 'a', 'g', 'i'], seq!['f', 's'])
}

/// Key of a portable shader.
pub fn generic_fragment_key(name: &str) -> (r: String)
    ensures
        r@ == generic_key_spec(name@),
{
    proof {
        reveal_strlit(".usagi");
        reveal_strlit("fs");
        assert(".usagi"@ =~= seq!['.', 'u', 's', 'a', 'g', 'i']);
        assert("fs"@ =~= seq!['f', 's']);
    }
    shader_key_exec(name, ".usagi", "fs")
}

/// End of the line starting at `start`: one past its `\n`, or the end.
pub open spec fn line_end(s: Seq<char>, start: int) -> int {
    let j = find_from(s, '\n', start);
    if j < s.len() {
        j + 1
    } else {
        s.len() as int
    }
}

/// The source from `start` on with leading blank lines skipped and a
/// first line of exactly `#usagi shader 1` (surrounding whitespace
/// aside) dropped.
pub open spec fn strip_from(s: Seq<char>, start: int) -> Seq<char>
    decreases s.len() - start,
{
    if start < 0 || start >= s.len() {
        seq![]
    } else {
        let end = line_end(s, start);
        let t = trim(s.subrange(start, end));
        if t.len() == 0 {
            proof {
                lemma_find_from_bounds(s, '\n', start);
            }
            strip_from(s, end)
        } else if t == seq!['#', 'u', 's', 'a', 'g', 'i', ' ', 's', 'h', 'a', 'd', 'e', 'r', ' ', '1'] {
            s.subrange(end, s.len() as int)
        } else {
            s.subrange(start, s.len() as int)
        }
    }
}

/// The source without its `#usagi shader 1` directive line.
pub open spec fn strip_directive_spec(s: Seq<char>) -> Seq<char> {
    strip_from(s, 0)
}

/// Drops an optional `#usagi shader 1` line (after any blank lines).
pub fn strip_usagi_shader_directive(src: &str) -> (r: String)
    ensures
        r@ == strip_directive_spec(src@),
{
    let v = chars_of(src);
    let d = chars_of("#usagi shader 1");
    proof {
        reveal_strlit("#usagi shader 1");
        assert(d@ =~= seq!['#', 'u', 's', 'a', 'g', 'i', ' ', 's', 'h', 'a', 'd', 'e', 'r', ' ', '1']);
    }
    let mut start: usize = 0;
    while start < v.len()
        invariant
            start <= v.len(),
            v@ == src@,
            d@ == seq!['#', 'u', 's', 'a', 'g', 'i', ' ', 's', 'h', 'a', 'd', 'e', 'r', ' ', '1'],
            strip_from(v@, start as int) == strip_from(v@, 0),
        decreases v.len() - start,
    {
        let mut j = start;
        while j < v.len() && v[j] != '\n'
            invariant
                start <= j <= v.len(),
                forall|k: int| start <= k < j ==> v@[k] != '\n',
            decreases v.len() - j,
        {
            j = j + 1;
        }
        proof {
            crate::text::lemma_find_from_at(v@, '\n', start as int, j as int);
        }
        let end = if j < v.len() {
            j + 1
        } else {
            j
        };
        let t = trim_chars(&slice_chars(&v, start, end));
        if t.len() == 0 {
            start = end;
        } else if crate::text::chars_eq(t.as_slice(), d.as_slice()) {
            return string_of(slice_chars(&v, end, v.len()).as_slice());
        } else {
            return string_of(slice_chars(&v, start, v.len()).as_slice());
        }
    }
    string_of(slice_chars(&v, start, v.len()).as_slice())
}

/// `s` with leading `\n` characters removed.
pub open spec fn trim_newlines_start(s: Seq<char>) -> Seq<char> {
    s.subrange(first_non_newline(s, 0), s.len() as int)
}

/// Position of the first character at or after `i` that is not `\n`.
pub open spec fn first_non_newline(s: Seq<char>, i: int) -> int
    decreases s.len() - i,
{
    if i < 0 || i >= s.len() {
        s.len() as int
    } else if s[i] != '\n' {
        i
    } else {
        first_non_newline(s, i + 1)
    }
}

/// Header of a generated shader in a dialect.
pub open spec fn shader_header(p: ShaderProfile) -> Seq<char> {
    match p {
        ShaderProfile::DesktopGlsl330 => seq!['#', 'v', 'e', 'r', 's', 'i', 'o', 'n', ' ', '3', '3', '0', '\n', '\n', 'i', 'n', ' ', 'v', 'e', 'c', '2', ' ', 'f', 'r', 'a', 'g', 'T', 'e', 'x', 'C', 'o', 'o', 'r', 'd', ';', '\n', 'i', 'n', ' ', 'v', 'e', 'c', '4', ' ', 'f', 'r', 'a', 'g', 'C', 'o', 'l', 'o', 'r', ';', '\n', 'u', 'n', 'i', 'f', 'o', 'r', 'm', ' ', 's', 'a', 'm', 'p', 'l', 'e', 'r', '2', 'D', ' ', 't', 'e', 'x', 't', 'u', 'r', 'e', '0', ';', '\n', 'o', 'u', 't', ' ', 'v', 'e', 'c', '4', ' ', 'f', 'i', 'n', 'a', 'l', 'C', 'o', 'l', 'o', 'r', ';', '\n', '#', 'd', 'e', 'f', 'i', 'n', 'e', ' ', 'u', 's', 'a', 'g', 'i', '_', 't', 'e', 'x', 't', 'u', 'r', 'e', '(', 't', 'e', 'x', 't', 'u', 'r', 'e', '_', 'n', 'a', 'm', 'e', ',', ' ', 'u', 'v', ')', ' ', 't', 'e', 'x', 't', 'u', 'r', 'e', '(', 't', 'e', 'x', 't', 'u', 'r', 'e', '_', 'n', 'a', 'm', 'e', ',', ' ', 'u', 'v', ')', '\n', '\n'],
        ShaderProfile::WebGlslEs100 => seq!['#', 'v', 'e', 'r', 's', 'i', 'o', 'n', ' ', '1', '0', '0', '\n', '\n', 'p', 'r', 'e', 'c', 'i', 's', 'i', 'o', 'n', ' ', 'm', 'e', 'd', 'i', 'u', 'm', 'p', ' ', 'f', 'l', 'o', 'a', 't', ';', '\n', '\n', 'v', 'a', 'r', 'y', 'i', 'n', 'g', ' ', 'v', 'e', 'c', '2', ' ', 'f', 'r', 'a', 'g', 'T', 'e', 'x', 'C', 'o', 'o', 'r', 'd', ';', '\n', 'v', 'a', 'r', 'y', 'i', 'n', 'g', ' ', 'v', 'e', 'c', '4', ' ', 'f', 'r', 'a', 'g', 'C', 'o', 'l', 'o', 'r', ';', '\n', 'u', 'n', 'i', 'f', 'o', 'r', 'm', ' ', 's', 'a', 'm', 'p', 'l', 'e', 'r', '2', 'D', ' ', 't', 'e', 'x', 't', 'u', 'r', 'e', '0', ';', '\n', '#', 'd', 'e', 'f', 'i', 'n', 'e', ' ', 'u', 's', 'a', 'g', 'i', '_', 't', 'e', 'x', 't', 'u', 'r', 'e', '(', 't', 'e', 'x', 't', 'u', 'r', 'e', '_', 'n', 'a', 'm', 'e', ',', ' ', 'u', 'v', ')', ' ', 't', 'e', 'x', 't', 'u', 'r', 'e', '2', 'D', '(', 't', 'e', 'x', 't', 'u', 'r', 'e', '_', 'n', 'a', 'm', 'e', ',', ' ', 'u', 'v', ')', '\n', '\n'],
    }
}

/// Footer of a generated shader in a dialect.
pub open spec fn shader_footer(p: ShaderProfile) -> Seq<char> {
    match p {
        ShaderProfile::DesktopGlsl330 => seq!['\n', '\n', 'v', 'o', 'i', 'd', ' ', 'm', 'a', 'i', 'n', '(', ')', ' ', '{', '\n', ' ', ' ', ' ', ' ', 'f', 'i', 'n', 'a', 'l', 'C', 'o', 'l', 'o', 'r', ' ', '=', ' ', 'u', 's', 'a', 'g', 'i', '_', 'm', 'a', 'i', 'n', '(', 'f', 'r', 'a', 'g', 'T', 'e', 'x', 'C', 'o', 'o', 'r', 'd', ',', ' ', 'f', 'r', 'a', 'g', 'C', 'o', 'l', 'o', 'r', ')', ';', '\n', '}', '\n'],
        ShaderProfile::WebGlslEs100 => seq!['\n', '\n', 'v', 'o', 'i', 'd', ' ', 'm', 'a', 'i', 'n', '(', ')', ' ', '{', '\n', ' ', ' ', ' ', ' ', 'g', 'l', '_', 'F', 'r', 'a', 'g', 'C', 'o', 'l', 'o', 'r', ' ', '=', ' ', 'u', 's', 'a', 'g', 'i', '_', 'm', 'a', 'i', 'n', '(', 'f', 'r', 'a', 'g', 'T', 'e', 'x', 'C', 'o', 'o', 'r', 'd', ',', ' ', 'f', 'r', 'a', 'g', 'C', 'o', 'l', 'o', 'r', ')', ';', '\n', '}', '\n'],
    }
}

/// A complete fragment shader from a portable body: the body (directive
/// dropped, leading newlines trimmed) between the dialect's header and
/// `main`; refused when the body declares `#version` or lacks
/// `usagi_main`.
pub open spec fn generate_spec(src: Seq<char>, p: ShaderProfile) -> Result<Seq<char>, Seq<char>> {
    let body = trim_newlines_start(strip_directive_spec(src));
    if contains_seq(body, seq!['#', 'v', 'e', 'r', 's', 'i', 'o', 'n']) {
        Err(seq!['g', 'e', 'n', 'e', 'r', 'i', 'c', ' ', 's', 'h', 'a', 'd', 'e', 'r', 's', ' ', 'm', 'u', 's', 't', ' ', 'n', 'o', 't', ' ', 'd', 'e', 'c', 'l', 'a', 'r', 'e', ' ', '#', 'v', 'e', 'r', 's', 'i', 'o', 'n'])
    } else if !contains_seq(body, seq!['u', 's', 'a', 'g', 'i', '_', 'm', 'a', 'i', 'n']) {
        Err(seq!['g', 'e', 'n', 'e', 'r', 'i', 'c', ' ', 's', 'h', 'a', 'd', 'e', 'r', 's', ' ', 'm', 'u', 's', 't', ' ', 'd', 'e', 'f', 'i', 'n', 'e', ' ', 'v', 'e', 'c', '4', ' ', 'u', 's', 'a', 'g', 'i', '_', 'm', 'a', 'i', 'n', '(', 'v', 'e', 'c', '2', ' ', 'u', 'v', ',', ' ', 'v', 'e', 'c', '4', ' ', 'c', 'o', 'l', 'o', 'r', ')'])
    } else {
        Ok(shader_header(p) + body + shader_footer(p))
    }
}

/// Generates a complete fragment shader from a portable body.
pub fn generate_generic_fragment(src: &str, profile: ShaderProfile) -> (r: Result<String, String>)
    ensures
        match r {
            Ok(s) => generate_spec(src@, profile) == Ok::<Seq<char>, Seq<char>>(s@),
            Err(e) => generate_spec(src@, profile) == Err::<Seq<char>, Seq<char>>(e@),
        },
{
    let stripped = chars_of(strip_usagi_shader_directive(src).as_str());
    let mut i: usize = 0;
    while i < stripped.len() && stripped[i] == '\n'
        invariant
            i <= stripped.len(),
            first_non_newline(stripped@, i as int) == first_non_newline(stripped@, 0),
        decreases stripped.len() - i,
    {
        i = i + 1;
    }
    let body = slice_chars(&stripped, i, stripped.len());
    let version = chars_of("#version");
    let entry = chars_of("usagi_main");
    proof {
        reveal_strlit("#version");
        reveal_strlit("usagi_main");
        assert(version@ =~= seq!['#', 'v', 'e', 'r', 's', 'i', 'o', 'n']);
        assert(entry@ =~= seq!['u', 's', 'a', 'g', 'i', '_', 'm', 'a', 'i', 'n']);
        assert(body@ == trim_newlines_start(stripped@));
    }
    if contains_chars(&body, &version) {
        proof {
            reveal_strlit("generic shaders must not declare #version");
            assert("generic shaders must not declare #version"@ =~= seq!['g', 'e', 'n', 'e', 'r', 'i', 'c', ' ', 's', 'h', 'a', 'd', 'e', 'r', 's', ' ', 'm', 'u', 's', 't', ' ', 'n', 'o', 't', ' ', 'd', 'e', 'c', 'l', 'a', 'r', 'e', ' ', '#', 'v', 'e', 'r', 's', 'i', 'o', 'n']);
        }
        return Err(string_of(chars_of("generic shaders must not declare #version").as_slice()));
    }
    if !contains_chars(&body, &entry) {
        proof {
            reveal_strlit("generic shaders must define vec4 usagi_main(vec2 uv, vec4 color)");
            assert("generic shaders must define vec4 usagi_main(vec2 uv, vec4 color)"@ =~= seq!['g', 'e', 'n', 'e', 'r', 'i', 'c', ' ', 's', 'h', 'a', 'd', 'e', 'r', 's', ' ', 'm', 'u', 's', 't', ' ', 'd', 'e', 'f', 'i', 'n', 'e', ' ', 'v', 'e', 'c', '4', ' ', 'u', 's', 'a', 'g', 'i', '_', 'm', 'a', 'i', 'n', '(', 'v', 'e', 'c', '2', ' ', 'u', 'v', ',', ' ', 'v', 'e', 'c', '4', ' ', 'c', 'o', 'l', 'o', 'r', ')']);
        }
        return Err(string_of(chars_of("generic shaders must define vec4 usagi_main(vec2 uv, vec4 color)").as_slice()));
    }
    let (header, footer) = match profile {
        ShaderProfile::DesktopGlsl330 => {
            proof {
                reveal_strlit("#version 330\n\nin vec2 fragTexCoord;\nin vec4 fragColor;\nuniform sampler2D texture0;\nout vec4 finalColor;\n#define usagi_texture(texture_name, uv) texture(texture_name, uv)\n\n");
                reveal_strlit("\n\nvoid main() {\n    finalColor = usagi_main(fragTexCoord, fragColor);\n}\n");
                assert("#version 330\n\nin vec2 fragTexCoord;\nin vec4 fragColor;\nuniform sampler2D texture0;\nout vec4 finalColor;\n#define usagi_texture(texture_name, uv) texture(texture_name, uv)\n\n"@ =~= shader_header(profile));
                assert("\n\nvoid main() {\n    finalColor = usagi_main(fragTexCoord, fragColor);\n}\n"@ =~= shader_footer(profile));
            }
            ("#version 330\n\nin vec2 fragTexCoord;\nin vec4 fragColor;\nuniform sampler2D texture0;\nout vec4 finalColor;\n#define usagi_texture(texture_name, uv) texture(texture_name, uv)\n\n", "\n\nvoid main() {\n    finalColor = usagi_main(fragTexCoord, fragColor);\n}\n")
        },
        ShaderProfile::WebGlslEs100 => {
            proof {
                reveal_strlit("#version 100\n\nprecision mediump float;\n\nvarying vec2 fragTexCoord;\nvarying vec4 fragColor;\nuniform sampler2D texture0;\n#define usagi_texture(texture_name, uv) texture2D(texture_name, uv)\n\n");
                reveal_strlit("\n\nvoid main() {\n    gl_FragColor = usagi_main(fragTexCoord, fragColor);\n}\n");
                assert("#version 100\n\nprecision mediump float;\n\nvarying vec2 fragTexCoord;\nvarying vec4 fragColor;\nuniform sampler2D texture0;\n#define usagi_texture(texture_name, uv) texture2D(texture_name, uv)\n\n"@ =~= shader_header(profile));
                assert("\n\nvoid main() {\n    gl_FragColor = usagi_main(fragTexCoord, fragColor);\n}\n"@ =~= shader_footer(profile));
            }
            ("#version 100\n\nprecision mediump float;\n\nvarying vec2 fragTexCoord;\nvarying vec4 fragColor;\nuniform sampler2D texture0;\n#define usagi_texture(texture_name, uv) texture2D(texture_name, uv)\n\n", "\n\nvoid main() {\n    gl_FragColor = usagi_main(fragTexCoord, fragColor);\n}\n")
        },
    };
    let b = string_of(body.as_slice());
    Ok(concat3(header, b.as_str(), footer))
}


/// A fragment source of a shader, or why none can be used: the portable
/// `<name>.usagi.fs` when present (generated for `profile`), else the
/// platform's native file, else the other platform's.
pub open spec fn fragment_source_spec(
    name: Seq<char>,
    target: ShaderBuildTarget,
    profile: ShaderProfile,
    generic: Option<Seq<u8>>,
    primary: Option<Seq<u8>>,
    alt: Option<Seq<u8>>,
) -> Result<(Seq<char>, Seq<char>), Seq<char>> {
    let gk = generic_key_spec(name);
    match generic {
        Some(g) => if !vstd::utf8::valid_utf8(g) {
            Err(gk + seq![':', ' ', 's', 'o', 'u', 'r', 'c', 'e', ' ', 'n', 'o', 't', ' ', 'v', 'a', 'l', 'i', 'd', ' ', 'u', 't', 'f', '-', '8', ':', ' '] + utf8_error_text(g))
        } else {
            match generate_spec(vstd::utf8::decode_utf8(g), profile) {
                Ok(s) => Ok((gk, s)),
                Err(e) => Err(gk + seq![':', ' '] + e),
            }
        },
        None => {
            let found = match primary {
                Some(p) => Some((primary_key_spec(target, name, seq!['f', 's']), p)),
                None => match alt {
                    Some(a) => Some((alt_key_spec(target, name, seq!['f', 's']), a)),
                    None => None,
                },
            };
            match found {
                None => Err(seq!['n', 'o', ' ', 's', 'h', 'a', 'd', 'e', 'r', 's', '/'] + name + seq!['.', 'u', 's', 'a', 'g', 'i', '.', 'f', 's', ',', ' ', 's', 'h', 'a', 'd', 'e', 'r', 's', '/'] + name + seq!['.', 'f', 's', ',', ' ', 'o', 'r', ' ', 's', 'h', 'a', 'd', 'e', 'r', 's', '/'] + name + seq!['_', 'e', 's', '.', 'f', 's', ' ', 'f', 'o', 'u', 'n', 'd']),
                Some((k, bytes)) => if !vstd::utf8::valid_utf8(bytes) {
                    Err(k + seq![':', ' ', 'f', 'r', 'a', 'g', 'm', 'e', 'n', 't', ' ', 's', 'o', 'u', 'r', 'c', 'e', ' ', 'n', 'o', 't', ' ', 'v', 'a', 'l', 'i', 'd', ' ', 'u', 't', 'f', '-', '8', ':', ' '] + utf8_error_text(bytes))
                } else {
                    Ok((k, vstd::utf8::decode_utf8(bytes)))
                },
            }
        },
    }
}

/// Optional bytes, as a sequence.
pub open spec fn opt_bytes(o: Option<Vec<u8>>) -> Option<Seq<u8>> {
    match o {
        Some(v) => Some(v@),
        None => None,
    }
}

/// Picks the fragment source of shader `name` from what the files hold:
/// `generic` is `shaders/<name>.usagi.fs`, `primary` and `alt` the
/// native files in the platform's order. Returns the key used and the
/// source text.
pub fn read_fragment_source(
    name: &str,
    target: ShaderBuildTarget,
    generic: Option<Vec<u8>>,
    primary: Option<Vec<u8>>,
    alt: Option<Vec<u8>>,
) -> (r: Result<(String, String), String>)
    ensures
        match r {
            Ok((k, s)) => fragment_source_spec(
                name@,
                target,
                profile_for(target),
                opt_bytes(generic),
                opt_bytes(primary),
                opt_bytes(alt),
            ) == Ok::<(Seq<char>, Seq<char>), Seq<char>>((k@, s@)),
            Err(e) => fragment_source_spec(
                name@,
                target,
                profile_for(target),
                opt_bytes(generic),
                opt_bytes(primary),
                opt_bytes(alt),
            ) == Err::<(Seq<char>, Seq<char>), Seq<char>>(e@),
        },
{
    proof {
        reveal_strlit(": source not valid utf-8: ");
        assert(": source not valid utf-8: "@ =~= seq![':', ' ', 's', 'o', 'u', 'r', 'c', 'e', ' ', 'n', 'o', 't', ' ', 'v', 'a', 'l', 'i', 'd', ' ', 'u', 't', 'f', '-', '8', ':', ' ']);
        reveal_strlit(": ");
        assert(": "@ =~= seq![':', ' ']);
        reveal_strlit("no shaders/");
        assert("no shaders/"@ =~= seq!['n', 'o', ' ', 's', 'h', 'a', 'd', 'e', 'r', 's', '/']);
        reveal_strlit(".usagi.fs, shaders/");
        assert(".usagi.fs, shaders/"@ =~= seq!['.', 'u', 's', 'a', 'g', 'i', '.', 'f', 's', ',', ' ', 's', 'h', 'a', 'd', 'e', 'r', 's', '/']);
        reveal_strlit(".fs, or shaders/");
        assert(".fs, or shaders/"@ =~= seq!['.', 'f', 's', ',', ' ', 'o', 'r', ' ', 's', 'h', 'a', 'd', 'e', 'r', 's', '/']);
        reveal_strlit("_es.fs found");
        assert("_es.fs found"@ =~= seq!['_', 'e', 's', '.', 'f', 's', ' ', 'f', 'o', 'u', 'n', 'd']);
        reveal_strlit(": fragment source not valid utf-8: ");
        assert(": fragment source not valid utf-8: "@ =~= seq![':', ' ', 'f', 'r', 'a', 'g', 'm', 'e', 'n', 't', ' ', 's', 'o', 'u', 'r', 'c', 'e', ' ', 'n', 'o', 't', ' ', 'v', 'a', 'l', 'i', 'd', ' ', 'u', 't', 'f', '-', '8', ':', ' ']);
        reveal_strlit("fs");
        assert("fs"@ =~= seq!['f', 's']);
    }
    let profile = ShaderProfile::for_build_target(target);
    let gk = generic_fragment_key(name);
    match generic {
        Some(g) => {
            return match utf8_string(g.as_slice()) {
                Err(e) => Err(concat3(gk.as_str(), ": source not valid utf-8: ", e.as_str())),
                Ok(src) => match generate_generic_fragment(src.as_str(), profile) {
                    Ok(s) => Ok((gk, s)),
                    Err(e) => Err(concat3(gk.as_str(), ": ", e.as_str())),
                },
            };
        },
        None => {},
    }
    let found = match primary {
        Some(p) => Some((primary_key_for_target(target, name, "fs"), p)),
        None => match alt {
            Some(a) => Some((alt_key_for_target(target, name, "fs"), a)),
            None => None,
        },
    };
    match found {
        None => {
            let mut v = chars_of("no shaders/");
            push_all(&mut v, chars_of(name).as_slice());
            push_all(&mut v, chars_of(".usagi.fs, shaders/").as_slice());
            push_all(&mut v, chars_of(name).as_slice());
            push_all(&mut v, chars_of(".fs, or shaders/").as_slice());
            push_all(&mut v, chars_of(name).as_slice());
            push_all(&mut v, chars_of("_es.fs found").as_slice());
            Err(string_of(v.as_slice()))
        },
        Some((k, bytes)) => match utf8_string(bytes.as_slice()) {
            Err(e) => Err(concat3(k.as_str(), ": fragment source not valid utf-8: ", e.as_str())),
            Ok(s) => Ok((k, s)),
        },
    }
}

/// The shader requests the Lua side queues during a frame and the
/// shader bound for the blit. `S` is the loaded shader, `V` a uniform
/// value; the session drains the requests once per frame on the render
/// thread, where shaders can be created.
pub struct ShaderManager<S, V> {
    /// Outer `Some`: a request is pending. Inner `Some(name)`: activate
    /// that shader; inner `None`: clear.
    pub pending_shader: Option<Option<String>>,
    pub pending_uniforms: Vec<(String, V)>,
    pub active: Option<S>,
}

impl<S, V> ShaderManager<S, V> {
    /// No shader bound and nothing queued.
    pub fn new() -> (r: Self)
        ensures
            r.pending_shader is None,
            r.pending_uniforms@.len() == 0,
            r.active is None,
    {
        ShaderManager { pending_shader: None, pending_uniforms: Vec::new(), active: None }
    }

    /// `gfx.shader_set`: the latest request of the frame wins.
    pub fn request_set(&mut self, name: Option<String>)
        ensures
            final(self).pending_shader == Some(name),
            final(self).pending_uniforms == old(self).pending_uniforms,
            final(self).active == old(self).active,
    {
        self.pending_shader = Some(name);
    }

    /// `gfx.shader_uniform`: queues a write, in call order.
    pub fn queue_uniform(&mut self, name: String, value: V)
        ensures
            final(self).pending_uniforms@ == old(self).pending_uniforms@.push((name, value)),
            final(self).pending_shader == old(self).pending_shader,
            final(self).active == old(self).active,
    {
        self.pending_uniforms.push((name, value));
    }

    /// First step of a frame's drain: hands out the pending shader
    /// request, if any. A request to clear drops the bound shader here;
    /// a request to activate is the caller's to load (`bind`).
    pub fn take_request(&mut self) -> (r: Option<Option<String>>)
        ensures
            r == old(self).pending_shader,
            final(self).pending_shader is None,
            final(self).pending_uniforms == old(self).pending_uniforms,
            final(self).active == (if old(self).pending_shader == Some(None::<String>) {
                None
            } else {
                old(self).active
            }),
    {
        let r = self.pending_shader.take();
        match &r {
            Some(None) => {
                self.active = None;
            },
            _ => {},
        }
        r
    }

    /// Binds a freshly loaded shader, or unbinds when loading failed.
    pub fn bind(&mut self, shader: Option<S>)
        ensures
            final(self).active == shader,
            final(self).pending_shader == old(self).pending_shader,
            final(self).pending_uniforms == old(self).pending_uniforms,
    {
        self.active = shader;
    }

    /// Second step of a frame's drain: the queued uniform writes, in
    /// order, for the bound shader. With no shader bound they are
    /// dropped instead, so they don't leak into a later shader. Either
    /// way the queue is empty afterwards.
    pub fn take_uniforms(&mut self) -> (r: Vec<(String, V)>)
        ensures
            final(self).pending_uniforms@.len() == 0,
            final(self).pending_shader == old(self).pending_shader,
            final(self).active == old(self).active,
            old(self).active is Some ==> r@ == old(self).pending_uniforms@,
            old(self).active is None ==> r@.len() == 0,
    {
        let mut q: Vec<(String, V)> = Vec::new();
        std::mem::swap(&mut q, &mut self.pending_uniforms);
        if self.active.is_some() {
            q
        } else {
            Vec::new()
        }
    }
}

} // verus!
