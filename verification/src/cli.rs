//! Command-line argument resolution.

use crate::paths::{
    joined_path, path_exists, path_is_dir, path_is_file, path_join, path_with_extension,
    path_with_extension_of,
};
use crate::text::concat3;
use vstd::prelude::*;

verus! {

/// What the disk reported for the candidates `resolve_script_path`
/// considers. Fields the resolution never reaches are not consulted.
pub struct ScriptProbe {
    /// The argument names a directory.
    pub is_dir: bool,
    /// `<arg>/main.lua` exists.
    pub main_exists: bool,
    /// The argument names a regular file.
    pub is_file: bool,
    /// `<arg>` with its extension replaced by `lua` names a regular file.
    pub with_lua_is_file: bool,
}

pub open spec fn no_main_message(arg: Seq<char>) -> Seq<char> {
    "no main.lua found in directory '"@ + arg
        + "'. Create a main.lua there, or pass a .lua file directly."@
}

pub open spec fn not_found_message(arg: Seq<char>) -> Seq<char> {
    "script not found: '"@ + arg
        + "'. Pass a .lua file, a directory with main.lua, or a name with a sibling .lua."@
}

/// The resolution rule: a directory resolves to its `main.lua` (or errors
/// when there is none); otherwise an existing file resolves to itself;
/// otherwise a sibling `.lua` file; otherwise "not found".
pub open spec fn script_choice(arg: Seq<char>, p: ScriptProbe) -> Result<Seq<char>, Seq<char>> {
    if p.is_dir {
        if p.main_exists {
            Ok(joined_path(arg, "main.lua"@))
        } else {
            Err(no_main_message(arg))
        }
    } else if p.is_file {
        Ok(arg)
    } else if p.with_lua_is_file {
        Ok(path_with_extension_of(arg, "lua"@))
    } else {
        Err(not_found_message(arg))
    }
}

pub open spec fn result_view(r: Result<String, String>) -> Result<Seq<char>, Seq<char>> {
    match r {
        Ok(s) => Ok(s@),
        Err(e) => Err(e@),
    }
}

proof fn lemma_lua_has_no_separator()
    ensures
        !"lua"@.contains('/'),
        !"lua"@.contains('\\'),
{
    reveal_strlit("lua");
    assert("lua"@ =~= seq!['l', 'u', 'a']);
    assert(!seq!['l', 'u', 'a'].contains('/'));
    assert(!seq!['l', 'u', 'a'].contains('\\'));
}

/// Applies the resolution rule to the probe results for `arg`.
pub fn resolve_with_probe(arg: &str, p: &ScriptProbe) -> (r: Result<String, String>)
    ensures
        result_view(r) == script_choice(arg@, *p),
{
    if p.is_dir {
        if p.main_exists {
            return Ok(path_join(arg, "main.lua"));
        }
        return Err(
            concat3(
                "no main.lua found in directory '",
                arg,
                "'. Create a main.lua there, or pass a .lua file directly.",
            ),
        );
    }
    if p.is_file {
        return Ok(arg.to_owned());
    }
    if p.with_lua_is_file {
        proof {
            lemma_lua_has_no_separator();
        }
        return Ok(path_with_extension(arg, "lua"));
    }
    Err(
        concat3(
            "script not found: '",
            arg,
            "'. Pass a .lua file, a directory with main.lua, or a name with a sibling .lua.",
        ),
    )
}

/// Resolves the CLI arg to a concrete script file. Accepts any of:
///   - path to a `.lua` file
///   - path to a directory containing `main.lua`
///   - path without extension that has a sibling `.lua` file
///
/// Errors with a helpful message if none match. The disk is probed
/// lazily in that order; whatever it reports, the result follows
/// `script_choice` for some probe outcome.
pub fn resolve_script_path(arg: &str) -> (r: Result<String, String>)
    ensures
        exists|p: ScriptProbe| result_view(r) == script_choice(arg@, p),
{
    let is_dir = path_is_dir(arg);
    let mut probe = ScriptProbe { is_dir, main_exists: false, is_file: false, with_lua_is_file: false };
    if is_dir {
        let main = path_join(arg, "main.lua");
        probe.main_exists = path_exists(main.as_str());
    } else {
        probe.is_file = path_is_file(arg);
        if !probe.is_file {
            proof {
                lemma_lua_has_no_separator();
            }
            let with_lua = path_with_extension(arg, "lua");
            probe.with_lua_is_file = path_is_file(with_lua.as_str());
        }
    }
    let r = resolve_with_probe(arg, &probe);
    proof {
        assert(result_view(r) == script_choice(arg@, probe));
    }
    r
}

} // verus!
