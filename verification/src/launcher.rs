//! What the launcher window accepts when a project is dropped on it: a
//! `.lua` file, or a folder that holds `main.lua`.

use crate::cli::result_view;
use crate::paths::{
    extension_of, path_canonicalize, path_extension, path_is_dir, path_is_file,
    path_join,
};
use crate::text::{chars_eq, chars_of};
use vstd::prelude::*;

verus! {

/// What the disk reported about a dropped path.
pub struct DropProbe {
    /// The path names a directory.
    pub is_dir: bool,
    /// `<path>/main.lua` is a regular file.
    pub main_is_file: bool,
}

pub open spec fn no_main_in_folder_message() -> Seq<char> {
    "That folder has no main.lua"@
}

pub open spec fn unsupported_drop_message() -> Seq<char> {
    "Drop a .lua file or a folder with main.lua"@
}

/// The launcher's rule for the (absolute) dropped path `path`: a folder
/// runs when it has `main.lua`; a file runs when its extension is `lua`.
pub open spec fn drop_choice(path: Seq<char>, p: DropProbe) -> Result<Seq<char>, Seq<char>> {
    if p.is_dir {
        if p.main_is_file {
            Ok(path)
        } else {
            Err(no_main_in_folder_message())
        }
    } else if extension_of(path) == Some("lua"@) {
        Ok(path)
    } else {
        Err(unsupported_drop_message())
    }
}

/// Applies the launcher's rule to `path` with what the disk reported.
pub fn resolve_drop_with_probe(path: &str, p: &DropProbe) -> (r: Result<String, String>)
    ensures
        result_view(r) == drop_choice(path@, *p),
{
    if p.is_dir {
        if p.main_is_file {
            return Ok(path.to_owned());
        }
        return Err("That folder has no main.lua".to_owned());
    }
    let lua = chars_of("lua");
    let is_lua = match path_extension(path) {
        Some(e) => chars_eq(chars_of(e.as_str()).as_slice(), lua.as_slice()),
        None => false,
    };
    if is_lua {
        Ok(path.to_owned())
    } else {
        Err("Drop a .lua file or a folder with main.lua".to_owned())
    }
}

/// Resolves a dropped path to something `usagi dev` can run, made
/// absolute (when the disk allows) so the re-executed process doesn't
/// depend on the launcher's working directory. The rule is applied to
/// that path with whatever the disk reports about it.
pub fn resolve_project(dropped: &str) -> (r: Result<String, String>)
    ensures
        exists|path: Seq<char>, p: DropProbe| result_view(r) == drop_choice(path, p),
{
    let path = match path_canonicalize(dropped) {
        Some(c) => c,
        None => dropped.to_owned(),
    };
    let is_dir = path_is_dir(path.as_str());
    let mut probe = DropProbe { is_dir, main_is_file: false };
    if is_dir {
        let main = path_join(path.as_str(), "main.lua");
        probe.main_is_file = path_is_file(main.as_str());
    }
    resolve_drop_with_probe(path.as_str(), &probe)
}

/// The launcher window's state: the project to start once the window
/// closes, and the message shown for the last rejected drop.
pub struct Launcher {
    pub launch: Option<String>,
    pub error: Option<String>,
}

impl Launcher {
    /// Nothing dropped yet.
    pub fn new() -> (r: Self)
        ensures
            r.launch is None,
            r.error is None,
    {
        Launcher { launch: None, error: None }
    }

    /// Handles a drop of `dropped` onto the window: the first path is
    /// resolved; a runnable project is remembered for launch, anything
    /// else replaces the shown message. An empty drop changes nothing.
    pub fn on_drop(&mut self, dropped: &Vec<String>)
        ensures
            dropped.len() == 0 ==> final(self).launch == old(self).launch && final(self).error
                == old(self).error,
            dropped.len() > 0 ==> exists|path: Seq<char>, p: DropProbe|
                match #[trigger] drop_choice(path, p) {
                    Ok(s) => final(self).launch matches Some(l) && l@ == s && final(self).error
                        == old(self).error,
                    Err(m) => final(self).error matches Some(e) && e@ == m && final(self).launch
                        == old(self).launch,
                },
    {
        if dropped.len() == 0 {
            return;
        }
        let r = resolve_project(dropped[0].as_str());
        match r {
            Ok(project) => self.launch = Some(project),
            Err(msg) => self.error = Some(msg),
        }
    }

    /// The window closes once a project has been accepted.
    pub fn done(&self) -> (r: bool)
        ensures
            r == self.launch is Some,
    {
        self.launch.is_some()
    }
}

} // verus!
