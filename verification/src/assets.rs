//! Which files of a game's `sfx/` directory are sound effects.

use crate::paths::{extension_of, file_stem_of, path_extension, path_file_stem};
use crate::text::{chars_eq, chars_of};
use vstd::prelude::*;

verus! {

/// The sound name a file in `sfx/` is loaded under: the stem of a
/// `.wav` file; other files are not sounds.
pub open spec fn sfx_name_spec(path: Seq<char>) -> Option<Seq<char>> {
    if extension_of(path) == Some("wav"@) {
        file_stem_of(path)
    } else {
        None
    }
}

/// The sound name of a file in `sfx/`, if it is a sound.
pub fn sfx_name(path: &str) -> (r: Option<String>)
    ensures
        match r {
            Some(s) => sfx_name_spec(path@) == Some(s@),
            None => sfx_name_spec(path@) is None,
        },
{
    let wav = chars_of("wav");
    let is_wav = match path_extension(path) {
        Some(e) => chars_eq(chars_of(e.as_str()).as_slice(), wav.as_slice()),
        None => false,
    };
    if is_wav {
        path_file_stem(path)
    } else {
        None
    }
}

} // verus!
