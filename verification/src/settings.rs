//! Per-game settings file location. Settings live as `settings.json`
//! next to `save.json` in the per-game data directory.

use crate::paths::{joined_path, path_join};
use vstd::prelude::*;

verus! {

/// File name of the settings blob inside the per-game data directory.
pub open spec fn settings_file() -> Seq<char> {
    "settings.json"@
}

/// Path of `settings.json` inside the per-game data directory `save_dir`.
pub fn settings_path(save_dir: &str) -> (r: String)
    ensures
        r@ == joined_path(save_dir@, settings_file()),
{
    path_join(save_dir, "settings.json")
}

} // verus!
