//! Crate-wide error type. `Cli` covers non-Lua command-line failures
//! (bad path, missing file, conflicting flags); `Lua` carries the text
//! of a Lua-side error (syntax, runtime, binding setup) reported by the
//! scripting host.

use vstd::prelude::*;

verus! {

#[derive(Debug)]
pub enum Error {
    /// CLI-level problem (e.g. script path doesn't resolve). Usually
    /// reported once in main and exits non-zero.
    Cli(String),
    /// Any Lua-side error, by its message.
    Lua(String),
}

impl Error {
    /// The message text of the error (what `Display` prints).
    pub fn message(&self) -> (r: &str)
        ensures
            r@ == match self {
                Error::Cli(m) => m@,
                Error::Lua(m) => m@,
            },
    {
        match self {
            Error::Cli(m) => m.as_str(),
            Error::Lua(m) => m.as_str(),
        }
    }
}

/// Error text for a result that carries a string message.
pub open spec fn cli_message(e: Error) -> Seq<char> {
    match e {
        Error::Cli(m) => m@,
        Error::Lua(m) => m@,
    }
}

} // verus!
