//! Amplitude envelope shapes for synthesized voices. The shape selector
//! mirrors the Lua-side integer constants (`AHD=0`, `ADSR=1`,
//! `DRUM=2`), matching the engine's enum idiom.
//!
//! - **AHD**: Attack, Hold, Decay to zero; runs to completion on its own.
//! - **ADSR**: Attack, Decay to a Sustain level, hold while gated, Release.
//! - **DRUM**: near-instant attack, then a curved decay to zero.

use vstd::prelude::*;

verus! {

#[derive(Debug, Clone, Copy, PartialEq, Eq, Structural)]
pub enum ModShape {
    Ahd,
    Adsr,
    Drum,
}

impl ModShape {
    /// Maps the Lua-side integer constant to a variant. Out-of-range
    /// values fall back to `Ahd` (a safe self-terminating default),
    /// matching the engine's forgiving "unknown value no-ops" stance.
    pub fn from_i32(v: i32) -> (r: Self)
        ensures
            r == (if v == 1 {
                ModShape::Adsr
            } else if v == 2 {
                ModShape::Drum
            } else {
                ModShape::Ahd
            }),
    {
        match v {
            1 => ModShape::Adsr,
            2 => ModShape::Drum,
            _ => ModShape::Ahd,
        }
    }
}

} // verus!
