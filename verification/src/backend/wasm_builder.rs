//! Optimization levels of the native-code backend.
//!
//! The backend itself compiles WAT through an embedded WebAssembly compiler
//! and lives with the host runner; only the level selection, which decides
//! what the verified text optimizer does, belongs to the library.

use vstd::prelude::*;

use crate::codegen::optimizer::OptLevel as WatOptLevel;

verus! {

/// How hard the backend works on the module.
#[derive(Debug, Clone, Copy, PartialEq, Eq, Structural)]
pub enum OptLevel {
    /// No optimizations: fastest compilation.
    Off,
    /// Balanced optimizations.
    Speed,
    /// Maximum optimizations.
    SpeedAndSize,
}

impl OptLevel {
    /// The text-optimizer level this backend level selects.
    pub fn to_wat_opt_level(self) -> (r: WatOptLevel)
        ensures
            r == (match self {
                OptLevel::Off => WatOptLevel::Off,
                OptLevel::Speed => WatOptLevel::Moderate,
                OptLevel::SpeedAndSize => WatOptLevel::Aggressive,
            }),
    {
        match self {
            OptLevel::Off => WatOptLevel::Off,
            OptLevel::Speed => WatOptLevel::Moderate,
            OptLevel::SpeedAndSize => WatOptLevel::Aggressive,
        }
    }
}

} // verus!
