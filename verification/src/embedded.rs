//! The pages that are bundled with the engine.

use vstd::prelude::*;

verus! {

/// Stands for the bundled pages.
#[derive(Debug, Clone, Copy, PartialEq, Eq, Structural)]
pub struct DistAssets;

impl Default for DistAssets {
    fn default() -> (r: Self)
        ensures
            r == DistAssets,
    {
        DistAssets
    }
}

/// The bundled pages.
pub fn dist() -> (r: DistAssets)
    ensures
        r == DistAssets,
{
    DistAssets
}

} // verus!
