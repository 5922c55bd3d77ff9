//! The moment that probes and state changes are stamped with.

use vstd::prelude::*;

#[allow(unused_imports)]
use crate::clock;

verus! {

/// The present moment in Unix epoch ms.
pub fn now_ms() -> (r: i64)
    ensures
        0 <= r <= clock::LAST_MS,
{
    clock::now_ms()
}

} // verus!
