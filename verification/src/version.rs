//! The library's version string.

use vstd::prelude::*;

verus! {

/// The crate version, as the command line reports it.
pub fn get() -> (v: &'static str)
    ensures
        v@ == "0.1.0"@,
{
    "0.1.0"
}

} // verus!
