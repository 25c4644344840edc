//! Version and build metadata.

use vstd::prelude::*;

verus! {

/// The package version.
pub fn get_version() -> (s: &'static str)
    ensures
        s@ == "0.1.0"@,
{
    "0.1.0"
}

/// The commit hash recorded at build time; this build records none.
pub fn get_commit() -> (s: &'static str)
    ensures
        s@ == "unknown"@,
{
    "unknown"
}

} // verus!
