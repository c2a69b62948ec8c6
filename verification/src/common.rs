//! Small helpers shared by the command lookups.

use vstd::prelude::*;

verus! {

/// Whether a file with the permission bits `mode` may be executed by
/// someone: one of the three execute bits is set.
pub fn mode_is_executable(mode: u32) -> (r: bool)
    ensures
        r == (mode & 0o111u32 != 0u32),
{
    (mode & 0o111) != 0
}

} // verus!
