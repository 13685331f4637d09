//! Board identification.
use vstd::prelude::*;

verus! {

/// Board identification.
pub fn board_name() -> (r: &'static str)
    ensures
        r@ == "Raspberry Pi 4"@,
{
    "Raspberry Pi 4"
}

/// Version string: the package name and version.
pub fn version() -> (r: &'static str)
    ensures
        r@ == "kernel version 0.1.0"@,
{
    "kernel version 0.1.0"
}

} // verus!
