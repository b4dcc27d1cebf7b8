//! Running a module every so many game ticks.
use vstd::prelude::*;

verus! {

/// Whether a module that runs every `delay` ticks runs at tick `ticks`.
pub open spec fn due(ticks: u128, delay: u128) -> bool {
    ticks % delay == 0
}

/// Whether an enabled module that runs every `delay` ticks runs at tick `ticks`.
pub fn is_due(enabled: bool, ticks: u128, delay: u128) -> (r: bool)
    requires
        enabled ==> delay > 0,
    ensures
        r == (enabled && due(ticks, delay)),
{
    enabled && ticks % delay == 0
}

} // verus!
