//! Start at login: what toggling it does. Reading and writing the `Run`
//! registry value is the caller's.
use vstd::prelude::*;

verus! {

/// The change that a toggle makes.
#[derive(Debug, Clone, Copy, PartialEq, Eq, Structural)]
pub enum AutostartChange {
    Enable,
    Disable,
}

/// Toggling turns start at login off when it is on, and on when it is off;
/// the caller then reads the setting back and reports it.
pub fn toggle(enabled: bool) -> (r: AutostartChange)
    ensures
        enabled ==> r == AutostartChange::Disable,
        !enabled ==> r == AutostartChange::Enable,
{
    if enabled {
        AutostartChange::Disable
    } else {
        AutostartChange::Enable
    }
}

} // verus!
