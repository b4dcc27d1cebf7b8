//! Looking at the nearest player now and then.
use vstd::prelude::*;
use crate::modules::ticks::{due, is_due};

verus! {

/// The auto-look module.
pub struct AutoLookPlugin;

impl AutoLookPlugin {
    /// Whether the bot looks at the nearest player at this tick: when enabled and due.
    pub fn handle_auto_look(enabled: bool, ticks: u128, delay_ticks: u128) -> (r: bool)
        requires
            enabled ==> delay_ticks > 0,
        ensures
            r == (enabled && due(ticks, delay_ticks)),
    {
        is_due(enabled, ticks, delay_ticks)
    }
}

} // verus!
