//! Leaving for good when the proxy disconnects the bot on purpose.
use vstd::prelude::*;

verus! {

/// Exits the program when the proxy disconnects the bot on purpose.
pub struct AutoExitPlugin;

/// Whether a disconnect means the bot must stay away: its reason is exactly `AutoDisconnect`.
pub fn handle_disconnect_event(reason: &Option<String>) -> (exit: bool)
    ensures
        exit == (reason matches Some(r) && r@ == "AutoDisconnect"@),
{
    match reason {
        Some(r) => *r == "AutoDisconnect".to_owned(),
        None => false,
    }
}

} // verus!
