//! The single-bot client: commands read from chat and answered by whisper, the pearl and
//! playtime commands, and leaving when the proxy says so.
use vstd::prelude::*;

pub mod auto_exit;
pub mod commands;

verus! {

} // verus!
