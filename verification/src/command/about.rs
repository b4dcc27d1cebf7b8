//! The `about` command.
use vstd::prelude::*;

verus! {

/// Says what the bot is.
pub struct Command;

impl Command {
    /// The reply.
    pub fn message(&self) -> (r: String)
        ensures
            r@ == "I'm ShayBox's bot written in Rust using Azalea"@,
    {
        "I'm ShayBox's bot written in Rust using Azalea".to_owned()
    }
}

} // verus!
