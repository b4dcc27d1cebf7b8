//! The `seed` command.
use vstd::prelude::*;

verus! {

/// Tells the world seed.
pub struct Command;

impl Command {
    /// The reply.
    pub fn message(&self) -> (r: String)
        ensures
            r@ == "The seed is LiveOverflow61374546 or 64149200"@,
    {
        "The seed is LiveOverflow61374546 or 64149200".to_owned()
    }
}

} // verus!
