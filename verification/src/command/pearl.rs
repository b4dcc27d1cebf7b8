//! The `pearl` command of the first command set.
use vstd::prelude::*;
use crate::chambers::BlockPos;
use crate::command::{bare_name, strip_prefixes};
use crate::settings::Coordinates;
use crate::text::chars_of;

verus! {

/// Pulls the owner's pearl at the configured chamber.
pub struct Command;

/// The one player the bot pulls for.
pub open spec fn owner_name() -> Seq<char> {
    "ShayBox"@
}

impl Command {
    /// The reply and, for the owner, the chamber block the bot then uses; nothing when the
    /// chat line shows no sender.
    pub fn message(&self, username: &Option<String>, pearl: &Coordinates) -> (r: Option<(String, Option<BlockPos>)>)
        ensures
            match username {
                None => r is None,
                Some(u) => r matches Some((m, b)) && if bare_name(u@) == owner_name() {
                    m@ == "Teleporting..."@ && b == Some(BlockPos { x: pearl.x, y: pearl.y, z: pearl.z })
                } else {
                    m@ == "You do not have permission to use this command."@ && b is None
                },
            },
    {
        match username {
            None => None,
            Some(u) => {
                let name = strip_prefixes(u.as_str());
                if crate::text::eq_chars(&name, &chars_of("ShayBox")) {
                    Some(("Teleporting...".to_owned(), Some(BlockPos { x: pearl.x, y: pearl.y, z: pearl.z })))
                } else {
                    Some(("You do not have permission to use this command.".to_owned(), None))
                }
            },
        }
    }
}

} // verus!
