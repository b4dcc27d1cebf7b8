//! The `hello` command.
use vstd::prelude::*;
use crate::command::{bare_name, strip_prefixes};
use crate::text::{chars_of, push_all, string_of};

verus! {

/// Greets the sender.
pub struct Command;

impl Command {
    /// The reply: `Hello, ` and the sender's name without rank prefixes; none when the chat
    /// line shows no sender.
    pub fn message(&self, username: &Option<String>) -> (r: Option<String>)
        ensures
            match username {
                Some(u) => r matches Some(m) && m@ == "Hello, "@ + bare_name(u@),
                None => r is None,
            },
    {
        match username {
            None => None,
            Some(u) => {
                let mut v = chars_of("Hello, ");
                push_all(&mut v, &strip_prefixes(u.as_str()));
                Some(string_of(&v))
            },
        }
    }
}

} // verus!
