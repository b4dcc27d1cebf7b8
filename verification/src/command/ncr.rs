//! The `ncr` command.
use vstd::prelude::*;

verus! {

/// Points to the chat encryption mod and the settings the bot reads best.
pub struct Command;

impl Command {
    /// The reply.
    pub fn message(&self) -> (r: String)
        ensures
            r@ == "Please use https://github.com/HKS-HNS/No-Chat-Reports with the 'AAA===' passphrase and 'AES/CFB8+MC256' algorithm for optimal space savings"@,
    {
        "Please use https://github.com/HKS-HNS/No-Chat-Reports with the 'AAA===' passphrase and 'AES/CFB8+MC256' algorithm for optimal space savings".to_owned()
    }
}

} // verus!
