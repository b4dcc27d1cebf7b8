//! The `echo` command.
use vstd::prelude::*;
use crate::commands::texts;
use crate::text::{chars_of, join, join_with, string_of, views};

verus! {

/// Says the arguments back.
pub struct Command;

impl Command {
    /// The reply: the arguments joined by spaces.
    pub fn message(&self, args: &Vec<String>) -> (r: String)
        ensures
            r@ == join_with(texts(args@), " "@),
    {
        let mut parts: Vec<Vec<char>> = Vec::new();
        let mut i: usize = 0;
        while i < args.len()
            invariant
                i <= args.len(),
                views(parts@) == texts(args@).take(i as int),
            decreases args.len() - i,
        {
            let ghost before = parts@;
            let a = chars_of(args[i].as_str());
            parts.push(a);
            assert(views(parts@) =~= views(before).push(a@));
            assert(texts(args@).take(i + 1) =~= texts(args@).take(i as int).push(args@[i as int]@));
            i = i + 1;
        }
        assert(texts(args@).take(args.len() as int) =~= texts(args@));
        string_of(&join(&parts, &chars_of(" ")))
    }
}

} // verus!
