//! The `help` command.
use vstd::prelude::*;
use crate::commands::texts;
use crate::text::{chars_of, join, join_with, push_all, string_of, views};

verus! {

/// Lists the commands.
pub struct Command;

/// The names of each command joined by `/`.
pub open spec fn command_names(names: Seq<Seq<Seq<char>>>) -> Seq<Seq<char>> {
    names.map_values(|n: Seq<Seq<char>>| join_with(n, "/"@))
}

fn joined(parts: &Vec<String>, sep: &str) -> (r: Vec<char>)
    ensures
        r@ == join_with(texts(parts@), sep@),
{
    let mut v: Vec<Vec<char>> = Vec::new();
    let mut i: usize = 0;
    while i < parts.len()
        invariant
            i <= parts.len(),
            views(v@) == texts(parts@).take(i as int),
        decreases parts.len() - i,
    {
        let ghost before = v@;
        let a = chars_of(parts[i].as_str());
        v.push(a);
        assert(views(v@) =~= views(before).push(a@));
        assert(texts(parts@).take(i + 1) =~= texts(parts@).take(i as int).push(parts@[i as int]@));
        i = i + 1;
    }
    assert(texts(parts@).take(parts.len() as int) =~= texts(parts@));
    join(&v, &chars_of(sep))
}

impl Command {
    /// The reply: `Commands: ` and, for each command in the order given, its names joined by
    /// `/`, the commands joined by `, `.
    pub fn message(&self, commands: &Vec<Vec<String>>) -> (r: String)
        ensures
            r@ == "Commands: "@ + join_with(
                command_names(commands@.map_values(|c: Vec<String>| texts(c@))),
                ", "@,
            ),
    {
        let ghost names = commands@.map_values(|c: Vec<String>| texts(c@));
        let mut v: Vec<Vec<char>> = Vec::new();
        let mut i: usize = 0;
        while i < commands.len()
            invariant
                i <= commands.len(),
                names == commands@.map_values(|c: Vec<String>| texts(c@)),
                views(v@) == command_names(names).take(i as int),
            decreases commands.len() - i,
        {
            let ghost before = v@;
            let a = joined(&commands[i], "/");
            v.push(a);
            assert(views(v@) =~= views(before).push(a@));
            assert(command_names(names).take(i + 1) =~= command_names(names).take(i as int).push(command_names(names)[i as int]));
            i = i + 1;
        }
        assert(command_names(names).take(commands.len() as int) =~= command_names(names));
        let mut out = chars_of("Commands: ");
        push_all(&mut out, &join(&v, &chars_of(", ")));
        string_of(&out)
    }
}

} // verus!
