//! The bot's commands, how a chat message names one, and the plugin group that runs them.
use vstd::prelude::*;
use crate::text::{chars_of, eq_chars, remove_all, remove_matches, split, split_on, string_of, views};

pub mod handlers;
pub mod interact;
pub mod join;
pub mod leave;
pub mod pearl;
pub mod ping;
pub mod playtime;
pub mod seen;
pub mod whitelist;

verus! {

/// The commands.
#[derive(Clone, Copy, PartialEq, Eq, Structural, Debug)]
pub enum Cmds {
    Interact,
    Join,
    Leave,
    Pearl,
    Playtime,
    Seen,
    Whitelist,
}

/// The commands in the order a name is looked up in.
pub open spec fn all_cmds() -> Seq<Cmds> {
    seq![Cmds::Interact, Cmds::Join, Cmds::Leave, Cmds::Pearl, Cmds::Playtime, Cmds::Seen, Cmds::Whitelist]
}

/// The names each command answers to.
pub open spec fn cmd_aliases(c: Cmds) -> Seq<Seq<char>> {
    match c {
        Cmds::Interact => seq!["interact"@],
        Cmds::Join => seq!["connect"@, "join"@, "c"@],
        Cmds::Leave => seq!["leave"@, "disconnect"@, "dc"@],
        Cmds::Pearl => seq!["pearl"@, "tp"@, "teleport"@, "warp"@, "home"@],
        Cmds::Playtime => seq!["playtime"@],
        Cmds::Seen => seq!["seen"@],
        Cmds::Whitelist => seq!["whitelist"@],
    }
}

/// The first command, in lookup order, that answers to a name.
pub open spec fn find_in_cmds(cs: Seq<Cmds>, name: Seq<char>) -> Option<Cmds>
    decreases cs.len(),
{
    if cs.len() == 0 {
        None
    } else if cmd_aliases(cs[0]).contains(name) {
        Some(cs[0])
    } else {
        find_in_cmds(cs.skip(1), name)
    }
}

/// The command that answers to a name.
pub open spec fn find_cmd(name: Seq<char>) -> Option<Cmds> {
    find_in_cmds(all_cmds(), name)
}

fn alias_strs(c: Cmds) -> (r: Vec<&'static str>)
    ensures
        r@.map_values(|s: &str| s@) == cmd_aliases(c),
{
    let r = match c {
        Cmds::Interact => vec!["interact"],
        Cmds::Join => vec!["connect", "join", "c"],
        Cmds::Leave => vec!["leave", "disconnect", "dc"],
        Cmds::Pearl => vec!["pearl", "tp", "teleport", "warp", "home"],
        Cmds::Playtime => vec!["playtime"],
        Cmds::Seen => vec!["seen"],
        Cmds::Whitelist => vec!["whitelist"],
    };
    assert(r@.map_values(|s: &str| s@) =~= cmd_aliases(c));
    r
}

fn answers_to(c: Cmds, name: &Vec<char>) -> (b: bool)
    ensures
        b == cmd_aliases(c).contains(name@),
{
    let names = alias_strs(c);
    let mut i: usize = 0;
    while i < names.len()
        invariant
            i <= names.len(),
            names@.map_values(|s: &str| s@) == cmd_aliases(c),
            forall|j: int| 0 <= j < i ==> cmd_aliases(c)[j] != name@,
        decreases names.len() - i,
    {
        let a = chars_of(names[i]);
        assert(cmd_aliases(c)[i as int] == names@[i as int]@);
        if eq_chars(&a, name) {
            return true;
        }
        i = i + 1;
    }
    false
}

impl Cmds {
    /// The names this command answers to.
    pub fn aliases(&self) -> (r: Vec<String>)
        ensures
            r@.map_values(|s: String| s@) == cmd_aliases(*self),
    {
        let strs = alias_strs(*self);
        let mut r: Vec<String> = Vec::new();
        let mut i: usize = 0;
        while i < strs.len()
            invariant
                i <= strs.len(),
                strs@.map_values(|s: &str| s@) == cmd_aliases(*self),
                r@.map_values(|s: String| s@) == cmd_aliases(*self).take(i as int),
            decreases strs.len() - i,
        {
            let a = strs[i].to_string();
            assert(a@ == cmd_aliases(*self)[i as int]);
            let ghost before = r@;
            r.push(a);
            assert(r@.map_values(|s: String| s@) =~= before.map_values(|s: String| s@).push(a@));
            assert(cmd_aliases(*self).take(i + 1) =~= cmd_aliases(*self).take(i as int).push(a@));
            i = i + 1;
        }
        assert(cmd_aliases(*self).take(i as int) =~= cmd_aliases(*self));
        r
    }

    /// The command that answers to a name, looking through the commands in order.
    pub fn find(name: &str) -> (r: Option<Cmds>)
        ensures
            r == find_cmd(name@),
    {
        let n = chars_of(name);
        let cs = [Cmds::Interact, Cmds::Join, Cmds::Leave, Cmds::Pearl, Cmds::Playtime, Cmds::Seen, Cmds::Whitelist];
        assert(cs@ =~= all_cmds());
        let mut i: usize = 0;
        assert(all_cmds().skip(0) =~= all_cmds());
        while i < 7
            invariant
                i <= 7,
                cs@ == all_cmds(),
                n@ == name@,
                find_in_cmds(all_cmds().skip(i as int), n@) == find_cmd(n@),
            decreases 7 - i,
        {
            assert(all_cmds().skip(i as int)[0] == cs@[i as int]);
            assert(all_cmds().skip(i as int).skip(1) =~= all_cmds().skip(i + 1));
            let c = cs[i];
            assert(c == all_cmds()[i as int]);
            if answers_to(c, &n) {
                assert(find_in_cmds(all_cmds().skip(i as int), n@) == Some(c));
                return Some(c);
            }
            i = i + 1;
        }
        None
    }
}

/// A command named in a message: the first word, with every occurrence of the prefix taken
/// out, names the command, and the other words are its arguments.
pub open spec fn parse_command_spec(content: Seq<char>, prefix: Seq<char>) -> Option<(Cmds, Seq<Seq<char>>)> {
    let words = split_on(content, ' ');
    match find_cmd(remove_all(words[0], prefix)) {
        Some(c) => Some((c, words.skip(1))),
        None => None,
    }
}

/// The texts of a list of strings.
pub open spec fn texts(v: Seq<String>) -> Seq<Seq<char>> {
    v.map_values(|s: String| s@)
}

/// Strings holding the given pieces of text.
pub fn strings_of(v: &Vec<Vec<char>>, from: usize) -> (r: Vec<String>)
    requires
        from <= v.len(),
    ensures
        texts(r@) == views(v@).skip(from as int),
{
    let mut r: Vec<String> = Vec::new();
    let mut i: usize = from;
    while i < v.len()
        invariant
            from <= i <= v.len(),
            texts(r@) == views(v@).subrange(from as int, i as int),
        decreases v.len() - i,
    {
        let t = string_of(&v[i]);
        assert(t@ == views(v@)[i as int]);
        let ghost before = r@;
        r.push(t);
        assert(texts(r@) =~= texts(before).push(t@));
        assert(views(v@).subrange(from as int, i + 1) =~= views(v@).subrange(from as int, i as int).push(t@));
        i = i + 1;
    }
    assert(views(v@).subrange(from as int, v.len() as int) =~= views(v@).skip(from as int));
    r
}

/// Reads a command and its arguments out of a message.
pub fn parse_command(content: &str, prefix: &str) -> (r: Option<(Cmds, Vec<String>)>)
    ensures
        match r {
            Some((c, args)) => parse_command_spec(content@, prefix@) == Some((c, texts(args@))),
            None => parse_command_spec(content@, prefix@) is None,
        },
{
    let words = split(&chars_of(content), ' ');
    let name = remove_matches(&words[0], &chars_of(prefix));
    assert(words@[0]@ == split_on(content@, ' ')[0]);
    match Cmds::find(string_of(&name).as_str()) {
        Some(c) => {
            let args = strings_of(&words, 1);
            Some((c, args))
        },
        None => None,
    }
}

/// The command plugins the group adds, in order.
pub open spec fn command_plugins() -> Seq<Cmds> {
    seq![Cmds::Join, Cmds::Leave, Cmds::Pearl, Cmds::Playtime, Cmds::Seen, Cmds::Whitelist]
}

/// The group of command plugins.
pub struct CommandsPluginGroup;

impl CommandsPluginGroup {
    /// The commands whose plugins the group adds, in the order it adds them.
    pub fn build(&self) -> (r: Vec<Cmds>)
        ensures
            r@ == command_plugins(),
    {
        let r = vec![Cmds::Join, Cmds::Leave, Cmds::Pearl, Cmds::Playtime, Cmds::Seen, Cmds::Whitelist];
        assert(r@ =~= command_plugins());
        r
    }
}

} // verus!
