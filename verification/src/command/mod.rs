//! The bot's first command set, answered in chat: each command's reply and, for some, the
//! block the bot then uses.
use vstd::prelude::*;
use crate::commands::texts;
use crate::patterns::{discord_tag_line, lines_match, some_line, LinePattern};
use crate::text::{
    chars_of, ends_with, lemma_sorted_listing, lemma_strictly_sorted_no_duplicates, sorted_listing,
    sorted_unique, split, split_on, string_of, strictly_sorted, views,
};

pub mod about;
pub mod echo;
pub mod hello;
pub mod help;
pub mod ncr;
pub mod online;
pub mod pearl;
pub mod seed;
pub mod sleep;

verus! {

/// The name a chat line shows with its rank prefixes taken off: the last space-separated word.
pub open spec fn bare_name(username: Seq<char>) -> Seq<char> {
    crate::text::split_on(username, ' ').last()
}

/// Takes the rank prefixes off a chat name.
pub fn strip_prefixes(username: &str) -> (r: Vec<char>)
    ensures
        r@ == bare_name(username@),
{
    let words = crate::text::split(&crate::text::chars_of(username), ' ');
    let last = words.len() - 1;
    assert(crate::text::views(words@)[last as int] == words@[last as int]@);
    let mut r: Vec<char> = Vec::new();
    crate::text::push_all(&mut r, &words[last]);
    r
}

/// What the first command set does with a chat line.
pub enum ChatAction {
    /// Nothing.
    Nothing,
    /// Whisper this to the sender, a bot: bots may not run commands.
    RefuseBot(String),
    /// Run the command (by its index among those given) for the sender with the arguments.
    Run { command: usize, username: String, args: Vec<String> },
}

/// Whether `s` ends with `p`.
pub open spec fn ends_in(s: Seq<char>, p: Seq<char>) -> bool {
    p.len() <= s.len() && s.skip(s.len() - p.len()) == p
}

/// The bots after a line whose first word is `arg` from `name`: a word ending in `[iambot]`
/// adds the sender, one ending in `[iamnotbot]` or `[iamhuman]` takes the sender's first
/// entry out; after either the list is sorted with repeats dropped.
pub open spec fn bots_after(bots: Seq<Seq<char>>, name: Seq<char>, arg: Seq<char>) -> Seq<Seq<char>> {
    let b1 = if ends_in(arg, "[iambot]"@) { sorted_listing(bots.push(name).to_set()) } else { bots };
    if (ends_in(arg, "[iamnotbot]"@) || ends_in(arg, "[iamhuman]"@)) && b1.contains(name) {
        sorted_listing(b1.remove(first_pos(b1, name)).to_set())
    } else {
        b1
    }
}

/// Whether the bots change and are saved.
pub open spec fn bots_saved(bots: Seq<Seq<char>>, name: Seq<char>, arg: Seq<char>) -> bool {
    let b1 = if ends_in(arg, "[iambot]"@) { sorted_listing(bots.push(name).to_set()) } else { bots };
    ends_in(arg, "[iambot]"@) || ((ends_in(arg, "[iamnotbot]"@) || ends_in(arg, "[iamhuman]"@)) && b1.contains(name))
}

/// The author, command word and arguments once a Discord bridge's `name#0000:` is read: the
/// tag is the author and the next word (or the one after a `>`) the command word.
pub open spec fn bridged(name: Seq<char>, arg: Seq<char>, rest: Seq<Seq<char>>) -> (Seq<char>, Seq<char>, Seq<Seq<char>>) {
    if some_line(arg, |l: Seq<char>| discord_tag_line(l)) {
        if rest.len() == 0 {
            (arg, arg, rest)
        } else if rest[0] == ">"@ {
            if rest.len() >= 2 { (arg, rest[1], rest.skip(2)) } else { (arg, arg, rest.skip(1)) }
        } else {
            (arg, rest[0], rest.skip(1))
        }
    } else {
        (name, arg, rest)
    }
}

/// Whether `!` and one of the names of command `i` make `arg`.
pub open spec fn bang_hit(commands: Seq<Seq<Seq<char>>>, i: int, arg: Seq<char>) -> bool {
    arg.len() > 0 && arg[0] == '!' && commands[i].contains(arg.skip(1))
}

/// The index of the first command with a name that `!` and the name make `arg`.
pub open spec fn bang_index(commands: Seq<Seq<Seq<char>>>, arg: Seq<char>) -> Option<int> {
    if exists|i: int| 0 <= i < commands.len() && #[trigger] bang_hit(commands, i, arg) {
        Some(choose|i: int| 0 <= i < commands.len() && #[trigger] bang_hit(commands, i, arg)
            && forall|j: int| 0 <= j < i ==> !#[trigger] bang_hit(commands, j, arg))
    } else {
        None
    }
}

/// The whisper a bot gets when it tries a command.
pub open spec fn bot_refusal(name: Seq<char>) -> Seq<char> {
    "/w "@ + name + " *checks list* Sorry, says here you're a bot..."@
}

/// What the first command set does with a chat line from `username` whose decrypted text is
/// `content`: the bots as left, whether they are saved, and the action.
pub open spec fn chat_ok(
    username: Option<Seq<char>>,
    content: Seq<char>,
    bots: Seq<Seq<char>>,
    commands: Seq<Seq<Seq<char>>>,
    new_bots: Seq<Seq<char>>,
    saved: bool,
    r: ChatAction,
) -> bool {
    match username {
        None => new_bots == bots && !saved && r is Nothing,
        Some(u) => {
            let name = bare_name(u);
            let words = split_on(content, ' ');
            let arg = words[0];
            &&& new_bots == bots_after(bots, name, arg)
            &&& saved == bots_saved(bots, name, arg)
            &&& {
                let (who, word, args) = bridged(name, arg, words.skip(1));
                if who == "ShaysBot"@ {
                    r is Nothing
                } else {
                    match bang_index(commands, word) {
                        None => r is Nothing,
                        Some(i) => if new_bots.contains(who) {
                            r matches ChatAction::RefuseBot(m) && m@ == bot_refusal(who)
                        } else {
                            r matches ChatAction::Run { command, username, args: a }
                                && command == i && username@ == who && texts(a@) == args
                        },
                    }
                }
            }
        },
    }
}

/// The first position of `x` in `s` (when it occurs).
pub open spec fn first_pos(s: Seq<Seq<char>>, x: Seq<char>) -> int {
    choose|i: int| 0 <= i < s.len() && s[i] == x && forall|j: int| 0 <= j < i ==> s[j] != x
}

fn position_of(v: &Vec<String>, x: &Vec<char>) -> (r: Option<usize>)
    ensures
        match r {
            Some(i) => i < v@.len() && texts(v@).contains(x@) && first_pos(texts(v@), x@) == i,
            None => !texts(v@).contains(x@),
        },
{
    let ghost t = texts(v@);
    let mut i: usize = 0;
    while i < v.len()
        invariant
            i <= v.len(),
            t == texts(v@),
            forall|j: int| 0 <= j < i ==> t[j] != x@,
        decreases v.len() - i,
    {
        assert(t[i as int] == v@[i as int]@);
        if crate::text::eq_chars(&chars_of(v[i].as_str()), x) {
            assert(t.contains(x@));
            proof {
                let c = first_pos(t, x@);
                assert(t[i as int] == x@ && forall|j: int| 0 <= j < i ==> t[j] != x@);
                if c < i {
                } else if c > i {
                    assert(t[i as int] != x@);
                }
            }
            return Some(i);
        }
        i = i + 1;
    }
    None
}

/// A word cannot end both in `[iambot]` and in `[iamnotbot]` or `[iamhuman]`.
pub proof fn lemma_endings_exclusive(arg: Seq<char>)
    ensures
        ends_in(arg, "[iambot]"@) ==> !ends_in(arg, "[iamnotbot]"@) && !ends_in(arg, "[iamhuman]"@),
{
    reveal_strlit("[iambot]");
    reveal_strlit("[iamnotbot]");
    reveal_strlit("[iamhuman]");
    if ends_in(arg, "[iambot]"@) {
        let n = arg.len();
        assert(arg[n - 8] == arg.skip(n - 8)[0]);
        if ends_in(arg, "[iamnotbot]"@) {
            assert(arg[n - 8] == arg.skip(n - 11)[3]);
        }
        if ends_in(arg, "[iamhuman]"@) {
            assert(arg[n - 8] == arg.skip(n - 10)[2]);
        }
    }
}

/// Law: a bot list kept in strictly increasing order stays so, with no name twice, after any
/// chat line; a sender whose first word ends in `[iambot]` is then listed, one whose first
/// word ends in `[iamnotbot]` or `[iamhuman]` is not, and any other line leaves the list as
/// it was.
pub proof fn lemma_bot_list_stays_sorted(bots: Seq<Seq<char>>, name: Seq<char>, arg: Seq<char>)
    requires
        strictly_sorted(bots),
    ensures
        strictly_sorted(bots_after(bots, name, arg)),
        bots_after(bots, name, arg).no_duplicates(),
        ends_in(arg, "[iambot]"@) ==> bots_after(bots, name, arg).contains(name),
        ends_in(arg, "[iamnotbot]"@) || ends_in(arg, "[iamhuman]"@) ==> !bots_after(bots, name, arg).contains(name),
        !ends_in(arg, "[iambot]"@) && !ends_in(arg, "[iamnotbot]"@) && !ends_in(arg, "[iamhuman]"@)
            ==> bots_after(bots, name, arg) == bots,
{
    lemma_endings_exclusive(arg);
    lemma_strictly_sorted_no_duplicates(bots);
    let r = bots_after(bots, name, arg);
    if ends_in(arg, "[iambot]"@) {
        let set = bots.push(name).to_set();
        vstd::seq_lib::seq_to_set_is_finite(bots.push(name));
        lemma_sorted_listing(set);
        assert(bots.push(name)[bots.len() as int] == name);
        assert(set.contains(name));
        assert(sorted_listing(set).to_set().contains(name));
    } else if (ends_in(arg, "[iamnotbot]"@) || ends_in(arg, "[iamhuman]"@)) && bots.contains(name) {
        let i = choose|i: int| 0 <= i < bots.len() && bots[i] == name;
        assert(forall|j: int| 0 <= j < i ==> bots[j] != name);
        let fp = first_pos(bots, name);
        assert(0 <= fp < bots.len() && bots[fp] == name);
        let rem = bots.remove(fp);
        assert(!rem.contains(name)) by {
            if rem.contains(name) {
                let k = choose|k: int| 0 <= k < rem.len() && rem[k] == name;
                if k < fp {
                    assert(rem[k] == bots[k]);
                } else {
                    assert(rem[k] == bots[k + 1]);
                }
            }
        }
        vstd::seq_lib::seq_to_set_is_finite(rem);
        lemma_sorted_listing(rem.to_set());
        assert(!rem.to_set().contains(name));
        if r.contains(name) {
            assert(r.to_set().contains(name));
        }
    } else {
        lemma_strictly_sorted_no_duplicates(bots);
    }
    if r == bots {
        lemma_strictly_sorted_no_duplicates(bots);
    }
}

fn update_bots(bots: &mut Vec<String>, name: &String, arg: &str) -> (saved: bool)
    ensures
        texts(final(bots)@) == bots_after(texts(old(bots)@), name@, arg@),
        saved == bots_saved(texts(old(bots)@), name@, arg@),
        ends_in(arg@, "[iambot]"@) ==> texts(final(bots)@).contains(name@),
{
    let ghost b0 = texts(bots@);
    let iambot = ends_with(arg, "[iambot]");
    if iambot {
        let ghost before = bots@;
        bots.push(name.clone());
        assert(texts(bots@) =~= texts(before).push(name@));
        let sorted = sorted_unique(bots);
        *bots = sorted;
    }
    let ghost b1 = texts(bots@);
    assert(b1 == if ends_in(arg@, "[iambot]"@) { sorted_listing(b0.push(name@).to_set()) } else { b0 });
    proof {
        lemma_endings_exclusive(arg@);
        if iambot {
            assert(b0.push(name@)[b0.len() as int] == name@);
            assert(b0.push(name@).to_set().contains(name@));
            assert(b1.to_set().contains(name@));
        }
    }
    let notbot = ends_with(arg, "[iamnotbot]") || ends_with(arg, "[iamhuman]");
    let mut removed = false;
    if notbot {
        match position_of(bots, &chars_of(name.as_str())) {
            Some(i) => {
                let ghost before = bots@;
                bots.remove(i);
                assert(texts(bots@) =~= texts(before).remove(i as int));
                let sorted = sorted_unique(bots);
                *bots = sorted;
                removed = true;
            },
            None => {},
        }
    }
    iambot || removed
}

fn bang_matches(names: &Vec<String>, arg: &Vec<char>) -> (r: bool)
    ensures
        r == (arg@.len() > 0 && arg@[0] == '!' && texts(names@).contains(arg@.skip(1))),
{
    if arg.len() == 0 || arg[0] != '!' {
        return false;
    }
    let rest = crate::text::suffix_from(arg, 1);
    match position_of(names, &rest) {
        Some(_) => true,
        None => false,
    }
}

fn find_bang(commands: &Vec<Vec<String>>, arg: &Vec<char>) -> (r: Option<usize>)
    ensures
        match r {
            Some(i) => bang_index(commands@.map_values(|c: Vec<String>| texts(c@)), arg@) == Some(i as int),
            None => bang_index(commands@.map_values(|c: Vec<String>| texts(c@)), arg@) is None,
        },
{
    let ghost all = commands@.map_values(|c: Vec<String>| texts(c@));
    let mut i: usize = 0;
    while i < commands.len()
        invariant
            i <= commands.len(),
            all == commands@.map_values(|c: Vec<String>| texts(c@)),
            forall|j: int| 0 <= j < i ==> !#[trigger] bang_hit(all, j, arg@),
        decreases commands.len() - i,
    {
        if bang_matches(&commands[i], arg) {
            assert(bang_hit(all, i as int, arg@));
            proof {
                let c = choose|c: int| 0 <= c < all.len() && #[trigger] bang_hit(all, c, arg@)
                    && forall|j: int| 0 <= j < c ==> !#[trigger] bang_hit(all, j, arg@);
                if c > i {
                    assert(!bang_hit(all, i as int, arg@));
                }
            }
            return Some(i);
        }
        assert(!bang_hit(all, i as int, arg@));
        i = i + 1;
    }
    None
}

/// What the first command set does with a chat line from `username` (as the server shows
/// it, if at all) whose decrypted text is `content`, given the bots and, for each command,
/// its names. The bots are updated in place; the result says whether to save them, and what
/// to do.
pub fn handle_chat(
    username: &Option<String>,
    content: &String,
    bots: &mut Vec<String>,
    commands: &Vec<Vec<String>>,
) -> (r: (bool, ChatAction))
    ensures
        chat_ok(
            match username {
                Some(u) => Some(u@),
                None => None,
            },
            content@,
            texts(old(bots)@),
            commands@.map_values(|c: Vec<String>| texts(c@)),
            texts(final(bots)@),
            r.0,
            r.1,
        ),
        match username {
            Some(u) => ends_in(split_on(content@, ' ')[0], "[iambot]"@)
                ==> texts(final(bots)@).contains(bare_name(u@)),
            None => true,
        },
{
    let u = match username {
        Some(u) => u,
        None => return (false, ChatAction::Nothing),
    };
    let name = string_of(&strip_prefixes(u.as_str()));
    let words = split(&chars_of(content.as_str()), ' ');
    let ghost ws = split_on(content@, ' ');
    assert(views(words@) == ws);
    assert(views(words@)[0] == words@[0]@);
    let arg = string_of(&words[0]);
    let saved = update_bots(bots, &name, arg.as_str());
    let rest = crate::commands::strings_of(&words, 1);
    let ghost (gwho, gword, gargs) = bridged(name@, arg@, ws.skip(1));
    let tagged = lines_match(&chars_of(arg.as_str()), LinePattern::DiscordTag);
    assert(crate::patterns::line_pattern(LinePattern::DiscordTag) =~= |l: Seq<char>| discord_tag_line(l));
    let (who, word, args): (String, String, Vec<String>) = if tagged {
        if rest.len() == 0 {
            (arg.clone(), arg.clone(), rest)
        } else {
            assert(texts(rest@)[0] == rest@[0]@);
            if rest[0] == ">".to_owned() {
                if rest.len() >= 2 {
                    assert(texts(rest@)[1] == rest@[1]@);
                    let w = rest[1].clone();
                    let a = crate::commands::strings_of(&words, 3);
                    assert(views(words@).skip(3) =~= ws.skip(1).skip(2));
                    (arg.clone(), w, a)
                } else {
                    let a = crate::commands::strings_of(&words, 2);
                    assert(views(words@).skip(2) =~= ws.skip(1).skip(1));
                    (arg.clone(), arg.clone(), a)
                }
            } else {
                let w = rest[0].clone();
                let a = crate::commands::strings_of(&words, 2);
                assert(views(words@).skip(2) =~= ws.skip(1).skip(1));
                (arg.clone(), w, a)
            }
        }
    } else {
        (name.clone(), arg.clone(), rest)
    };
    assert(who@ == gwho && word@ == gword && texts(args@) == gargs);
    if who == "ShaysBot".to_owned() {
        return (saved, ChatAction::Nothing);
    }
    let index = match find_bang(commands, &chars_of(word.as_str())) {
        Some(i) => i,
        None => return (saved, ChatAction::Nothing),
    };
    match position_of(bots, &chars_of(who.as_str())) {
        Some(_) => {
            let mut v = chars_of("/w ");
            crate::text::push_str(&mut v, who.as_str());
            crate::text::push_str(&mut v, " *checks list* Sorry, says here you're a bot...");
            (saved, ChatAction::RefuseBot(string_of(&v)))
        },
        None => (saved, ChatAction::Run { command: index, username: who, args }),
    }
}

} // verus!
