//! The bot's event handlers: what it does when it starts, when a player asks for a pearl at
//! login, and when a chat line carries a command.
use vstd::prelude::*;
use crate::chambers::{chamber_list, chosen, eligible, reach_fits, select_chamber, BlockPos, PearlQuery, Search, StasisChambers};
use crate::chat::minecraft::{chat_parts, ReceivedChat};
use crate::chat::{find_uuid, uuid_by_name, whisper_command, whisper_line, TabEntry};
use crate::chat_format::{parse_line, ChatFormat};
use crate::commands::texts;
use crate::text::{chars_of, split, split_on, string_of, views};

verus! {

/// What the bot does once it is in the world.
#[derive(Clone, Copy, PartialEq, Eq, Structural, Debug)]
pub enum StartupAction {
    /// Start the anti-AFK module.
    InitAntiAfk,
}

/// The start-up handler.
pub struct Init;

impl Init {
    /// Starts the anti-AFK module.
    pub fn execute(&self) -> (r: StartupAction)
        ensures
            r == StartupAction::InitAntiAfk,
    {
        StartupAction::InitAntiAfk
    }
}

/// What the bot does for a player who asked for their pearl.
pub enum LoginPlan {
    /// The player is not in the tab list: stop serving requests.
    Stop,
    /// No chamber of theirs: whisper that (unless quiet) and stop serving requests.
    NotFound(Option<String>),
    /// Go to the chamber's trapdoor, whispering first that the bot is on its way and after
    /// using it that it is done (unless quiet).
    Pull { target: BlockPos, on_way: Option<String>, done: Option<String> },
}

/// The search for a player's chamber at login: any location, any distance, counted from zero.
pub open spec fn login_search(owner: u128, from: BlockPos) -> Search {
    Search { owner, location: None, max_distance: None, offset: 0, from }
}

/// A whisper to the player, or none when the bot is quiet.
pub open spec fn maybe_whisper(w: Option<String>, quiet: bool, name: Seq<char>, text: Seq<char>) -> bool {
    if quiet { w is None } else { w matches Some(s) && s@ == whisper_line(name, text) }
}

fn whisper_unless(quiet: bool, name: &str, text: &str) -> (w: Option<String>)
    ensures
        maybe_whisper(w, quiet, name@, text@),
{
    if quiet { None } else { Some(whisper_command(name, text)) }
}

/// The login handler.
pub struct Login;

impl Login {
    /// Serves a player's request for their pearl: the player's chamber with the fewest other
    /// owners' pearls on its block, then the closest to the bot.
    pub fn execute(
        &self,
        username: &String,
        tab: &Vec<TabEntry>,
        trapdoors: &StasisChambers,
        position: BlockPos,
        quiet: bool,
    ) -> (r: LoginPlan)
        requires
            reach_fits(chamber_list(*trapdoors), position, 0),
        ensures
            match uuid_by_name(tab@, username@) {
                None => r is Stop,
                Some(u) => {
                    let all = chamber_list(*trapdoors);
                    let q = login_search(u, position);
                    match r {
                        LoginPlan::NotFound(w) => {
                            &&& forall|j: int| 0 <= j < all.len() ==> !eligible(q, #[trigger] all[j])
                            &&& maybe_whisper(w, quiet, username@, "[404] Pearl not found."@)
                        },
                        LoginPlan::Pull { target, on_way, done } => {
                            &&& exists|i: int| #[trigger] chosen(all, q, i) && target == all[i].block_pos
                            &&& maybe_whisper(on_way, quiet, username@, "[202] I'm on my way!"@)
                            &&& maybe_whisper(done, quiet, username@, "[200] OK"@)
                        },
                        LoginPlan::Stop => false,
                    }
                },
            },
    {
        let uuid = match find_uuid(tab, username) {
            Some(u) => u,
            None => return LoginPlan::Stop,
        };
        let q = PearlQuery { owner: uuid, location: None, max_distance: None, offset: 0, from: position };
        assert(q@ == login_search(uuid, position));
        match select_chamber(trapdoors, &q) {
            None => LoginPlan::NotFound(whisper_unless(quiet, username.as_str(), "[404] Pearl not found.")),
            Some(i) => {
                let target = trapdoors.entries[i].1.block_pos;
                assert(chamber_list(*trapdoors)[i as int].block_pos == target);
                LoginPlan::Pull {
                    target,
                    on_way: whisper_unless(quiet, username.as_str(), "[202] I'm on my way!"),
                    done: whisper_unless(quiet, username.as_str(), "[200] OK"),
                }
            },
        }
    }
}

/// What a command answered.
pub enum CommandResponse {
    /// Whisper this back to the sender.
    Whisper(String),
    /// Send this chat command.
    Command(String),
    /// Nothing to send.
    Nothing,
}

/// A chat line the bot received.
pub struct Chat(pub ReceivedChat);

/// The index of the first command whose aliases hold `alias`.
pub open spec fn command_index(aliases: Seq<Seq<Seq<char>>>, alias: Seq<char>) -> Option<int> {
    if exists|i: int| 0 <= i < aliases.len() && aliases[i].contains(alias) {
        Some(choose|i: int| 0 <= i < aliases.len() && aliases[i].contains(alias)
            && forall|j: int| 0 <= j < i ==> !aliases[j].contains(alias))
    } else {
        None
    }
}

fn has_alias(names: &Vec<String>, alias: &String) -> (r: bool)
    ensures
        r == texts(names@).contains(alias@),
{
    let mut i: usize = 0;
    while i < names.len()
        invariant
            i <= names.len(),
            forall|j: int| 0 <= j < i ==> names@[j]@ != alias@,
        decreases names.len() - i,
    {
        if names[i] == *alias {
            assert(texts(names@)[i as int] == alias@);
            return true;
        }
        i = i + 1;
    }
    let ghost t = texts(names@);
    assert forall|j: int| 0 <= j < t.len() implies #[trigger] t[j] != alias@ by {
        assert(t[j] == names@[j]@);
    }
    false
}

impl Chat {
    /// The sender and the space-separated words of a chat line: the sender the server named,
    /// else one read from a `name text` or `name whispers: text` line.
    pub fn request(&self) -> (r: Option<(String, Vec<String>)>)
        ensures
            match chat_parts(self.0, ChatFormat::Plain) {
                None => r is None,
                Some((name, content, _)) => r matches Some((s, words))
                    && s@ == name && texts(words@) == split_on(content, ' '),
            },
    {
        let (name, content) = match &self.0.sender {
            Some(u) => (u.clone(), self.0.content.clone()),
            None => match parse_line(&chars_of(self.0.content.as_str()), ChatFormat::Plain) {
                Some(line) => (string_of(&line.name), string_of(&line.content)),
                None => return None,
            },
        };
        let parts = split(&chars_of(content.as_str()), ' ');
        let words = crate::commands::strings_of(&parts, 0);
        assert(views(parts@).skip(0) =~= views(parts@));
        Some((name, words))
    }

    /// The command among those given (each by its aliases) that the first word names.
    pub fn find_command(aliases: &Vec<Vec<String>>, alias: &String) -> (r: Option<usize>)
        ensures
            match r {
                Some(i) => command_index(aliases@.map_values(|a: Vec<String>| texts(a@)), alias@) == Some(i as int),
                None => command_index(aliases@.map_values(|a: Vec<String>| texts(a@)), alias@) is None,
            },
    {
        let ghost all = aliases@.map_values(|a: Vec<String>| texts(a@));
        let mut i: usize = 0;
        while i < aliases.len()
            invariant
                i <= aliases.len(),
                all == aliases@.map_values(|a: Vec<String>| texts(a@)),
                forall|j: int| 0 <= j < i ==> !all[j].contains(alias@),
            decreases aliases.len() - i,
        {
            if has_alias(&aliases[i], alias) {
                proof {
                    let c = choose|c: int| 0 <= c < all.len() && all[c].contains(alias@)
                        && forall|j: int| 0 <= j < c ==> !all[j].contains(alias@);
                    assert(all[i as int].contains(alias@));
                    if c > i {
                        assert(!all[i as int].contains(alias@));
                    }
                }
                return Some(i);
            }
            i = i + 1;
        }
        None
    }

    /// The chat command to send for a command's response: a whisper back to the sender, or the
    /// command itself; nothing when there is no response or the bot is quiet.
    pub fn reply(sender: &str, response: &CommandResponse, quiet: bool) -> (r: Option<String>)
        ensures
            quiet ==> r is None,
            !quiet ==> match response {
                CommandResponse::Whisper(m) => r matches Some(c) && c@ == whisper_line(sender@, m@),
                CommandResponse::Command(c) => r matches Some(x) && x@ == c@,
                CommandResponse::Nothing => r is None,
            },
    {
        if quiet {
            return None;
        }
        match response {
            CommandResponse::Whisper(m) => Some(whisper_command(sender, m.as_str())),
            CommandResponse::Command(c) => Some(c.clone()),
            CommandResponse::Nothing => None,
        }
    }
}

} // verus!
