//! Commands read from chat by alias and answered by whisper.
use vstd::prelude::*;
use crate::chat::minecraft::{chat_parts, ReceivedChat};
use crate::chat::{whisper_command, whisper_line};
use crate::chat_format::{parse_line, ChatFormat};
use crate::commands::texts;
use crate::maps::NameMap;
use crate::text::{chars_of, split, split_on, starts_with, string_of, views};

pub mod pearl;
pub mod playtime;

verus! {

/// The commands.
#[derive(Clone, Copy, PartialEq, Eq, Structural, Debug)]
pub enum Command {
    Pearl,
    Playtime,
    Seen,
}

/// A command for a bot from a player (by name).
pub struct CommandEvent {
    pub entity: u64,
    pub sender: String,
    pub command: Command,
    pub args: Vec<String>,
}

/// A reply to whisper to a player.
pub struct WhisperEvent {
    pub entity: u64,
    pub sender: String,
    pub content: String,
}

/// The commands by alias.
pub struct Registry {
    pub commands: NameMap<Command>,
}

impl Registry {
    pub open spec fn wf(&self) -> bool {
        self.commands.wf()
    }

    pub open spec fn view(&self) -> Map<Seq<char>, Command> {
        self.commands.view()
    }

    /// A registry with no aliases.
    pub fn new() -> (r: Self)
        ensures
            r.wf(),
            r.view() == Map::<Seq<char>, Command>::empty(),
    {
        Registry { commands: NameMap::new() }
    }

    /// Registers an alias for a command.
    pub fn register(&mut self, alias: &str, command: Command)
        requires
            old(self).wf(),
        ensures
            final(self).wf(),
            final(self).view() == old(self).view().insert(alias@, command),
    {
        self.commands.insert(string_of(&chars_of(alias)), command);
    }
}

/// The command whose alias, after the chat prefix, is the word.
pub open spec fn registry_find(reg: Map<Seq<char>, Command>, prefix: Seq<char>, word: Seq<char>) -> Option<Command> {
    if prefix.len() <= word.len() && word.take(prefix.len() as int) == prefix && reg.contains_key(word.skip(prefix.len() as int)) {
        Some(reg[word.skip(prefix.len() as int)])
    } else {
        None
    }
}

/// Law: the command found is the one registered under the alias that the prefix and the
/// alias make the word, as a search of every alias would find it.
pub proof fn lemma_registry_find(reg: Map<Seq<char>, Command>, prefix: Seq<char>, word: Seq<char>, alias: Seq<char>)
    requires
        reg.contains_key(alias),
        prefix + alias == word,
    ensures
        registry_find(reg, prefix, word) == Some(reg[alias]),
{
    assert(word.take(prefix.len() as int) =~= prefix);
    assert(word.skip(prefix.len() as int) =~= alias);
}

/// The command event a chat line gives: the sender and text as the server gave them, else
/// read from a `[tag] name > whispers: text` line; the first word names the command.
pub open spec fn chat_event(entity: u64, chat: ReceivedChat, reg: Map<Seq<char>, Command>, prefix: Seq<char>) -> Option<(u64, Seq<char>, Command, Seq<Seq<char>>)> {
    match chat_parts(chat, ChatFormat::Legacy) {
        None => None,
        Some((name, content, _)) => {
            let words = split_on(content, ' ');
            match registry_find(reg, prefix, words[0]) {
                None => None,
                Some(c) => Some((entity, name, c, words.skip(1))),
            }
        },
    }
}

/// The command events of a batch of chat lines, in order.
pub open spec fn chat_events(chats: Seq<(u64, ReceivedChat)>, reg: Map<Seq<char>, Command>, prefix: Seq<char>) -> Seq<(u64, Seq<char>, Command, Seq<Seq<char>>)>
    decreases chats.len(),
{
    if chats.len() == 0 {
        Seq::empty()
    } else {
        let prev = chat_events(chats.drop_last(), reg, prefix);
        match chat_event(chats.last().0, chats.last().1, reg, prefix) {
            None => prev,
            Some(x) => prev.push(x),
        }
    }
}

/// The view of a command event.
pub open spec fn event_view(e: CommandEvent) -> (u64, Seq<char>, Command, Seq<Seq<char>>) {
    (e.entity, e.sender@, e.command, texts(e.args@))
}

fn read_chat(entity: u64, chat: &ReceivedChat, registry: &Registry, prefix: &str) -> (r: Option<CommandEvent>)
    requires
        registry.wf(),
    ensures
        match r {
            Some(e) => chat_event(entity, *chat, registry.view(), prefix@) == Some(event_view(e)),
            None => chat_event(entity, *chat, registry.view(), prefix@) is None,
        },
{
    let (name, content) = match &chat.sender {
        Some(u) => (u.clone(), chat.content.clone()),
        None => match parse_line(&chars_of(chat.content.as_str()), ChatFormat::Legacy) {
            Some(line) => (string_of(&line.name), string_of(&line.content)),
            None => return None,
        },
    };
    let words = split(&chars_of(content.as_str()), ' ');
    assert(views(words@)[0] == words@[0]@);
    let word = string_of(&words[0]);
    if !starts_with(word.as_str(), prefix) {
        return None;
    }
    let pc = chars_of(prefix);
    let key = string_of(&crate::text::suffix_from(&words[0], pc.len()));
    let command = match registry.commands.get(&key) {
        Some(c) => *c,
        None => return None,
    };
    let args = crate::commands::strings_of(&words, 1);
    Some(CommandEvent { entity, sender: name, command, args })
}

/// Reads the commands in a batch of chat lines.
pub fn handle_chat_received_event(chats: &Vec<(u64, ReceivedChat)>, registry: &Registry, prefix: &str) -> (r: Vec<CommandEvent>)
    requires
        registry.wf(),
    ensures
        r@.map_values(|e: CommandEvent| event_view(e)) == chat_events(chats@, registry.view(), prefix@),
{
    let mut r: Vec<CommandEvent> = Vec::new();
    let mut i: usize = 0;
    while i < chats.len()
        invariant
            i <= chats.len(),
            registry.wf(),
            r@.map_values(|e: CommandEvent| event_view(e)) == chat_events(chats@.take(i as int), registry.view(), prefix@),
        decreases chats.len() - i,
    {
        assert(chats@.take(i + 1).drop_last() =~= chats@.take(i as int));
        assert(chats@.take(i + 1).last() == chats@[i as int]);
        match read_chat(chats[i].0, &chats[i].1, registry, prefix) {
            Some(e) => {
                let ghost before = r@;
                let ghost v = event_view(e);
                r.push(e);
                assert(r@.map_values(|e: CommandEvent| event_view(e)) =~= before.map_values(|e: CommandEvent| event_view(e)).push(v));
            },
            None => {},
        }
        i = i + 1;
    }
    assert(chats@.take(chats.len() as int) =~= chats@);
    r
}

/// The whisper commands for the replies: `w {sender} {content}`, each for its bot.
pub fn handle_whisper_event(events: &Vec<WhisperEvent>) -> (r: Vec<(u64, String)>)
    ensures
        r@.len() == events@.len(),
        forall|k: int| 0 <= k < r@.len() ==> (#[trigger] r@[k]).0 == events@[k].entity
            && r@[k].1@ == whisper_line(events@[k].sender@, events@[k].content@),
{
    let mut r: Vec<(u64, String)> = Vec::new();
    let mut i: usize = 0;
    while i < events.len()
        invariant
            i <= events.len(),
            r@.len() == i,
            forall|k: int| 0 <= k < i ==> (#[trigger] r@[k]).0 == events@[k].entity
                && r@[k].1@ == whisper_line(events@[k].sender@, events@[k].content@),
        decreases events.len() - i,
    {
        let e = &events[i];
        r.push((e.entity, whisper_command(e.sender.as_str(), e.content.as_str())));
        i = i + 1;
    }
    r
}

} // verus!
