//! Commands and replies as they travel between the chat sources and the command handlers.
use vstd::prelude::*;
use crate::commands::Cmds;
use crate::ncr::EncryptionType;

pub mod api;
pub mod minecraft;

verus! {

/// Who sent a command: an API user, a Discord user (by id) or a Minecraft player (by UUID).
#[derive(Clone, Copy, PartialEq, Eq, Structural, Debug)]
pub enum CommandSender {
    ApiServer(u128),
    Discord(u64),
    Minecraft(u128),
}

/// Where a command came from and so where its reply goes: an API request (by the number the
/// server gave it), a Discord channel, or Minecraft chat with the sender's encryption.
#[derive(Clone, Copy, PartialEq, Eq, Structural, Debug)]
pub enum CommandSource {
    ApiServer(u64),
    Discord(u64),
    Minecraft(Option<EncryptionType>),
}

/// A command to run for a bot (by entity number).
pub struct CommandEvent {
    pub entity: u64,
    pub args: Vec<String>,
    pub command: Cmds,
    /// Whether the command came in a private message.
    pub message: bool,
    pub sender: CommandSender,
    pub source: CommandSource,
}

/// A reply to send back where a command came from, with an HTTP-like status.
pub struct WhisperEvent {
    pub entity: u64,
    pub content: String,
    pub sender: CommandSender,
    pub source: CommandSource,
    pub status: u16,
}

/// A reply to the command with the status and text, sent back where it came from.
pub open spec fn reply_to(w: WhisperEvent, e: CommandEvent, status: u16, text: Seq<char>) -> bool {
    &&& w.entity == e.entity
    &&& w.sender == e.sender
    &&& w.source == e.source
    &&& w.status == status
    &&& w.content@ == text
}

/// The reply to a command with the status and text.
pub fn reply(e: &CommandEvent, status: u16, content: String) -> (w: WhisperEvent)
    ensures
        reply_to(w, *e, status, content@),
{
    WhisperEvent { entity: e.entity, content, sender: e.sender, source: e.source, status }
}

/// A player in the tab list.
pub struct TabEntry {
    pub uuid: u128,
    pub name: String,
}

/// The UUID of the first tab-list entry with the name.
pub open spec fn uuid_by_name(tab: Seq<TabEntry>, name: Seq<char>) -> Option<u128>
    decreases tab.len(),
{
    if tab.len() == 0 {
        None
    } else if tab[0].name@ == name {
        Some(tab[0].uuid)
    } else {
        uuid_by_name(tab.skip(1), name)
    }
}

/// The name of the first tab-list entry with the UUID.
pub open spec fn name_by_uuid(tab: Seq<TabEntry>, uuid: u128) -> Option<Seq<char>>
    decreases tab.len(),
{
    if tab.len() == 0 {
        None
    } else if tab[0].uuid == uuid {
        Some(tab[0].name@)
    } else {
        name_by_uuid(tab.skip(1), uuid)
    }
}

/// Finds a player's UUID in the tab list by name.
pub fn find_uuid(tab: &Vec<TabEntry>, name: &String) -> (r: Option<u128>)
    ensures
        r == uuid_by_name(tab@, name@),
{
    let mut i: usize = 0;
    assert(tab@.skip(0) =~= tab@);
    while i < tab.len()
        invariant
            i <= tab.len(),
            uuid_by_name(tab@.skip(i as int), name@) == uuid_by_name(tab@, name@),
        decreases tab.len() - i,
    {
        assert(tab@.skip(i as int)[0] == tab@[i as int]);
        assert(tab@.skip(i as int).skip(1) =~= tab@.skip(i + 1));
        if tab[i].name == *name {
            return Some(tab[i].uuid);
        }
        i = i + 1;
    }
    None
}

/// Finds a player's name in the tab list by UUID.
pub fn find_name(tab: &Vec<TabEntry>, uuid: u128) -> (r: Option<String>)
    ensures
        match r {
            Some(n) => name_by_uuid(tab@, uuid) == Some(n@),
            None => name_by_uuid(tab@, uuid) is None,
        },
{
    let mut i: usize = 0;
    assert(tab@.skip(0) =~= tab@);
    while i < tab.len()
        invariant
            i <= tab.len(),
            name_by_uuid(tab@.skip(i as int), uuid) == name_by_uuid(tab@, uuid),
        decreases tab.len() - i,
    {
        assert(tab@.skip(i as int)[0] == tab@[i as int]);
        assert(tab@.skip(i as int).skip(1) =~= tab@.skip(i + 1));
        if tab[i].uuid == uuid {
            return Some(tab[i].name.clone());
        }
        i = i + 1;
    }
    None
}

/// The chat command that whispers `text` to `name`: `w {name} {text}`.
pub open spec fn whisper_line(name: Seq<char>, text: Seq<char>) -> Seq<char> {
    seq!['w', ' '] + name + seq![' '] + text
}

/// Builds the chat command that whispers `text` to `name`.
pub fn whisper_command(name: &str, text: &str) -> (r: String)
    ensures
        r@ == whisper_line(name@, text@),
{
    let mut v: Vec<char> = vec!['w', ' '];
    crate::text::push_all(&mut v, &crate::text::chars_of(name));
    v.push(' ');
    crate::text::push_all(&mut v, &crate::text::chars_of(text));
    assert(v@ =~= whisper_line(name@, text@));
    crate::text::string_of(&v)
}

} // verus!
