//! The playtime command of the single-bot client.
use vstd::prelude::*;
use crate::commands::playtime::{clock, clock_text, PlaytimeReply};
use crate::minecraft::commands::{Command, CommandEvent, Registry, WhisperEvent};

verus! {

/// Registers the playtime command's alias.
pub fn handle_register(registry: &mut Registry)
    requires
        old(registry).wf(),
    ensures
        final(registry).wf(),
        final(registry).view() == old(registry).view().insert("playtime"@, Command::Playtime),
{
    registry.register("playtime", Command::Playtime);
}

/// What the command does before asking the service: nothing, a whisper, or ask about a player.
pub enum PlaytimeStep {
    Ignore,
    Whisper(WhisperEvent),
    Fetch(String),
}

fn whisper(e: &CommandEvent, text: String) -> (w: WhisperEvent)
    ensures
        w.entity == e.entity && w.sender@ == e.sender@ && w.content@ == text@,
{
    WhisperEvent { entity: e.entity, sender: e.sender.clone(), content: text }
}

/// The first step for a command: other commands are ignored; without a player it whispers
/// `[400] Missing player name!`; with one, the service is asked about the first argument.
pub fn handle_command_event(e: &CommandEvent) -> (r: PlaytimeStep)
    ensures
        e.command != Command::Playtime ==> r is Ignore,
        e.command == Command::Playtime ==> if e.args@.len() == 0 {
            r matches PlaytimeStep::Whisper(w) && w.entity == e.entity && w.sender@ == e.sender@
                && w.content@ == "[400] Missing player name!"@
        } else {
            r matches PlaytimeStep::Fetch(p) && p@ == e.args@[0]@
        },
{
    if e.command != Command::Playtime {
        return PlaytimeStep::Ignore;
    }
    if e.args.len() == 0 {
        return PlaytimeStep::Whisper(whisper(e, "[400] Missing player name!".to_owned()));
    }
    PlaytimeStep::Fetch(e.args[0].clone())
}

/// The whisper for the service's answer: a failed request means the player is not found; an
/// answer that is not the expected JSON (an empty one included) fails to parse.
pub open spec fn answer_text(answer: PlaytimeReply) -> Seq<char> {
    match answer {
        PlaytimeReply::Failed => "[404] Player not found."@,
        PlaytimeReply::NoContent => "[500] Failed to parse JSON"@,
        PlaytimeReply::Unparsed => "[500] Failed to parse JSON"@,
        PlaytimeReply::Seconds(s) => clock_text(s as nat),
    }
}

/// The whisper answering the command, given the service's answer.
pub fn playtime_whisper(e: &CommandEvent, answer: &PlaytimeReply) -> (w: WhisperEvent)
    ensures
        w.entity == e.entity && w.sender@ == e.sender@ && w.content@ == answer_text(*answer),
{
    match answer {
        PlaytimeReply::Failed => whisper(e, "[404] Player not found.".to_owned()),
        PlaytimeReply::NoContent | PlaytimeReply::Unparsed => whisper(e, "[500] Failed to parse JSON".to_owned()),
        PlaytimeReply::Seconds(s) => whisper(e, clock(*s)),
    }
}

} // verus!
