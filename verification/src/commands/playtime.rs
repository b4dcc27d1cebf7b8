//! The playtime command: how long a player has played on 2b2t, as `api.2b2t.vc` reports it.
use vstd::prelude::*;
use crate::chat::{reply, reply_to, CommandEvent, WhisperEvent};
use crate::commands::{texts, Cmds};
use crate::text::{chars_of, decimal, decimal_u64, pad_left, pad_start, push_all, push_str, string_of};

verus! {

/// What the playtime service answered, as read by the caller.
pub enum PlaytimeReply {
    /// The request failed.
    Failed,
    /// The service answered 204: it does not know the player.
    NoContent,
    /// The service answered with a body that is not the expected JSON.
    Unparsed,
    /// The player's playtime in seconds.
    Seconds(u64),
}

/// What the command does before asking the service: nothing, a reply, or ask about a player.
pub enum PlaytimeStep {
    Ignore,
    Reply(WhisperEvent),
    Fetch(String),
}

/// Two digits at least, zeros in front.
pub open spec fn two_digits(n: nat) -> Seq<char> {
    pad_left(decimal(n), '0', 2)
}

/// A playtime written `HH:MM:SS`, the hours taken modulo a day.
pub open spec fn clock_text(secs: nat) -> Seq<char> {
    two_digits(secs / 3600 % 24) + ":"@ + two_digits(secs / 60 % 60) + ":"@ + two_digits(secs % 60)
}

fn two(n: u64) -> (r: Vec<char>)
    ensures
        r@ == two_digits(n as nat),
{
    pad_start(&decimal_u64(n), '0', 2)
}

/// Writes a playtime as `HH:MM:SS`.
pub fn clock(secs: u64) -> (r: String)
    ensures
        r@ == clock_text(secs as nat),
{
    let mut v = two(secs / 3600 % 24);
    push_str(&mut v, ":");
    push_all(&mut v, &two(secs / 60 % 60));
    push_str(&mut v, ":");
    push_all(&mut v, &two(secs % 60));
    string_of(&v)
}

/// The first command read: a playtime command without a player gets `404 Missing player
/// name`; with one, the service is asked about the first argument; any other command is
/// ignored.
pub fn handle_playtime_command_events(events: &Vec<CommandEvent>) -> (r: PlaytimeStep)
    ensures
        events@.len() == 0 || events@[0].command != Cmds::Playtime ==> r is Ignore,
        events@.len() > 0 && events@[0].command == Cmds::Playtime ==> {
            let e = events@[0];
            if e.args@.len() == 0 {
                r matches PlaytimeStep::Reply(w) && reply_to(w, e, 404, "Missing player name"@)
            } else {
                r matches PlaytimeStep::Fetch(p) && p@ == e.args@[0]@
            }
        },
{
    if events.len() == 0 || events[0].command != Cmds::Playtime {
        return PlaytimeStep::Ignore;
    }
    let e = &events[0];
    if e.args.len() == 0 {
        return PlaytimeStep::Reply(reply(e, 404, "Missing player name".to_owned()));
    }
    PlaytimeStep::Fetch(e.args[0].clone())
}

/// The status and text of the reply about `player` for the service's answer.
pub open spec fn playtime_answer(player: Seq<char>, answer: PlaytimeReply) -> (u16, Seq<char>) {
    match answer {
        PlaytimeReply::Failed => (404, "Player not found: "@ + player),
        PlaytimeReply::NoContent => (204, "Player not found: "@ + player),
        PlaytimeReply::Unparsed => (500, "Failed to parse JSON"@),
        PlaytimeReply::Seconds(s) => (200, clock_text(s as nat)),
    }
}

/// The reply to the command about `player`, given the service's answer.
pub fn playtime_reply(e: &CommandEvent, player: &String, answer: &PlaytimeReply) -> (w: WhisperEvent)
    ensures
        reply_to(w, *e, playtime_answer(player@, *answer).0, playtime_answer(player@, *answer).1),
{
    match answer {
        PlaytimeReply::Failed | PlaytimeReply::NoContent => {
            let mut v = chars_of("Player not found: ");
            push_str(&mut v, player.as_str());
            let status: u16 = match answer {
                PlaytimeReply::Failed => 404,
                _ => 204,
            };
            reply(e, status, string_of(&v))
        },
        PlaytimeReply::Unparsed => reply(e, 500, "Failed to parse JSON".to_owned()),
        PlaytimeReply::Seconds(s) => reply(e, 200, clock(*s)),
    }
}

} // verus!
