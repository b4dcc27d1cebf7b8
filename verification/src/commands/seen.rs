//! The seen command: when a player was first and last seen on 2b2t, as `api.2b2t.vc` reports.
use vstd::prelude::*;
use crate::chat::{reply, reply_to, CommandEvent, WhisperEvent};
use crate::commands::Cmds;
use crate::text::{chars_of, push_str, string_of};

verus! {

/// What the seen service answered, as read by the caller.
pub enum SeenReply {
    /// The request failed, with the error's text.
    Failed(String),
    /// The service answered 204: it does not know the player.
    NoContent,
    /// The service answered with a body that is not the expected JSON.
    Unparsed,
    /// The first and last sightings, as UTC seconds since the Unix epoch, where known.
    Seen(Option<i64>, Option<i64>),
}

/// What the command does before asking the service: nothing, a reply, or ask about a player.
pub enum SeenStep {
    Ignore,
    Reply(WhisperEvent),
    Fetch(String),
}

/// Names what `chrono` writes for the UTC time `secs` seconds after the Unix epoch with the
/// format `pattern`; nothing when chrono cannot hold that time.
pub uninterp spec fn utc_text(secs: i64, pattern: Seq<char>) -> Option<Seq<char>>;

/// Writes a UTC time with `chrono`: `DateTime::<Utc>::from_timestamp(secs, 0)`, which is
/// none out of chrono's range, then `format(pattern)` written out. Only the day and minute
/// formats the seen command uses are passed.
#[verifier::external_body]
fn format_utc(secs: i64, pattern: &str) -> (r: Option<String>)
    requires
        pattern@ == "%Y-%m-%d"@ || pattern@ == "%Y-%m-%d %H:%M"@,
    ensures
        match r {
            Some(t) => utc_text(secs, pattern@) == Some(t@),
            None => utc_text(secs, pattern@) is None,
        },
{
    match chrono::DateTime::<chrono::Utc>::from_timestamp(secs, 0) {
        Some(t) => Some(t.format(pattern).to_string()),
        None => None,
    }
}

/// The first command read: a seen command without a player gets `400 Missing player name`;
/// with one, the service is asked about the first argument; any other command is ignored.
pub fn handle_seen_cmd_events(events: &Vec<CommandEvent>) -> (r: SeenStep)
    ensures
        events@.len() == 0 || events@[0].command != Cmds::Seen ==> r is Ignore,
        events@.len() > 0 && events@[0].command == Cmds::Seen ==> {
            let e = events@[0];
            if e.args@.len() == 0 {
                r matches SeenStep::Reply(w) && reply_to(w, e, 400, "Missing player name"@)
            } else {
                r matches SeenStep::Fetch(p) && p@ == e.args@[0]@
            }
        },
{
    if events.len() == 0 || events[0].command != Cmds::Seen {
        return SeenStep::Ignore;
    }
    let e = &events[0];
    if e.args.len() == 0 {
        return SeenStep::Reply(reply(e, 400, "Missing player name".to_owned()));
    }
    SeenStep::Fetch(e.args[0].clone())
}

/// The status and text of the reply about `player` for the service's answer. A time chrono
/// cannot hold is a body that does not parse.
pub open spec fn seen_answer(player: Seq<char>, answer: SeenReply) -> (u16, Seq<char>) {
    match answer {
        SeenReply::Failed(err) => (500, "Error: "@ + err@),
        SeenReply::NoContent => (204, "Player not found: "@ + player),
        SeenReply::Unparsed => (500, "Failed to parse JSON"@),
        SeenReply::Seen(first, last) => match (first, last) {
            (Some(f), Some(l)) => match (utc_text(f, "%Y-%m-%d"@), utc_text(l, "%Y-%m-%d %H:%M"@)) {
                (Some(ft), Some(lt)) => (200, "First: "@ + ft + " | Last: "@ + lt),
                _ => (500, "Failed to parse JSON"@),
            },
            _ => (200, "Player has never joined"@),
        },
    }
}

/// The reply to the command about `player`, given the service's answer.
pub fn seen_reply(e: &CommandEvent, player: &String, answer: &SeenReply) -> (w: WhisperEvent)
    ensures
        reply_to(w, *e, seen_answer(player@, *answer).0, seen_answer(player@, *answer).1),
{
    match answer {
        SeenReply::Failed(err) => {
            let mut v = chars_of("Error: ");
            push_str(&mut v, err.as_str());
            reply(e, 500, string_of(&v))
        },
        SeenReply::NoContent => {
            let mut v = chars_of("Player not found: ");
            push_str(&mut v, player.as_str());
            reply(e, 204, string_of(&v))
        },
        SeenReply::Unparsed => reply(e, 500, "Failed to parse JSON".to_owned()),
        SeenReply::Seen(first, last) => match (first, last) {
            (Some(f), Some(l)) => {
                let day = "%Y-%m-%d";
                let minute = "%Y-%m-%d %H:%M";
                match (format_utc(*f, day), format_utc(*l, minute)) {
                    (Some(ft), Some(lt)) => {
                        let mut v = chars_of("First: ");
                        push_str(&mut v, ft.as_str());
                        push_str(&mut v, " | Last: ");
                        push_str(&mut v, lt.as_str());
                        reply(e, 200, string_of(&v))
                    },
                    _ => reply(e, 500, "Failed to parse JSON".to_owned()),
                }
            },
            _ => reply(e, 200, "Player has never joined".to_owned()),
        },
    }
}

} // verus!
