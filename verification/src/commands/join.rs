//! The join command: turn reconnecting on for a bot.
use vstd::prelude::*;
use crate::chat::{reply, reply_to, CommandEvent, WhisperEvent};
use crate::commands::Cmds;
use crate::swarm::SwarmState;
use crate::text::{chars_of, lowercase, push_str, string_of};

verus! {

/// Runs the join command on the first command read, if it is one: without a bot name it
/// answers `404`; with one it turns reconnecting on for that bot (by lowercased name) and
/// answers `202`.
pub fn handle_join_cmd_events(events: &Vec<CommandEvent>, state: &mut SwarmState) -> (r: Option<WhisperEvent>)
    requires
        old(state).auto_reconnect.wf(),
    ensures
        final(state).auto_reconnect.wf(),
        r is None <==> events@.len() == 0 || events@[0].command != Cmds::Join,
        ({
            let e = events@[0];
            if r is None || e.args@.len() == 0 {
                final(state).auto_reconnect@ == old(state).auto_reconnect@
            } else {
                final(state).auto_reconnect@
                    == old(state).auto_reconnect@.insert(lowercase(e.args@[0]@), (true, 0u64))
            }
        }),
        r matches Some(w) ==> {
            let e = events@[0];
            if e.args@.len() == 0 {
                reply_to(w, e, 404, "[404] Missing bot name"@)
            } else {
                reply_to(w, e, 202, "[202] Enabling AutoReconnect for "@ + e.args@[0]@)
            }
        },
{
    if events.len() == 0 || events[0].command != Cmds::Join {
        return None;
    }
    let e = &events[0];
    if e.args.len() == 0 {
        return Some(reply(e, 404, "[404] Missing bot name".to_owned()));
    }
    let bot = &e.args[0];
    let mut v = chars_of("[202] Enabling AutoReconnect for ");
    push_str(&mut v, bot.as_str());
    let w = reply(e, 202, string_of(&v));
    state.enable_reconnect(bot.as_str());
    Some(w)
}

} // verus!
