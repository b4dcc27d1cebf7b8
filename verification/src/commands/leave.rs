//! The leave command: disconnect a bot by name.
use vstd::prelude::*;
use crate::chat::{reply, reply_to, CommandEvent, CommandSender, WhisperEvent};
use crate::commands::Cmds;
use crate::text::{chars_of, push_str, string_of};

verus! {

/// A bot of the swarm: its entity and its name.
pub struct BotProfile {
    pub entity: u64,
    pub name: String,
}

/// How the leave command words its disconnect reasons.
pub open spec fn leave_prefix() -> Seq<char> {
    "Leave Command: "@
}

/// The disconnect reason for a bot the leave command disconnects, `sender` being how the
/// command's sender is written.
pub fn leave_reason(sender: &str) -> (r: String)
    ensures
        r@ == leave_prefix() + sender@,
{
    let mut v = chars_of("Leave Command: ");
    push_str(&mut v, sender);
    string_of(&v)
}

/// What the leave command does: reply, or disconnect a bot on behalf of the sender.
pub enum LeaveAction {
    Reply(WhisperEvent),
    Disconnect { entity: u64, sender: CommandSender },
}

/// The entity of the first bot with the name.
pub open spec fn bot_named(bots: Seq<BotProfile>, name: Seq<char>) -> Option<u64>
    decreases bots.len(),
{
    if bots.len() == 0 {
        None
    } else if bots[0].name@ == name {
        Some(bots[0].entity)
    } else {
        bot_named(bots.skip(1), name)
    }
}

/// What the command does with each command read, in order, until one that is not a leave
/// command ends the reading: without a name it answers `404 Missing bot name`, for a name
/// no bot has `404 offline bot name`, and otherwise it disconnects that bot.
pub open spec fn leave_results(es: Seq<CommandEvent>, bots: Seq<BotProfile>) -> Seq<(CommandEvent, Option<Seq<char>>, Option<u64>)>
    decreases es.len(),
{
    if es.len() == 0 || es[0].command != Cmds::Leave {
        Seq::empty()
    } else {
        let e = es[0];
        let item = if e.args@.len() == 0 {
            (e, Some("Missing bot name"@), None)
        } else {
            match bot_named(bots, e.args@[0]@) {
                None => (e, Some("offline bot name"@), None),
                Some(b) => (e, None, Some(b)),
            }
        };
        seq![item] + leave_results(es.skip(1), bots)
    }
}

/// Whether an action is what the command does for an item of [`leave_results`].
pub open spec fn leave_action_ok(a: LeaveAction, x: (CommandEvent, Option<Seq<char>>, Option<u64>)) -> bool {
    match a {
        LeaveAction::Reply(w) => x.1 matches Some(t) && reply_to(w, x.0, 404, t),
        LeaveAction::Disconnect { entity, sender } => x.2 == Some(entity) && sender == x.0.sender,
    }
}

fn find_bot(bots: &Vec<BotProfile>, name: &String) -> (r: Option<u64>)
    ensures
        r == bot_named(bots@, name@),
{
    let mut i: usize = 0;
    assert(bots@.skip(0) =~= bots@);
    while i < bots.len()
        invariant
            i <= bots.len(),
            bot_named(bots@.skip(i as int), name@) == bot_named(bots@, name@),
        decreases bots.len() - i,
    {
        assert(bots@.skip(i as int)[0] == bots@[i as int]);
        assert(bots@.skip(i as int).skip(1) =~= bots@.skip(i + 1));
        if bots[i].name == *name {
            return Some(bots[i].entity);
        }
        i = i + 1;
    }
    None
}

/// Runs the leave command over the commands read.
pub fn handle_leave_cmd_events(events: &Vec<CommandEvent>, bots: &Vec<BotProfile>) -> (r: Vec<LeaveAction>)
    ensures
        r@.len() == leave_results(events@, bots@).len(),
        forall|i: int| 0 <= i < r@.len() ==> leave_action_ok(#[trigger] r@[i], leave_results(events@, bots@)[i]),
{
    let mut r: Vec<LeaveAction> = Vec::new();
    let ghost mut done: Seq<(CommandEvent, Option<Seq<char>>, Option<u64>)> = Seq::empty();
    let mut i: usize = 0;
    assert(events@.skip(0) =~= events@);
    assert(done + leave_results(events@, bots@) =~= leave_results(events@, bots@));
    while i < events.len()
        invariant
            i <= events.len(),
            done + leave_results(events@.skip(i as int), bots@) == leave_results(events@, bots@),
            done.len() == r@.len(),
            forall|k: int| 0 <= k < r@.len() ==> leave_action_ok(#[trigger] r@[k], done[k]),
        decreases events.len() - i,
    {
        let ghost rest = events@.skip(i as int);
        let e = &events[i];
        assert(rest[0] == *e);
        assert(rest.skip(1) =~= events@.skip(i + 1));
        if e.command != Cmds::Leave {
            proof {
                assert(leave_results(rest, bots@) =~= Seq::empty());
                assert(done + Seq::empty() =~= done);
            }
            return r;
        }
        let ghost item;
        if e.args.len() == 0 {
            r.push(LeaveAction::Reply(reply(e, 404, "Missing bot name".to_owned())));
            proof { item = (*e, Some("Missing bot name"@), None::<u64>); }
        } else {
            match find_bot(bots, &e.args[0]) {
                None => {
                    r.push(LeaveAction::Reply(reply(e, 404, "offline bot name".to_owned())));
                    proof { item = (*e, Some("offline bot name"@), None::<u64>); }
                },
                Some(b) => {
                    r.push(LeaveAction::Disconnect { entity: b, sender: e.sender });
                    proof { item = (*e, None::<Seq<char>>, Some(b)); }
                },
            }
        }
        proof {
            assert(leave_results(rest, bots@) == seq![item] + leave_results(rest.skip(1), bots@));
            let old_done = done;
            done = done.push(item);
            assert(done + leave_results(events@.skip(i + 1), bots@) =~= old_done + leave_results(rest, bots@));
            assert forall|k: int| 0 <= k < r@.len() implies leave_action_ok(#[trigger] r@[k], done[k]) by {}
        }
        i = i + 1;
    }
    proof {
        assert(events@.skip(i as int) =~= Seq::<CommandEvent>::empty());
        assert(done + leave_results(events@.skip(i as int), bots@) =~= done);
    }
    r
}

} // verus!
