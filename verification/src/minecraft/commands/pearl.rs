//! The pearl command of the single-bot client: pull the sender's chamber with the fewest
//! other owners' pearls, then the closest.
use vstd::prelude::*;
use crate::chambers::{chamber_list, chosen_index, eligible, reach_fits, select_chamber, BlockPos, PearlQuery, StasisChambers};
use crate::chat::{find_uuid, uuid_by_name, TabEntry};
use crate::events::login_search;
use crate::minecraft::commands::{Command, CommandEvent, Registry, WhisperEvent};

verus! {

/// Registers the pearl command's aliases.
pub fn handle_register(registry: &mut Registry)
    requires
        old(registry).wf(),
    ensures
        final(registry).wf(),
        final(registry).view() == old(registry).view()
            .insert("pearl"@, Command::Pearl).insert("tp"@, Command::Pearl).insert("teleport"@, Command::Pearl)
            .insert("pull"@, Command::Pearl).insert("here"@, Command::Pearl).insert("home"@, Command::Pearl)
            .insert("warp"@, Command::Pearl),
{
    registry.register("pearl", Command::Pearl);
    registry.register("tp", Command::Pearl);
    registry.register("teleport", Command::Pearl);
    registry.register("pull", Command::Pearl);
    registry.register("here", Command::Pearl);
    registry.register("home", Command::Pearl);
    registry.register("warp", Command::Pearl);
}

/// What a bot shows the command: its entity, tab list and block position.
pub struct PearlView {
    pub entity: u64,
    pub tab: Vec<TabEntry>,
    pub position: BlockPos,
}

/// The first bot with the entity.
pub open spec fn view_of(bots: Seq<PearlView>, entity: u64) -> Option<PearlView>
    decreases bots.len(),
{
    if bots.len() == 0 {
        None
    } else if bots[0].entity == entity {
        Some(bots[0])
    } else {
        view_of(bots.skip(1), entity)
    }
}

/// What the command does with a command: nothing, or a whisper and perhaps a chamber to pull.
pub open spec fn pearl_outcome(e: CommandEvent, bots: Seq<PearlView>, trapdoors: StasisChambers) -> Option<(Seq<char>, Option<BlockPos>)> {
    match view_of(bots, e.entity) {
        None => None,
        Some(bot) => if e.command != Command::Pearl {
            None
        } else {
            match uuid_by_name(bot.tab@, e.sender@) {
                None => Some(("I couldn't find you in my list"@, None)),
                Some(u) => {
                    let all = chamber_list(trapdoors);
                    let q = login_search(u, bot.position);
                    if forall|j: int| 0 <= j < all.len() ==> !eligible(q, #[trigger] all[j]) {
                        Some(("[404] Pearl not found."@, None))
                    } else {
                        Some(("[202] I'm on my way!"@, Some(all[chosen_index(all, q)].block_pos)))
                    }
                },
            }
        },
    }
}

/// The whispers and pulls for a batch of commands, in order.
pub open spec fn pearl_outcomes(es: Seq<CommandEvent>, bots: Seq<PearlView>, trapdoors: StasisChambers) -> Seq<(u64, Seq<char>, Seq<char>, Option<BlockPos>)>
    decreases es.len(),
{
    if es.len() == 0 {
        Seq::empty()
    } else {
        let prev = pearl_outcomes(es.drop_last(), bots, trapdoors);
        let e = es.last();
        match pearl_outcome(e, bots, trapdoors) {
            None => prev,
            Some((text, pull)) => prev.push((e.entity, e.sender@, text, pull)),
        }
    }
}

fn find_view(bots: &Vec<PearlView>, entity: u64) -> (r: Option<usize>)
    ensures
        match r {
            Some(i) => i < bots@.len() && view_of(bots@, entity) == Some(bots@[i as int]),
            None => view_of(bots@, entity) is None,
        },
{
    let mut i: usize = 0;
    assert(bots@.skip(0) =~= bots@);
    while i < bots.len()
        invariant
            i <= bots.len(),
            view_of(bots@.skip(i as int), entity) == view_of(bots@, entity),
        decreases bots.len() - i,
    {
        assert(bots@.skip(i as int)[0] == bots@[i as int]);
        assert(bots@.skip(i as int).skip(1) =~= bots@.skip(i + 1));
        if bots[i].entity == entity {
            return Some(i);
        }
        i = i + 1;
    }
    None
}

fn whisper(e: &CommandEvent, text: &str) -> (w: WhisperEvent)
    ensures
        w.entity == e.entity && w.sender@ == e.sender@ && w.content@ == text@,
{
    WhisperEvent { entity: e.entity, sender: e.sender.clone(), content: text.to_owned() }
}

/// Runs the pearl command over a batch of commands: the whispers, each with the chamber to
/// pull, if any.
pub fn handle_command_event(events: &Vec<CommandEvent>, bots: &Vec<PearlView>, trapdoors: &StasisChambers) -> (r: Vec<(WhisperEvent, Option<BlockPos>)>)
    requires
        forall|b: int| 0 <= b < bots@.len() ==> reach_fits(chamber_list(*trapdoors), #[trigger] bots@[b].position, 0),
    ensures
        r@.map_values(|x: (WhisperEvent, Option<BlockPos>)| (x.0.entity, x.0.sender@, x.0.content@, x.1))
            == pearl_outcomes(events@, bots@, *trapdoors),
{
    let mut r: Vec<(WhisperEvent, Option<BlockPos>)> = Vec::new();
    let mut i: usize = 0;
    while i < events.len()
        invariant
            i <= events.len(),
            forall|b: int| 0 <= b < bots@.len() ==> reach_fits(chamber_list(*trapdoors), #[trigger] bots@[b].position, 0),
            r@.map_values(|x: (WhisperEvent, Option<BlockPos>)| (x.0.entity, x.0.sender@, x.0.content@, x.1))
                == pearl_outcomes(events@.take(i as int), bots@, *trapdoors),
        decreases events.len() - i,
    {
        assert(events@.take(i + 1).drop_last() =~= events@.take(i as int));
        assert(events@.take(i + 1).last() == events@[i as int]);
        let e = &events[i];
        let ghost before = r@;
        let b = match find_view(bots, e.entity) {
            Some(b) => b,
            None => {
                i = i + 1;
                continue;
            },
        };
        if e.command != Command::Pearl {
            i = i + 1;
            continue;
        }
        let bot = &bots[b];
        let item = match find_uuid(&bot.tab, &e.sender) {
            None => (whisper(e, "I couldn't find you in my list"), None),
            Some(u) => {
                let q = PearlQuery { owner: u, location: None, max_distance: None, offset: 0, from: bot.position };
                assert(q@ == login_search(u, bot.position));
                assert(reach_fits(chamber_list(*trapdoors), bots@[b as int].position, 0));
                match select_chamber(trapdoors, &q) {
                    None => (whisper(e, "[404] Pearl not found."), None),
                    Some(c) => {
                        let pos = trapdoors.entries[c].1.block_pos;
                        assert(chamber_list(*trapdoors)[c as int].block_pos == pos);
                        (whisper(e, "[202] I'm on my way!"), Some(pos))
                    },
                }
            },
        };
        let ghost v = (item.0.entity, item.0.sender@, item.0.content@, item.1);
        r.push(item);
        assert(r@.map_values(|x: (WhisperEvent, Option<BlockPos>)| (x.0.entity, x.0.sender@, x.0.content@, x.1))
            =~= before.map_values(|x: (WhisperEvent, Option<BlockPos>)| (x.0.entity, x.0.sender@, x.0.content@, x.1)).push(v));
        i = i + 1;
    }
    assert(events@.take(events.len() as int) =~= events@);
    r
}

} // verus!
