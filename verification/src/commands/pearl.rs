//! The pearl command: find the sender's stasis chamber at the bot's location and send the bot
//! to pull it, or say why not.
use vstd::prelude::*;
use crate::chambers::{
    chamber_list, chosen, count_owned, eligible, owned_count, reach_fits, select_chamber, BlockPos,
    PearlQuery, Search, StasisChambers,
};
use crate::chat::{reply, reply_to, CommandEvent, CommandSender, CommandSource, TabEntry, WhisperEvent};
use crate::commands::Cmds;
use crate::settings::{AutoPearlSettings, Users};
use crate::text::{
    chars_of, decimal, decimal_u64, join, join_with, lowercase, push_all, sorted_listing,
    sorted_unique, string_of, to_lowercase,
};

verus! {

/// What the pearl command sees of a bot: its entity, its tab list, the block it stands in and
/// its auto-pearl settings.
pub struct PearlBot {
    pub entity: u64,
    pub tab: Vec<TabEntry>,
    pub position: BlockPos,
    pub auto_pearl: AutoPearlSettings,
}

/// The global settings the pearl command reads.
pub struct PearlSettings {
    pub whitelist_only: bool,
    pub users: Users,
    pub pearl_view_distance: i32,
}

/// A bot sent to pull the pearl of `owner_uuid` at `block_pos`.
#[derive(Clone, Copy, PartialEq, Eq, Structural, Debug)]
pub struct PearlEvent {
    pub entity: u64,
    pub block_pos: BlockPos,
    pub owner_uuid: u128,
}

/// What the pearl command does with one command: pass it by, stop reading commands without a
/// reply, reply and stop, or reply and send the bot to a chamber and stop.
pub enum PearlStep {
    Skip,
    Stop,
    Reply(WhisperEvent),
    Goto(WhisperEvent, PearlEvent),
}

/// The decision before any chamber is looked at: pass by, stop, reply, or search the chambers
/// of `owner` at `location`.
pub enum PearlPlan {
    Skip,
    Stop,
    Reply(u16, Seq<char>),
    Search(u128, Seq<char>),
}

/// Who the pearl is for, once the sender is known: a player and the arguments left, or a
/// reply, or a silent stop.
pub enum PearlOwner {
    Known(u128, Seq<Seq<char>>),
    Reply(u16, Seq<char>),
    Stop,
}

/// Where the command is served: by this bot, not at all, or with the list of locations.
pub enum PearlScope {
    Here,
    Skip,
    InvalidLocation,
}

/// The index of the first bot with the entity.
pub open spec fn bot_index(bots: Seq<PearlBot>, entity: u64) -> Option<int> {
    if exists|i: int| 0 <= i < bots.len() && bots[i].entity == entity {
        Some(choose|i: int| 0 <= i < bots.len() && bots[i].entity == entity
            && forall|j: int| 0 <= j < i ==> bots[j].entity != entity)
    } else {
        None
    }
}

/// The UUID of the first tab-list entry whose lowercased name is `lname`.
pub open spec fn uuid_by_lower_name(tab: Seq<TabEntry>, lname: Seq<char>) -> Option<u128>
    decreases tab.len(),
{
    if tab.len() == 0 {
        None
    } else if lowercase(tab[0].name@) == lname {
        Some(tab[0].uuid)
    } else {
        uuid_by_lower_name(tab.skip(1), lname)
    }
}

/// Whether a linked Discord id lets the Discord user `id` use the player: it is that id or `*`.
pub open spec fn links_discord(linked: Seq<char>, id: u64) -> bool {
    linked == decimal(id as nat) || linked == "*"@
}

/// Who the pearl is for.
pub open spec fn pearl_owner(e: CommandEvent, tab: Seq<TabEntry>, g: PearlSettings) -> PearlOwner {
    let args = e.args@.map_values(|s: String| s@);
    match e.sender {
        CommandSender::ApiServer(u) => PearlOwner::Known(u, args),
        CommandSender::Minecraft(u) => PearlOwner::Known(u, args),
        CommandSender::Discord(id) => {
            if args.len() == 0 {
                PearlOwner::Reply(404, "Missing player name"@)
            } else {
                match uuid_by_lower_name(tab, lowercase(args[0])) {
                    None => PearlOwner::Reply(404, args[0] + " is not online"@),
                    Some(u) => {
                        if g.whitelist_only && !g.users@.contains_key(u) {
                            PearlOwner::Stop
                        } else if g.whitelist_only && !links_discord(g.users@[u].discord_id@, id) {
                            PearlOwner::Reply(403, "That account isn't linked to you"@)
                        } else {
                            PearlOwner::Known(u, args.skip(1))
                        }
                    },
                }
            }
        },
    }
}

/// Whether this bot serves the command, given the arguments left after the owner.
pub open spec fn pearl_scope(e: CommandEvent, rest: Seq<Seq<char>>, n_bots: int, location: Seq<char>) -> PearlScope {
    if n_bots == 1 {
        PearlScope::Here
    } else if rest.len() > 0 {
        if rest[0] == location {
            PearlScope::Here
        } else if e.source is Minecraft && e.message {
            PearlScope::Here
        } else {
            PearlScope::Skip
        }
    } else if e.source is Minecraft {
        PearlScope::Here
    } else {
        PearlScope::InvalidLocation
    }
}

/// The locations of all bots.
pub open spec fn bot_locations(bots: Seq<PearlBot>) -> Seq<Seq<char>> {
    bots.map_values(|b: PearlBot| b.auto_pearl.location@)
}

/// The reply listing the locations.
pub open spec fn invalid_location_text(bots: Seq<PearlBot>) -> Seq<char> {
    "Invalid location | Locations: "@ + join_with(sorted_listing(bot_locations(bots).to_set()), ", "@)
}

/// The decision for one command before any chamber is looked at.
#[verifier::opaque]
pub open spec fn pearl_plan(e: CommandEvent, bots: Seq<PearlBot>, g: PearlSettings) -> PearlPlan {
    if e.command != Cmds::Pearl {
        PearlPlan::Skip
    } else {
        match bot_index(bots, e.entity) {
            None => PearlPlan::Skip,
            Some(b) => {
                let bot = bots[b];
                if !bot.auto_pearl.enabled {
                    PearlPlan::Skip
                } else {
                    match pearl_owner(e, bot.tab@, g) {
                        PearlOwner::Stop => PearlPlan::Stop,
                        PearlOwner::Reply(st, t) => PearlPlan::Reply(st, t),
                        PearlOwner::Known(u, rest) => {
                            match pearl_scope(e, rest, bots.len() as int, bot.auto_pearl.location@) {
                                PearlScope::Skip => PearlPlan::Skip,
                                PearlScope::InvalidLocation => PearlPlan::Reply(406, invalid_location_text(bots)),
                                PearlScope::Here => PearlPlan::Search(u, bot.auto_pearl.location@),
                            }
                        },
                    }
                }
            },
        }
    }
}

/// The reply once a chamber is found, by how many more pearls the player has there.
pub open spec fn on_my_way_text(more: nat) -> Seq<char> {
    if more == 0 {
        "I'm on my way, this was your last pearl!"@
    } else if more == 1 {
        "I'm on my way, you have one more pearl!"@
    } else {
        "I'm on my way, you have "@ + decimal(more) + " more pearls."@
    }
}

/// The search for a player's chamber from a bot: at its location, within four times the pearl
/// view distance, distances counted from one.
pub open spec fn search_of(owner: u128, location: Seq<char>, bot: PearlBot, g: PearlSettings) -> Search {
    Search {
        owner,
        location: Some(location),
        max_distance: Some(g.pearl_view_distance * 4),
        offset: 1,
        from: bot.position,
    }
}

/// Whether `r` is what the pearl command does with the command `e`.
#[verifier::opaque]
pub open spec fn pearl_step_ok(e: CommandEvent, bots: Seq<PearlBot>, g: PearlSettings, chambers: StasisChambers, r: PearlStep) -> bool {
    match pearl_plan(e, bots, g) {
        PearlPlan::Skip => r is Skip,
        PearlPlan::Stop => r is Stop,
        PearlPlan::Reply(st, t) => r matches PearlStep::Reply(w) && reply_to(w, e, st, t),
        PearlPlan::Search(u, l) => {
            let all = chamber_list(chambers);
            let q = search_of(u, l, bots[bot_index(bots, e.entity)->0], g);
            match r {
                PearlStep::Reply(w) => {
                    &&& forall|j: int| 0 <= j < all.len() ==> !eligible(q, #[trigger] all[j])
                    &&& reply_to(w, e, 404, "Pearl not found at "@ + l)
                },
                PearlStep::Goto(w, p) => {
                    &&& exists|i: int| #[trigger] chosen(all, q, i) && p.block_pos == all[i].block_pos
                        && p.owner_uuid == all[i].owner_uuid
                    &&& p.entity == e.entity
                    &&& reply_to(w, e, 200, on_my_way_text(
                        if owned_count(all, q) > 0 { (owned_count(all, q) - 1) as nat } else { 0 }))
                },
                _ => false,
            }
        },
    }
}

/// A command is passed by exactly when its plan is to pass it by.
pub proof fn lemma_step_skips_with_plan(e: CommandEvent, bots: Seq<PearlBot>, g: PearlSettings, chambers: StasisChambers, r: PearlStep)
    requires
        pearl_step_ok(e, bots, g, chambers, r),
    ensures
        (r is Skip) <==> (pearl_plan(e, bots, g) is Skip),
{
    reveal(pearl_step_ok);
}

/// Law: the pearl the bot goes to pull is the asker's own: the owner is the Minecraft or API
/// sender, or, for a Discord request under the whitelist, a whitelisted player linked to that
/// Discord user; and the chamber is one of that owner's at the bot's location.
pub proof fn lemma_pull_is_for_the_asker(
    e: CommandEvent,
    bots: Seq<PearlBot>,
    g: PearlSettings,
    chambers: StasisChambers,
    w: WhisperEvent,
    p: PearlEvent,
)
    requires
        pearl_step_ok(e, bots, g, chambers, PearlStep::Goto(w, p)),
    ensures
        match e.sender {
            CommandSender::Minecraft(u) => p.owner_uuid == u,
            CommandSender::ApiServer(u) => p.owner_uuid == u,
            CommandSender::Discord(id) => g.whitelist_only ==> g.users@.contains_key(p.owner_uuid)
                && links_discord(g.users@[p.owner_uuid].discord_id@, id),
        },
        exists|i: int| 0 <= i < chamber_list(chambers).len()
            && (#[trigger] chamber_list(chambers)[i]).owner_uuid == p.owner_uuid
            && chamber_list(chambers)[i].block_pos == p.block_pos
            && chamber_list(chambers)[i].location@ == bots[bot_index(bots, e.entity)->0].auto_pearl.location@,
{
    reveal(pearl_step_ok);
    reveal(pearl_plan);
    let all = chamber_list(chambers);
    let b = bot_index(bots, e.entity)->0;
    match pearl_plan(e, bots, g) {
        PearlPlan::Search(u, l) => {
            let q = search_of(u, l, bots[b], g);
            let i = choose|i: int| #[trigger] chosen(all, q, i) && p.block_pos == all[i].block_pos
                && p.owner_uuid == all[i].owner_uuid;
            assert(eligible(q, all[i]));
        },
        _ => {},
    }
}

/// The measured distances from every bot fit 32-bit arithmetic, and so does the largest
/// distance allowed.
pub open spec fn pearl_inputs_fit(bots: Seq<PearlBot>, g: PearlSettings, chambers: StasisChambers) -> bool {
    &&& i32::MIN <= g.pearl_view_distance * 4 <= i32::MAX
    &&& forall|b: int| 0 <= b < bots.len() ==> reach_fits(chamber_list(chambers), #[trigger] bots[b].position, 1)
}

fn find_bot(bots: &Vec<PearlBot>, entity: u64) -> (r: Option<usize>)
    ensures
        match r {
            Some(i) => i < bots@.len() && bot_index(bots@, entity) == Some(i as int),
            None => bot_index(bots@, entity) is None,
        },
{
    let mut i: usize = 0;
    while i < bots.len()
        invariant
            i <= bots.len(),
            forall|j: int| 0 <= j < i ==> bots@[j].entity != entity,
        decreases bots.len() - i,
    {
        if bots[i].entity == entity {
            proof {
                let c = choose|c: int| 0 <= c < bots@.len() && bots@[c].entity == entity
                    && forall|j: int| 0 <= j < c ==> bots@[j].entity != entity;
                assert(bots@[i as int].entity == entity);
                if c < i {
                } else if c > i {
                    assert(bots@[i as int].entity != entity);
                }
            }
            return Some(i);
        }
        i = i + 1;
    }
    None
}

fn find_uuid_lower(tab: &Vec<TabEntry>, lname: &String) -> (r: Option<u128>)
    ensures
        r == uuid_by_lower_name(tab@, lname@),
{
    let mut i: usize = 0;
    assert(tab@.skip(0) =~= tab@);
    while i < tab.len()
        invariant
            i <= tab.len(),
            uuid_by_lower_name(tab@.skip(i as int), lname@) == uuid_by_lower_name(tab@, lname@),
        decreases tab.len() - i,
    {
        assert(tab@.skip(i as int)[0] == tab@[i as int]);
        assert(tab@.skip(i as int).skip(1) =~= tab@.skip(i + 1));
        let l = to_lowercase(tab[i].name.as_str());
        if l == *lname {
            return Some(tab[i].uuid);
        }
        i = i + 1;
    }
    None
}

fn concat2(a: &str, b: &str) -> (r: String)
    ensures
        r@ == a@ + b@,
{
    let mut v = chars_of(a);
    push_all(&mut v, &chars_of(b));
    string_of(&v)
}

fn invalid_location_reply(bots: &Vec<PearlBot>) -> (r: String)
    ensures
        r@ == invalid_location_text(bots@),
{
    let mut locs: Vec<String> = Vec::new();
    let mut i: usize = 0;
    while i < bots.len()
        invariant
            i <= bots.len(),
            locs@.map_values(|s: String| s@) == bot_locations(bots@).take(i as int),
        decreases bots.len() - i,
    {
        let ghost before = locs@;
        let l = bots[i].auto_pearl.location.clone();
        locs.push(l);
        assert(locs@.map_values(|s: String| s@) =~= before.map_values(|s: String| s@).push(l@));
        assert(bot_locations(bots@).take(i + 1) =~= bot_locations(bots@).take(i as int).push(bots@[i as int].auto_pearl.location@));
        i = i + 1;
    }
    assert(bot_locations(bots@).take(bots.len() as int) =~= bot_locations(bots@));
    let sorted = sorted_unique(&locs);
    let mut parts: Vec<Vec<char>> = Vec::new();
    let mut k: usize = 0;
    while k < sorted.len()
        invariant
            k <= sorted.len(),
            crate::text::views(parts@) == sorted@.map_values(|s: String| s@).take(k as int),
        decreases sorted.len() - k,
    {
        let ghost before = parts@;
        let c = chars_of(sorted[k].as_str());
        parts.push(c);
        assert(crate::text::views(parts@) =~= crate::text::views(before).push(c@));
        assert(sorted@.map_values(|s: String| s@).take(k + 1) =~= sorted@.map_values(|s: String| s@).take(k as int).push(sorted@[k as int]@));
        k = k + 1;
    }
    assert(sorted@.map_values(|s: String| s@).take(sorted.len() as int) =~= sorted@.map_values(|s: String| s@));
    let joined = join(&parts, &chars_of(", "));
    let mut v = chars_of("Invalid location | Locations: ");
    push_all(&mut v, &joined);
    string_of(&v)
}

fn on_my_way(more: usize) -> (r: String)
    ensures
        r@ == on_my_way_text(more as nat),
{
    if more == 0 {
        "I'm on my way, this was your last pearl!".to_owned()
    } else if more == 1 {
        "I'm on my way, you have one more pearl!".to_owned()
    } else {
        let mut v = chars_of("I'm on my way, you have ");
        push_all(&mut v, &decimal_u64(more as u64));
        push_all(&mut v, &chars_of(" more pearls."));
        string_of(&v)
    }
}

/// What the pearl command does with one command.
pub fn pearl_step(e: &CommandEvent, bots: &Vec<PearlBot>, g: &PearlSettings, chambers: &StasisChambers) -> (r: PearlStep)
    requires
        g.users.wf(),
        pearl_inputs_fit(bots@, *g, *chambers),
    ensures
        pearl_step_ok(*e, bots@, *g, *chambers, r),
{
    reveal(pearl_plan);
    reveal(pearl_step_ok);
    if e.command != Cmds::Pearl {
        return PearlStep::Skip;
    }
    let b = match find_bot(bots, e.entity) {
        None => return PearlStep::Skip,
        Some(b) => b,
    };
    let bot = &bots[b];
    if !bot.auto_pearl.enabled {
        return PearlStep::Skip;
    }
    let ghost args = e.args@.map_values(|s: String| s@);
    assert(args.skip(0) =~= args);
    let mut next: usize = 0;
    let owner: u128 = match e.sender {
        CommandSender::ApiServer(u) => u,
        CommandSender::Minecraft(u) => u,
        CommandSender::Discord(id) => {
            if e.args.len() == 0 {
                return PearlStep::Reply(reply(e, 404, "Missing player name".to_owned()));
            }
            let name = &e.args[0];
            assert(name@ == args[0]);
            let lname = to_lowercase(name.as_str());
            match find_uuid_lower(&bot.tab, &lname) {
                None => {
                    return PearlStep::Reply(reply(e, 404, concat2(name.as_str(), " is not online")));
                },
                Some(u) => {
                    if g.whitelist_only {
                        match g.users.get(u) {
                            None => return PearlStep::Stop,
                            Some(user) => {
                                let id_text = string_of(&decimal_u64(id));
                                let any = "*".to_owned();
                                if user.discord_id != id_text && user.discord_id != any {
                                    return PearlStep::Reply(
                                        reply(e, 403, "That account isn't linked to you".to_owned()),
                                    );
                                }
                            },
                        }
                    }
                    next = 1;
                    assert(uuid_by_lower_name(bot.tab@, lowercase(args[0])) == Some(u));
                    assert(pearl_owner(*e, bot.tab@, *g) == PearlOwner::Known(u, args.skip(1)));
                    u
                },
            }
        },
    };
    assert(pearl_owner(*e, bot.tab@, *g) == PearlOwner::Known(owner, args.skip(next as int)));
    if bots.len() != 1 {
        if next < e.args.len() {
            assert(args.skip(next as int)[0] == e.args@[next as int]@);
            if e.args[next] != bot.auto_pearl.location {
                match e.source {
                    CommandSource::Minecraft(_) => {
                        if !e.message {
                            return PearlStep::Skip;
                        }
                    },
                    _ => return PearlStep::Skip,
                }
            }
        } else {
            match e.source {
                CommandSource::Minecraft(_) => {},
                _ => return PearlStep::Reply(reply(e, 406, invalid_location_reply(bots))),
            }
        }
    }
    assert(pearl_scope(*e, args.skip(next as int), bots@.len() as int, bot.auto_pearl.location@) == PearlScope::Here);
    assert(pearl_plan(*e, bots@, *g) == PearlPlan::Search(owner, bot.auto_pearl.location@));
    let q = PearlQuery {
        owner,
        location: Some(bot.auto_pearl.location.clone()),
        max_distance: Some(g.pearl_view_distance * 4),
        offset: 1,
        from: bot.position,
    };
    assert(q@ == search_of(owner, bot.auto_pearl.location@, bots@[b as int], *g));
    assert(reach_fits(chamber_list(*chambers), bots@[b as int].position, 1));
    let count = count_owned(chambers, &q);
    match select_chamber(chambers, &q) {
        None => {
            let w = reply(e, 404, concat2("Pearl not found at ", bot.auto_pearl.location.as_str()));
            let r = PearlStep::Reply(w);
            r
        },
        Some(i) => {
            let c = &chambers.entries[i].1;
            assert(chamber_list(*chambers)[i as int] == *c);
            let more = if count > 0 { count - 1 } else { 0 };
            PearlStep::Goto(
                reply(e, 200, on_my_way(more)),
                PearlEvent { entity: e.entity, block_pos: c.block_pos, owner_uuid: c.owner_uuid },
            )
        },
    }
}

/// Runs the pearl command over the commands in order: each is passed by until one gets a
/// reply or stops the reading, and what that one gets is the result.
pub fn handle_pearl_cmd_events(
    events: &Vec<CommandEvent>,
    bots: &Vec<PearlBot>,
    g: &PearlSettings,
    chambers: &StasisChambers,
) -> (r: PearlStep)
    requires
        g.users.wf(),
        pearl_inputs_fit(bots@, *g, *chambers),
    ensures
        r is Skip <==> forall|j: int| 0 <= j < events@.len() ==> #[trigger] pearl_plan(events@[j], bots@, *g) is Skip,
        forall|k: int| 0 <= k < events@.len() && !(pearl_plan(events@[k], bots@, *g) is Skip)
            && (forall|j: int| 0 <= j < k ==> #[trigger] pearl_plan(events@[j], bots@, *g) is Skip)
            ==> pearl_step_ok(events@[k], bots@, *g, *chambers, r),
{
    let mut i: usize = 0;
    while i < events.len()
        invariant
            i <= events@.len(),
            g.users.wf(),
            pearl_inputs_fit(bots@, *g, *chambers),
            forall|j: int| 0 <= j < i ==> #[trigger] pearl_plan(events@[j], bots@, *g) is Skip,
        decreases events@.len() - i,
    {
        let r = pearl_step(&events[i], bots, g, chambers);
        proof { lemma_step_skips_with_plan(events@[i as int], bots@, *g, *chambers, r); }
        match r {
            PearlStep::Skip => {},
            _ => {
                proof {
                    assert forall|k: int| 0 <= k < events@.len() && !(pearl_plan(events@[k], bots@, *g) is Skip)
                        && (forall|j: int| 0 <= j < k ==> #[trigger] pearl_plan(events@[j], bots@, *g) is Skip)
                        implies pearl_step_ok(events@[k], bots@, *g, *chambers, r) by {
                        if k < i {
                        } else if k > i {
                            assert(pearl_plan(events@[i as int], bots@, *g) is Skip);
                        }
                    }
                }
                return r;
            },
        }
        i = i + 1;
    }
    PearlStep::Skip
}

} // verus!
