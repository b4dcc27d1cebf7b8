//! Command intake: the per-sender cooldown, commands read from custom servers' chat and from
//! Discord, and the replies sent back to Discord.
use vstd::prelude::*;
use crate::chat::minecraft::{intake_batch, intake_run, events_are, reply_whisper_ok, IntakeSettings, MinecraftChatPlugin, ReceivedChat};
use crate::ncr::ChatEncryption;
use crate::chat::{CommandEvent, CommandSender, CommandSource, TabEntry, WhisperEvent};
use crate::chat_format::ChatFormat;
use crate::commands::{parse_command, parse_command_spec, texts, Cmds};
use crate::maps::NameMap;
use crate::text::{chars_of, decimal, decimal_u64, push_all, push_str, string_of};

verus! {

/// The time that has passed from `then` to `now`, zero when `now` is earlier, as
/// `Instant::elapsed` measures it.
pub open spec fn elapsed(then: u64, now: u64) -> int {
    if now >= then { now - then } else { 0 }
}

/// What a cooldown check answers and the times it keeps afterwards: a sender seen before is
/// on cooldown while less than `duration` has passed since first seen; a new sender is not,
/// and is recorded at `now`.
pub open spec fn cooldown_check(seen: Map<Seq<char>, u64>, sender: Seq<char>, duration: u64, now: u64) -> (bool, Map<Seq<char>, u64>) {
    if seen.contains_key(sender) {
        (elapsed(seen[sender], now) < duration, seen)
    } else {
        (false, seen.insert(sender, now))
    }
}

/// When each sender was first seen, in milliseconds of a monotonic clock.
pub struct Cooldown {
    pub seen: NameMap<u64>,
}

/// The cooldown of the chat plugin, which works the same way.
pub type CommandCooldown = Cooldown;

impl Cooldown {
    pub open spec fn wf(&self) -> bool {
        self.seen.wf()
    }

    pub open spec fn view(&self) -> Map<Seq<char>, u64> {
        self.seen.view()
    }

    /// A cooldown that has seen no one.
    pub fn new() -> (c: Self)
        ensures
            c.wf(),
            c.view() == Map::<Seq<char>, u64>::empty(),
    {
        Cooldown { seen: NameMap::new() }
    }

    /// Whether the sender is on cooldown at `now`; a sender seen for the first time is
    /// recorded.
    pub fn check(&mut self, sender: &String, duration: u64, now: u64) -> (on_cooldown: bool)
        requires
            old(self).wf(),
        ensures
            final(self).wf(),
            (on_cooldown, final(self).view()) == cooldown_check(old(self).view(), sender@, duration, now),
    {
        match self.seen.get(sender) {
            Some(then) => {
                let then = *then;
                if now >= then {
                    now - then < duration
                } else {
                    0 < duration
                }
            },
            None => {
                self.seen.insert(sender.clone(), now);
                false
            },
        }
    }
}

/// Law: a sender's first command is never on cooldown, and another from the same sender
/// less than `duration` later is.
pub proof fn lemma_cooldown_blocks_repeat(seen: Map<Seq<char>, u64>, sender: Seq<char>, duration: u64, t1: u64, t2: u64)
    requires
        !seen.contains_key(sender),
        elapsed(t1, t2) < duration,
    ensures
        !cooldown_check(seen, sender, duration, t1).0,
        cooldown_check(cooldown_check(seen, sender, duration, t1).1, sender, duration, t2).0,
{
}

/// Law: once a sender has been seen, checks never change what is recorded for anyone.
pub proof fn lemma_cooldown_keeps_first_sight(seen: Map<Seq<char>, u64>, sender: Seq<char>, other: Seq<char>, duration: u64, now: u64)
    requires
        seen.contains_key(other),
    ensures
        cooldown_check(seen, sender, duration, now).1.contains_key(other),
        cooldown_check(seen, sender, duration, now).1[other] == seen[other],
{
}

/// Reads the commands in a batch of chat messages from custom servers, whose lines read
/// `[tag] name > whispers: text` or `name -> text` (or whose sender the server names); the
/// events carry no whisper flag, and the command word needs no prefix.
pub fn handle_chat_received_event(
    chats: &Vec<(u64, ReceivedChat)>,
    tabs: &Vec<(u64, Vec<TabEntry>)>,
    settings: &IntakeSettings,
    cooldown: &mut Cooldown,
    now: u64,
) -> (r: Vec<CommandEvent>)
    requires
        old(cooldown).wf(),
    ensures
        final(cooldown).wf(),
        ({
            let (res, seen) = intake_run(chats@, tabs@, ChatFormat::Command, false, false, *settings, old(cooldown).view(), now);
            &&& final(cooldown).view() == seen
            &&& match res {
                None => r@.len() == 0,
                Some(items) => events_are(r@, items),
            }
        }),
{
    intake_batch(chats, tabs, ChatFormat::Command, false, false, settings, cooldown, now)
}

/// A whitelisted player and the Discord user linked to it, if any.
pub struct LinkedUser {
    pub uuid: u128,
    pub discord_id: Option<String>,
}

/// Whether a whitelist entry links the Discord user.
pub open spec fn links(u: LinkedUser, author: u64) -> bool {
    u.discord_id matches Some(d) && d@ == decimal(author as nat)
}

/// Whether a Discord user may run commands: the whitelist is empty or links the user.
pub open spec fn discord_allowed(whitelisted: Seq<LinkedUser>, author: u64) -> bool {
    whitelisted.len() == 0 || exists|i: int| 0 <= i < whitelisted.len() && links(#[trigger] whitelisted[i], author)
}

/// Law: a Discord user may run commands when any entry of the whitelist, at any position,
/// links the user's id; with a non-empty whitelist none of whose entries links the user, the
/// user may not.
pub proof fn lemma_any_link_allows(whitelisted: Seq<LinkedUser>, author: u64, i: int)
    ensures
        0 <= i < whitelisted.len() && whitelisted[i].discord_id is Some && whitelisted[i].discord_id->0@ == decimal(author as nat)
            ==> discord_allowed(whitelisted, author),
        whitelisted.len() > 0 && (forall|j: int| 0 <= j < whitelisted.len()
            ==> !(#[trigger] whitelisted[j].discord_id is Some && whitelisted[j].discord_id->0@ == decimal(author as nat)))
            ==> !discord_allowed(whitelisted, author),
{
    if 0 <= i < whitelisted.len() && whitelisted[i].discord_id is Some && whitelisted[i].discord_id->0@ == decimal(author as nat) {
        assert(links(whitelisted[i], author));
    }
    if whitelisted.len() > 0 && (forall|j: int| 0 <= j < whitelisted.len()
            ==> !(#[trigger] whitelisted[j].discord_id is Some && whitelisted[j].discord_id->0@ == decimal(author as nat))) {
        assert forall|j: int| 0 <= j < whitelisted.len() implies !links(#[trigger] whitelisted[j], author) by {
            assert(!(whitelisted[j].discord_id is Some && whitelisted[j].discord_id->0@ == decimal(author as nat)));
        }
    }
}

/// Law: moving entries of the whitelist around does not change who may run commands.
pub proof fn lemma_link_order_free(w1: Seq<LinkedUser>, w2: Seq<LinkedUser>, author: u64)
    requires
        w1.to_multiset() == w2.to_multiset(),
    ensures
        discord_allowed(w1, author) == discord_allowed(w2, author),
{
    w1.to_multiset_ensures();
    w2.to_multiset_ensures();
    assert(w1.len() == w1.to_multiset().len());
    assert(w2.len() == w2.to_multiset().len());
    if discord_allowed(w1, author) && w1.len() > 0 {
        let i = choose|i: int| 0 <= i < w1.len() && links(#[trigger] w1[i], author);
        assert(w1.to_multiset().count(w1[i]) > 0);
        assert(w2.contains(w1[i]));
        let j = choose|j: int| 0 <= j < w2.len() && w2[j] == w1[i];
        assert(links(w2[j], author));
    }
    if discord_allowed(w2, author) && w2.len() > 0 {
        let i = choose|i: int| 0 <= i < w2.len() && links(#[trigger] w2[i], author);
        assert(w2.to_multiset().count(w2[i]) > 0);
        assert(w1.contains(w2[i]));
        let j = choose|j: int| 0 <= j < w1.len() && w1[j] == w2[i];
        assert(links(w1[j], author));
    }
}

/// The notice for a Discord user who is not linked, naming the commands that link.
pub open spec fn not_linked_text(prefix: Seq<char>, author: u64) -> Seq<char> {
    "Your Discord and Minecraft accounts are not currently linked.\nTo link via in-game, message the bot the following command: `"@
        + prefix + "whitelist link "@ + decimal(author as nat) + "`\nTo link via Discord, run the following command with your `auth.aristois.net` code `"@
        + prefix + "whitelist link <code>`"@
}

/// What a Discord message does: for each bot, either a command event or (for a user the
/// whitelist does not link) a notice to post in the channel.
pub struct DiscordIntake {
    pub events: Vec<CommandEvent>,
    pub notices: Vec<String>,
}

fn allowed(whitelisted: &Vec<LinkedUser>, author: u64) -> (r: bool)
    ensures
        r == discord_allowed(whitelisted@, author),
{
    if whitelisted.len() == 0 {
        return true;
    }
    let id = decimal_u64(author);
    let mut i: usize = 0;
    while i < whitelisted.len()
        invariant
            i <= whitelisted.len(),
            id@ == decimal(author as nat),
            forall|j: int| 0 <= j < i ==> !links(#[trigger] whitelisted@[j], author),
        decreases whitelisted.len() - i,
    {
        match &whitelisted[i].discord_id {
            Some(d) => {
                if crate::text::eq_chars(&chars_of(d.as_str()), &id) {
                    assert(links(whitelisted@[i as int], author));
                    return true;
                }
            },
            None => {},
        }
        i = i + 1;
    }
    false
}

/// Reads the command in a Discord message for each bot: a message naming no command does
/// nothing; one from a user the whitelist does not link gets one notice per bot; otherwise
/// each bot gets the command, to be answered in the channel.
pub fn handle_message_event(
    content: &str,
    author: u64,
    channel: u64,
    entities: &Vec<u64>,
    prefix: &str,
    whitelisted: &Vec<LinkedUser>,
) -> (r: DiscordIntake)
    ensures
        match parse_command_spec(content@, prefix@) {
            None => r.events@.len() == 0 && r.notices@.len() == 0,
            Some((c, args)) => if discord_allowed(whitelisted@, author) {
                &&& r.notices@.len() == 0
                &&& r.events@.len() == entities@.len()
                &&& forall|k: int| 0 <= k < entities@.len() ==> {
                    let e = #[trigger] r.events@[k];
                    &&& e.entity == entities@[k]
                    &&& texts(e.args@) == args
                    &&& e.command == c
                    &&& !e.message
                    &&& e.source == CommandSource::Discord(channel)
                    &&& e.sender == CommandSender::Discord(author)
                }
            } else {
                &&& r.events@.len() == 0
                &&& r.notices@.len() == entities@.len()
                &&& forall|k: int| 0 <= k < entities@.len() ==> (#[trigger] r.notices@[k])@ == not_linked_text(prefix@, author)
            },
        },
{
    let mut events: Vec<CommandEvent> = Vec::new();
    let mut notices: Vec<String> = Vec::new();
    let (c, args) = match parse_command(content, prefix) {
        Some(p) => p,
        None => return DiscordIntake { events, notices },
    };
    let ok = allowed(whitelisted, author);
    let mut notice = chars_of("Your Discord and Minecraft accounts are not currently linked.\nTo link via in-game, message the bot the following command: `");
    push_str(&mut notice, prefix);
    push_str(&mut notice, "whitelist link ");
    push_all(&mut notice, &decimal_u64(author));
    push_str(&mut notice, "`\nTo link via Discord, run the following command with your `auth.aristois.net` code `");
    push_str(&mut notice, prefix);
    push_str(&mut notice, "whitelist link <code>`");
    let mut k: usize = 0;
    while k < entities.len()
        invariant
            k <= entities.len(),
            parse_command_spec(content@, prefix@) == Some((c, texts(args@))),
            ok == discord_allowed(whitelisted@, author),
            notice@ == not_linked_text(prefix@, author),
            ok ==> notices@.len() == 0 && events@.len() == k,
            !ok ==> events@.len() == 0 && notices@.len() == k,
            forall|j: int| 0 <= j < events@.len() ==> {
                let e = #[trigger] events@[j];
                &&& e.entity == entities@[j]
                &&& texts(e.args@) == texts(args@)
                &&& e.command == c
                &&& !e.message
                &&& e.source == CommandSource::Discord(channel)
                &&& e.sender == CommandSender::Discord(author)
            },
            forall|j: int| 0 <= j < notices@.len() ==> (#[trigger] notices@[j])@ == not_linked_text(prefix@, author),
        decreases entities.len() - k,
    {
        if ok {
            events.push(CommandEvent {
                entity: entities[k],
                args: crate::text::copy_strings(&args),
                command: c,
                message: false,
                sender: CommandSender::Discord(author),
                source: CommandSource::Discord(channel),
            });
        } else {
            notices.push(string_of(&notice));
        }
        k = k + 1;
    }
    DiscordIntake { events, notices }
}

/// The replies to post on Discord: each reply to a command from a Discord channel, with its
/// channel.
pub open spec fn discord_replies(es: Seq<WhisperEvent>) -> Seq<(u64, Seq<char>)>
    decreases es.len(),
{
    if es.len() == 0 {
        Seq::empty()
    } else {
        let prev = discord_replies(es.drop_last());
        match es.last().source {
            CommandSource::Discord(ch) => prev.push((ch, es.last().content@)),
            _ => prev,
        }
    }
}

/// The replies to post on Discord, in order.
pub fn handle_discord_whisper_event(events: &Vec<WhisperEvent>) -> (r: Vec<(u64, String)>)
    ensures
        r@.map_values(|x: (u64, String)| (x.0, x.1@)) == discord_replies(events@),
{
    let mut r: Vec<(u64, String)> = Vec::new();
    let mut i: usize = 0;
    while i < events.len()
        invariant
            i <= events.len(),
            r@.map_values(|x: (u64, String)| (x.0, x.1@)) == discord_replies(events@.take(i as int)),
        decreases events.len() - i,
    {
        assert(events@.take(i + 1).drop_last() =~= events@.take(i as int));
        assert(events@.take(i + 1).last() == events@[i as int]);
        match events[i].source {
            CommandSource::Discord(ch) => {
                let ghost before = r@;
                let content = events[i].content.clone();
                r.push((ch, content));
                assert(r@.map_values(|x: (u64, String)| (x.0, x.1@)) =~= before.map_values(|x: (u64, String)| (x.0, x.1@)).push((ch, content@)));
            },
            _ => {},
        }
        i = i + 1;
    }
    assert(events@.take(events.len() as int) =~= events@);
    r
}


/// A bot as the reply sender sees it: its entity, its tab list and whether its responses are
/// off.
pub struct ReplyBot {
    pub entity: u64,
    pub tab: Vec<TabEntry>,
    pub disable_responses: bool,
}

/// The first bot with the entity.
pub open spec fn reply_bot_of(bots: Seq<ReplyBot>, entity: u64) -> Option<ReplyBot>
    decreases bots.len(),
{
    if bots.len() == 0 {
        None
    } else if bots[0].entity == entity {
        Some(bots[0])
    } else {
        reply_bot_of(bots.skip(1), entity)
    }
}

/// Whether a reply ends the batch: it is for a Minecraft player and its bot is not known.
pub open spec fn stops_replies(e: WhisperEvent, bots: Seq<ReplyBot>) -> bool {
    e.source is Minecraft && e.sender is Minecraft && reply_bot_of(bots, e.entity) is None
}

fn find_reply_bot(bots: &Vec<ReplyBot>, entity: u64) -> (r: Option<usize>)
    ensures
        match r {
            Some(i) => i < bots@.len() && reply_bot_of(bots@, entity) == Some(bots@[i as int]),
            None => reply_bot_of(bots@, entity) is None,
        },
{
    let mut i: usize = 0;
    assert(bots@.skip(0) =~= bots@);
    while i < bots.len()
        invariant
            i <= bots.len(),
            reply_bot_of(bots@.skip(i as int), entity) == reply_bot_of(bots@, entity),
        decreases bots.len() - i,
    {
        assert(bots@.skip(i as int)[0] == bots@[i as int]);
        assert(bots@.skip(i as int).skip(1) =~= bots@.skip(i + 1));
        if bots[i].entity == entity {
            return Some(i);
        }
        i = i + 1;
    }
    None
}

/// The whisper commands for a batch of replies to Minecraft players, in order, each with its
/// bot: the replies are handled up to the first one whose bot is not known, which ends the
/// batch; each handled reply gets what [`reply_whisper_ok`] says for its bot, and a reply
/// that is not for Minecraft gets none.
pub fn handle_minecraft_whisper_event(
    events: &Vec<WhisperEvent>,
    bots: &Vec<ReplyBot>,
    encryption: &ChatEncryption,
) -> (r: Vec<(u64, Option<String>)>)
    ensures
        r@.len() <= events@.len(),
        r@.len() < events@.len() ==> stops_replies(events@[r@.len() as int], bots@),
        forall|i: int| 0 <= i < r@.len() ==> {
            let e = events@[i];
            &&& !stops_replies(e, bots@)
            &&& (#[trigger] r@[i]).0 == e.entity
            &&& match reply_bot_of(bots@, e.entity) {
                Some(b) => reply_whisper_ok(e, b.tab@, b.disable_responses, *encryption, r@[i].1),
                None => r@[i].1 is None,
            }
        },
{
    let mut r: Vec<(u64, Option<String>)> = Vec::new();
    let mut i: usize = 0;
    while i < events.len()
        invariant
            i <= events.len(),
            r@.len() == i,
            forall|k: int| 0 <= k < i ==> {
                let e = events@[k];
                &&& !stops_replies(e, bots@)
                &&& (#[trigger] r@[k]).0 == e.entity
                &&& match reply_bot_of(bots@, e.entity) {
                    Some(b) => reply_whisper_ok(e, b.tab@, b.disable_responses, *encryption, r@[k].1),
                    None => r@[k].1 is None,
                }
            },
        decreases events.len() - i,
    {
        let e = &events[i];
        let out = match find_reply_bot(bots, e.entity) {
            Some(b) => MinecraftChatPlugin::handle_whisper_events(e, &bots[b].tab, bots[b].disable_responses, encryption),
            None => {
                match (e.source, e.sender) {
                    (CommandSource::Minecraft(_), CommandSender::Minecraft(_)) => return r,
                    _ => None,
                }
            },
        };
        r.push((e.entity, out));
        i = i + 1;
    }
    r
}

} // verus!
