//! Logging to Discord webhooks: which webhook each kind of event goes to, taken in turn, and
//! the messages the loggers write.
use vstd::prelude::*;
use crate::chambers::{chamber_list, count_owned_by, owner_count, StasisChambers};
use crate::chat::CommandSender;
use crate::commands::{texts, Cmds};
use crate::swarm::occurs;
use crate::text::{
    chars_of, matches_at, copy_strings, decimal, decimal_u64, join, join_with, push_all, push_str, starts_with,
    string_of, views,
};

verus! {

/// The kinds of events the logger reports.
#[derive(Clone, Copy, PartialEq, Eq, Structural, Debug)]
pub enum EventType {
    PlayerJoin,
    PlayerLeave,
    PlayerEnter,
    PlayerExit,
    PlayerCommand,
    PlayerPearl,
    PlayerBreak,
    PlayerPlace,
}

/// How one kind of event is logged: whether at all, to which webhooks (none means the global
/// ones), and for block events the blocks to report.
pub struct EventConfig {
    pub enabled: bool,
    pub urls: Vec<String>,
    pub blocks: Option<Vec<String>>,
}

/// The configuration of the first entry for the kind of event.
pub open spec fn config_for(cs: Seq<(EventType, EventConfig)>, t: EventType) -> Option<EventConfig>
    decreases cs.len(),
{
    if cs.len() == 0 {
        None
    } else if cs[0].0 == t {
        Some(cs[0].1)
    } else {
        config_for(cs.skip(1), t)
    }
}

/// The webhooks an event goes to: none when the kind is not configured or not enabled, the
/// global ones when it names none, else its own.
pub open spec fn urls_for(cs: Seq<(EventType, EventConfig)>, global: Seq<Seq<char>>, t: EventType) -> Option<Seq<Seq<char>>> {
    match config_for(cs, t) {
        None => None,
        Some(c) => {
            if !c.enabled {
                None
            } else if c.urls@.len() == 0 {
                Some(global)
            } else {
                Some(texts(c.urls@))
            }
        },
    }
}

/// The texts of an optional list.
pub open spec fn opt_texts(o: Option<Vec<String>>) -> Option<Seq<Seq<char>>> {
    match o {
        Some(v) => Some(texts(v@)),
        None => None,
    }
}

/// The counter after one more webhook post; it wraps around.
pub open spec fn next_index(i: usize) -> usize {
    if i == usize::MAX { 0 } else { (i + 1) as usize }
}

/// A message to post to a webhook.
pub struct WebhookPost {
    pub url: String,
    pub content: String,
}

/// Where each kind of event keeps its counter of posts.
pub open spec fn type_slot(t: EventType) -> int {
    match t {
        EventType::PlayerJoin => 0,
        EventType::PlayerLeave => 1,
        EventType::PlayerEnter => 2,
        EventType::PlayerExit => 3,
        EventType::PlayerCommand => 4,
        EventType::PlayerPearl => 5,
        EventType::PlayerBreak => 6,
        EventType::PlayerPlace => 7,
    }
}

fn slot_of(t: EventType) -> (r: usize)
    ensures
        r == type_slot(t),
{
    match t {
        EventType::PlayerJoin => 0,
        EventType::PlayerLeave => 1,
        EventType::PlayerEnter => 2,
        EventType::PlayerExit => 3,
        EventType::PlayerCommand => 4,
        EventType::PlayerPearl => 5,
        EventType::PlayerBreak => 6,
        EventType::PlayerPlace => 7,
    }
}

/// Sends logged events to webhooks, taking the webhooks of each kind of event in turn: every
/// kind keeps its own counter of posts.
pub struct WebhookClient {
    pub configs: Vec<(EventType, EventConfig)>,
    pub global_urls: Vec<String>,
    /// The counter of each kind of event, at its [`type_slot`].
    pub indices: Vec<usize>,
}

/// Where a post of the kind goes, if it goes out: the webhooks of the kind must be known and
/// non-empty and the block (if any) must be logged; the webhook is the one at the kind's
/// counter.
pub open spec fn post_url(
    configs: Seq<(EventType, EventConfig)>,
    global: Seq<Seq<char>>,
    indices: Seq<usize>,
    t: EventType,
    block_logged: bool,
) -> Option<Seq<char>> {
    match urls_for(configs, global, t) {
        Some(urls) => {
            if urls.len() > 0 && block_logged {
                Some(urls[(indices[type_slot(t)] % (urls.len() as usize)) as int])
            } else {
                None
            }
        },
        None => None,
    }
}

/// The counters after a post of the kind is asked for: the kind's counter moves on exactly
/// when the post goes out; the others stay.
pub open spec fn counters_after(
    configs: Seq<(EventType, EventConfig)>,
    global: Seq<Seq<char>>,
    indices: Seq<usize>,
    t: EventType,
    block_logged: bool,
) -> Seq<usize> {
    if post_url(configs, global, indices, t, block_logged) is Some {
        indices.update(type_slot(t), next_index(indices[type_slot(t)]))
    } else {
        indices
    }
}

/// Whether a post goes out, and where, for the client.
pub open spec fn post_outcome(c: WebhookClient, t: EventType, block_logged: bool) -> Option<Seq<char>> {
    post_url(c.configs@, texts(c.global_urls@), c.indices@, t, block_logged)
}

impl WebhookClient {
    /// Every kind of event has its counter.
    pub open spec fn wf(&self) -> bool {
        self.indices@.len() == 8
    }

    /// A client with the configurations and global webhooks, every counter at zero.
    pub fn new(configs: Vec<(EventType, EventConfig)>, global_urls: Vec<String>) -> (c: Self)
        ensures
            c.wf(),
            c.configs == configs,
            c.global_urls == global_urls,
            forall|k: int| 0 <= k < 8 ==> c.indices@[k] == 0,
    {
        let indices: Vec<usize> = vec![0, 0, 0, 0, 0, 0, 0, 0];
        WebhookClient { configs, global_urls, indices }
    }

    fn config_index(&self, t: EventType) -> (r: Option<usize>)
        ensures
            match r {
                Some(i) => i < self.configs@.len() && config_for(self.configs@, t) == Some(self.configs@[i as int].1),
                None => config_for(self.configs@, t) is None,
            },
    {
        let mut i: usize = 0;
        assert(self.configs@.skip(0) =~= self.configs@);
        while i < self.configs.len()
            invariant
                i <= self.configs@.len(),
                config_for(self.configs@.skip(i as int), t) == config_for(self.configs@, t),
            decreases self.configs@.len() - i,
        {
            assert(self.configs@.skip(i as int)[0] == self.configs@[i as int]);
            assert(self.configs@.skip(i as int).skip(1) =~= self.configs@.skip(i + 1));
            if self.configs[i].0 == t {
                return Some(i);
            }
            i = i + 1;
        }
        None
    }

    /// The webhooks an event of the kind goes to.
    pub fn get_urls(&self, t: EventType) -> (r: Option<Vec<String>>)
        ensures
            match r {
                Some(v) => urls_for(self.configs@, texts(self.global_urls@), t) == Some(texts(v@)),
                None => urls_for(self.configs@, texts(self.global_urls@), t) is None,
            },
    {
        match self.config_index(t) {
            None => None,
            Some(i) => {
                let c = &self.configs[i].1;
                if !c.enabled {
                    None
                } else if c.urls.len() == 0 {
                    Some(copy_strings(&self.global_urls))
                } else {
                    Some(copy_strings(&c.urls))
                }
            },
        }
    }

    /// The blocks reported for events of the kind, if it names any.
    pub fn get_blocks(&self, t: EventType) -> (r: Option<Vec<String>>)
        ensures
            opt_texts(r) == match config_for(self.configs@, t) {
                Some(c) => opt_texts(c.blocks),
                None => None,
            },
    {
        match self.config_index(t) {
            None => None,
            Some(i) => match &self.configs[i].1.blocks {
                Some(b) => Some(copy_strings(b)),
                None => None,
            },
        }
    }

    /// The post for an event whose block (if any) is `block_logged`; the kind's counter moves
    /// on exactly when a post goes out.
    pub fn send_with_block(&mut self, t: EventType, content: &str, block_logged: bool) -> (r: Option<WebhookPost>)
        requires
            old(self).wf(),
        ensures
            final(self).wf(),
            final(self).configs == old(self).configs,
            final(self).global_urls == old(self).global_urls,
            final(self).indices@ == counters_after(old(self).configs@, texts(old(self).global_urls@), old(self).indices@, t, block_logged),
            match post_outcome(*old(self), t, block_logged) {
                Some(url) => r matches Some(p) && p.url@ == url && p.content@ == content@,
                None => r is None,
            },
    {
        let urls = match self.get_urls(t) {
            Some(urls) => urls,
            None => return None,
        };
        if urls.len() == 0 || !block_logged {
            return None;
        }
        let slot = slot_of(t);
        let idx = self.indices[slot];
        let next = if idx == usize::MAX { 0 } else { idx + 1 };
        self.indices.set(slot, next);
        let url = urls[idx % urls.len()].clone();
        assert(texts(urls@)[(idx % urls.len()) as int] == url@);
        Some(WebhookPost { url, content: string_of(&chars_of(content)) })
    }

    /// The post for an event with no block.
    pub fn send(&mut self, t: EventType, content: String) -> (r: Option<WebhookPost>)
        requires
            old(self).wf(),
        ensures
            final(self).wf(),
            final(self).configs == old(self).configs,
            final(self).global_urls == old(self).global_urls,
            final(self).indices@ == counters_after(old(self).configs@, texts(old(self).global_urls@), old(self).indices@, t, true),
            match post_outcome(*old(self), t, true) {
                Some(url) => r matches Some(p) && p.url@ == url && p.content@ == content@,
                None => r is None,
            },
    {
        self.send_with_block(t, content.as_str(), true)
    }
}

/// Law: each kind of event takes its webhooks in turn whatever other kinds are posted in
/// between: a post of another kind changes neither this kind's counter nor where its next
/// post goes.
pub proof fn lemma_kinds_keep_their_turn(
    configs: Seq<(EventType, EventConfig)>,
    global: Seq<Seq<char>>,
    indices: Seq<usize>,
    t: EventType,
    u: EventType,
    block_t: bool,
    block_u: bool,
)
    requires
        indices.len() == 8,
        t != u,
    ensures
        counters_after(configs, global, indices, u, block_u)[type_slot(t)] == indices[type_slot(t)],
        post_url(configs, global, counters_after(configs, global, indices, u, block_u), t, block_t)
            == post_url(configs, global, indices, t, block_t),
{
}

/// Law: a post of a kind that goes out moves that kind's counter on by one (wrapping around),
/// so the kind's next post goes to the following webhook.
pub proof fn lemma_post_moves_its_counter(
    configs: Seq<(EventType, EventConfig)>,
    global: Seq<Seq<char>>,
    indices: Seq<usize>,
    t: EventType,
    block_logged: bool,
)
    requires
        indices.len() == 8,
        post_url(configs, global, indices, t, block_logged) is Some,
    ensures
        counters_after(configs, global, indices, t, block_logged)[type_slot(t)] == next_index(indices[type_slot(t)]),
{
}

/// Law: the webhooks of an event are taken in turn. Successive posts of a kind, while its counter does
/// not wrap, go to positions that differ until every one of the `n` webhooks has had one.
pub proof fn lemma_round_robin(i: usize, a: int, b: int, n: int)
    requires
        0 <= a < b < n,
        i + b <= usize::MAX,
    ensures
        (i + a) % n != (i + b) % n,
{
    let x = i + a;
    let y = i + b;
    assert(y - x == b - a);
    vstd::arithmetic::div_mod::lemma_fundamental_div_mod(x, n);
    vstd::arithmetic::div_mod::lemma_fundamental_div_mod(y, n);
    if x % n == y % n {
        assert(n * (y / n) - n * (x / n) == b - a);
        vstd::arithmetic::mul::lemma_mul_is_distributive_sub(n, y / n, x / n);
        if y / n - x / n >= 1 {
            vstd::arithmetic::mul::lemma_mul_inequality(1, y / n - x / n, n);
            assert(n * (y / n - x / n) >= n) by (nonlinear_arith)
                requires
                    y / n - x / n >= 1,
                    n > 0,
            ;
        } else {
            assert(n * (y / n - x / n) <= 0) by (nonlinear_arith)
                requires
                    y / n - x / n <= 0,
                    n > 0,
            ;
        }
    }
}

/// The logger settings for one kind of event.
pub struct EventSettings {
    pub enabled: bool,
    pub webhooks: Option<Vec<String>>,
    pub blocks: Option<Vec<String>>,
}

/// The logger settings: the global webhooks and each kind of event.
pub struct LoggerSettings {
    pub webhooks: Vec<String>,
    pub player_join: EventSettings,
    pub player_leave: EventSettings,
    pub player_enter: EventSettings,
    pub player_exit: EventSettings,
    pub player_command: EventSettings,
    pub player_pearl: EventSettings,
    pub player_break: EventSettings,
    pub player_place: EventSettings,
}

/// The kinds of events in the order their configurations are made.
pub open spec fn event_types() -> Seq<EventType> {
    seq![
        EventType::PlayerJoin,
        EventType::PlayerLeave,
        EventType::PlayerEnter,
        EventType::PlayerExit,
        EventType::PlayerCommand,
        EventType::PlayerPearl,
        EventType::PlayerBreak,
        EventType::PlayerPlace,
    ]
}

/// The settings of one kind of event.
pub open spec fn settings_for(s: LoggerSettings, t: EventType) -> EventSettings {
    match t {
        EventType::PlayerJoin => s.player_join,
        EventType::PlayerLeave => s.player_leave,
        EventType::PlayerEnter => s.player_enter,
        EventType::PlayerExit => s.player_exit,
        EventType::PlayerCommand => s.player_command,
        EventType::PlayerPearl => s.player_pearl,
        EventType::PlayerBreak => s.player_break,
        EventType::PlayerPlace => s.player_place,
    }
}

/// Whether the kind of event reports blocks.
pub open spec fn has_blocks(t: EventType) -> bool {
    t is PlayerBreak || t is PlayerPlace
}

/// The configuration made from the settings of a kind of event: enabled as set, its webhooks
/// or none, and its blocks only for block events.
pub open spec fn config_from(c: EventConfig, s: EventSettings, t: EventType) -> bool {
    &&& c.enabled == s.enabled
    &&& texts(c.urls@) == match s.webhooks {
        Some(w) => texts(w@),
        None => Seq::<Seq<char>>::empty(),
    }
    &&& opt_texts(c.blocks) == if has_blocks(t) { opt_texts(s.blocks) } else { None }
}

fn copy_opt(o: &Option<Vec<String>>) -> (r: Option<Vec<String>>)
    ensures
        opt_texts(r) == opt_texts(*o),
{
    match o {
        Some(v) => Some(copy_strings(v)),
        None => None,
    }
}

fn make_config(s: &EventSettings, t: EventType) -> (c: EventConfig)
    ensures
        config_from(c, *s, t),
{
    let urls = match &s.webhooks {
        Some(w) => copy_strings(w),
        None => {
            let v: Vec<String> = Vec::new();
            assert(texts(v@) =~= Seq::<Seq<char>>::empty());
            v
        },
    };
    let blocks = match t {
        EventType::PlayerBreak | EventType::PlayerPlace => copy_opt(&s.blocks),
        _ => None,
    };
    EventConfig { enabled: s.enabled, urls, blocks }
}

/// The logger plugin.
pub struct LoggerPlugin;

impl LoggerPlugin {
    /// The webhook client the logger runs with: none without global webhooks, else one
    /// configuration per kind of event, in order, made from its settings.
    pub fn build(settings: &LoggerSettings) -> (r: Option<WebhookClient>)
        ensures
            r is None <==> settings.webhooks@.len() == 0,
            r matches Some(c) ==> {
                &&& c.wf()
                &&& forall|i: int| 0 <= i < 8 ==> c.indices@[i] == 0
                &&& texts(c.global_urls@) == texts(settings.webhooks@)
                &&& c.configs@.len() == 8
                &&& forall|k: int| 0 <= k < 8 ==> (#[trigger] c.configs@[k]).0 == event_types()[k]
                    && config_from(c.configs@[k].1, settings_for(*settings, event_types()[k]), event_types()[k])
            },
    {
        if settings.webhooks.len() == 0 {
            return None;
        }
        let mut configs: Vec<(EventType, EventConfig)> = Vec::new();
        configs.push((EventType::PlayerJoin, make_config(&settings.player_join, EventType::PlayerJoin)));
        configs.push((EventType::PlayerLeave, make_config(&settings.player_leave, EventType::PlayerLeave)));
        configs.push((EventType::PlayerEnter, make_config(&settings.player_enter, EventType::PlayerEnter)));
        configs.push((EventType::PlayerExit, make_config(&settings.player_exit, EventType::PlayerExit)));
        configs.push((EventType::PlayerCommand, make_config(&settings.player_command, EventType::PlayerCommand)));
        configs.push((EventType::PlayerPearl, make_config(&settings.player_pearl, EventType::PlayerPearl)));
        configs.push((EventType::PlayerBreak, make_config(&settings.player_break, EventType::PlayerBreak)));
        configs.push((EventType::PlayerPlace, make_config(&settings.player_place, EventType::PlayerPlace)));
        let c = WebhookClient::new(configs, copy_strings(&settings.webhooks));
        assert forall|k: int| 0 <= k < 8 implies (#[trigger] c.configs@[k]).0 == event_types()[k]
            && config_from(c.configs@[k].1, settings_for(*settings, event_types()[k]), event_types()[k]) by {}
        Some(c)
    }
}

/// `[username] rest`: how every log line begins.
pub open spec fn tagged(username: Seq<char>, rest: Seq<char>) -> Seq<char> {
    "["@ + username + "] "@ + rest
}

/// A player coming into or leaving the bot's view.
#[derive(Clone, Copy, PartialEq, Eq, Structural, Debug)]
pub enum RangeChange {
    Entered,
    Exited,
    LoggedOut,
    JoinedIn,
}

/// The words for each change.
pub open spec fn range_change_text(c: RangeChange) -> Seq<char> {
    match c {
        RangeChange::Entered => " has entered visual range."@,
        RangeChange::Exited => " has exited visual range."@,
        RangeChange::LoggedOut => " logged out in visual range."@,
        RangeChange::JoinedIn => " joined in visual range."@,
    }
}

fn range_change_str(c: RangeChange) -> (r: &'static str)
    ensures
        r@ == range_change_text(c),
{
    match c {
        RangeChange::Entered => " has entered visual range.",
        RangeChange::Exited => " has exited visual range.",
        RangeChange::LoggedOut => " logged out in visual range.",
        RangeChange::JoinedIn => " joined in visual range.",
    }
}

/// The line for a player coming into or leaving the view of the bot `username`.
pub fn visual_range_text(username: &str, player: &str, change: RangeChange) -> (r: String)
    ensures
        r@ == tagged(username@, player@ + range_change_text(change)),
{
    let mut v = chars_of("[");
    push_str(&mut v, username);
    push_str(&mut v, "] ");
    push_str(&mut v, player);
    push_str(&mut v, range_change_str(change));
    assert(v@ =~= tagged(username@, player@ + range_change_text(change)));
    string_of(&v)
}

/// The line for a block mined (or placed) in view; `block` is the block's name.
pub fn block_text(username: &str, block: &str, mined: bool) -> (r: String)
    ensures
        r@ == tagged(username@, block@ + if mined { " was mined in visual range."@ } else { " was placed in visual range."@ }),
{
    let mut v = chars_of("[");
    push_str(&mut v, username);
    push_str(&mut v, "] ");
    push_str(&mut v, block);
    if mined {
        push_str(&mut v, " was mined in visual range.");
    } else {
        push_str(&mut v, " was placed in visual range.");
    }
    assert(v@ =~= tagged(username@, block@ + if mined { " was mined in visual range."@ } else { " was placed in visual range."@ }));
    string_of(&v)
}

/// The line for the bot joining the server.
pub fn joined_game_text(username: &str) -> (r: String)
    ensures
        r@ == tagged(username@, "joined the game."@),
{
    let mut v = chars_of("[");
    push_str(&mut v, username);
    push_str(&mut v, "] ");
    push_str(&mut v, "joined the game.");
    assert(v@ =~= tagged(username@, "joined the game."@));
    string_of(&v)
}

/// How a proxy that stops reconnecting words its disconnect reasons.
pub open spec fn zenith_prefix() -> Seq<char> {
    "[AutoDisconnect] "@
}

/// The line for a disconnect with a reason: the proxy's reasons turn reconnecting off.
pub open spec fn left_text(username: Seq<char>, reason: Seq<char>) -> Seq<char> {
    if zenith_prefix().len() <= reason.len() && reason.take(zenith_prefix().len() as int) == zenith_prefix() {
        tagged(username, "Disabling AutoReconnect"@)
    } else {
        tagged(username, "left the game. | "@ + reason)
    }
}

fn left_line(username: &str, reason: &str) -> (r: String)
    ensures
        r@ == left_text(username@, reason@),
{
    let mut v = chars_of("[");
    push_str(&mut v, username);
    push_str(&mut v, "] ");
    if starts_with(reason, "[AutoDisconnect] ") {
        push_str(&mut v, "Disabling AutoReconnect");
        assert(v@ =~= tagged(username@, "Disabling AutoReconnect"@));
    } else {
        push_str(&mut v, "left the game. | ");
        push_str(&mut v, reason);
        assert(v@ =~= tagged(username@, "left the game. | "@ + reason@));
    }
    string_of(&v)
}

/// The webhook logger's line for a disconnect.
pub fn disconnect_text(username: &str, reason: &Option<String>) -> (r: String)
    ensures
        r@ == match reason {
            Some(t) => left_text(username@, t@),
            None => tagged(username@, "disconnected."@),
        },
{
    match reason {
        Some(t) => left_line(username, t.as_str()),
        None => {
            let mut v = chars_of("[");
            push_str(&mut v, username);
            push_str(&mut v, "] ");
            push_str(&mut v, "disconnected.");
            assert(v@ =~= tagged(username@, "disconnected."@));
            string_of(&v)
        },
    }
}

/// The Discord logger's line for a disconnect: none without a reason.
pub fn discord_disconnect_text(username: &str, reason: &Option<String>) -> (r: Option<String>)
    ensures
        match reason {
            Some(t) => r matches Some(l) && l@ == left_text(username@, t@),
            None => r is None,
        },
{
    match reason {
        Some(t) => Some(left_line(username, t.as_str())),
        None => None,
    }
}

/// How a command's name is written in the log.
pub open spec fn cmd_name(c: Cmds) -> Seq<char> {
    match c {
        Cmds::Interact => "/interact"@,
        Cmds::Join => "/join"@,
        Cmds::Leave => "/leave"@,
        Cmds::Pearl => "/pearl"@,
        Cmds::Playtime => "/playtime"@,
        Cmds::Seen => "/seen"@,
        Cmds::Whitelist => "/whitelist"@,
    }
}

fn cmd_name_str(c: Cmds) -> (r: &'static str)
    ensures
        r@ == cmd_name(c),
{
    match c {
        Cmds::Interact => "/interact",
        Cmds::Join => "/join",
        Cmds::Leave => "/leave",
        Cmds::Pearl => "/pearl",
        Cmds::Playtime => "/playtime",
        Cmds::Seen => "/seen",
        Cmds::Whitelist => "/whitelist",
    }
}

/// How the sender of a command is written in the log.
pub open spec fn sender_text(s: CommandSender) -> Seq<char> {
    match s {
        CommandSender::Minecraft(_) => "console"@,
        CommandSender::Discord(id) => "discord:"@ + decimal(id as nat),
        CommandSender::ApiServer(_) => "api"@,
    }
}

/// The line for a command: its name and arguments, joined by spaces, and who sent it.
pub open spec fn command_line(username: Seq<char>, c: Cmds, args: Seq<Seq<char>>, sender: CommandSender) -> Seq<char> {
    let joined = join_with(args, " "@);
    if joined.len() == 0 {
        tagged(username, "ran `"@ + cmd_name(c) + "` ("@ + sender_text(sender) + ")"@)
    } else {
        tagged(username, "ran `"@ + cmd_name(c) + " "@ + joined + "` ("@ + sender_text(sender) + ")"@)
    }
}

/// Writes the line for a command.
pub fn command_text(username: &str, c: Cmds, args: &Vec<String>, sender: CommandSender) -> (r: String)
    ensures
        r@ == command_line(username@, c, texts(args@), sender),
{
    let mut parts: Vec<Vec<char>> = Vec::new();
    let mut i: usize = 0;
    while i < args.len()
        invariant
            i <= args.len(),
            views(parts@) == texts(args@).take(i as int),
        decreases args.len() - i,
    {
        let ghost before = parts@;
        let a = chars_of(args[i].as_str());
        parts.push(a);
        assert(views(parts@) =~= views(before).push(a@));
        assert(texts(args@).take(i + 1) =~= texts(args@).take(i as int).push(args@[i as int]@));
        i = i + 1;
    }
    assert(texts(args@).take(args.len() as int) =~= texts(args@));
    let joined = join(&parts, &chars_of(" "));
    let mut who: Vec<char> = match sender {
        CommandSender::Minecraft(_) => chars_of("console"),
        CommandSender::Discord(id) => {
            let mut w = chars_of("discord:");
            push_all(&mut w, &decimal_u64(id));
            w
        },
        CommandSender::ApiServer(_) => chars_of("api"),
    };
    assert(who@ == sender_text(sender));
    let mut v = chars_of("[");
    push_str(&mut v, username);
    push_str(&mut v, "] ");
    push_str(&mut v, "ran `");
    push_str(&mut v, cmd_name_str(c));
    if joined.len() == 0 {
        push_str(&mut v, "` (");
        push_all(&mut v, &who);
        push_str(&mut v, ")");
        assert(v@ =~= tagged(username@, "ran `"@ + cmd_name(c) + "` ("@ + sender_text(sender) + ")"@));
    } else {
        push_str(&mut v, " ");
        push_all(&mut v, &joined);
        push_str(&mut v, "` (");
        push_all(&mut v, &who);
        push_str(&mut v, ")");
        assert(v@ =~= tagged(username@, "ran `"@ + cmd_name(c) + " "@ + join_with(texts(args@), " "@) + "` ("@ + sender_text(sender) + ")"@));
    }
    string_of(&v)
}

/// The line for a pulled pearl: how many of the owner's pearls remain, or by how much they
/// are over the limit.
pub open spec fn pearl_line(username: Seq<char>, location: Seq<char>, count: nat, limit: nat) -> Seq<char> {
    if count <= limit {
        tagged(username, "pearl at `"@ + location + "` pulled ("@ + decimal(count) + " remaining)"@)
    } else {
        tagged(username, "pearl at `"@ + location + "` pulled (over limit: "@ + decimal(count) + "/"@ + decimal(limit) + ")"@)
    }
}

/// Writes the line for a pulled pearl.
pub fn pearl_text(username: &str, location: &str, count: u64, limit: u64) -> (r: String)
    ensures
        r@ == pearl_line(username@, location@, count as nat, limit as nat),
{
    let mut v = chars_of("[");
    push_str(&mut v, username);
    push_str(&mut v, "] ");
    push_str(&mut v, "pearl at `");
    push_str(&mut v, location);
    if count <= limit {
        push_str(&mut v, "` pulled (");
        push_all(&mut v, &decimal_u64(count));
        push_str(&mut v, " remaining)");
        assert(v@ =~= tagged(username@, "pearl at `"@ + location@ + "` pulled ("@ + decimal(count as nat) + " remaining)"@));
    } else {
        push_str(&mut v, "` pulled (over limit: ");
        push_all(&mut v, &decimal_u64(count));
        push_str(&mut v, "/");
        push_all(&mut v, &decimal_u64(limit));
        push_str(&mut v, ")");
        assert(v@ =~= tagged(username@, "pearl at `"@ + location@ + "` pulled (over limit: "@ + decimal(count as nat) + "/"@ + decimal(limit as nat) + ")"@));
    }
    string_of(&v)
}

/// The line for a pulled pearl of `owner`, counting the owner's chambers.
pub fn pearl_log_text(username: &str, location: &str, chambers: &StasisChambers, owner: u128, limit: u64) -> (r: String)
    ensures
        r@ == pearl_line(username@, location@, owner_count(chamber_list(*chambers), owner), limit as nat),
{
    let count = count_owned_by(chambers, owner);
    pearl_text(username, location, count as u64, limit)
}

/// Game ticks in a day: twenty a second, 20 * 60 * 60 * 24.
pub open spec fn day_ticks() -> u128 {
    1728000
}

/// Whether the Discord logger checks for updates at this tick: once a day.
pub fn is_update_tick(ticks: u128) -> (r: bool)
    ensures
        r == (ticks % day_ticks() == 0),
{
    ticks % 1728000 == 0
}

/// The Discord channels to tell about a new release at this tick, from each bot's ticks and
/// channel in turn: a bot without a channel (zero) ends the check; a bot whose day has not
/// come round is passed by.
pub open spec fn update_channels(bots: Seq<(u128, u64)>) -> Seq<u64>
    decreases bots.len(),
{
    if bots.len() == 0 || bots[0].1 == 0 {
        Seq::empty()
    } else if bots[0].0 % day_ticks() != 0 {
        update_channels(bots.skip(1))
    } else {
        seq![bots[0].1] + update_channels(bots.skip(1))
    }
}

/// The channels to check for a new release for, as [`update_channels`] says.
pub fn handle_check_for_updates(bots: &Vec<(u128, u64)>) -> (r: Vec<u64>)
    ensures
        r@ == update_channels(bots@),
{
    let mut r: Vec<u64> = Vec::new();
    let mut i: usize = 0;
    assert(bots@.skip(0) =~= bots@);
    assert(r@ + update_channels(bots@) =~= update_channels(bots@));
    while i < bots.len()
        invariant
            i <= bots.len(),
            r@ + update_channels(bots@.skip(i as int)) == update_channels(bots@),
        decreases bots.len() - i,
    {
        let (ticks, channel) = bots[i];
        let ghost rest = bots@.skip(i as int);
        assert(rest[0] == bots@[i as int]);
        assert(rest.skip(1) =~= bots@.skip(i + 1));
        if channel == 0 {
            assert(r@ + Seq::<u64>::empty() =~= r@);
            return r;
        }
        if is_update_tick(ticks) {
            let ghost before = r@;
            r.push(channel);
            assert(r@ + update_channels(bots@.skip(i + 1)) =~= before + (seq![channel] + update_channels(bots@.skip(i + 1))));
        }
        i = i + 1;
    }
    assert(bots@.skip(i as int) =~= Seq::<(u128, u64)>::empty());
    assert(r@ + Seq::<u64>::empty() =~= r@);
    r
}

/// The blocks reported when a block event names none: every shulker box and the storage
/// blocks of netherite, gold, diamond, emerald, lapis and redstone.
pub open spec fn default_blocks() -> Seq<Seq<char>> {
    seq![
        "shulker_box"@,
        "netherite_block"@,
        "gold_block"@,
        "diamond_block"@,
        "emerald_block"@,
        "lapis_block"@,
        "redstone_block"@,
    ]
}

fn default_block_strs() -> (r: Vec<&'static str>)
    ensures
        r@.map_values(|b: &'static str| b@) == default_blocks(),
{
    let r = vec![
        "shulker_box",
        "netherite_block",
        "gold_block",
        "diamond_block",
        "emerald_block",
        "lapis_block",
        "redstone_block",
    ];
    assert(r@.map_values(|b: &'static str| b@) =~= default_blocks());
    r
}

/// Whether a block is reported: the list given (or, when none is given, the default list) is
/// empty, or one of its entries occurs in the block's id; an empty entry matches every block.
pub open spec fn block_logged(id: Seq<char>, blocks: Option<Seq<Seq<char>>>) -> bool {
    match blocks {
        Some(b) => matches_list(id, b),
        None => matches_list(id, default_blocks()),
    }
}

/// Whether a block list takes the block: it is empty, or one of its entries occurs in the id.
pub open spec fn matches_list(id: Seq<char>, list: Seq<Seq<char>>) -> bool {
    list.len() == 0 || exists|i: int| 0 <= i < list.len() && occurs(id, #[trigger] list[i])
}

/// Whether `pat` occurs in `s`.
fn occurs_in(s: &Vec<char>, pat: &Vec<char>) -> (r: bool)
    ensures
        r == occurs(s@, pat@),
{
    let mut i: usize = 0;
    while i < s.len()
        invariant
            i <= s.len(),
            forall|k: int| 0 <= k < i && k + pat@.len() <= s@.len() ==> #[trigger] s@.subrange(k, k + pat@.len()) != pat@,
        decreases s.len() - i,
    {
        if matches_at(s, i, pat) {
            assert(s@.subrange(i as int, i + pat@.len()) == pat@);
            return true;
        }
        i = i + 1;
    }
    if matches_at(s, i, pat) {
        assert(s@.subrange(i as int, i + pat@.len()) == pat@);
        return true;
    }
    proof {
        assert forall|k: int| 0 <= k && k + pat@.len() <= s@.len() implies #[trigger] s@.subrange(k, k + pat@.len()) != pat@ by {
            if k == i {
            } else {
                assert(k < i);
            }
        }
    }
    false
}

/// Whether a block event is reported, by the block's id and the kind's block list.
pub fn is_logged_block(id: &str, blocks: &Option<Vec<String>>) -> (r: bool)
    ensures
        r == block_logged(id@, opt_texts(*blocks)),
{
    let s = chars_of(id);
    match blocks {
        Some(b) => {
            if b.len() == 0 {
                return true;
            }
            let mut i: usize = 0;
            while i < b.len()
                invariant
                    i <= b.len(),
                    s@ == id@,
                    opt_texts(*blocks) == Some(texts(b@)),
                    forall|j: int| 0 <= j < i ==> !occurs(id@, #[trigger] texts(b@)[j]),
                decreases b.len() - i,
            {
                assert(texts(b@)[i as int] == b@[i as int]@);
                if occurs_in(&s, &chars_of(b[i].as_str())) {
                    assert(occurs(id@, texts(b@)[i as int]));
                    assert(matches_list(id@, texts(b@)));
                    return true;
                }
                i = i + 1;
            }
            false
        },
        None => {
            let d = default_block_strs();
            assert(d@.len() == default_blocks().len());
            let mut i: usize = 0;
            while i < d.len()
                invariant
                    i <= d.len(),
                    d@.len() == default_blocks().len(),
                    opt_texts(*blocks) is None,
                    s@ == id@,
                    d@.map_values(|b: &'static str| b@) == default_blocks(),
                    forall|j: int| 0 <= j < i ==> !occurs(id@, #[trigger] default_blocks()[j]),
                decreases d.len() - i,
            {
                assert(default_blocks()[i as int] == d@[i as int]@);
                if occurs_in(&s, &chars_of(d[i])) {
                    assert(occurs(id@, default_blocks()[i as int]));
                    assert(i < default_blocks().len());
                    assert(matches_list(id@, default_blocks()));
                    return true;
                }
                i = i + 1;
            }
            false
        },
    }
}

/// The line announcing a new release.
pub fn update_text(repository: &str, version: &str) -> (r: String)
    ensures
        r@ == "Update: "@ + repository@ + "/releases/tag/"@ + version@,
{
    let mut v = chars_of("Update: ");
    push_str(&mut v, repository);
    push_str(&mut v, "/releases/tag/");
    push_str(&mut v, version);
    string_of(&v)
}

/// Whether the Discord logger reports a block: its id ends with `shulker_box`.
pub fn is_shulker_box(id: &str) -> (r: bool)
    ensures
        r == ("shulker_box"@.len() <= id@.len() && id@.skip(id@.len() - "shulker_box"@.len()) == "shulker_box"@),
{
    crate::text::ends_with(id, "shulker_box")
}

/// A player the bot has seen: entity number, UUID and name.
pub struct Profile {
    pub entity_id: i32,
    pub uuid: u128,
    pub name: String,
}

/// The name of the first profile with the UUID.
pub open spec fn name_by_profile_uuid(ps: Seq<Profile>, uuid: u128) -> Option<Seq<char>>
    decreases ps.len(),
{
    if ps.len() == 0 {
        None
    } else if ps[0].uuid == uuid {
        Some(ps[0].name@)
    } else {
        name_by_profile_uuid(ps.skip(1), uuid)
    }
}

/// The name of the first profile with the entity number.
pub open spec fn name_by_entity(ps: Seq<Profile>, id: i32) -> Option<Seq<char>>
    decreases ps.len(),
{
    if ps.len() == 0 {
        None
    } else if ps[0].entity_id == id {
        Some(ps[0].name@)
    } else {
        name_by_entity(ps.skip(1), id)
    }
}

fn find_profile_uuid(ps: &Vec<Profile>, uuid: u128) -> (r: Option<usize>)
    ensures
        match r {
            Some(i) => i < ps@.len() && name_by_profile_uuid(ps@, uuid) == Some(ps@[i as int].name@),
            None => name_by_profile_uuid(ps@, uuid) is None,
        },
{
    let mut i: usize = 0;
    assert(ps@.skip(0) =~= ps@);
    while i < ps.len()
        invariant
            i <= ps.len(),
            name_by_profile_uuid(ps@.skip(i as int), uuid) == name_by_profile_uuid(ps@, uuid),
        decreases ps.len() - i,
    {
        assert(ps@.skip(i as int)[0] == ps@[i as int]);
        assert(ps@.skip(i as int).skip(1) =~= ps@.skip(i + 1));
        if ps[i].uuid == uuid {
            return Some(i);
        }
        i = i + 1;
    }
    None
}

fn find_profile_entity(ps: &Vec<Profile>, id: i32) -> (r: Option<usize>)
    ensures
        match r {
            Some(i) => i < ps@.len() && name_by_entity(ps@, id) == Some(ps@[i as int].name@),
            None => name_by_entity(ps@, id) is None,
        },
{
    let mut i: usize = 0;
    assert(ps@.skip(0) =~= ps@);
    while i < ps.len()
        invariant
            i <= ps.len(),
            name_by_entity(ps@.skip(i as int), id) == name_by_entity(ps@, id),
        decreases ps.len() - i,
    {
        assert(ps@.skip(i as int)[0] == ps@[i as int]);
        assert(ps@.skip(i as int).skip(1) =~= ps@.skip(i + 1));
        if ps[i].entity_id == id {
            return Some(i);
        }
        i = i + 1;
    }
    None
}

/// The lines for players leaving the tab list (by UUID) whom the bot had seen.
pub open spec fn logged_out_lines(username: Seq<char>, ps: Seq<Profile>, removed: Seq<u128>) -> Seq<Seq<char>>
    decreases removed.len(),
{
    if removed.len() == 0 {
        Seq::empty()
    } else {
        let prev = logged_out_lines(username, ps, removed.drop_last());
        match name_by_profile_uuid(ps, removed.last()) {
            Some(n) => prev.push(tagged(username, n + range_change_text(RangeChange::LoggedOut))),
            None => prev,
        }
    }
}

/// The lines for players who left the tab list in view.
pub fn logged_out_texts(username: &str, ps: &Vec<Profile>, removed: &Vec<u128>) -> (r: Vec<String>)
    ensures
        r@.map_values(|s: String| s@) == logged_out_lines(username@, ps@, removed@),
{
    let mut r: Vec<String> = Vec::new();
    let mut i: usize = 0;
    while i < removed.len()
        invariant
            i <= removed.len(),
            r@.map_values(|s: String| s@) == logged_out_lines(username@, ps@, removed@.take(i as int)),
        decreases removed.len() - i,
    {
        assert(removed@.take(i + 1).drop_last() =~= removed@.take(i as int));
        assert(removed@.take(i + 1).last() == removed@[i as int]);
        match find_profile_uuid(ps, removed[i]) {
            Some(k) => {
                let ghost before = r@;
                let line = visual_range_text(username, ps[k].name.as_str(), RangeChange::LoggedOut);
                r.push(line);
                assert(r@.map_values(|s: String| s@) =~= before.map_values(|s: String| s@).push(line@));
            },
            None => {},
        }
        i = i + 1;
    }
    assert(removed@.take(removed.len() as int) =~= removed@);
    r
}

/// A tab-list entry in a player-info update: the UUID and whether it has a display name.
#[derive(Clone, Copy, PartialEq, Eq, Structural, Debug)]
pub struct InfoEntry {
    pub uuid: u128,
    pub has_display_name: bool,
}

/// The lines for players added to the tab list in view: those the bot has seen that come
/// with a display name; none unless the update adds players.
pub open spec fn joined_lines(username: Seq<char>, ps: Seq<Profile>, entries: Seq<InfoEntry>) -> Seq<Seq<char>>
    decreases entries.len(),
{
    if entries.len() == 0 {
        Seq::empty()
    } else {
        let prev = joined_lines(username, ps, entries.drop_last());
        let e = entries.last();
        match name_by_profile_uuid(ps, e.uuid) {
            Some(n) if e.has_display_name => prev.push(tagged(username, n + range_change_text(RangeChange::JoinedIn))),
            _ => prev,
        }
    }
}

/// The lines for a player-info update.
pub fn joined_texts(username: &str, ps: &Vec<Profile>, add_player: bool, entries: &Vec<InfoEntry>) -> (r: Vec<String>)
    ensures
        !add_player ==> r@.len() == 0,
        add_player ==> r@.map_values(|s: String| s@) == joined_lines(username@, ps@, entries@),
{
    let mut r: Vec<String> = Vec::new();
    if !add_player {
        return r;
    }
    let mut i: usize = 0;
    while i < entries.len()
        invariant
            i <= entries.len(),
            r@.map_values(|s: String| s@) == joined_lines(username@, ps@, entries@.take(i as int)),
        decreases entries.len() - i,
    {
        assert(entries@.take(i + 1).drop_last() =~= entries@.take(i as int));
        assert(entries@.take(i + 1).last() == entries@[i as int]);
        let e = entries[i];
        if e.has_display_name {
            match find_profile_uuid(ps, e.uuid) {
                Some(k) => {
                    let ghost before = r@;
                    let line = visual_range_text(username, ps[k].name.as_str(), RangeChange::JoinedIn);
                    r.push(line);
                    assert(r@.map_values(|s: String| s@) =~= before.map_values(|s: String| s@).push(line@));
                },
                None => {},
            }
        }
        i = i + 1;
    }
    assert(entries@.take(entries.len() as int) =~= entries@);
    r
}

/// The lines for entities that left view and that the bot knew as players.
pub open spec fn exited_lines(username: Seq<char>, ps: Seq<Profile>, ids: Seq<i32>) -> Seq<Seq<char>>
    decreases ids.len(),
{
    if ids.len() == 0 {
        Seq::empty()
    } else {
        let prev = exited_lines(username, ps, ids.drop_last());
        match name_by_entity(ps, ids.last()) {
            Some(n) => prev.push(tagged(username, n + range_change_text(RangeChange::Exited))),
            None => prev,
        }
    }
}

/// The lines for removed entities.
pub fn exited_texts(username: &str, ps: &Vec<Profile>, ids: &Vec<i32>) -> (r: Vec<String>)
    ensures
        r@.map_values(|s: String| s@) == exited_lines(username@, ps@, ids@),
{
    let mut r: Vec<String> = Vec::new();
    let mut i: usize = 0;
    while i < ids.len()
        invariant
            i <= ids.len(),
            r@.map_values(|s: String| s@) == exited_lines(username@, ps@, ids@.take(i as int)),
        decreases ids.len() - i,
    {
        assert(ids@.take(i + 1).drop_last() =~= ids@.take(i as int));
        assert(ids@.take(i + 1).last() == ids@[i as int]);
        match find_profile_entity(ps, ids[i]) {
            Some(k) => {
                let ghost before = r@;
                let line = visual_range_text(username, ps[k].name.as_str(), RangeChange::Exited);
                r.push(line);
                assert(r@.map_values(|s: String| s@) =~= before.map_values(|s: String| s@).push(line@));
            },
            None => {},
        }
        i = i + 1;
    }
    assert(ids@.take(ids.len() as int) =~= ids@);
    r
}

/// The line for a player entity that appeared, when the bot's tab list has the player.
pub fn entered_text(username: &str, is_player: bool, uuid: u128, tab: &Vec<crate::chat::TabEntry>) -> (r: Option<String>)
    ensures
        match crate::chat::name_by_uuid(tab@, uuid) {
            Some(n) if is_player => r matches Some(t) && t@ == tagged(username@, n + range_change_text(RangeChange::Entered)),
            _ => r is None,
        },
{
    if !is_player {
        return None;
    }
    match crate::chat::find_name(tab, uuid) {
        Some(n) => Some(visual_range_text(username, n.as_str(), RangeChange::Entered)),
        None => None,
    }
}

} // verus!
