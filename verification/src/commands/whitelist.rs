//! The whitelist command: add or remove players, link a player to a Discord account, or set
//! the player's API password.
use vstd::prelude::*;
use crate::chat::{find_uuid, uuid_by_name, CommandEvent, CommandSender, TabEntry, WhisperEvent};
use crate::commands::{texts, Cmds};
use crate::settings::{User, Users};
use crate::text::{chars_of, decimal, decimal_u64, parse_u64, parse_u64_spec, push_all, push_str, string_of};

verus! {

/// The authentication service's answer for a Discord link code, as read by the caller.
pub enum AuthReply {
    /// The request failed.
    Failed,
    /// The service answered with an HTTP status and a body that is not the expected JSON.
    Unparsed(u16),
    /// The service answered with an HTTP status and the parsed body.
    Parsed(u16, AuthJson),
}

/// The body the authentication service answers with.
pub struct AuthJson {
    pub message: String,
    pub status: String,
    pub uuid: Option<u128>,
}

/// A Discord user id as `UserId::from_str` reads it: a non-zero `u64`.
pub open spec fn discord_user_id(s: Seq<char>) -> Option<u64> {
    match parse_u64_spec(s) {
        Some(n) => if n == 0 { None } else { Some(n) },
        None => None,
    }
}

/// The users after `uuid` is given the Discord id and password, where given; a new user
/// starts with neither.
pub open spec fn upserted(
    old: Map<u128, User>,
    new: Map<u128, User>,
    uuid: u128,
    discord: Option<Seq<char>>,
    password: Option<Seq<char>>,
) -> bool {
    &&& new.dom() == old.dom().insert(uuid)
    &&& forall|k: u128| k != uuid && #[trigger] old.contains_key(k) ==> new[k] == old[k]
    &&& new[uuid].discord_id@ == match discord {
        Some(d) => d,
        None => if old.contains_key(uuid) { old[uuid].discord_id@ } else { Seq::empty() },
    }
    &&& new[uuid].api_password@ == match password {
        Some(p) => p,
        None => if old.contains_key(uuid) { old[uuid].api_password@ } else { Seq::empty() },
    }
}

/// `add`: whitelist the player named, found in the tab list.
pub open spec fn add_ok(args: Seq<Seq<char>>, tab: Seq<TabEntry>, old: Map<u128, User>, new: Map<u128, User>, status: u16, text: Seq<char>) -> bool {
    let unchanged = new == old;
    if args.len() < 2 {
        unchanged && status == 404 && text == "Missing player name"@
    } else {
        match uuid_by_name(tab, args[1]) {
            None => unchanged && status == 404 && text == "Player not found"@,
            Some(u) => if old.contains_key(u) {
                unchanged && status == 409 && text == "Already whitelisted"@
            } else {
                upserted(old, new, u, None, None) && status == 200 && text == "Successfully added: "@ + args[1]
            },
        }
    }
}

/// `remove`: take the player named, found in the tab list, off the whitelist.
pub open spec fn remove_ok(args: Seq<Seq<char>>, tab: Seq<TabEntry>, old: Map<u128, User>, new: Map<u128, User>, status: u16, text: Seq<char>) -> bool {
    let unchanged = new == old;
    if args.len() < 2 {
        unchanged && status == 404 && text == "Missing Minecraft player name"@
    } else {
        match uuid_by_name(tab, args[1]) {
            None => unchanged && status == 404 && text == "Player not found"@,
            Some(u) => if old.contains_key(u) {
                new == old.remove(u) && status == 200 && text == "Successfully removed: "@ + args[1]
            } else {
                unchanged && status == 409 && text == "Already not whitelisted"@
            },
        }
    }
}

/// `link`: from Discord, with a code the authentication service turns into a player; from
/// the API or Minecraft, the sender's player gets the Discord id given.
pub open spec fn link_ok(args: Seq<Seq<char>>, sender: CommandSender, auth: Option<AuthReply>, old: Map<u128, User>, new: Map<u128, User>, status: u16, text: Seq<char>) -> bool {
    let unchanged = new == old;
    match sender {
        CommandSender::Discord(did) => {
            if args.len() < 2 {
                unchanged && status == 404 && text == "Missing auth code (Join: auth.aristois.net)"@
            } else {
                match auth {
                    None => false,
                    Some(AuthReply::Failed) => unchanged && status == 406
                        && text == "Invalid auth code (Join: auth.aristois.net)"@,
                    Some(AuthReply::Unparsed(_)) => unchanged && status == 500
                        && text == "Failed to parse JSON"@,
                    Some(AuthReply::Parsed(code, json)) => match json.uuid {
                        None => unchanged && status == code
                            && text == "Authentication "@ + json.status@ + ": "@ + json.message@,
                        Some(u) => upserted(old, new, u, Some(decimal(did as nat)), None)
                            && status == 200 && text == "Successfully linked"@,
                    },
                }
            }
        },
        CommandSender::ApiServer(u) | CommandSender::Minecraft(u) => {
            if args.len() < 2 {
                unchanged && status == 404 && text == "Missing Discord user id"@
            } else {
                match discord_user_id(args[1]) {
                    None => unchanged && status == 404 && text == "Invalid Discord user id"@,
                    Some(id) => upserted(old, new, u, Some(decimal(id as nat)), None) && status == 200
                        && text == if sender is ApiServer { "Successfully linked discord"@ } else { "Successfully linked"@ },
                }
            }
        },
    }
}

/// `set`: from Minecraft, the sender's player gets the API password given.
pub open spec fn set_ok(args: Seq<Seq<char>>, sender: CommandSender, old: Map<u128, User>, new: Map<u128, User>, status: u16, text: Seq<char>) -> bool {
    let unchanged = new == old;
    match sender {
        CommandSender::ApiServer(_) => unchanged && status == 500
            && text == "You can't update your API password on the API"@,
        CommandSender::Discord(_) => unchanged && status == 500
            && text == "You can't update your API password on Discord"@,
        CommandSender::Minecraft(u) => {
            if args.len() < 2 {
                unchanged && status == 404 && text == "Missing Discord user id"@
            } else {
                upserted(old, new, u, None, Some(args[1])) && status == 200
                    && text == "Successfully updated password"@
            }
        },
    }
}

/// What the whitelist command answers and how it leaves the users, by its first argument.
pub open spec fn whitelist_ok(
    e: CommandEvent,
    tab: Seq<TabEntry>,
    auth: Option<AuthReply>,
    old: Map<u128, User>,
    new: Map<u128, User>,
    status: u16,
    text: Seq<char>,
) -> bool {
    let args = texts(e.args@);
    if args.len() == 0 {
        new == old && status == 404 && text == "Missing action | Actions: add, remove, link, & set"@
    } else if args[0] == "add"@ {
        add_ok(args, tab, old, new, status, text)
    } else if args[0] == "remove"@ {
        remove_ok(args, tab, old, new, status, text)
    } else if args[0] == "link"@ {
        link_ok(args, e.sender, auth, old, new, status, text)
    } else if args[0] == "set"@ {
        set_ok(args, e.sender, old, new, status, text)
    } else {
        new == old && status == 406 && text == "Invalid action | Actions: add, remove, link, & set"@
    }
}

/// Law: adding a player to the whitelist and then removing the same name leaves the users as
/// they were, and both succeed.
pub proof fn lemma_add_then_remove(
    e1: CommandEvent,
    e2: CommandEvent,
    name: Seq<char>,
    tab: Seq<TabEntry>,
    auth: Option<AuthReply>,
    m0: Map<u128, User>,
    m1: Map<u128, User>,
    m2: Map<u128, User>,
    s1: u16,
    t1: Seq<char>,
    s2: u16,
    t2: Seq<char>,
)
    requires
        texts(e1.args@) == seq!["add"@, name],
        texts(e2.args@) == seq!["remove"@, name],
        whitelist_ok(e1, tab, auth, m0, m1, s1, t1),
        whitelist_ok(e2, tab, auth, m1, m2, s2, t2),
        s1 == 200,
    ensures
        m2 == m0,
        s2 == 200,
{
    reveal_strlit("add");
    reveal_strlit("remove");
    assert(texts(e2.args@)[0] == "remove"@);
    assert("remove"@.len() != "add"@.len());
    let u = uuid_by_name(tab, name)->0;
    assert(m1.contains_key(u));
    assert(m2 == m1.remove(u));
    assert(m2 =~= m0);
}

/// Whether the command needs the authentication service's answer: a Discord link with a code.
pub open spec fn needs_auth(e: CommandEvent) -> bool {
    let args = texts(e.args@);
    &&& e.command == Cmds::Whitelist
    &&& args.len() >= 2
    &&& args[0] == "link"@
    &&& e.sender is Discord
}

/// The address of the authentication service for a link code.
pub open spec fn auth_address(code: Seq<char>) -> Seq<char> {
    "https://auth.aristois.net/token/"@ + code
}

/// The address to ask the authentication service at, for a command that needs it.
pub fn auth_url(e: &CommandEvent) -> (r: Option<String>)
    ensures
        match r {
            Some(u) => needs_auth(*e) && u@ == auth_address(texts(e.args@)[1]),
            None => !needs_auth(*e),
        },
{
    if e.command != Cmds::Whitelist || e.args.len() < 2 {
        return None;
    }
    assert(texts(e.args@)[0] == e.args@[0]@ && texts(e.args@)[1] == e.args@[1]@);
    let link = "link".to_owned();
    match e.sender {
        CommandSender::Discord(_) => {
            if e.args[0] != link {
                return None;
            }
            let mut v = chars_of("https://auth.aristois.net/token/");
            push_str(&mut v, e.args[1].as_str());
            Some(string_of(&v))
        },
        _ => None,
    }
}

fn copy_string(s: &String) -> (r: String)
    ensures
        r@ == s@,
{
    s.clone()
}

/// Gives `uuid` the Discord id and password, where given.
fn upsert_user(users: &mut Users, uuid: u128, discord: Option<String>, password: Option<String>)
    requires
        old(users).wf(),
    ensures
        final(users).wf(),
        upserted(old(users)@, final(users)@, uuid, match discord {
            Some(d) => Some(d@),
            None => None,
        }, match password {
            Some(p) => Some(p@),
            None => None,
        }),
{
    let (d0, p0) = match users.get(uuid) {
        Some(u) => (copy_string(&u.discord_id), copy_string(&u.api_password)),
        None => (String::new(), String::new()),
    };
    let user = User {
        discord_id: match discord {
            Some(d) => d,
            None => d0,
        },
        api_password: match password {
            Some(p) => p,
            None => p0,
        },
    };
    users.insert(uuid, user);
}

fn with_name(prefix: &str, name: &String) -> (r: String)
    ensures
        r@ == prefix@ + name@,
{
    let mut v = chars_of(prefix);
    push_str(&mut v, name.as_str());
    string_of(&v)
}

fn reply(status: u16, text: &str) -> (r: (u16, String))
    ensures
        r.0 == status && r.1@ == text@,
{
    (status, text.to_owned())
}

fn whitelist_add(e: &CommandEvent, users: &mut Users, tab: &Vec<TabEntry>) -> (r: (u16, String))
    requires
        old(users).wf(),
    ensures
        final(users).wf(),
        add_ok(texts(e.args@), tab@, old(users)@, final(users)@, r.0, r.1@),
{
    if e.args.len() < 2 {
        return reply(404, "Missing player name");
    }
    let name = &e.args[1];
    assert(texts(e.args@)[1] == name@);
    match find_uuid(tab, name) {
        None => reply(404, "Player not found"),
        Some(u) => {
            if users.contains_key(u) {
                reply(409, "Already whitelisted")
            } else {
                upsert_user(users, u, None, None);
                (200, with_name("Successfully added: ", name))
            }
        },
    }
}

fn whitelist_remove(e: &CommandEvent, users: &mut Users, tab: &Vec<TabEntry>) -> (r: (u16, String))
    requires
        old(users).wf(),
    ensures
        final(users).wf(),
        remove_ok(texts(e.args@), tab@, old(users)@, final(users)@, r.0, r.1@),
{
    if e.args.len() < 2 {
        return reply(404, "Missing Minecraft player name");
    }
    let name = &e.args[1];
    assert(texts(e.args@)[1] == name@);
    match find_uuid(tab, name) {
        None => reply(404, "Player not found"),
        Some(u) => {
            if users.contains_key(u) {
                users.remove(u);
                (200, with_name("Successfully removed: ", name))
            } else {
                reply(409, "Already not whitelisted")
            }
        },
    }
}

fn whitelist_link(e: &CommandEvent, users: &mut Users, auth: &Option<AuthReply>) -> (r: (u16, String))
    requires
        old(users).wf(),
        e.sender is Discord && e.args@.len() >= 2 ==> auth is Some,
    ensures
        final(users).wf(),
        link_ok(texts(e.args@), e.sender, *auth, old(users)@, final(users)@, r.0, r.1@),
{
    if e.args.len() >= 2 {
        assert(texts(e.args@)[1] == e.args@[1]@);
    }
    match e.sender {
        CommandSender::Discord(did) => {
            if e.args.len() < 2 {
                return reply(404, "Missing auth code (Join: auth.aristois.net)");
            }
            match auth {
                None => reply(404, "Missing auth code (Join: auth.aristois.net)"),
                Some(AuthReply::Failed) => reply(406, "Invalid auth code (Join: auth.aristois.net)"),
                Some(AuthReply::Unparsed(_)) => reply(500, "Failed to parse JSON"),
                Some(AuthReply::Parsed(code, json)) => match json.uuid {
                    None => {
                        let mut v = chars_of("Authentication ");
                        push_str(&mut v, json.status.as_str());
                        push_str(&mut v, ": ");
                        push_str(&mut v, json.message.as_str());
                        (*code, string_of(&v))
                    },
                    Some(u) => {
                        upsert_user(users, u, Some(string_of(&decimal_u64(did))), None);
                        reply(200, "Successfully linked")
                    },
                },
            }
        },
        CommandSender::ApiServer(u) | CommandSender::Minecraft(u) => {
            if e.args.len() < 2 {
                return reply(404, "Missing Discord user id");
            }
            match parse_u64(&chars_of(e.args[1].as_str())) {
                Some(id) => {
                    if id == 0 {
                        return reply(404, "Invalid Discord user id");
                    }
                    upsert_user(users, u, Some(string_of(&decimal_u64(id))), None);
                    match e.sender {
                        CommandSender::ApiServer(_) => reply(200, "Successfully linked discord"),
                        _ => reply(200, "Successfully linked"),
                    }
                },
                None => reply(404, "Invalid Discord user id"),
            }
        },
    }
}

fn whitelist_set(e: &CommandEvent, users: &mut Users) -> (r: (u16, String))
    requires
        old(users).wf(),
    ensures
        final(users).wf(),
        set_ok(texts(e.args@), e.sender, old(users)@, final(users)@, r.0, r.1@),
{
    match e.sender {
        CommandSender::ApiServer(_) => reply(500, "You can't update your API password on the API"),
        CommandSender::Discord(_) => reply(500, "You can't update your API password on Discord"),
        CommandSender::Minecraft(u) => {
            if e.args.len() < 2 {
                return reply(404, "Missing Discord user id");
            }
            assert(texts(e.args@)[1] == e.args@[1]@);
            upsert_user(users, u, None, Some(copy_string(&e.args[1])));
            reply(200, "Successfully updated password")
        },
    }
}

/// Runs the whitelist command: the reply's status and text. A Discord link with a code takes
/// the authentication service's answer for it in `auth`.
pub fn handle_whitelist(e: &CommandEvent, users: &mut Users, tab: &Vec<TabEntry>, auth: &Option<AuthReply>) -> (r: (u16, String))
    requires
        old(users).wf(),
        e.command == Cmds::Whitelist,
        needs_auth(*e) ==> auth is Some,
    ensures
        final(users).wf(),
        whitelist_ok(*e, tab@, *auth, old(users)@, final(users)@, r.0, r.1@),
{
    if e.args.len() == 0 {
        return reply(404, "Missing action | Actions: add, remove, link, & set");
    }
    let action = &e.args[0];
    assert(texts(e.args@)[0] == action@);
    if *action == "add".to_owned() {
        whitelist_add(e, users, tab)
    } else if *action == "remove".to_owned() {
        whitelist_remove(e, users, tab)
    } else if *action == "link".to_owned() {
        whitelist_link(e, users, auth)
    } else if *action == "set".to_owned() {
        whitelist_set(e, users)
    } else {
        reply(406, "Invalid action | Actions: add, remove, link, & set")
    }
}

/// Runs the whitelist command on the first command read, if it is one, and gives its reply;
/// the other commands are dropped.
pub fn handle_whitelist_cmd_events(
    events: &Vec<CommandEvent>,
    users: &mut Users,
    tab: &Vec<TabEntry>,
    auth: &Option<AuthReply>,
) -> (r: Option<WhisperEvent>)
    requires
        old(users).wf(),
        events@.len() > 0 && needs_auth(events@[0]) ==> auth is Some,
    ensures
        final(users).wf(),
        r is None <==> events@.len() == 0 || events@[0].command != Cmds::Whitelist,
        r is None ==> final(users)@ == old(users)@,
        r matches Some(w) ==> {
            let e = events@[0];
            &&& whitelist_ok(e, tab@, *auth, old(users)@, final(users)@, w.status, w.content@)
            &&& w.entity == e.entity && w.sender == e.sender && w.source == e.source
        },
{
    if events.len() == 0 || events[0].command != Cmds::Whitelist {
        return None;
    }
    let e = &events[0];
    let (status, content) = handle_whitelist(e, users, tab, auth);
    Some(WhisperEvent { entity: e.entity, content, sender: e.sender, source: e.source, status })
}

} // verus!
