//! The HTTP API: basic authentication, the `/cmd/<command>` route, and the replies sent back
//! to the requests.
use vstd::prelude::*;
use vstd::utf8::{decode_utf8, valid_utf8};
use crate::chat::{CommandEvent, CommandSender, CommandSource, WhisperEvent};
use crate::commands::{parse_command, parse_command_spec, texts, Cmds};
use crate::text::{
    chars_of, eq_chars, find_from, first_index, remove_all, remove_matches, replace_all,
    replace_matches, slice_chars, string_of, suffix_from,
};

verus! {

/// The API server's credentials.
pub struct ApiSettings {
    pub username: String,
    pub password: String,
}

/// What the API does with a request.
pub enum ApiOutcome {
    /// Answer 401 `Unauthorized`, asking for basic authentication.
    Unauthorized,
    /// Answer with the status and text.
    Respond(u16, String),
    /// Run the command for each bot; the command's reply answers the request.
    Commands(Vec<CommandEvent>),
}

/// Names what `base64`'s `STANDARD` engine decodes a text to: the bytes, or nothing when the
/// text is not padded standard base64.
pub uninterp spec fn base64_standard(text: Seq<char>) -> Option<Seq<u8>>;

/// Decodes standard base64 with `base64::Engine::decode` on `BASE64_STANDARD`.
#[verifier::external_body]
fn decode_base64(text: &str) -> (r: Option<Vec<u8>>)
    ensures
        match r {
            Some(b) => base64_standard(text@) == Some(b@),
            None => base64_standard(text@) is None,
        },
{
    base64::Engine::decode(&base64::prelude::BASE64_STANDARD, text).ok()
}

/// Reads bytes as UTF-8 with `String::from_utf8`, which fails exactly on bytes that are not
/// UTF-8 and otherwise holds the characters they encode.
#[verifier::external_body]
fn utf8_text(bytes: Vec<u8>) -> (r: Option<String>)
    ensures
        match r {
            Some(s) => valid_utf8(bytes@) && s@ == decode_utf8(bytes@),
            None => !valid_utf8(bytes@),
        },
{
    String::from_utf8(bytes).ok()
}

/// The user and password of basic credentials: split at the first colon, the password may
/// hold more.
pub open spec fn split_credentials(c: Seq<char>) -> Option<(Seq<char>, Seq<char>)> {
    match first_index(c, ':') {
        Some(i) => Some((c.take(i), c.skip(i + 1))),
        None => None,
    }
}

/// The events for a command sent through the API: one per bot, for the request.
pub open spec fn api_events(
    es: Seq<CommandEvent>,
    entities: Seq<u64>,
    c: Cmds,
    args: Seq<Seq<char>>,
    request: u64,
    sender: u128,
) -> bool {
    &&& es.len() == entities.len()
    &&& forall|k: int| 0 <= k < es.len() ==> {
        let e = #[trigger] es[k];
        &&& e.entity == entities[k]
        &&& texts(e.args@) == args
        &&& e.command == c
        &&& !e.message
        &&& e.source == CommandSource::ApiServer(request)
        &&& e.sender == CommandSender::ApiServer(sender)
    }
}

/// What the API does with a request once the credentials are decoded from base64 (or could
/// not be): check them, then the route, then the command.
pub open spec fn api_outcome_ok(
    decoded: Option<Seq<u8>>,
    url: Seq<char>,
    settings: ApiSettings,
    prefix: Seq<char>,
    entities: Seq<u64>,
    request: u64,
    sender: u128,
    r: ApiOutcome,
) -> bool {
    match decoded {
        None => r matches ApiOutcome::Respond(st, t) && st == 406 && t@ == "Invalid BASE64"@,
        Some(bytes) => if !valid_utf8(bytes) {
            r matches ApiOutcome::Respond(st, t) && st == 406 && t@ == "Invalid UTF-8"@
        } else {
            match split_credentials(decode_utf8(bytes)) {
                None => r matches ApiOutcome::Respond(st, t) && st == 406 && t@ == "Invalid Format"@,
                Some((user, pass)) => if user != settings.username@ || pass != settings.password@ {
                    r matches ApiOutcome::Respond(st, t) && st == 406 && t@ == "Invalid Credentials"@
                } else {
                    let u = replace_all(url, "%20"@, " "@);
                    if !("/cmd/"@.len() <= u.len() && u.take(5) == "/cmd/"@) {
                        r matches ApiOutcome::Respond(st, t) && st == 500
                            && t@ == "Invalid route, available: /cmd/<command>"@
                    } else {
                        match parse_command_spec(u.skip(5), prefix) {
                            None => r matches ApiOutcome::Commands(es) && es@.len() == 0,
                            Some((c, args)) => r matches ApiOutcome::Commands(es)
                                && api_events(es@, entities, c, args, request, sender),
                        }
                    }
                }
            }
        }
    }
}

fn respond(status: u16, text: &str) -> (r: ApiOutcome)
    ensures
        r matches ApiOutcome::Respond(st, t) && st == status && t@ == text@,
{
    ApiOutcome::Respond(status, text.to_owned())
}

/// What the API does with a request, given what base64 decoding of its credentials gave.
pub fn api_outcome(
    decoded: Option<Vec<u8>>,
    url: &str,
    settings: &ApiSettings,
    prefix: &str,
    entities: &Vec<u64>,
    request: u64,
    sender: u128,
) -> (r: ApiOutcome)
    ensures
        api_outcome_ok(
            match decoded {
                Some(b) => Some(b@),
                None => None,
            },
            url@,
            *settings,
            prefix@,
            entities@,
            request,
            sender,
            r,
        ),
{
    let bytes = match decoded {
        Some(b) => b,
        None => return respond(406, "Invalid BASE64"),
    };
    let creds = match utf8_text(bytes) {
        Some(s) => s,
        None => return respond(406, "Invalid UTF-8"),
    };
    let cc = chars_of(creds.as_str());
    assert(cc@.skip(0) =~= cc@);
    proof { crate::text::lemma_first_index_bounds(cc@, ':'); }
    let colon = match find_from(&cc, 0, ':') {
        Some(i) => i,
        None => return respond(406, "Invalid Format"),
    };
    let user = slice_chars(&cc, 0, colon);
    let pass = suffix_from(&cc, colon + 1);
    assert(user@ =~= cc@.take(colon as int));
    let su = chars_of(settings.username.as_str());
    let sp = chars_of(settings.password.as_str());
    if !eq_chars(&user, &su) || !eq_chars(&pass, &sp) {
        return respond(406, "Invalid Credentials");
    }
    proof {
        reveal_strlit("%20");
        reveal_strlit("/cmd/");
    }
    let u = replace_matches(&chars_of(url), &chars_of("%20"), &chars_of(" "));
    let route = chars_of("/cmd/");
    if !crate::text::matches_at(&u, 0, &route) {
        assert(u@.subrange(0, 5) =~= u@.take(5));
        return respond(500, "Invalid route, available: /cmd/<command>");
    }
    assert(u@.subrange(0, 5) =~= u@.take(5));
    let message = string_of(&suffix_from(&u, 5));
    let mut events: Vec<CommandEvent> = Vec::new();
    match parse_command(message.as_str(), prefix) {
        None => {},
        Some((c, args)) => {
            let mut k: usize = 0;
            while k < entities.len()
                invariant
                    k <= entities.len(),
                    parse_command_spec(message@, prefix@) == Some((c, texts(args@))),
                    events@.len() == k,
                    forall|j: int| 0 <= j < k ==> {
                        let e = #[trigger] events@[j];
                        &&& e.entity == entities@[j]
                        &&& texts(e.args@) == texts(args@)
                        &&& e.command == c
                        &&& !e.message
                        &&& e.source == CommandSource::ApiServer(request)
                        &&& e.sender == CommandSender::ApiServer(sender)
                    },
                decreases entities.len() - k,
            {
                let copy = crate::text::copy_strings(&args);
                events.push(CommandEvent {
                    entity: entities[k],
                    args: copy,
                    command: c,
                    message: false,
                    sender: CommandSender::ApiServer(sender),
                    source: CommandSource::ApiServer(request),
                });
                k = k + 1;
            }
        },
    }
    ApiOutcome::Commands(events)
}

/// What the API does with a request: without an `Authorization` header it asks for one;
/// otherwise the header, with `Basic ` taken out, is decoded from base64 and
/// [`api_outcome`] decides.
pub fn handle_api_request(
    authorization: &Option<String>,
    url: &str,
    settings: &ApiSettings,
    prefix: &str,
    entities: &Vec<u64>,
    request: u64,
    sender: u128,
) -> (r: ApiOutcome)
    ensures
        match authorization {
            None => r is Unauthorized,
            Some(h) => api_outcome_ok(
                base64_standard(remove_all(h@, "Basic "@)),
                url@,
                *settings,
                prefix@,
                entities@,
                request,
                sender,
                r,
            ),
        },
{
    match authorization {
        None => ApiOutcome::Unauthorized,
        Some(h) => {
            let encoded = string_of(&remove_matches(&chars_of(h.as_str()), &chars_of("Basic ")));
            let decoded = decode_base64(encoded.as_str());
            api_outcome(decoded, url, settings, prefix, entities, request, sender)
        },
    }
}

/// A reply to an API request: the request, the status and the text.
pub struct ApiReply {
    pub request: u64,
    pub status: u16,
    pub content: String,
}

/// The replies the API sends for the replies the commands made, in order: only those to API
/// requests from the API, and only the first for each request, which is then answered.
pub open spec fn api_replies(es: Seq<WhisperEvent>) -> Seq<(u64, u16, Seq<char>)>
    decreases es.len(),
{
    if es.len() == 0 {
        Seq::empty()
    } else {
        let prev = api_replies(es.drop_last());
        let e = es.last();
        match (e.source, e.sender) {
            (CommandSource::ApiServer(id), CommandSender::ApiServer(_)) => {
                if prev.map_values(|x: (u64, u16, Seq<char>)| x.0).contains(id) {
                    prev
                } else {
                    prev.push((id, e.status, e.content@))
                }
            },
            _ => prev,
        }
    }
}

/// The view of the replies.
pub open spec fn replies_view(rs: Seq<ApiReply>) -> Seq<(u64, u16, Seq<char>)> {
    rs.map_values(|r: ApiReply| (r.request, r.status, r.content@))
}

fn answered(rs: &Vec<ApiReply>, id: u64) -> (b: bool)
    ensures
        b == replies_view(rs@).map_values(|x: (u64, u16, Seq<char>)| x.0).contains(id),
{
    let ghost ids = replies_view(rs@).map_values(|x: (u64, u16, Seq<char>)| x.0);
    let mut i: usize = 0;
    while i < rs.len()
        invariant
            i <= rs.len(),
            ids == replies_view(rs@).map_values(|x: (u64, u16, Seq<char>)| x.0),
            forall|j: int| 0 <= j < i ==> rs@[j].request != id,
        decreases rs.len() - i,
    {
        if rs[i].request == id {
            assert(ids[i as int] == id);
            return true;
        }
        i = i + 1;
    }
    assert forall|j: int| 0 <= j < ids.len() implies #[trigger] ids[j] != id by {
        assert(ids[j] == rs@[j].request);
    }
    false
}

/// The replies sent back to API requests.
pub fn handle_send_whisper_events(events: &Vec<WhisperEvent>) -> (r: Vec<ApiReply>)
    ensures
        replies_view(r@) == api_replies(events@),
{
    let mut r: Vec<ApiReply> = Vec::new();
    let mut i: usize = 0;
    while i < events.len()
        invariant
            i <= events.len(),
            replies_view(r@) == api_replies(events@.take(i as int)),
        decreases events.len() - i,
    {
        assert(events@.take(i + 1).drop_last() =~= events@.take(i as int));
        let e = &events[i];
        assert(events@.take(i + 1).last() == *e);
        match (e.source, e.sender) {
            (CommandSource::ApiServer(id), CommandSender::ApiServer(_)) => {
                if !answered(&r, id) {
                    let ghost before = r@;
                    let content = e.content.clone();
                    r.push(ApiReply { request: id, status: e.status, content });
                    assert(replies_view(r@) =~= replies_view(before).push((id, e.status, e.content@)));
                }
            },
            _ => {},
        }
        i = i + 1;
    }
    assert(events@.take(events.len() as int) =~= events@);
    r
}

/// Law: each API request is answered at most once.
pub proof fn lemma_requests_answered_once(es: Seq<WhisperEvent>)
    ensures
        forall|a: int, b: int| 0 <= a < b < api_replies(es).len() ==>
            (#[trigger] api_replies(es)[a]).0 != (#[trigger] api_replies(es)[b]).0,
    decreases es.len(),
{
    if es.len() > 0 {
        lemma_requests_answered_once(es.drop_last());
        let prev = api_replies(es.drop_last());
        let ids = prev.map_values(|x: (u64, u16, Seq<char>)| x.0);
        let e = es.last();
        match (e.source, e.sender) {
            (CommandSource::ApiServer(id), CommandSender::ApiServer(_)) => {
                if !ids.contains(id) {
                    let now = prev.push((id, e.status, e.content@));
                    assert forall|a: int, b: int| 0 <= a < b < now.len() implies
                        (#[trigger] now[a]).0 != (#[trigger] now[b]).0 by {
                        if b == prev.len() {
                            assert(ids[a] == prev[a].0);
                        } else {
                            assert(now[a] == prev[a] && now[b] == prev[b]);
                        }
                    }
                }
            },
            _ => {},
        }
    }
}

} // verus!
