use base64::Engine;
use shaysbot::chat::api::{
    api_outcome, handle_api_request, handle_send_whisper_events, ApiOutcome, ApiSettings,
};
use shaysbot::chat::{CommandSender, CommandSource, WhisperEvent};
use shaysbot::commands::Cmds;

fn settings() -> ApiSettings {
    ApiSettings { username: "admin".to_string(), password: "pa:ss".to_string() }
}

fn header(creds: &[u8]) -> Option<String> {
    Some(format!("Basic {}", base64::prelude::BASE64_STANDARD.encode(creds)))
}

fn status(o: &ApiOutcome) -> Option<(u16, String)> {
    match o {
        ApiOutcome::Respond(s, t) => Some((*s, t.clone())),
        _ => None,
    }
}

fn run(auth: Option<String>, url: &str) -> ApiOutcome {
    handle_api_request(&auth, url, &settings(), "!", &vec![7, 9], 42, 5)
}

#[test]
fn missing_header_asks_for_credentials() {
    assert!(matches!(run(None, "/cmd/pearl"), ApiOutcome::Unauthorized));
}

#[test]
fn header_that_is_not_base64_is_refused() {
    let o = run(Some("Basic %%%".to_string()), "/cmd/pearl");
    assert_eq!(status(&o), Some((406, "Invalid BASE64".to_string())));
}

#[test]
fn credentials_that_are_not_utf8_are_refused() {
    let o = run(header(&[0xff, 0xfe, 0x3a]), "/cmd/pearl");
    assert_eq!(status(&o), Some((406, "Invalid UTF-8".to_string())));
}

#[test]
fn credentials_without_colon_are_refused() {
    let o = run(header(b"adminpass"), "/cmd/pearl");
    assert_eq!(status(&o), Some((406, "Invalid Format".to_string())));
}

#[test]
fn wrong_credentials_are_refused() {
    let o = run(header(b"admin:pa"), "/cmd/pearl");
    assert_eq!(status(&o), Some((406, "Invalid Credentials".to_string())));
    let o = run(header(b"root:pa:ss"), "/cmd/pearl");
    assert_eq!(status(&o), Some((406, "Invalid Credentials".to_string())));
}

#[test]
fn other_routes_are_refused() {
    let o = run(header(b"admin:pa:ss"), "/status");
    assert_eq!(status(&o), Some((500, "Invalid route, available: /cmd/<command>".to_string())));
}

#[test]
fn command_runs_once_per_bot() {
    let o = run(header(b"admin:pa:ss"), "/cmd/!home%20base%20two");
    match o {
        ApiOutcome::Commands(es) => {
            assert_eq!(es.len(), 2);
            assert_eq!(es[0].entity, 7);
            assert_eq!(es[1].entity, 9);
            for e in &es {
                assert_eq!(e.command, Cmds::Pearl);
                assert_eq!(e.args, vec!["base".to_string(), "two".to_string()]);
                assert!(!e.message);
                assert_eq!(e.source, CommandSource::ApiServer(42));
                assert_eq!(e.sender, CommandSender::ApiServer(5));
            }
        }
        _ => panic!("expected commands"),
    }
}

#[test]
fn unknown_command_runs_nothing() {
    match run(header(b"admin:pa:ss"), "/cmd/dance") {
        ApiOutcome::Commands(es) => assert!(es.is_empty()),
        _ => panic!("expected no commands"),
    }
}

#[test]
fn decoded_credentials_decide_directly() {
    let o = api_outcome(None, "/cmd/seen", &settings(), "!", &vec![1], 1, 1);
    assert_eq!(status(&o), Some((406, "Invalid BASE64".to_string())));
    let o = api_outcome(Some(b"admin:pa:ss".to_vec()), "/cmd/seen%20alex", &settings(), "!", &vec![1], 3, 4);
    match o {
        ApiOutcome::Commands(es) => {
            assert_eq!(es.len(), 1);
            assert_eq!(es[0].command, Cmds::Seen);
            assert_eq!(es[0].args, vec!["alex".to_string()]);
        }
        _ => panic!("expected commands"),
    }
}

fn api_reply(request: u64, status: u16, text: &str) -> WhisperEvent {
    WhisperEvent {
        entity: 1,
        content: text.to_string(),
        sender: CommandSender::ApiServer(0),
        source: CommandSource::ApiServer(request),
        status,
    }
}

#[test]
fn each_request_is_answered_once() {
    let mut events = vec![api_reply(1, 200, "first"), api_reply(1, 404, "second"), api_reply(2, 200, "other")];
    events.push(WhisperEvent {
        entity: 1,
        content: "to discord".to_string(),
        sender: CommandSender::Discord(3),
        source: CommandSource::Discord(4),
        status: 200,
    });
    events.push(WhisperEvent {
        entity: 1,
        content: "mixed".to_string(),
        sender: CommandSender::Minecraft(3),
        source: CommandSource::ApiServer(3),
        status: 200,
    });
    let replies = handle_send_whisper_events(&events);
    let got: Vec<(u64, u16, String)> = replies.iter().map(|r| (r.request, r.status, r.content.clone())).collect();
    assert_eq!(got, vec![(1, 200, "first".to_string()), (2, 200, "other".to_string())]);
}
