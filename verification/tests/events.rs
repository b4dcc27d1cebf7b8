use shaysbot::chambers::{BlockPos, Chamber, StasisChambers};
use shaysbot::chat::minecraft::ReceivedChat;
use shaysbot::chat::TabEntry;
use shaysbot::event::handle_tick;
use shaysbot::events::{Chat, CommandResponse, Init, Login, LoginPlan, StartupAction};
use shaysbot::maps::UuidMap;

fn queue(v: &[&str]) -> Vec<String> {
    v.iter().map(|s| s.to_string()).collect()
}

#[test]
fn tick_sends_what_the_budget_allows() {
    let mut spam = 0usize;
    let mut q = queue(&["a", "b", "c", "d", "e", "f", "g"]);
    assert_eq!(handle_tick(&mut spam, &mut q), queue(&["a", "b", "c", "d", "e"]));
    assert_eq!(spam, 100);
    assert_eq!(q, queue(&["f", "g"]));
    // One tick of decay leaves room for nothing.
    assert!(handle_tick(&mut spam, &mut q).is_empty());
    assert_eq!(spam, 99);
    for _ in 0..18 {
        assert!(handle_tick(&mut spam, &mut q).is_empty());
    }
    assert_eq!(spam, 81);
    assert_eq!(q, queue(&["f", "g"]));
    assert_eq!(handle_tick(&mut spam, &mut q), queue(&["f"]));
    assert_eq!(spam, 100);
    assert_eq!(q, queue(&["g"]));
}

#[test]
fn spam_budget_never_passes_the_limit() {
    let mut spam = 0usize;
    let mut q: Vec<String> = (0..100).map(|i| i.to_string()).collect();
    for _ in 0..2500 {
        handle_tick(&mut spam, &mut q);
        assert!(spam <= 100);
    }
    assert!(q.is_empty());
}

#[test]
fn messages_too_long_for_chat_are_dropped() {
    let mut spam = 0usize;
    let long = "é".repeat(129);
    let fits = "é".repeat(128);
    let mut q = vec![long, fits.clone(), "x".to_string()];
    assert_eq!(handle_tick(&mut spam, &mut q), vec![fits, "x".to_string()]);
    assert_eq!(spam, 60);
    assert!(q.is_empty());
}

#[test]
fn startup_starts_anti_afk() {
    assert_eq!(Init.execute(), StartupAction::InitAntiAfk);
}

fn trapdoors() -> StasisChambers {
    let mut m: StasisChambers = UuidMap::new();
    let c = |x: i32, owner: u128| Chamber { block_pos: BlockPos { x, y: 0, z: 0 }, entity_id: 1, owner_uuid: owner, location: String::new() };
    m.insert(1, c(10, 7));
    m.insert(2, c(3, 7));
    m.insert(3, c(3, 8));
    m.insert(4, c(20, 7));
    m
}

fn tab() -> Vec<TabEntry> {
    vec![TabEntry { uuid: 7, name: "Steve".to_string() }, TabEntry { uuid: 9, name: "Alex".to_string() }]
}

#[test]
fn login_pulls_the_least_shared_nearest_chamber() {
    let origin = BlockPos { x: 0, y: 0, z: 0 };
    match Login.execute(&"Steve".to_string(), &tab(), &trapdoors(), origin, false) {
        LoginPlan::Pull { target, on_way, done } => {
            assert_eq!(target, BlockPos { x: 10, y: 0, z: 0 });
            assert_eq!(on_way, Some("w Steve [202] I'm on my way!".to_string()));
            assert_eq!(done, Some("w Steve [200] OK".to_string()));
        }
        _ => panic!("expected a pull"),
    }
    match Login.execute(&"Steve".to_string(), &tab(), &trapdoors(), origin, true) {
        LoginPlan::Pull { on_way, done, .. } => assert!(on_way.is_none() && done.is_none()),
        _ => panic!("expected a pull"),
    }
}

#[test]
fn login_without_chamber_or_player() {
    let origin = BlockPos { x: 0, y: 0, z: 0 };
    match Login.execute(&"Alex".to_string(), &tab(), &trapdoors(), origin, false) {
        LoginPlan::NotFound(w) => assert_eq!(w, Some("w Alex [404] Pearl not found.".to_string())),
        _ => panic!("expected not found"),
    }
    assert!(matches!(Login.execute(&"Notch".to_string(), &tab(), &trapdoors(), origin, false), LoginPlan::Stop));
}

#[test]
fn chat_requests_name_the_sender() {
    let named = Chat(ReceivedChat { sender: Some("Steve".to_string()), content: "!pearl a  b".to_string(), whisper: false });
    assert_eq!(named.request(), Some(("Steve".to_string(), queue(&["!pearl", "a", "", "b"]))));
    let plain = Chat(ReceivedChat { sender: None, content: "Alex whispers: !help".to_string(), whisper: false });
    assert_eq!(plain.request(), Some(("Alex".to_string(), queue(&["!help"]))));
    let none = Chat(ReceivedChat { sender: None, content: "<Alex> hi".to_string(), whisper: false });
    assert_eq!(none.request(), None);
}

#[test]
fn commands_are_found_by_alias() {
    let aliases = vec![queue(&["!help", "!h"]), queue(&["!pearl", "!tp"]), queue(&["!tp"])];
    assert_eq!(Chat::find_command(&aliases, &"!tp".to_string()), Some(1));
    assert_eq!(Chat::find_command(&aliases, &"!h".to_string()), Some(0));
    assert_eq!(Chat::find_command(&aliases, &"!x".to_string()), None);
}

#[test]
fn responses_become_chat_commands() {
    assert_eq!(Chat::reply("Steve", &CommandResponse::Whisper("hi".to_string()), false), Some("w Steve hi".to_string()));
    assert_eq!(Chat::reply("Steve", &CommandResponse::Command("/kill".to_string()), false), Some("/kill".to_string()));
    assert_eq!(Chat::reply("Steve", &CommandResponse::Nothing, false), None);
    assert_eq!(Chat::reply("Steve", &CommandResponse::Whisper("hi".to_string()), true), None);
}
