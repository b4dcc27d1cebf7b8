use shaysbot::chambers::{BlockPos, Chamber, StasisChambers};
use shaysbot::chat::minecraft::ReceivedChat;
use shaysbot::chat::TabEntry;
use shaysbot::commands::playtime::PlaytimeReply;
use shaysbot::maps::UuidMap;
use shaysbot::minecraft::auto_exit::handle_disconnect_event;
use shaysbot::minecraft::commands::pearl::{handle_command_event as pearl_command, handle_register as register_pearl, PearlView};
use shaysbot::minecraft::commands::playtime::{
    handle_command_event as playtime_command, handle_register as register_playtime, playtime_whisper, PlaytimeStep,
};
use shaysbot::minecraft::commands::{handle_chat_received_event, handle_whisper_event, Command, CommandEvent, Registry, WhisperEvent};

fn registry() -> Registry {
    let mut r = Registry::new();
    register_pearl(&mut r);
    register_playtime(&mut r);
    r
}

fn chat(sender: Option<&str>, content: &str) -> ReceivedChat {
    ReceivedChat { sender: sender.map(|s| s.to_string()), content: content.to_string(), whisper: false }
}

#[test]
fn registered_aliases_name_commands() {
    let r = registry();
    let chats = vec![
        (1, chat(Some("Steve"), "!here now")),
        (1, chat(Some("Steve"), "here")),
        (2, chat(None, "[Owner] Alex whispers: !playtime Steve")),
        (2, chat(None, " Alex !warp")),
        (3, chat(Some("Steve"), "!seen Alex")),
        (3, chat(None, "no sender format")),
    ];
    let events = handle_chat_received_event(&chats, &r, "!");
    let got: Vec<(u64, String, Command, Vec<String>)> =
        events.into_iter().map(|e| (e.entity, e.sender, e.command, e.args)).collect();
    assert_eq!(
        got,
        vec![
            (1, "Steve".to_string(), Command::Pearl, vec!["now".to_string()]),
            (2, "Alex".to_string(), Command::Playtime, vec!["Steve".to_string()]),
            (2, "Alex".to_string(), Command::Pearl, vec![]),
        ]
    );
}

#[test]
fn replies_are_whispered() {
    let events = vec![
        WhisperEvent { entity: 4, sender: "Steve".to_string(), content: "[202] I'm on my way!".to_string() },
        WhisperEvent { entity: 5, sender: "Alex".to_string(), content: "".to_string() },
    ];
    assert_eq!(
        handle_whisper_event(&events),
        vec![(4, "w Steve [202] I'm on my way!".to_string()), (5, "w Alex ".to_string())]
    );
}

fn event(entity: u64, sender: &str, command: Command, args: &[&str]) -> CommandEvent {
    CommandEvent { entity, sender: sender.to_string(), command, args: args.iter().map(|s| s.to_string()).collect() }
}

#[test]
fn pearl_command_pulls_the_senders_chamber() {
    let mut trapdoors: StasisChambers = UuidMap::new();
    let c = |x: i32, owner: u128| Chamber { block_pos: BlockPos { x, y: 0, z: 0 }, entity_id: 0, owner_uuid: owner, location: String::new() };
    trapdoors.insert(1, c(8, 7));
    trapdoors.insert(2, c(4, 7));
    let tab = vec![TabEntry { uuid: 7, name: "Steve".to_string() }, TabEntry { uuid: 8, name: "Alex".to_string() }];
    let bots = vec![PearlView { entity: 1, tab, position: BlockPos { x: 0, y: 0, z: 0 } }];
    let events = vec![
        event(1, "Steve", Command::Pearl, &[]),
        event(1, "Alex", Command::Pearl, &[]),
        event(1, "Notch", Command::Pearl, &[]),
        event(1, "Steve", Command::Seen, &[]),
        event(2, "Steve", Command::Pearl, &[]),
    ];
    let r = pearl_command(&events, &bots, &trapdoors);
    let got: Vec<(String, Option<BlockPos>)> = r.into_iter().map(|(w, p)| (w.content, p)).collect();
    assert_eq!(
        got,
        vec![
            ("[202] I'm on my way!".to_string(), Some(BlockPos { x: 4, y: 0, z: 0 })),
            ("[404] Pearl not found.".to_string(), None),
            ("I couldn't find you in my list".to_string(), None),
        ]
    );
}

#[test]
fn playtime_command_steps() {
    assert!(matches!(playtime_command(&event(1, "Steve", Command::Seen, &[])), PlaytimeStep::Ignore));
    match playtime_command(&event(1, "Steve", Command::Playtime, &[])) {
        PlaytimeStep::Whisper(w) => assert_eq!(w.content, "[400] Missing player name!"),
        _ => panic!("expected a whisper"),
    }
    match playtime_command(&event(1, "Steve", Command::Playtime, &["Alex"])) {
        PlaytimeStep::Fetch(p) => assert_eq!(p, "Alex"),
        _ => panic!("expected a fetch"),
    }
    let e = event(1, "Steve", Command::Playtime, &["Alex"]);
    assert_eq!(playtime_whisper(&e, &PlaytimeReply::Failed).content, "[404] Player not found.");
    assert_eq!(playtime_whisper(&e, &PlaytimeReply::NoContent).content, "[500] Failed to parse JSON");
    assert_eq!(playtime_whisper(&e, &PlaytimeReply::Unparsed).content, "[500] Failed to parse JSON");
    assert_eq!(playtime_whisper(&e, &PlaytimeReply::Seconds(59)).content, "00:00:59");
}

#[test]
fn proxy_disconnect_ends_the_program() {
    assert!(handle_disconnect_event(&Some("AutoDisconnect".to_string())));
    assert!(!handle_disconnect_event(&Some("[AutoDisconnect] low".to_string())));
    assert!(!handle_disconnect_event(&None));
}
