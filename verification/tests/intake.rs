use shaysbot::chat::minecraft::{command_from_chat, IntakeSettings, MinecraftChatPlugin, ReceivedChat};
use shaysbot::chat::{CommandSender, CommandSource, TabEntry, WhisperEvent};
use shaysbot::chat_format::ChatFormat;
use shaysbot::commands::handlers::{
    handle_chat_received_event, handle_discord_whisper_event, handle_message_event, handle_minecraft_whisper_event,
    Cooldown, LinkedUser, ReplyBot,
};
use shaysbot::commands::Cmds;
use shaysbot::ncr::{encrypt, key_from_setting, ChatEncryption, EncodingType, EncryptionMode, EncryptionType};

fn tab() -> Vec<TabEntry> {
    vec![TabEntry { uuid: 7, name: "Steve".to_string() }, TabEntry { uuid: 8, name: "Alex".to_string() }]
}

fn settings(whitelist: bool, mode: EncryptionMode) -> IntakeSettings {
    IntakeSettings {
        command_prefix: "!".to_string(),
        command_cooldown: 1000,
        whitelist,
        whitelisted: vec![7],
        encryption: ChatEncryption { key: "not a key".to_string(), mode },
    }
}

fn named(sender: &str, content: &str, whisper: bool) -> ReceivedChat {
    ReceivedChat { sender: Some(sender.to_string()), content: content.to_string(), whisper }
}

fn unnamed(content: &str) -> ReceivedChat {
    ReceivedChat { sender: None, content: content.to_string(), whisper: false }
}

#[test]
fn named_sender_command_is_read() {
    let mut cd = Cooldown::new();
    let s = settings(false, EncryptionMode::Never);
    let e = command_from_chat(&named("Steve", "!seen Alex", true), ChatFormat::Whisper, true, true, 4, &tab(), &s, &mut cd, 0).unwrap();
    assert_eq!(e.entity, 4);
    assert_eq!(e.command, Cmds::Seen);
    assert_eq!(e.args, vec!["Alex"]);
    assert!(e.message);
    assert_eq!(e.sender, CommandSender::Minecraft(7));
    assert_eq!(e.source, CommandSource::Minecraft(None));
}

#[test]
fn unprefixed_words_and_strangers_are_ignored() {
    let mut cd = Cooldown::new();
    let s = settings(false, EncryptionMode::Never);
    assert!(command_from_chat(&named("Steve", "seen Alex", true), ChatFormat::Whisper, true, true, 4, &tab(), &s, &mut cd, 0).is_none());
    assert!(command_from_chat(&named("Notch", "!seen Alex", true), ChatFormat::Whisper, true, true, 4, &tab(), &s, &mut cd, 0).is_none());
    // Without the prefix requirement a bare command word is enough.
    assert!(command_from_chat(&named("Steve", "seen Alex", true), ChatFormat::Command, false, false, 4, &tab(), &s, &mut cd, 0).is_some());
}

#[test]
fn whitelist_limits_the_senders() {
    let mut cd = Cooldown::new();
    let s = settings(true, EncryptionMode::Never);
    assert!(command_from_chat(&named("Alex", "!tp", true), ChatFormat::Whisper, true, true, 4, &tab(), &s, &mut cd, 0).is_none());
    assert!(command_from_chat(&named("Steve", "!tp", true), ChatFormat::Whisper, true, true, 4, &tab(), &s, &mut cd, 0).is_some());
}

#[test]
fn cooldown_blocks_a_quick_repeat() {
    let mut cd = Cooldown::new();
    let s = settings(false, EncryptionMode::Never);
    let read = |cd: &mut Cooldown, now: u64| {
        command_from_chat(&named("Steve", "!tp", true), ChatFormat::Whisper, true, true, 4, &tab(), &s, cd, now).is_some()
    };
    assert!(read(&mut cd, 100));
    assert!(!read(&mut cd, 500));
    assert!(!read(&mut cd, 1099));
    // The time kept is the first sighting, so the cooldown ends a second after it.
    assert!(read(&mut cd, 1100));
    assert!(read(&mut cd, 1101));
}

#[test]
fn cooldown_check_directly() {
    let mut cd = Cooldown::new();
    let s = "Steve".to_string();
    assert!(!cd.check(&s, 10, 5));
    assert!(cd.check(&s, 10, 14));
    assert!(!cd.check(&s, 10, 15));
    assert!(cd.check(&s, 10, 0));
    assert!(!cd.check(&"Alex".to_string(), 10, 14));
}

#[test]
fn unnamed_lines_are_parsed() {
    let mut cd = Cooldown::new();
    let s = settings(false, EncryptionMode::Never);
    let e = command_from_chat(&unnamed("[VIP] Steve whispers: !home base"), ChatFormat::Whisper, true, true, 2, &tab(), &s, &mut cd, 0).unwrap();
    assert_eq!(e.command, Cmds::Pearl);
    assert_eq!(e.args, vec!["base"]);
    assert!(e.message);
    let e = command_from_chat(&unnamed("Alex > !home"), ChatFormat::Whisper, true, true, 2, &tab(), &s, &mut cd, 0).unwrap();
    assert!(!e.message);
}

#[test]
fn batch_reads_each_bots_chat() {
    let mut cd = Cooldown::new();
    let s = settings(false, EncryptionMode::Never);
    let chats = vec![
        (1, unnamed("Steve -> seen Alex")),
        (1, unnamed("not a command line at all, really")),
        (2, unnamed("Alex whispers: playtime Steve")),
    ];
    let tabs = vec![(1, tab()), (2, tab())];
    let r = handle_chat_received_event(&chats, &tabs, &s, &mut cd, 0);
    assert_eq!(r.len(), 2);
    assert_eq!((r[0].entity, r[0].command, r[0].sender), (1, Cmds::Seen, CommandSender::Minecraft(7)));
    assert_eq!((r[1].entity, r[1].command, r[1].sender), (2, Cmds::Playtime, CommandSender::Minecraft(8)));
    assert!(!r[0].message && !r[1].message);
}

#[test]
fn batch_with_a_disconnected_bot_is_dropped() {
    let mut cd = Cooldown::new();
    let s = settings(false, EncryptionMode::Never);
    let chats = vec![(1, named("Steve", "!seen Alex", true)), (3, named("Alex", "!seen Steve", true))];
    let tabs = vec![(1, tab())];
    let r = MinecraftChatPlugin::handle_chat_received_events(&chats, &tabs, &s, &mut cd, 0);
    assert!(r.is_empty());
    // The first message was read before the batch was dropped, so its sender is now cooling down.
    let r = MinecraftChatPlugin::handle_chat_received_events(&vec![(1, named("Steve", "!seen Alex", true))], &tabs, &s, &mut cd, 10);
    assert!(r.is_empty());
}

#[test]
fn encrypted_commands_are_read_and_remembered() {
    let s = settings(false, EncryptionMode::OnDemand);
    let key = key_from_setting(&s.encryption.key);
    for e in [EncryptionType::ECB(EncodingType::NewBase64r), EncryptionType::CFB(EncodingType::NewBase64r)] {
        let mut cd = Cooldown::new();
        let secret = encrypt(e, "#%!seen Alex", &key);
        let ev = command_from_chat(&named("Steve", &secret, true), ChatFormat::Whisper, true, true, 4, &tab(), &s, &mut cd, 0).unwrap();
        assert_eq!(ev.command, Cmds::Seen);
        assert_eq!(ev.args, vec!["Alex"]);
        assert_eq!(ev.source, CommandSource::Minecraft(Some(e)));
    }
}

fn whisper(sender: CommandSender, source: CommandSource, text: &str) -> WhisperEvent {
    WhisperEvent { entity: 1, content: text.to_string(), sender, source, status: 200 }
}

#[test]
fn replies_are_whispered_to_players_still_online() {
    let enc = ChatEncryption { key: String::new(), mode: EncryptionMode::OnDemand };
    let w = whisper(CommandSender::Minecraft(8), CommandSource::Minecraft(None), "hello there");
    assert_eq!(MinecraftChatPlugin::handle_whisper_events(&w, &tab(), false, &enc), Some("w Alex hello there".to_string()));
    assert_eq!(MinecraftChatPlugin::handle_whisper_events(&w, &tab(), true, &enc), None);
    let gone = whisper(CommandSender::Minecraft(9), CommandSource::Minecraft(None), "hi");
    assert_eq!(MinecraftChatPlugin::handle_whisper_events(&gone, &tab(), false, &enc), None);
    let discord = whisper(CommandSender::Discord(9), CommandSource::Discord(1), "hi");
    assert_eq!(MinecraftChatPlugin::handle_whisper_events(&discord, &tab(), false, &enc), None);
}

#[test]
fn replies_are_encrypted_like_the_command() {
    let enc = ChatEncryption { key: String::new(), mode: EncryptionMode::OnDemand };
    let key = key_from_setting(&enc.key);
    let e = EncryptionType::ECB(EncodingType::Base64);
    let w = whisper(CommandSender::Minecraft(7), CommandSource::Minecraft(Some(e)), "secret");
    let want = format!("w Steve {}", encrypt(e, "#%secret", &key));
    assert_eq!(MinecraftChatPlugin::handle_whisper_events(&w, &tab(), false, &enc), Some(want));
}

#[test]
fn discord_messages_become_commands_for_each_bot() {
    let r = handle_message_event("!pearl Steve", 42, 9, &vec![1, 2], "!", &Vec::new());
    assert!(r.notices.is_empty());
    assert_eq!(r.events.len(), 2);
    for (e, want) in r.events.iter().zip([1, 2]) {
        assert_eq!(e.entity, want);
        assert_eq!(e.command, Cmds::Pearl);
        assert_eq!(e.args, vec!["Steve"]);
        assert_eq!(e.sender, CommandSender::Discord(42));
        assert_eq!(e.source, CommandSource::Discord(9));
        assert!(!e.message);
    }
    let none = handle_message_event("hello", 42, 9, &vec![1, 2], "!", &Vec::new());
    assert!(none.events.is_empty() && none.notices.is_empty());
}

#[test]
fn unlinked_discord_users_are_told_how_to_link() {
    let whitelisted = vec![
        LinkedUser { uuid: 7, discord_id: Some("43".to_string()) },
        LinkedUser { uuid: 8, discord_id: None },
    ];
    let r = handle_message_event("!pearl Steve", 42, 9, &vec![1, 2], "!", &whitelisted);
    assert!(r.events.is_empty());
    assert_eq!(r.notices.len(), 2);
    assert_eq!(
        r.notices[0],
        "Your Discord and Minecraft accounts are not currently linked.\nTo link via in-game, message the bot the following command: `!whitelist link 42`\nTo link via Discord, run the following command with your `auth.aristois.net` code `!whitelist link <code>`"
    );
    let r = handle_message_event("!pearl Steve", 43, 9, &vec![1], "!", &whitelisted);
    assert_eq!((r.events.len(), r.notices.len()), (1, 0));
}

#[test]
fn discord_replies_go_to_their_channels() {
    let events = vec![
        whisper(CommandSender::Discord(1), CommandSource::Discord(5), "a"),
        whisper(CommandSender::Minecraft(1), CommandSource::Minecraft(None), "b"),
        whisper(CommandSender::Discord(1), CommandSource::Discord(6), "c"),
    ];
    assert_eq!(handle_discord_whisper_event(&events), vec![(5, "a".to_string()), (6, "c".to_string())]);
}

#[test]
fn reply_batch_stops_at_an_unknown_bot() {
    let enc = ChatEncryption { key: String::new(), mode: EncryptionMode::Never };
    let bots = vec![
        ReplyBot { entity: 1, tab: tab(), disable_responses: false },
        ReplyBot { entity: 2, tab: tab(), disable_responses: true },
    ];
    let mut gone = whisper(CommandSender::Minecraft(7), CommandSource::Minecraft(None), "lost");
    gone.entity = 3;
    let mut quiet = whisper(CommandSender::Minecraft(7), CommandSource::Minecraft(None), "quiet");
    quiet.entity = 2;
    let mut discord = whisper(CommandSender::Discord(1), CommandSource::Discord(1), "elsewhere");
    discord.entity = 9;
    let events = vec![
        whisper(CommandSender::Minecraft(7), CommandSource::Minecraft(None), "one"),
        discord,
        quiet,
        gone,
        whisper(CommandSender::Minecraft(8), CommandSource::Minecraft(None), "never"),
    ];
    assert_eq!(
        handle_minecraft_whisper_event(&events, &bots, &enc),
        vec![(1, Some("w Steve one".to_string())), (9, None), (2, None)]
    );
}
