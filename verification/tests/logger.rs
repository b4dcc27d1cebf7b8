use shaysbot::chambers::{BlockPos, Chamber, StasisChambers};
use shaysbot::chat::{CommandSender, TabEntry};
use shaysbot::commands::Cmds;
use shaysbot::maps::UuidMap;
use shaysbot::modules::logger::{
    block_text, command_text, handle_check_for_updates, is_logged_block, disconnect_text, discord_disconnect_text, entered_text, exited_texts,
    is_shulker_box, is_update_tick, joined_game_text, joined_texts, logged_out_texts, pearl_log_text, pearl_text,
    update_text, visual_range_text, EventConfig, EventSettings, EventType, InfoEntry, LoggerPlugin,
    LoggerSettings, Profile, RangeChange, WebhookClient,
};

fn strings(v: &[&str]) -> Vec<String> {
    v.iter().map(|s| s.to_string()).collect()
}

fn config(enabled: bool, urls: &[&str]) -> EventConfig {
    EventConfig { enabled, urls: strings(urls), blocks: None }
}

fn client() -> WebhookClient {
    WebhookClient::new(
        vec![
            (EventType::PlayerJoin, config(true, &[])),
            (EventType::PlayerLeave, config(false, &["leave"])),
            (EventType::PlayerPearl, config(true, &["p1", "p2", "p3"])),
            (EventType::PlayerJoin, config(false, &[])),
        ],
        strings(&["g1", "g2"]),
    )
}

#[test]
fn webhooks_are_taken_in_turn() {
    let mut c = client();
    let urls: Vec<String> = (0..7).map(|_| c.send(EventType::PlayerPearl, "x".to_string()).unwrap().url).collect();
    assert_eq!(urls, strings(&["p1", "p2", "p3", "p1", "p2", "p3", "p1"]));
    assert_eq!(c.indices[5], 7);
    // Each kind keeps its own turn.
    let p = c.send(EventType::PlayerJoin, "joined".to_string()).unwrap();
    assert_eq!((p.url.as_str(), p.content.as_str()), ("g1", "joined"));
    assert_eq!(c.indices, vec![1, 0, 0, 0, 0, 7, 0, 0]);
}

#[test]
fn other_kinds_in_between_keep_the_turn() {
    let mut c = client();
    let a = c.send(EventType::PlayerPearl, "a".to_string()).unwrap().url;
    c.send(EventType::PlayerJoin, "j".to_string()).unwrap();
    c.send(EventType::PlayerJoin, "j".to_string()).unwrap();
    let b = c.send(EventType::PlayerPearl, "b".to_string()).unwrap().url;
    c.send(EventType::PlayerJoin, "j".to_string()).unwrap();
    let d = c.send(EventType::PlayerPearl, "d".to_string()).unwrap().url;
    assert_eq!((a.as_str(), b.as_str(), d.as_str()), ("p1", "p2", "p3"));
}

#[test]
fn disabled_or_unknown_events_are_not_posted() {
    let mut c = client();
    assert!(c.send(EventType::PlayerLeave, "x".to_string()).is_none());
    assert!(c.send(EventType::PlayerBreak, "x".to_string()).is_none());
    assert!(c.send_with_block(EventType::PlayerJoin, "x", false).is_none());
    assert_eq!(c.indices, vec![0; 8]);
    assert_eq!(c.get_urls(EventType::PlayerJoin), Some(strings(&["g1", "g2"])));
    assert_eq!(c.get_urls(EventType::PlayerLeave), None);
    assert_eq!(c.get_blocks(EventType::PlayerJoin), None);
}

#[test]
fn counter_wraps_around() {
    let mut c = client();
    c.indices[5] = usize::MAX;
    let p = c.send(EventType::PlayerPearl, "x".to_string()).unwrap();
    assert_eq!(p.url, ["p1", "p2", "p3"][usize::MAX % 3]);
    assert_eq!(c.indices[5], 0);
}

fn event_settings(enabled: bool, webhooks: Option<&[&str]>, blocks: Option<&[&str]>) -> EventSettings {
    EventSettings { enabled, webhooks: webhooks.map(strings), blocks: blocks.map(strings) }
}

fn logger_settings(webhooks: &[&str]) -> LoggerSettings {
    LoggerSettings {
        webhooks: strings(webhooks),
        player_join: event_settings(true, None, Some(&["stone"])),
        player_leave: event_settings(false, Some(&["l"]), None),
        player_enter: event_settings(true, None, None),
        player_exit: event_settings(true, None, None),
        player_command: event_settings(true, None, None),
        player_pearl: event_settings(true, None, None),
        player_break: event_settings(true, None, Some(&["diamond_ore"])),
        player_place: event_settings(true, Some(&["place"]), None),
    }
}

#[test]
fn logger_builds_one_configuration_per_event() {
    assert!(LoggerPlugin::build(&logger_settings(&[])).is_none());
    let c = LoggerPlugin::build(&logger_settings(&["g"])).unwrap();
    assert_eq!(c.indices, vec![0; 8]);
    let kinds: Vec<EventType> = c.configs.iter().map(|x| x.0).collect();
    assert_eq!(
        kinds,
        vec![
            EventType::PlayerJoin,
            EventType::PlayerLeave,
            EventType::PlayerEnter,
            EventType::PlayerExit,
            EventType::PlayerCommand,
            EventType::PlayerPearl,
            EventType::PlayerBreak,
            EventType::PlayerPlace,
        ]
    );
    assert_eq!(c.get_blocks(EventType::PlayerJoin), None);
    assert_eq!(c.get_blocks(EventType::PlayerBreak), Some(strings(&["diamond_ore"])));
    assert_eq!(c.get_urls(EventType::PlayerPlace), Some(strings(&["place"])));
    assert_eq!(c.get_urls(EventType::PlayerEnter), Some(strings(&["g"])));
    assert_eq!(c.get_urls(EventType::PlayerLeave), None);
}

#[test]
fn log_lines() {
    assert_eq!(visual_range_text("Bot", "Steve", RangeChange::Entered), "[Bot] Steve has entered visual range.");
    assert_eq!(visual_range_text("Bot", "Steve", RangeChange::Exited), "[Bot] Steve has exited visual range.");
    assert_eq!(visual_range_text("Bot", "Steve", RangeChange::LoggedOut), "[Bot] Steve logged out in visual range.");
    assert_eq!(visual_range_text("Bot", "Steve", RangeChange::JoinedIn), "[Bot] Steve joined in visual range.");
    assert_eq!(block_text("Bot", "Diamond Ore", true), "[Bot] Diamond Ore was mined in visual range.");
    assert_eq!(block_text("Bot", "Chest", false), "[Bot] Chest was placed in visual range.");
    assert_eq!(joined_game_text("Bot"), "[Bot] joined the game.");
    assert_eq!(update_text("https://github.com/a/b", "1.0.0"), "Update: https://github.com/a/b/releases/tag/1.0.0");
}

#[test]
fn disconnect_lines() {
    assert_eq!(disconnect_text("Bot", &None), "[Bot] disconnected.");
    assert_eq!(disconnect_text("Bot", &Some("Kicked".to_string())), "[Bot] left the game. | Kicked");
    assert_eq!(disconnect_text("Bot", &Some("[AutoDisconnect] low health".to_string())), "[Bot] Disabling AutoReconnect");
    assert_eq!(discord_disconnect_text("Bot", &None), None);
    assert_eq!(discord_disconnect_text("Bot", &Some("x".to_string())), Some("[Bot] left the game. | x".to_string()));
}

#[test]
fn command_lines() {
    assert_eq!(command_text("Bot", Cmds::Pearl, &strings(&["home"]), CommandSender::Discord(77)), "[Bot] ran `/pearl home` (discord:77)");
    assert_eq!(command_text("Bot", Cmds::Seen, &Vec::new(), CommandSender::Minecraft(1)), "[Bot] ran `/seen` (console)");
    assert_eq!(command_text("Bot", Cmds::Join, &strings(&["a", "b"]), CommandSender::ApiServer(1)), "[Bot] ran `/join a b` (api)");
    assert_eq!(command_text("Bot", Cmds::Join, &strings(&[""]), CommandSender::ApiServer(1)), "[Bot] ran `/join` (api)");
}

#[test]
fn pearl_lines() {
    assert_eq!(pearl_text("Bot", "base", 2, 5), "[Bot] pearl at `base` pulled (2 remaining)");
    assert_eq!(pearl_text("Bot", "base", 6, 5), "[Bot] pearl at `base` pulled (over limit: 6/5)");
    let mut m: StasisChambers = UuidMap::new();
    for (k, owner) in [(1u128, 7u128), (2, 8), (3, 7)] {
        m.insert(k, Chamber { block_pos: BlockPos { x: 0, y: 0, z: 0 }, entity_id: 0, owner_uuid: owner, location: String::new() });
    }
    assert_eq!(pearl_log_text("Bot", "base", &m, 7, 1), "[Bot] pearl at `base` pulled (over limit: 2/1)");
    assert_eq!(pearl_log_text("Bot", "base", &m, 9, 1), "[Bot] pearl at `base` pulled (0 remaining)");
}

#[test]
fn daily_ticks_and_shulker_boxes() {
    assert!(is_update_tick(0));
    assert!(!is_update_tick(1));
    assert!(is_update_tick(1_728_000 * 3));
    assert!(is_shulker_box("minecraft:red_shulker_box"));
    assert!(is_shulker_box("shulker_box"));
    assert!(!is_shulker_box("minecraft:shulker_box_lid"));
}

fn profiles() -> Vec<Profile> {
    vec![
        Profile { entity_id: 1, uuid: 10, name: "Steve".to_string() },
        Profile { entity_id: 2, uuid: 20, name: "Alex".to_string() },
    ]
}

#[test]
fn range_lines_for_known_players() {
    assert_eq!(logged_out_texts("Bot", &profiles(), &vec![20, 30, 10]), strings(&["[Bot] Alex logged out in visual range.", "[Bot] Steve logged out in visual range."]));
    let entries = vec![InfoEntry { uuid: 10, has_display_name: true }, InfoEntry { uuid: 20, has_display_name: false }];
    assert_eq!(joined_texts("Bot", &profiles(), true, &entries), strings(&["[Bot] Steve joined in visual range."]));
    assert!(joined_texts("Bot", &profiles(), false, &entries).is_empty());
    assert_eq!(exited_texts("Bot", &profiles(), &vec![2, 3]), strings(&["[Bot] Alex has exited visual range."]));
    let tab = vec![TabEntry { uuid: 10, name: "Steve".to_string() }];
    assert_eq!(entered_text("Bot", true, 10, &tab), Some("[Bot] Steve has entered visual range.".to_string()));
    assert_eq!(entered_text("Bot", false, 10, &tab), None);
    assert_eq!(entered_text("Bot", true, 11, &tab), None);
}

#[test]
fn update_checks_once_a_day_per_channel() {
    let day: u128 = 1_728_000;
    assert_eq!(handle_check_for_updates(&vec![(day, 5), (day + 1, 6), (0, 7)]), vec![5, 7]);
    assert_eq!(handle_check_for_updates(&vec![(day, 5), (day, 0), (day, 7)]), vec![5]);
    assert!(handle_check_for_updates(&Vec::new()).is_empty());
}

#[test]
fn block_filter_follows_the_lists() {
    assert!(is_logged_block("red_shulker_box", &None));
    assert!(is_logged_block("diamond_block", &None));
    assert!(!is_logged_block("stone", &None));
    let custom = Some(strings(&["netherite_block", "diamond_block"]));
    assert!(is_logged_block("diamond_block", &custom));
    assert!(!is_logged_block("gold_block", &custom));
    assert!(is_logged_block("stone", &Some(Vec::new())));
    assert!(is_logged_block("stone", &Some(strings(&[""]))));
    assert!(is_logged_block("", &Some(strings(&[""]))));
    assert!(!is_logged_block("", &None));
}
