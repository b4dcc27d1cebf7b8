use shaysbot::chambers::BlockPos;
use shaysbot::chat::{reply, CommandEvent, CommandSender, CommandSource};
use shaysbot::commands::interact::handle_interact_cmd_events;
use shaysbot::commands::join::handle_join_cmd_events;
use shaysbot::commands::leave::{handle_leave_cmd_events, BotProfile, LeaveAction};
use shaysbot::commands::ping::{Command as PingCommand, PlayerLatency};
use shaysbot::commands::playtime::{clock, handle_playtime_command_events, playtime_reply, PlaytimeReply, PlaytimeStep};
use shaysbot::commands::seen::{handle_seen_cmd_events, seen_reply, SeenReply, SeenStep};
use shaysbot::commands::{parse_command, Cmds, CommandsPluginGroup};
use shaysbot::swarm::{is_queue_position, ReconnectStep, SwarmState};

fn event(command: Cmds, args: &[&str]) -> CommandEvent {
    CommandEvent {
        entity: 3,
        args: args.iter().map(|s| s.to_string()).collect(),
        command,
        message: true,
        sender: CommandSender::Minecraft(1),
        source: CommandSource::Minecraft(None),
    }
}

#[test]
fn commands_are_found_by_any_alias() {
    assert_eq!(Cmds::find("tp"), Some(Cmds::Pearl));
    assert_eq!(Cmds::find("home"), Some(Cmds::Pearl));
    assert_eq!(Cmds::find("c"), Some(Cmds::Join));
    assert_eq!(Cmds::find("dc"), Some(Cmds::Leave));
    assert_eq!(Cmds::find("interact"), Some(Cmds::Interact));
    assert_eq!(Cmds::find("Pearl"), None);
    assert_eq!(Cmds::Leave.aliases(), vec!["leave", "disconnect", "dc"]);
    assert_eq!(Cmds::Pearl.aliases(), vec!["pearl", "tp", "teleport", "warp", "home"]);
}

#[test]
fn parse_command_strips_the_prefix() {
    let (c, args) = parse_command("!seen Steve extra", "!").unwrap();
    assert_eq!(c, Cmds::Seen);
    assert_eq!(args, vec!["Steve", "extra"]);
    let (c, args) = parse_command("!!playtime", "!").unwrap();
    assert_eq!(c, Cmds::Playtime);
    assert!(args.is_empty());
    assert!(parse_command("hello there", "!").is_none());
    assert!(parse_command("", "!").is_none());
}

#[test]
fn plugin_group_adds_the_commands_in_order() {
    assert_eq!(
        CommandsPluginGroup.build(),
        vec![Cmds::Join, Cmds::Leave, Cmds::Pearl, Cmds::Playtime, Cmds::Seen, Cmds::Whitelist]
    );
}

#[test]
fn clock_formats_hours_minutes_seconds() {
    assert_eq!(clock(0), "00:00:00");
    assert_eq!(clock(3661), "01:01:01");
    assert_eq!(clock(86399), "23:59:59");
    assert_eq!(clock(90061), "01:01:01");
    assert_eq!(clock(u64::MAX), format!("{:02}:{:02}:{:02}", u64::MAX / 3600 % 24, u64::MAX / 60 % 60, u64::MAX % 60));
}

#[test]
fn playtime_steps_and_replies() {
    assert!(matches!(handle_playtime_command_events(&vec![]), PlaytimeStep::Ignore));
    assert!(matches!(handle_playtime_command_events(&vec![event(Cmds::Seen, &["a"])]), PlaytimeStep::Ignore));
    match handle_playtime_command_events(&vec![event(Cmds::Playtime, &[])]) {
        PlaytimeStep::Reply(w) => assert_eq!((w.status, w.content.as_str()), (404, "Missing player name")),
        _ => panic!("expected a reply"),
    }
    match handle_playtime_command_events(&vec![event(Cmds::Playtime, &["Steve", "x"])]) {
        PlaytimeStep::Fetch(p) => assert_eq!(p, "Steve"),
        _ => panic!("expected a fetch"),
    }
    let e = event(Cmds::Playtime, &["Steve"]);
    let p = "Steve".to_string();
    let w = playtime_reply(&e, &p, &PlaytimeReply::Failed);
    assert_eq!((w.status, w.content.as_str()), (404, "Player not found: Steve"));
    let w = playtime_reply(&e, &p, &PlaytimeReply::NoContent);
    assert_eq!((w.status, w.content.as_str()), (204, "Player not found: Steve"));
    let w = playtime_reply(&e, &p, &PlaytimeReply::Unparsed);
    assert_eq!((w.status, w.content.as_str()), (500, "Failed to parse JSON"));
    let w = playtime_reply(&e, &p, &PlaytimeReply::Seconds(7322));
    assert_eq!((w.status, w.content.as_str()), (200, "02:02:02"));
    assert_eq!(w.entity, 3);
}

#[test]
fn seen_steps_and_replies() {
    assert!(matches!(handle_seen_cmd_events(&vec![event(Cmds::Playtime, &["a"])]), SeenStep::Ignore));
    match handle_seen_cmd_events(&vec![event(Cmds::Seen, &[])]) {
        SeenStep::Reply(w) => assert_eq!((w.status, w.content.as_str()), (400, "Missing player name")),
        _ => panic!("expected a reply"),
    }
    let e = event(Cmds::Seen, &["Alex"]);
    let p = "Alex".to_string();
    let w = seen_reply(&e, &p, &SeenReply::Seen(Some(0), Some(86400 + 3661)));
    assert_eq!((w.status, w.content.as_str()), (200, "First: 1970-01-01 | Last: 1970-01-02 01:01"));
    let w = seen_reply(&e, &p, &SeenReply::Seen(Some(1_700_000_000), None));
    assert_eq!((w.status, w.content.as_str()), (200, "Player has never joined"));
    let w = seen_reply(&e, &p, &SeenReply::Seen(Some(0), Some(i64::MAX)));
    assert_eq!((w.status, w.content.as_str()), (500, "Failed to parse JSON"));
    let w = seen_reply(&e, &p, &SeenReply::Failed("timed out".to_string()));
    assert_eq!((w.status, w.content.as_str()), (500, "Error: timed out"));
    let w = seen_reply(&e, &p, &SeenReply::NoContent);
    assert_eq!((w.status, w.content.as_str()), (204, "Player not found: Alex"));
    let w = seen_reply(&e, &p, &SeenReply::Unparsed);
    assert_eq!((w.status, w.content.as_str()), (500, "Failed to parse JSON"));
}

fn latencies() -> Vec<PlayerLatency> {
    [("Steve", 0), ("Alex", 15), ("Bob", 45), ("Eve", 250), ("Max", i32::MAX), ("Neg", -5)]
        .iter()
        .map(|(n, l)| PlayerLatency { name: n.to_string(), latency: *l })
        .collect()
}

#[test]
fn ping_quotes_by_latency() {
    let tab = latencies();
    let ask = |who: &str| PingCommand.message(&Some("[VIP] Steve".to_string()), &vec![who.to_string()], &tab).unwrap();
    assert_eq!(ask("Alex"), "Alex's ping latency is 15ms, Someone has fiber.");
    assert_eq!(ask("Bob"), "Bob's ping latency is 45ms, Could be better...");
    assert_eq!(ask("Eve"), "Eve's ping latency is 250ms, Are you okay?");
    assert_eq!(ask("Max"), format!("Max's ping latency is {}ms, ERROR 404 QUOTE NOT FOUND", i32::MAX));
    assert_eq!(ask("Neg"), "Neg's ping latency is -5ms, You just joined.");
    assert_eq!(ask("Nobody"), "No username 'Nobody' found");
}

#[test]
fn ping_without_argument_is_about_the_sender() {
    let tab = latencies();
    let r = PingCommand.message(&Some("Steve".to_string()), &vec![], &tab).unwrap();
    assert_eq!(r, "Steve's ping latency is 0ms, You just joined.");
    assert!(PingCommand.message(&None, &vec![], &tab).is_none());
}

#[test]
fn join_turns_reconnecting_on() {
    let mut state = SwarmState::new();
    assert!(handle_join_cmd_events(&vec![event(Cmds::Leave, &["x"])], &mut state).is_none());
    let w = handle_join_cmd_events(&vec![event(Cmds::Join, &[])], &mut state).unwrap();
    assert_eq!((w.status, w.content.as_str()), (404, "[404] Missing bot name"));
    let w = handle_join_cmd_events(&vec![event(Cmds::Join, &["MyBot"])], &mut state).unwrap();
    assert_eq!((w.status, w.content.as_str()), (202, "[202] Enabling AutoReconnect for MyBot"));
    assert_eq!(state.reconnect_step("mybot"), ReconnectStep::Wait(true, 0));
}

#[test]
fn reconnect_settings_follow_the_swarm_rules() {
    let mut state = SwarmState::new();
    assert_eq!(state.reconnect_step("Bot"), ReconnectStep::Retry);
    assert_eq!(state.reconnect_step("BOT"), ReconnectStep::Wait(false, 5));
    state.reconnect_failed("bot");
    assert_eq!(state.reconnect_step("bot"), ReconnectStep::Wait(false, 30));
    state.enable_reconnect("Bot");
    assert_eq!(state.reconnect_step("bot"), ReconnectStep::Wait(true, 0));
    state.reconnect_failed("Bot");
    assert_eq!(state.reconnect_step("bot"), ReconnectStep::Wait(true, 30));
    state.reconnect_failed("Other");
    assert_eq!(state.reconnect_step("other"), ReconnectStep::Wait(false, 30));
}

#[test]
fn queue_position_lines_are_recognised() {
    assert!(is_queue_position("Position in queue: 42"));
    assert!(is_queue_position("2b2t: Position in queue: 1"));
    assert!(!is_queue_position("Position in queue:"));
    assert!(!is_queue_position(""));
}

#[test]
fn leave_disconnects_named_bots_until_another_command() {
    let bots = vec![BotProfile { entity: 5, name: "Alpha".to_string() }, BotProfile { entity: 6, name: "Beta".to_string() }];
    let events = vec![
        event(Cmds::Leave, &["Beta"]),
        event(Cmds::Leave, &[]),
        event(Cmds::Leave, &["Gamma"]),
        event(Cmds::Join, &["Alpha"]),
        event(Cmds::Leave, &["Alpha"]),
    ];
    let r = handle_leave_cmd_events(&events, &bots);
    assert_eq!(r.len(), 3);
    match &r[0] {
        LeaveAction::Disconnect { entity, sender } => {
            assert_eq!(*entity, 6);
            assert_eq!(*sender, CommandSender::Minecraft(1));
        }
        _ => panic!("expected a disconnect"),
    }
    match &r[1] {
        LeaveAction::Reply(w) => assert_eq!((w.status, w.content.as_str()), (404, "Missing bot name")),
        _ => panic!("expected a reply"),
    }
    match &r[2] {
        LeaveAction::Reply(w) => assert_eq!((w.status, w.content.as_str()), (404, "offline bot name")),
        _ => panic!("expected a reply"),
    }
}

#[test]
fn interact_uses_each_block_until_an_error() {
    let events = vec![
        event(Cmds::Interact, &["1", "-2", "+3"]),
        event(Cmds::Seen, &["x"]),
        event(Cmds::Interact, &["4", "5", "6", "7"]),
        event(Cmds::Interact, &["1", "two", "3"]),
        event(Cmds::Interact, &["1", "2", "3"]),
    ];
    let r = handle_interact_cmd_events(&events);
    assert_eq!(r.len(), 3);
    assert_eq!(r[0].0.content, "Interacted");
    assert_eq!(r[0].1, Some(BlockPos { x: 1, y: -2, z: 3 }));
    assert_eq!(r[1].1, Some(BlockPos { x: 4, y: 5, z: 6 }));
    assert_eq!((r[2].0.status, r[2].0.content.as_str(), r[2].1), (200, "Invalid coordinate", None));
    let r = handle_interact_cmd_events(&vec![event(Cmds::Interact, &["1", "2"])]);
    assert_eq!((r.len(), r[0].0.content.as_str()), (1, "Missing coordinate"));
}

#[test]
fn reply_keeps_where_the_command_came_from() {
    let e = event(Cmds::Seen, &[]);
    let w = reply(&e, 201, "ok".to_string());
    assert_eq!((w.entity, w.sender, w.source, w.status, w.content.as_str()), (3, e.sender, e.source, 201, "ok"));
}
