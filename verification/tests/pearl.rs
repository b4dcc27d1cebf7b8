use shaysbot::chambers::{count_owned, count_owned_by, select_chamber, BlockPos, Chamber, PearlQuery, StasisChambers};
use shaysbot::chat::{CommandEvent, CommandSender, CommandSource, TabEntry};
use shaysbot::commands::pearl::{handle_pearl_cmd_events, pearl_step, PearlBot, PearlSettings, PearlStep};
use shaysbot::commands::Cmds;
use shaysbot::maps::UuidMap;
use shaysbot::settings::{AutoPearlSettings, User, Users};

fn pos(x: i32, y: i32, z: i32) -> BlockPos {
    BlockPos { x, y, z }
}

fn chamber(p: BlockPos, owner: u128, location: &str) -> Chamber {
    Chamber { block_pos: p, entity_id: 0, owner_uuid: owner, location: location.to_string() }
}

fn chambers(cs: Vec<Chamber>) -> StasisChambers {
    let mut m: StasisChambers = UuidMap::new();
    for (i, c) in cs.into_iter().enumerate() {
        m.insert(1000 + i as u128, c);
    }
    m
}

fn query(owner: u128, location: Option<&str>, max: Option<i32>) -> PearlQuery {
    PearlQuery { owner, location: location.map(|l| l.to_string()), max_distance: max, offset: 1, from: pos(0, 0, 0) }
}

#[test]
fn fewest_sharers_first_then_nearest_then_first_listed() {
    let m = chambers(vec![
        chamber(pos(1, 0, 0), 7, "base"),
        chamber(pos(1, 0, 0), 8, "base"),
        chamber(pos(5, 0, 0), 7, "base"),
        chamber(pos(3, 0, 0), 7, "base"),
        chamber(pos(0, 0, 3), 7, "base"),
    ]);
    // Entry 0 shares its block with another owner; entries 3 and 4 are equally near.
    assert_eq!(select_chamber(&m, &query(7, Some("base"), None)), Some(3));
    assert_eq!(count_owned(&m, &query(7, Some("base"), None)), 4);
    assert_eq!(count_owned_by(&m, 7), 4);
    assert_eq!(count_owned_by(&m, 8), 1);
}

#[test]
fn range_and_location_limit_the_choice() {
    let m = chambers(vec![chamber(pos(10, 0, 0), 7, "base"), chamber(pos(2, 0, 0), 7, "farm")]);
    assert_eq!(select_chamber(&m, &query(7, Some("base"), Some(5))), None);
    assert_eq!(select_chamber(&m, &query(7, Some("base"), Some(11))), Some(0));
    assert_eq!(select_chamber(&m, &query(7, None, None)), Some(1));
    assert_eq!(select_chamber(&m, &query(9, None, None)), None);
    assert_eq!(count_owned(&m, &query(7, Some("base"), Some(1))), 1);
}

fn bot(entity: u64, location: &str, enabled: bool) -> PearlBot {
    PearlBot {
        entity,
        tab: vec![TabEntry { uuid: 7, name: "Steve".to_string() }, TabEntry { uuid: 8, name: "Alex".to_string() }],
        position: pos(0, 0, 0),
        auto_pearl: AutoPearlSettings { enabled, location: location.to_string() },
    }
}

fn settings(whitelist_only: bool, users: Users) -> PearlSettings {
    PearlSettings { whitelist_only, users, pearl_view_distance: 4 }
}

fn event(entity: u64, args: &[&str], sender: CommandSender, source: CommandSource, message: bool) -> CommandEvent {
    CommandEvent { entity, args: args.iter().map(|s| s.to_string()).collect(), command: Cmds::Pearl, message, sender, source }
}

fn reply_of(r: PearlStep) -> (u16, String) {
    match r {
        PearlStep::Reply(w) => (w.status, w.content),
        PearlStep::Goto(w, _) => (w.status, w.content),
        PearlStep::Skip => (0, "skip".to_string()),
        PearlStep::Stop => (0, "stop".to_string()),
    }
}

const MC7: CommandSender = CommandSender::Minecraft(7);
const WHISPER: CommandSource = CommandSource::Minecraft(None);

#[test]
fn pull_goes_to_the_senders_chamber() {
    let m = chambers(vec![
        chamber(pos(3, 0, 0), 8, "base"),
        chamber(pos(2, 0, 0), 7, "base"),
        chamber(pos(4, 0, 0), 7, "base"),
        chamber(pos(5, 0, 0), 7, "base"),
    ]);
    let bots = vec![bot(1, "base", true)];
    let r = pearl_step(&event(1, &[], MC7, WHISPER, true), &bots, &settings(false, UuidMap::new()), &m);
    match r {
        PearlStep::Goto(w, p) => {
            assert_eq!(w.status, 200);
            assert_eq!(w.content, "I'm on my way, you have 2 more pearls.");
            assert_eq!(p.entity, 1);
            assert_eq!(p.owner_uuid, 7);
            assert_eq!(p.block_pos, pos(2, 0, 0));
        }
        _ => panic!("expected a pull"),
    }
}

#[test]
fn on_my_way_counts_the_pearls_left() {
    let bots = vec![bot(1, "base", true)];
    let one = chambers(vec![chamber(pos(1, 0, 0), 7, "base")]);
    let two = chambers(vec![chamber(pos(1, 0, 0), 7, "base"), chamber(pos(2, 0, 0), 7, "base")]);
    let g = settings(false, UuidMap::new());
    assert_eq!(reply_of(pearl_step(&event(1, &[], MC7, WHISPER, true), &bots, &g, &one)).1, "I'm on my way, this was your last pearl!");
    assert_eq!(reply_of(pearl_step(&event(1, &[], MC7, WHISPER, true), &bots, &g, &two)).1, "I'm on my way, you have one more pearl!");
}

#[test]
fn pearl_not_found_and_out_of_range() {
    let bots = vec![bot(1, "base", true)];
    let g = settings(false, UuidMap::new());
    // Sixteen blocks is the reach: four times a view distance of four.
    let far = chambers(vec![chamber(pos(16, 0, 0), 7, "base")]);
    assert_eq!(reply_of(pearl_step(&event(1, &[], MC7, WHISPER, true), &bots, &g, &far)), (404, "Pearl not found at base".to_string()));
    let near = chambers(vec![chamber(pos(15, 0, 0), 7, "base")]);
    assert_eq!(reply_of(pearl_step(&event(1, &[], MC7, WHISPER, true), &bots, &g, &near)).0, 200);
}

#[test]
fn disabled_bots_and_other_commands_are_passed_by() {
    let m = chambers(vec![chamber(pos(1, 0, 0), 7, "base")]);
    let g = settings(false, UuidMap::new());
    assert!(matches!(pearl_step(&event(1, &[], MC7, WHISPER, true), &vec![bot(1, "base", false)], &g, &m), PearlStep::Skip));
    assert!(matches!(pearl_step(&event(2, &[], MC7, WHISPER, true), &vec![bot(1, "base", true)], &g, &m), PearlStep::Skip));
    let mut seen = event(1, &[], MC7, WHISPER, true);
    seen.command = Cmds::Seen;
    assert!(matches!(pearl_step(&seen, &vec![bot(1, "base", true)], &g, &m), PearlStep::Skip));
}

#[test]
fn discord_requests_name_the_player() {
    let m = chambers(vec![chamber(pos(1, 0, 0), 7, "base")]);
    let bots = vec![bot(1, "base", true)];
    let discord = CommandSender::Discord(55);
    let src = CommandSource::Discord(3);
    let open = settings(false, UuidMap::new());
    assert_eq!(reply_of(pearl_step(&event(1, &[], discord, src, false), &bots, &open, &m)), (404, "Missing player name".to_string()));
    assert_eq!(reply_of(pearl_step(&event(1, &["Notch"], discord, src, false), &bots, &open, &m)), (404, "Notch is not online".to_string()));
    assert_eq!(reply_of(pearl_step(&event(1, &["sTEVE"], discord, src, false), &bots, &open, &m)).0, 200);

    let mut users: Users = UuidMap::new();
    users.insert(7, User { discord_id: "56".to_string(), api_password: String::new() });
    let closed = settings(true, users);
    assert_eq!(reply_of(pearl_step(&event(1, &["steve"], discord, src, false), &bots, &closed, &m)), (403, "That account isn't linked to you".to_string()));
    assert!(matches!(pearl_step(&event(1, &["alex"], discord, src, false), &bots, &closed, &m), PearlStep::Stop));

    let mut users: Users = UuidMap::new();
    users.insert(7, User { discord_id: "*".to_string(), api_password: String::new() });
    let any = settings(true, users);
    match pearl_step(&event(1, &["Steve"], discord, src, false), &bots, &any, &m) {
        PearlStep::Goto(_, p) => assert_eq!(p.owner_uuid, 7),
        _ => panic!("expected a pull"),
    }
}

#[test]
fn several_bots_need_a_location() {
    let m = chambers(vec![chamber(pos(1, 0, 0), 7, "farm"), chamber(pos(1, 0, 0), 7, "base")]);
    let bots = vec![bot(1, "farm", true), bot(2, "base", true), bot(3, "farm", true)];
    let g = settings(false, UuidMap::new());
    let api = CommandSender::ApiServer(7);
    let src = CommandSource::ApiServer(9);
    assert_eq!(
        reply_of(pearl_step(&event(1, &[], api, src, false), &bots, &g, &m)),
        (406, "Invalid location | Locations: base, farm".to_string())
    );
    assert!(matches!(pearl_step(&event(1, &["base"], api, src, false), &bots, &g, &m), PearlStep::Skip));
    match pearl_step(&event(2, &["base"], api, src, false), &bots, &g, &m) {
        PearlStep::Goto(_, p) => assert_eq!(p.entity, 2),
        _ => panic!("expected a pull"),
    }
    // In Minecraft a bare request is served by the bot it reached.
    assert_eq!(reply_of(pearl_step(&event(1, &[], MC7, WHISPER, false), &bots, &g, &m)).0, 200);
    assert!(matches!(pearl_step(&event(1, &["base"], MC7, WHISPER, false), &bots, &g, &m), PearlStep::Skip));
    assert_eq!(reply_of(pearl_step(&event(1, &["base"], MC7, WHISPER, true), &bots, &g, &m)).0, 200);
}

#[test]
fn first_command_with_a_plan_decides() {
    let m = chambers(vec![chamber(pos(1, 0, 0), 7, "base")]);
    let bots = vec![bot(1, "base", true)];
    let g = settings(false, UuidMap::new());
    let mut other = event(1, &[], MC7, WHISPER, true);
    other.command = Cmds::Join;
    let events = vec![other, event(1, &[], CommandSender::Minecraft(8), WHISPER, true), event(1, &[], MC7, WHISPER, true)];
    assert_eq!(reply_of(handle_pearl_cmd_events(&events, &bots, &g, &m)), (404, "Pearl not found at base".to_string()));
    assert!(matches!(handle_pearl_cmd_events(&Vec::new(), &bots, &g, &m), PearlStep::Skip));
}
