use shaysbot::chambers::BlockPos;
use shaysbot::chat::TabEntry;
use shaysbot::commands::pearl::PearlEvent;
use shaysbot::maps::UuidMap;
use shaysbot::modules::anti_afk::{AntiAfkAction, AntiAfkPlugin, AntiAfkSettings};
use shaysbot::modules::auto_eat::{AutoEatPlugin, AutoEatSettings, EatAction, Food};
use shaysbot::modules::auto_kill::{AutoKillPlugin, AutoKillSettings, KillAction, Weapon};
use shaysbot::modules::auto_leave::{AutoLeavePlugin, RequeueAction, RequeueView};
use shaysbot::modules::auto_look::AutoLookPlugin;
use shaysbot::modules::auto_pearl::{AutoPearlPlugin, PullView, ResendPearlEvents, Walker};
use shaysbot::modules::auto_totem::AutoTotemPlugin;
use shaysbot::modules::auto_whitelist::{Appeared, AutoWhitelistPlugin};
use shaysbot::modules::ticks::is_due;
use shaysbot::modules::{Module, ModulesPluginGroup, SwapClick};
use shaysbot::settings::{User, Users};
use shaysbot::swarm::{ReconnectStep, SwarmState};

#[test]
fn modules_are_added_in_order() {
    assert_eq!(
        ModulesPluginGroup.build(),
        vec![
            Module::AntiAfk,
            Module::AutoEat,
            Module::AutoLeave,
            Module::AutoKill,
            Module::AutoLook,
            Module::AutoPearl,
            Module::AutoTotem,
            Module::AutoWhitelist,
        ]
    );
}

#[test]
fn modules_run_every_so_many_ticks() {
    assert!(is_due(true, 40, 20));
    assert!(!is_due(true, 41, 20));
    assert!(!is_due(false, 40, 20));
    assert!(is_due(false, 1, 0) == false);
    assert!(AutoLookPlugin::handle_auto_look(true, 0, 5));
    assert!(!AutoLookPlugin::handle_auto_look(true, 3, 5));
    let s = AntiAfkSettings { enabled: true, delay_ticks: 10, view_distance: 6 };
    assert_eq!(AntiAfkPlugin::change_view_distance(&s), 6);
    assert_eq!(AntiAfkPlugin::handle_anti_afk(&s, 30), AntiAfkAction::SwingWithViewDistance(6));
    assert_eq!(AntiAfkPlugin::handle_anti_afk(&s, 31), AntiAfkAction::Idle);
    let off = AntiAfkSettings { enabled: false, delay_ticks: 0, view_distance: 6 };
    assert_eq!(AntiAfkPlugin::handle_anti_afk(&off, 0), AntiAfkAction::Idle);
}

#[test]
fn eats_the_most_saturating_food() {
    let s = AutoEatSettings { enabled: true, delay_ticks: 1 };
    let slots = vec![
        (9, None),
        (10, Some(Food::Bread)),
        (11, Some(Food::CookedBeef)),
        (12, Some(Food::GoldenCarrot)),
        (13, Some(Food::GoldenCarrot)),
        (14, Some(Food::CookedPorkchop)),
    ];
    assert_eq!(
        AutoEatPlugin::handle_auto_eat(&s, 0, 10, None, &slots, 2),
        EatAction::Eat { swap: Some(SwapClick { source_slot: 12, target_slot: 2 }) }
    );
    // Same saturation: more nutrition wins, else the first.
    let tie = vec![(20, Some(Food::BakedPotato)), (21, Some(Food::CookedRabbit)), (22, Some(Food::Bread))];
    assert_eq!(
        AutoEatPlugin::handle_auto_eat(&s, 0, 10, None, &tie, 0),
        EatAction::Eat { swap: Some(SwapClick { source_slot: 20, target_slot: 0 }) }
    );
    let more = vec![(20, Some(Food::HoneyBottle)), (21, Some(Food::Chicken))];
    assert_eq!(
        AutoEatPlugin::handle_auto_eat(&s, 0, 10, None, &more, 0),
        EatAction::Eat { swap: Some(SwapClick { source_slot: 20, target_slot: 0 }) }
    );
}

#[test]
fn eating_waits_for_hunger_and_the_tick() {
    let s = AutoEatSettings { enabled: true, delay_ticks: 4 };
    let slots = vec![(10, Some(Food::Apple))];
    assert_eq!(AutoEatPlugin::handle_auto_eat(&s, 0, 18, None, &slots, 0), EatAction::Idle);
    assert_eq!(AutoEatPlugin::handle_auto_eat(&s, 2, 5, None, &slots, 0), EatAction::Idle);
    assert_eq!(AutoEatPlugin::handle_auto_eat(&s, 4, 17, Some(Food::Cookie), &slots, 0), EatAction::Eat { swap: None });
    assert_eq!(AutoEatPlugin::handle_auto_eat(&s, 4, 17, None, &vec![(1, None)], 0), EatAction::Eat { swap: None });
    let off = AutoEatSettings { enabled: false, delay_ticks: 0 };
    assert_eq!(AutoEatPlugin::handle_auto_eat(&off, 0, 0, None, &slots, 0), EatAction::Idle);
}

#[test]
fn attacks_with_the_most_damaging_weapon() {
    let s = AutoKillSettings { enabled: true, auto_weapon: true, delay_ticks: 10 };
    let slots = vec![
        (9, Some(Weapon::DiamondSword)),
        (10, Some(Weapon::IronAxe)),
        (11, Some(Weapon::StoneAxe)),
        (12, None),
    ];
    assert_eq!(
        AutoKillPlugin::handle_auto_kill(&s, 20, false, Some(5), None, &slots, 1),
        KillAction::Attack { target: 5, swap: Some(SwapClick { source_slot: 10, target_slot: 1 }) }
    );
    assert_eq!(AutoKillPlugin::handle_auto_kill(&s, 21, false, Some(5), None, &slots, 1), KillAction::Look(5));
    assert_eq!(AutoKillPlugin::handle_auto_kill(&s, 20, true, Some(5), None, &slots, 1), KillAction::Idle);
    assert_eq!(AutoKillPlugin::handle_auto_kill(&s, 20, false, None, None, &slots, 1), KillAction::Idle);
    assert_eq!(
        AutoKillPlugin::handle_auto_kill(&s, 20, false, Some(5), Some(Weapon::WoodenSword), &slots, 1),
        KillAction::Attack { target: 5, swap: None }
    );
    let manual = AutoKillSettings { enabled: true, auto_weapon: false, delay_ticks: 10 };
    assert_eq!(
        AutoKillPlugin::handle_auto_kill(&manual, 20, false, Some(5), None, &slots, 1),
        KillAction::Attack { target: 5, swap: None }
    );
}

#[test]
fn totem_goes_to_the_off_hand_on_odd_ticks() {
    let mut slots = vec![true; 8];
    slots.extend([false, false, true, true]);
    assert_eq!(AutoTotemPlugin::handle_auto_totem(1, false, &slots), Some(10));
    assert_eq!(AutoTotemPlugin::handle_auto_totem(2, false, &slots), None);
    assert_eq!(AutoTotemPlugin::handle_auto_totem(3, true, &slots), None);
    assert_eq!(AutoTotemPlugin::handle_auto_totem(3, false, &vec![true; 8]), None);
}

#[test]
fn new_players_in_range_are_whitelisted_once() {
    let mut users: Users = UuidMap::new();
    users.insert(1, User { discord_id: "9".to_string(), api_password: "pw".to_string() });
    let seen = vec![
        Appeared { is_player: true, uuid: 2 },
        Appeared { is_player: false, uuid: 3 },
        Appeared { is_player: true, uuid: 1 },
        Appeared { is_player: true, uuid: 2 },
        Appeared { is_player: true, uuid: 4 },
    ];
    assert!(AutoWhitelistPlugin::handle_add_entity_packets(&seen, &mut users, false).is_empty());
    assert_eq!(AutoWhitelistPlugin::handle_add_entity_packets(&seen, &mut users, true), vec![2, 4]);
    assert_eq!(users.len(), 3);
    assert_eq!(users.get(1).unwrap().api_password, "pw");
    assert_eq!(users.get(4).unwrap().discord_id, "");
}

#[test]
fn reconnect_follows_the_disconnect_reason() {
    let mut state = SwarmState::new();
    AutoLeavePlugin::handle_disconnect_events(&mut state, &mut false, "Bot", &Some("Leave Command: bye".to_string()));
    assert_eq!(state.reconnect_step("bot"), ReconnectStep::Wait(false, 10));
    AutoLeavePlugin::handle_disconnect_events(&mut state, &mut false, "Bot", &Some("Connection throttled! Please wait".to_string()));
    assert_eq!(state.reconnect_step("bot"), ReconnectStep::Wait(true, 30));
    AutoLeavePlugin::handle_disconnect_events(&mut state, &mut false, "Bot", &Some("[AutoDisconnect] health".to_string()));
    assert_eq!(state.reconnect_step("bot"), ReconnectStep::Wait(true, 10));
    AutoLeavePlugin::handle_disconnect_events(&mut state, &mut false, "Bot", &Some("Kicked".to_string()));
    assert_eq!(state.reconnect_step("bot"), ReconnectStep::Wait(true, 10));
    AutoLeavePlugin::handle_disconnect_events(&mut state, &mut false, "Other", &None);
    assert_eq!(state.reconnect_step("other"), ReconnectStep::Retry);
    let mut grim = true;
    AutoLeavePlugin::handle_disconnect_events(&mut state, &mut grim, "Bot", &None);
    assert!(grim);
    AutoLeavePlugin::handle_disconnect_events(&mut state, &mut grim, "Bot", &Some("Kicked".to_string()));
    assert!(!grim);
}

#[test]
fn unknown_players_in_view_make_the_bot_leave() {
    let mut users: Users = UuidMap::new();
    users.insert(1, User::empty());
    let tab = vec![TabEntry { uuid: 1, name: "Friend".to_string() }, TabEntry { uuid: 2, name: "Stranger".to_string() }];
    assert_eq!(
        AutoLeavePlugin::handle_add_entity_packets(true, 2, &tab, true, true, &users),
        Some("Unknown player in visual range: Stranger".to_string())
    );
    assert_eq!(AutoLeavePlugin::handle_add_entity_packets(true, 1, &tab, true, true, &users), None);
    assert_eq!(AutoLeavePlugin::handle_add_entity_packets(true, 2, &tab, false, true, &users), None);
    assert_eq!(AutoLeavePlugin::handle_add_entity_packets(true, 2, &tab, true, false, &users), None);
    assert_eq!(AutoLeavePlugin::handle_add_entity_packets(false, 2, &tab, true, true, &users), None);
    assert_eq!(AutoLeavePlugin::handle_add_entity_packets(true, 3, &tab, true, true, &users), None);
}

fn requeue_bot(entity: u64, ticks: u128, location: &str, auto: bool, grim: bool, tab_len: usize) -> RequeueView {
    RequeueView { entity, ticks, location: location.to_string(), auto_requeue: auto, grim_disconnect: grim, tab_len }
}

#[test]
fn extra_bots_at_a_location_requeue() {
    let bots = vec![
        requeue_bot(1, 50, "base", true, false, 5),
        requeue_bot(2, 10, "base", true, false, 5),
        requeue_bot(3, 10, "base", true, true, 5),
        requeue_bot(4, 5, "farm", true, false, 5),
        requeue_bot(5, 1, "base", true, false, 1),
        requeue_bot(6, 60, "base", false, false, 5),
    ];
    // Order by ticks: 4 (farm), 2, 3, 1, 6 (base); bot 5 sees no one else.
    assert_eq!(AutoLeavePlugin::handle_requeue(&bots), vec![RequeueAction::Grim(3), RequeueAction::Requeue(1)]);
    assert!(AutoLeavePlugin::handle_requeue(&Vec::new()).is_empty());
}

fn pearl(entity: u64, owner: u128) -> PearlEvent {
    PearlEvent { entity, block_pos: BlockPos { x: 0, y: 0, z: 0 }, owner_uuid: owner }
}

#[test]
fn idle_bots_take_the_latest_waiting_requests() {
    let mut pending = ResendPearlEvents { goto: vec![pearl(1, 1), pearl(1, 2), pearl(1, 3)], pull: vec![pearl(1, 9)] };
    let bots = vec![Walker { entity: 1, busy: false }, Walker { entity: 2, busy: true }, Walker { entity: 3, busy: false }];
    let (gotos, pulls) = AutoPearlPlugin::handle_resend_pearl_events(&mut pending, &bots);
    assert_eq!(gotos, vec![pearl(1, 3), pearl(1, 2)]);
    assert_eq!(pulls, vec![pearl(1, 9)]);
    assert_eq!(pending.goto, vec![pearl(1, 1)]);
    assert!(pending.pull.is_empty());
}

#[test]
fn busy_bots_keep_walks_waiting() {
    let mut pending = ResendPearlEvents { goto: vec![], pull: vec![pearl(9, 9)] };
    let bots = vec![Walker { entity: 1, busy: false }, Walker { entity: 2, busy: true }];
    let started = AutoPearlPlugin::handle_goto_pearl_events(&vec![pearl(1, 1), pearl(2, 2), pearl(3, 3)], &mut pending, &bots);
    assert_eq!(started, vec![pearl(1, 1)]);
    assert_eq!(pending.goto, vec![pearl(2, 2)]);
    assert_eq!(pending.pull, vec![pearl(9, 9)]);
}

#[test]
fn pulls_wait_for_the_owner_and_the_bot() {
    let tab = || vec![TabEntry { uuid: 7, name: "Steve".to_string() }];
    let bots = vec![
        PullView { entity: 1, busy: false, tab: tab() },
        PullView { entity: 2, busy: true, tab: tab() },
    ];
    let mut pending = ResendPearlEvents { goto: vec![], pull: vec![] };
    let used = AutoPearlPlugin::handle_pull_pearl_events(
        &vec![pearl(1, 7), pearl(1, 8), pearl(2, 7), pearl(3, 7)],
        &mut pending,
        &bots,
    );
    assert_eq!(used, vec![pearl(1, 7)]);
    assert_eq!(pending.goto, vec![pearl(1, 8)]);
    assert_eq!(pending.pull, vec![pearl(2, 7)]);
}

#[test]
fn transfers_disconnect_and_pings_are_answered() {
    assert_eq!(
        AutoLeavePlugin::handle_transfer_packets(true),
        Some("Received transfer packet, disconnecting...".to_string())
    );
    assert_eq!(AutoLeavePlugin::handle_transfer_packets(false), None);
    assert_eq!(AutoLeavePlugin::handle_ping_packets(Some(42), false), Some(42));
    assert_eq!(AutoLeavePlugin::handle_ping_packets(Some(42), true), None);
    assert_eq!(AutoLeavePlugin::handle_ping_packets(None, false), None);
}

#[test]
fn bots_left_by_command_stay_away() {
    let reason = shaysbot::commands::leave::leave_reason("Minecraft(7)");
    assert_eq!(reason, "Leave Command: Minecraft(7)");
    let mut state = SwarmState::new();
    state.enable_reconnect("Bot");
    AutoLeavePlugin::handle_disconnect_events(&mut state, &mut false, "BOT", &Some(reason));
    assert_eq!(state.reconnect_step("bot"), ReconnectStep::Wait(false, 10));
}
