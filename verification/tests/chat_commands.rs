use shaysbot::chambers::BlockPos;
use shaysbot::chat::TabEntry;
use shaysbot::command::about::Command as About;
use shaysbot::command::echo::Command as Echo;
use shaysbot::command::hello::Command as Hello;
use shaysbot::command::help::Command as Help;
use shaysbot::command::ncr::Command as Ncr;
use shaysbot::command::online::Command as Online;
use shaysbot::command::pearl::Command as Pearl;
use shaysbot::command::seed::Command as Seed;
use shaysbot::command::sleep::Command as Sleep;
use shaysbot::command::{handle_chat, strip_prefixes, ChatAction};
use shaysbot::settings::Coordinates;

fn strings(v: &[&str]) -> Vec<String> {
    v.iter().map(|s| s.to_string()).collect()
}

fn commands() -> Vec<Vec<String>> {
    vec![strings(&["help", "h"]), strings(&["echo"]), strings(&["pearl", "tp"])]
}

#[test]
fn fixed_replies() {
    assert_eq!(About.message(), "I'm ShayBox's bot written in Rust using Azalea");
    assert_eq!(Seed.message(), "The seed is LiveOverflow61374546 or 64149200");
    assert!(Ncr.message().starts_with("Please use https://github.com/HKS-HNS/No-Chat-Reports"));
}

#[test]
fn echo_and_hello() {
    assert_eq!(Echo.message(&strings(&["a", "b c", ""])), "a b c ");
    assert_eq!(Echo.message(&Vec::new()), "");
    assert_eq!(Hello.message(&Some("[Admin] [VIP] Steve".to_string())), Some("Hello, Steve".to_string()));
    assert_eq!(Hello.message(&None), None);
    assert_eq!(strip_prefixes("Steve").iter().collect::<String>(), "Steve");
    assert_eq!(strip_prefixes("a b ").iter().collect::<String>(), "");
}

#[test]
fn help_lists_each_commands_names() {
    assert_eq!(Help.message(&commands()), "Commands: help/h, echo, pearl/tp");
    assert_eq!(Help.message(&Vec::new()), "Commands: ");
}

#[test]
fn online_lists_players_who_are_not_bots() {
    let tab: Vec<TabEntry> = ["Steve", "Bot1", "Alex"].iter().enumerate().map(|(i, n)| TabEntry { uuid: i as u128, name: n.to_string() }).collect();
    assert_eq!(Online.message(&tab, &strings(&["Bot1"]), 3, -1), "[2/3/-1]: Steve, Alex");
    assert_eq!(Online.message(&Vec::new(), &Vec::new(), 0, 20), "[0/0/20]: ");
}

#[test]
fn pearl_only_for_the_owner() {
    let c = Coordinates { x: 1, y: 2, z: 3 };
    assert_eq!(
        Pearl.message(&Some("[Owner] ShayBox".to_string()), &c),
        Some(("Teleporting...".to_string(), Some(BlockPos { x: 1, y: 2, z: 3 })))
    );
    assert_eq!(
        Pearl.message(&Some("Steve".to_string()), &c),
        Some(("You do not have permission to use this command.".to_string(), None))
    );
    assert_eq!(Pearl.message(&None, &c), None);
}

#[test]
fn sleep_says_good_night_and_uses_the_bed() {
    let (text, bed) = Sleep.message(&Coordinates { x: -4, y: 64, z: 9 });
    assert_eq!(bed, BlockPos { x: -4, y: 64, z: 9 });
    assert!(text.ends_with("Zzz") || text.starts_with("Pro Tip"), "{text}");
    for _ in 0..50 {
        let (t, _) = Sleep.message(&Coordinates { x: 0, y: 0, z: 0 });
        assert!(t.ends_with(". Zzz") || t == "Pro Tip: You can filter Zzz to hide *most* sleep messages. *cough*", "{t}");
    }
}

fn run(user: Option<&str>, content: &str, bots: &mut Vec<String>) -> (bool, ChatAction) {
    handle_chat(&user.map(|u| u.to_string()), &content.to_string(), bots, &commands())
}

#[test]
fn commands_run_for_players() {
    let mut bots = strings(&["Bot1"]);
    match run(Some("[VIP] Steve"), "!tp home now", &mut bots) {
        (false, ChatAction::Run { command, username, args }) => {
            assert_eq!(command, 2);
            assert_eq!(username, "Steve");
            assert_eq!(args, strings(&["home", "now"]));
        }
        _ => panic!("expected a command"),
    }
    assert!(matches!(run(Some("Steve"), "hello !help", &mut bots), (false, ChatAction::Nothing)));
    assert!(matches!(run(None, "!help", &mut bots), (false, ChatAction::Nothing)));
    assert!(matches!(run(Some("ShaysBot"), "!help", &mut bots), (false, ChatAction::Nothing)));
}

#[test]
fn bots_may_not_run_commands() {
    let mut bots = strings(&["Bot1"]);
    match run(Some("Bot1"), "!help", &mut bots) {
        (false, ChatAction::RefuseBot(m)) => assert_eq!(m, "/w Bot1 *checks list* Sorry, says here you're a bot..."),
        _ => panic!("expected a refusal"),
    }
}

#[test]
fn players_declare_themselves_bots_and_back() {
    let mut bots = strings(&["Zed"]);
    let (saved, _) = run(Some("[x] Mia"), "hi[iambot]", &mut bots);
    assert!(saved);
    assert_eq!(bots, strings(&["Mia", "Zed"]));
    let (saved, action) = run(Some("Mia"), "!help[iambot]", &mut bots);
    assert!(saved);
    assert!(matches!(action, ChatAction::Nothing));
    assert_eq!(bots, strings(&["Mia", "Zed"]));
    let (saved, _) = run(Some("Mia"), "ok[iamhuman]", &mut bots);
    assert!(saved);
    assert_eq!(bots, strings(&["Zed"]));
    let (saved, _) = run(Some("Mia"), "ok[iamnotbot]", &mut bots);
    assert!(!saved);
    assert_eq!(bots, strings(&["Zed"]));
}

#[test]
fn discord_bridge_lines_name_the_author() {
    let mut bots = strings(&["Bridge"]);
    match run(Some("Bridge"), "someone#1234: !echo hi", &mut bots) {
        (_, ChatAction::Run { command, username, args }) => {
            assert_eq!(command, 1);
            assert_eq!(username, "someone#1234:");
            assert_eq!(args, strings(&["hi"]));
        }
        _ => panic!("expected a command"),
    }
    match run(Some("Bridge"), "someone#1234 > !h", &mut bots) {
        (_, ChatAction::Run { command, username, args }) => {
            assert_eq!(command, 0);
            assert_eq!(username, "someone#1234");
            assert!(args.is_empty());
        }
        _ => panic!("expected a command"),
    }
}

#[test]
fn bot_list_stays_sorted_without_repeats() {
    let mut bots = strings(&["Ann", "Zed"]);
    for (user, line) in [("Mia", "x[iambot]"), ("Bob", "y[iambot]"), ("Mia", "z[iambot]"), ("Zed", "a[iamhuman]"), ("Kim", "b[iamnotbot]")] {
        run(Some(user), line, &mut bots);
        let mut want = bots.clone();
        want.sort();
        want.dedup();
        assert_eq!(bots, want);
    }
    assert_eq!(bots, strings(&["Ann", "Bob", "Mia"]));
    run(Some("Ann"), "just chatting", &mut bots);
    assert_eq!(bots, strings(&["Ann", "Bob", "Mia"]));
}
