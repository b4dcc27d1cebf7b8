use regex::Regex;
use shaysbot::discord::{bridge_post, Handler};
use shaysbot::patterns::{is_club_mate_text, lines_match, LinePattern};

fn cs(s: &str) -> Vec<char> {
    s.chars().collect()
}

const SAMPLES: [&str; 22] = [
    "B00bBot1",
    "N00bBot42",
    "X00bBot1",
    "B00bBot",
    "B00bBot1x",
    "hello\nN00bBot7\nbye",
    "B00bBot12 joined the game",
    "N00bBot3 left the game",
    "N00bBot3 left the game!",
    "B00bBot joined the game",
    "1/2 players sleeping",
    "12/2 players sleeping",
    "x\n3/4 players sleeping",
    "Steve acquired a Club Mate",
    "St acquired a Club Mate",
    "abcdefghijklmnopq acquired a Club Mate",
    "someone#1234:",
    "someone#1234",
    "ab#1234",
    "a very long discord name that is too long#1234",
    "name#12345",
    "",
];

#[test]
fn line_patterns_match_their_expressions() {
    let checks = [
        (LinePattern::DemoBot, r"(?m)^([BN])00bBot[0-9]+$"),
        (LinePattern::DemoBotMessage, r"(?m)^([BN])00bBot[0-9]+ (joined|left) the game$"),
        (LinePattern::Sleeping, r"(?m)^[0-9]/[0-9] players sleeping$"),
        (LinePattern::DiscordTag, r"(?im)^.{3,32}#[0-9]{4}:?$"),
    ];
    for (p, re) in checks {
        let re = Regex::new(re).unwrap();
        for s in SAMPLES {
            assert_eq!(lines_match(&cs(s), p), re.is_match(s), "{p:?} {s:?}");
        }
    }
    let club = Regex::new(r"^[a-zA-Z0-9_]{3,16} acquired a Club Mate$").unwrap();
    for s in SAMPLES {
        assert_eq!(is_club_mate_text(&cs(s)), club.is_match(s), "{s:?}");
    }
}

#[test]
fn discord_messages_are_cut_for_chat() {
    let channel = "123".to_string();
    assert_eq!(Handler.message(false, 123, &channel, "shay", 7, "hi\nthere"), vec!["shay#0007: hi", "shay#0007: there"]);
    assert!(Handler.message(true, 123, &channel, "shay", 7, "hi").is_empty());
    assert!(Handler.message(false, 124, &channel, "shay", 7, "hi").is_empty());
}

#[test]
fn long_and_many_lines_are_bounded() {
    let channel = "1".to_string();
    let long: String = "x".repeat(300);
    let r = Handler.message(false, 1, &channel, "n", 1234, &long);
    assert_eq!(r.len(), 2);
    assert_eq!(r[0].chars().count(), 256);
    assert_eq!(format!("{}{}", r[0], r[1]), format!("n#1234: {long}"));
    let r = Handler.message(false, 1, &channel, "n", 0, "1\n2\n3\n4\n5\n6");
    assert_eq!(r, vec!["n#0000: 1", "n#0000: 2", "n#0000: 3", "n#0000: 4", "n#0000: 5\n6"]);
    for m in Handler.message(false, 1, &channel, &"y".repeat(600), 9, "a\n\nb") {
        let n = m.chars().count();
        assert!((1..=256).contains(&n));
    }
}

#[test]
fn bridge_posts_chat_without_the_noise() {
    let p = bridge_post(&Some("[VIP] Steve".to_string()), &"hello all".to_string()).unwrap();
    assert_eq!(p.username, "Steve");
    assert_eq!(p.avatar_url, "https://crafthead.net/helm/Steve");
    assert_eq!(p.content, "hello all");
    let host = bridge_post(&None, &"Server restarting".to_string()).unwrap();
    assert_eq!(host.username, "Host");
    for noise in [
        "Sleeping through this night",
        "[iambot]",
        "1/2 players sleeping",
        "B00bBot1 joined the game",
        "Steve acquired a Club Mate",
    ] {
        assert!(bridge_post(&Some("Steve".to_string()), &noise.to_string()).is_none(), "{noise}");
    }
    assert!(bridge_post(&Some("N00bBot5".to_string()), &"hi".to_string()).is_none());
    assert!(bridge_post(&Some("Steve".to_string()), &"[iambot] hi".to_string()).is_some());
}
