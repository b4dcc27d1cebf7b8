use shaysbot::chat::{CommandEvent, CommandSender, CommandSource, TabEntry};
use shaysbot::commands::whitelist::{auth_url, handle_whitelist, handle_whitelist_cmd_events, AuthJson, AuthReply};
use shaysbot::commands::Cmds;
use shaysbot::maps::UuidMap;
use shaysbot::settings::{User, Users};

fn event(args: &[&str], sender: CommandSender) -> CommandEvent {
    CommandEvent {
        entity: 1,
        args: args.iter().map(|s| s.to_string()).collect(),
        command: Cmds::Whitelist,
        message: true,
        sender,
        source: CommandSource::Minecraft(None),
    }
}

fn tab() -> Vec<TabEntry> {
    vec![
        TabEntry { uuid: 10, name: "Steve".to_string() },
        TabEntry { uuid: 11, name: "Alex".to_string() },
    ]
}

fn run(users: &mut Users, args: &[&str], sender: CommandSender, auth: Option<AuthReply>) -> (u16, String) {
    handle_whitelist(&event(args, sender), users, &tab(), &auth)
}

const MC: CommandSender = CommandSender::Minecraft(10);

#[test]
fn missing_and_invalid_actions() {
    let mut users: Users = UuidMap::new();
    assert_eq!(run(&mut users, &[], MC, None), (404, "Missing action | Actions: add, remove, link, & set".to_string()));
    assert_eq!(run(&mut users, &["dance"], MC, None), (406, "Invalid action | Actions: add, remove, link, & set".to_string()));
    assert_eq!(users.len(), 0);
}

#[test]
fn add_then_remove_restores_the_whitelist() {
    let mut users: Users = UuidMap::new();
    users.insert(11, User { discord_id: "5".to_string(), api_password: "pw".to_string() });
    assert_eq!(run(&mut users, &["add", "Steve"], MC, None), (200, "Successfully added: Steve".to_string()));
    assert!(users.contains_key(10));
    assert_eq!(users.get(10).unwrap().discord_id, "");
    assert_eq!(run(&mut users, &["add", "Steve"], MC, None), (409, "Already whitelisted".to_string()));
    assert_eq!(run(&mut users, &["remove", "Steve"], MC, None), (200, "Successfully removed: Steve".to_string()));
    assert!(!users.contains_key(10));
    assert_eq!(users.len(), 1);
    assert_eq!(users.get(11).unwrap().api_password, "pw");
    assert_eq!(run(&mut users, &["remove", "Steve"], MC, None), (409, "Already not whitelisted".to_string()));
}

#[test]
fn add_and_remove_errors() {
    let mut users: Users = UuidMap::new();
    assert_eq!(run(&mut users, &["add"], MC, None), (404, "Missing player name".to_string()));
    assert_eq!(run(&mut users, &["add", "Herobrine"], MC, None), (404, "Player not found".to_string()));
    assert_eq!(run(&mut users, &["remove"], MC, None), (404, "Missing Minecraft player name".to_string()));
    assert_eq!(run(&mut users, &["remove", "Herobrine"], MC, None), (404, "Player not found".to_string()));
}

#[test]
fn link_from_minecraft_and_api() {
    let mut users: Users = UuidMap::new();
    assert_eq!(run(&mut users, &["link"], MC, None), (404, "Missing Discord user id".to_string()));
    assert_eq!(run(&mut users, &["link", "abc"], MC, None), (404, "Invalid Discord user id".to_string()));
    assert_eq!(run(&mut users, &["link", "0"], MC, None), (404, "Invalid Discord user id".to_string()));
    assert_eq!(run(&mut users, &["link", "+0042"], MC, None), (200, "Successfully linked".to_string()));
    assert_eq!(users.get(10).unwrap().discord_id, "42");
    assert_eq!(
        run(&mut users, &["link", "77"], CommandSender::ApiServer(11), None),
        (200, "Successfully linked discord".to_string())
    );
    assert_eq!(users.get(11).unwrap().discord_id, "77");
}

#[test]
fn link_from_discord_uses_the_auth_service() {
    let discord = CommandSender::Discord(987);
    let mut users: Users = UuidMap::new();
    assert_eq!(run(&mut users, &["link"], discord, None), (404, "Missing auth code (Join: auth.aristois.net)".to_string()));
    assert_eq!(
        run(&mut users, &["link", "code"], discord, Some(AuthReply::Failed)),
        (406, "Invalid auth code (Join: auth.aristois.net)".to_string())
    );
    assert_eq!(
        run(&mut users, &["link", "code"], discord, Some(AuthReply::Unparsed(502))),
        (500, "Failed to parse JSON".to_string())
    );
    let refused = AuthJson { message: "bad code".to_string(), status: "failed".to_string(), uuid: None };
    assert_eq!(
        run(&mut users, &["link", "code"], discord, Some(AuthReply::Parsed(403, refused))),
        (403, "Authentication failed: bad code".to_string())
    );
    assert_eq!(users.len(), 0);
    let ok = AuthJson { message: "ok".to_string(), status: "success".to_string(), uuid: Some(12) };
    assert_eq!(
        run(&mut users, &["link", "code"], discord, Some(AuthReply::Parsed(200, ok))),
        (200, "Successfully linked".to_string())
    );
    assert_eq!(users.get(12).unwrap().discord_id, "987");
}

#[test]
fn set_password_only_from_minecraft() {
    let mut users: Users = UuidMap::new();
    assert_eq!(
        run(&mut users, &["set", "pw"], CommandSender::ApiServer(1), None),
        (500, "You can't update your API password on the API".to_string())
    );
    assert_eq!(
        run(&mut users, &["set", "pw"], CommandSender::Discord(1), None),
        (500, "You can't update your API password on Discord".to_string())
    );
    assert_eq!(run(&mut users, &["set"], MC, None), (404, "Missing Discord user id".to_string()));
    assert_eq!(run(&mut users, &["set", "hunter2"], MC, None), (200, "Successfully updated password".to_string()));
    assert_eq!(users.get(10).unwrap().api_password, "hunter2");
    assert_eq!(users.get(10).unwrap().discord_id, "");
}

#[test]
fn auth_address_only_for_discord_links() {
    let e = event(&["link", "abc123"], CommandSender::Discord(1));
    assert_eq!(auth_url(&e), Some("https://auth.aristois.net/token/abc123".to_string()));
    assert_eq!(auth_url(&event(&["link", "abc123"], MC)), None);
    assert_eq!(auth_url(&event(&["link"], CommandSender::Discord(1))), None);
    assert_eq!(auth_url(&event(&["add", "abc"], CommandSender::Discord(1))), None);
}

#[test]
fn only_the_first_whitelist_command_is_run() {
    let mut users: Users = UuidMap::new();
    let events = vec![event(&["add", "Alex"], MC), event(&["add", "Steve"], MC)];
    let w = handle_whitelist_cmd_events(&events, &mut users, &tab(), &None).unwrap();
    assert_eq!(w.status, 200);
    assert_eq!(w.content, "Successfully added: Alex");
    assert_eq!(w.sender, MC);
    assert!(users.contains_key(11));
    assert!(!users.contains_key(10));
    assert!(handle_whitelist_cmd_events(&Vec::new(), &mut users, &tab(), &None).is_none());
}
