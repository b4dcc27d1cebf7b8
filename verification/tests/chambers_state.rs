use shaysbot::chambers::{BlockPos, Chamber, StasisChambers};
use shaysbot::maps::{NameMap, UuidMap};
use shaysbot::packets::{BlockUpdate, EntityAdd, EntityRemove};
use shaysbot::settings::{Config, Coordinates, User};
use shaysbot::version::{check_for_updates, get_remote_version, update_notice, UpdateError};

fn pos(x: i32) -> BlockPos {
    BlockPos { x, y: 64, z: 0 }
}

fn chamber(x: i32, id: i32, owner: u128) -> Chamber {
    Chamber { block_pos: pos(x), entity_id: id, owner_uuid: owner, location: "base".to_string() }
}

fn sample() -> StasisChambers {
    let mut m: StasisChambers = UuidMap::new();
    m.insert(1, chamber(1, 11, 7));
    m.insert(2, chamber(2, 12, 7));
    m.insert(3, chamber(1, 13, 8));
    m
}

fn keys(m: &StasisChambers) -> Vec<u128> {
    m.entries.iter().map(|e| e.0).collect()
}

#[test]
fn closing_a_trapdoor_ends_its_chambers() {
    let mut m = sample();
    assert!(!BlockUpdate { pos: pos(1), open: Some(true) }.execute(&mut m));
    assert_eq!(keys(&m), vec![1, 2, 3]);
    assert!(BlockUpdate { pos: pos(1), open: Some(false) }.execute(&mut m));
    assert_eq!(keys(&m), vec![2]);
    assert!(BlockUpdate { pos: pos(2), open: None }.execute(&mut m));
    assert!(keys(&m).is_empty());
    assert!(BlockUpdate { pos: pos(9), open: None }.execute(&mut m));
}

#[test]
fn a_pearl_on_a_trapdoor_becomes_a_chamber() {
    let mut m = sample();
    let pearl = EntityAdd { uuid: 4, id: 14, is_pearl: true, data: 99 };
    assert!(pearl.execute(&mut m, Some(pos(5)), Some(9), "farm".to_string()));
    let c = m.get(4).unwrap();
    assert_eq!((c.block_pos, c.entity_id, c.owner_uuid, c.location.as_str()), (pos(5), 14, 9, "farm"));
    let orphan = EntityAdd { uuid: 5, id: 15, is_pearl: true, data: 0 };
    assert!(orphan.execute(&mut m, Some(pos(6)), None, "farm".to_string()));
    assert_eq!(m.get(5).unwrap().owner_uuid, u128::MAX);
    // Not a pearl, no trapdoor, or a thrower out of sight: nothing changes.
    assert!(!EntityAdd { uuid: 6, id: 16, is_pearl: false, data: 1 }.execute(&mut m, Some(pos(7)), Some(1), String::new()));
    assert!(!EntityAdd { uuid: 6, id: 16, is_pearl: true, data: 1 }.execute(&mut m, None, Some(1), String::new()));
    assert!(!EntityAdd { uuid: 6, id: 16, is_pearl: true, data: 1 }.execute(&mut m, Some(pos(7)), None, String::new()));
    assert_eq!(m.len(), 5);
}

#[test]
fn a_pearl_that_vanishes_in_view_ends_its_chamber() {
    let mut m = sample();
    EntityRemove { entity_ids: vec![11, 12, 99] }.execute(&mut m, &vec![1, 3]);
    assert_eq!(keys(&m), vec![2, 3]);
    EntityRemove { entity_ids: vec![] }.execute(&mut m, &vec![2, 3]);
    assert_eq!(keys(&m), vec![2, 3]);
}

#[test]
fn uuid_map_behaves_as_a_map() {
    let mut m: UuidMap<u32> = UuidMap::new();
    m.insert(5, 1);
    m.insert(6, 2);
    m.insert(5, 3);
    assert_eq!(m.len(), 2);
    assert_eq!(m.get(5), Some(&3));
    assert_eq!(m.index_of(6), Some(1));
    m.remove(5);
    assert!(!m.contains_key(5));
    assert_eq!(m.get(6), Some(&2));
    m.remove(42);
    assert_eq!(m.len(), 1);
    m.retain_marked(&vec![false]);
    assert_eq!(m.len(), 0);
}

#[test]
fn name_map_behaves_as_a_map() {
    let mut m: NameMap<bool> = NameMap::new();
    m.insert("a".to_string(), true);
    m.insert("b".to_string(), false);
    m.insert("a".to_string(), false);
    assert_eq!(m.get(&"a".to_string()), Some(&false));
    assert_eq!(m.index_of(&"b".to_string()), Some(1));
    assert_eq!(m.get(&"c".to_string()), None);
}

#[test]
fn defaults() {
    let c = Config::with_defaults("acct".to_string(), "2b2t.org".to_string(), "1".to_string(), "t".to_string(), "w".to_string());
    assert!(c.online);
    assert_eq!((c.account.as_str(), c.address.as_str()), ("acct", "2b2t.org"));
    assert_eq!((c.bed.x, c.bed.y, c.bed.z, c.pearl.x), (0, 0, 0, 0));
    assert!(c.bots.is_empty());
    let d = Coordinates::default();
    assert_eq!((d.x, d.y, d.z), (0, 0, 0));
    let u = User::empty();
    assert!(u.discord_id.is_empty() && u.api_password.is_empty());
}

#[test]
fn update_check_compares_versions() {
    let url = "https://github.com/ShayBox/ShaysBot/releases/tag/1.2.3";
    assert_eq!(get_remote_version(url), Ok("1.2.3".to_string()));
    assert_eq!(check_for_updates("1.2.2", url), Ok(true));
    assert_eq!(check_for_updates("1.2.3", url), Ok(false));
    assert_eq!(check_for_updates("1.10.0", url), Ok(false));
    assert_eq!(check_for_updates("1.2.3-beta", url), Ok(true));
    assert_eq!(check_for_updates("v1", url), Err(UpdateError::LocalVersion));
    assert_eq!(check_for_updates("1.0.0", "https://github.com/x/y/releases/latest"), Err(UpdateError::RemoteVersion));
    assert_eq!(get_remote_version("https://x/1.0"), Err(UpdateError::RemoteVersion));
}

#[test]
fn update_notice_links_the_home_page() {
    assert_eq!(
        update_notice("https://github.com/ShayBox/ShaysBot", "2.0.0", "https://shaybox.com"),
        "\u{1b}]8;;https://shaybox.com\u{1b}\\An update is available: https://github.com/ShayBox/ShaysBot/releases/tag/2.0.0\u{1b}]8;;\u{1b}\\"
    );
}
