//! The settings the logic reads: the configuration file's values, the whitelisted users and
//! each bot's auto-pearl settings.
use vstd::prelude::*;
use crate::maps::UuidMap;

verus! {

/// A block position in the configuration file.
pub struct Coordinates {
    pub x: i32,
    pub y: i32,
    pub z: i32,
}

impl Default for Coordinates {
    fn default() -> (c: Self)
        ensures
            c.x == 0 && c.y == 0 && c.z == 0,
    {
        Coordinates { x: 0, y: 0, z: 0 }
    }
}

/// The configuration file.
pub struct Config {
    pub online: bool,
    pub account: String,
    pub address: String,
    pub discord_channel: String,
    pub discord_token: String,
    pub discord_webhook: String,
    pub bed: Coordinates,
    pub pearl: Coordinates,
    pub bots: Vec<String>,
}

impl Config {
    /// The configuration written when there is none yet: online, the given account, server
    /// and Discord values, both positions at the origin and no bots.
    pub fn with_defaults(
        account: String,
        address: String,
        discord_channel: String,
        discord_token: String,
        discord_webhook: String,
    ) -> (c: Config)
        ensures
            c.online,
            c.account == account,
            c.address == address,
            c.discord_channel == discord_channel,
            c.discord_token == discord_token,
            c.discord_webhook == discord_webhook,
            c.bed.x == 0 && c.bed.y == 0 && c.bed.z == 0,
            c.pearl.x == 0 && c.pearl.y == 0 && c.pearl.z == 0,
            c.bots@.len() == 0,
    {
        Config {
            online: true,
            account,
            address,
            discord_channel,
            discord_token,
            discord_webhook,
            bed: Coordinates::default(),
            pearl: Coordinates::default(),
            bots: Vec::new(),
        }
    }
}

/// A whitelisted player: the Discord account linked to it (a user id, or `*` for any) and
/// its API password.
pub struct User {
    pub discord_id: String,
    pub api_password: String,
}

impl User {
    /// A user with nothing linked and no password.
    pub fn empty() -> (u: User)
        ensures
            u.discord_id@.len() == 0,
            u.api_password@.len() == 0,
    {
        User { discord_id: String::new(), api_password: String::new() }
    }
}

/// The whitelisted players by UUID.
pub type Users = UuidMap<User>;

/// A bot's auto-pearl settings: whether it pulls pearls, and the name of its location.
pub struct AutoPearlSettings {
    pub enabled: bool,
    pub location: String,
}

} // verus!
