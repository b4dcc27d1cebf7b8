//! Swinging the arm now and then so the server does not kick the bot as idle.
use vstd::prelude::*;
use crate::modules::ticks::{due, is_due};

verus! {

/// The anti-AFK settings: whether it runs, every how many ticks, and the view distance it
/// tells the server.
pub struct AntiAfkSettings {
    pub enabled: bool,
    pub delay_ticks: u128,
    pub view_distance: u8,
}

/// What anti-AFK does at a tick: nothing, or tell the server the view distance and swing.
#[derive(Clone, Copy, PartialEq, Eq, Structural, Debug)]
pub enum AntiAfkAction {
    Idle,
    SwingWithViewDistance(u8),
}

/// The anti-AFK module.
pub struct AntiAfkPlugin;

impl AntiAfkPlugin {
    /// The view distance the bot asks for when it starts.
    pub fn change_view_distance(settings: &AntiAfkSettings) -> (r: u8)
        ensures
            r == settings.view_distance,
    {
        settings.view_distance
    }

    /// Anti-AFK at a tick: when enabled and due, send the view distance and swing.
    pub fn handle_anti_afk(settings: &AntiAfkSettings, ticks: u128) -> (r: AntiAfkAction)
        requires
            settings.enabled ==> settings.delay_ticks > 0,
        ensures
            r == if settings.enabled && due(ticks, settings.delay_ticks) {
                AntiAfkAction::SwingWithViewDistance(settings.view_distance)
            } else {
                AntiAfkAction::Idle
            },
    {
        if is_due(settings.enabled, ticks, settings.delay_ticks) {
            AntiAfkAction::SwingWithViewDistance(settings.view_distance)
        } else {
            AntiAfkAction::Idle
        }
    }
}

} // verus!
