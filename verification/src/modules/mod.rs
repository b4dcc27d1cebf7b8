//! The bot's modules and the plugin group that adds them.
use vstd::prelude::*;

pub mod anti_afk;
pub mod auto_leave;
pub mod auto_eat;
pub mod auto_kill;
pub mod auto_look;
pub mod auto_pearl;
pub mod auto_whitelist;
pub mod auto_totem;
pub mod logger;
pub mod ticks;

verus! {

/// A swap of an inventory slot into a hotbar slot.
#[derive(Clone, Copy, PartialEq, Eq, Structural, Debug)]
pub struct SwapClick {
    pub source_slot: u16,
    pub target_slot: u8,
}

/// The modules the group adds.
#[derive(Clone, Copy, PartialEq, Eq, Structural, Debug)]
pub enum Module {
    AntiAfk,
    AutoEat,
    AutoLeave,
    AutoKill,
    AutoLook,
    AutoPearl,
    AutoTotem,
    AutoWhitelist,
}

/// The modules in the order the group adds them.
pub open spec fn module_plugins() -> Seq<Module> {
    seq![
        Module::AntiAfk,
        Module::AutoEat,
        Module::AutoLeave,
        Module::AutoKill,
        Module::AutoLook,
        Module::AutoPearl,
        Module::AutoTotem,
        Module::AutoWhitelist,
    ]
}

/// The group of module plugins.
pub struct ModulesPluginGroup;

impl ModulesPluginGroup {
    /// The modules whose plugins the group adds, in the order it adds them.
    pub fn build(&self) -> (r: Vec<Module>)
        ensures
            r@ == module_plugins(),
    {
        let r = vec![
            Module::AntiAfk,
            Module::AutoEat,
            Module::AutoLeave,
            Module::AutoKill,
            Module::AutoLook,
            Module::AutoPearl,
            Module::AutoTotem,
            Module::AutoWhitelist,
        ];
        assert(r@ =~= module_plugins());
        r
    }
}

} // verus!
