//! Attacking monsters in reach: with the most damaging weapon in hand.
use vstd::prelude::*;
use crate::modules::ticks::{due, is_due};
use crate::modules::SwapClick;

verus! {

/// The weapons the bot swaps to.
#[derive(Clone, Copy, PartialEq, Eq, Structural, Debug)]
pub enum Weapon {
    DiamondAxe,
    DiamondSword,
    GoldenAxe,
    GoldenSword,
    IronAxe,
    IronSword,
    NetheriteAxe,
    NetheriteSword,
    StoneAxe,
    StoneSword,
    WoodenAxe,
    WoodenSword,
}

/// The damage of a weapon.
pub open spec fn damage(w: Weapon) -> int {
    match w {
        Weapon::DiamondAxe => 9,
        Weapon::DiamondSword => 7,
        Weapon::GoldenAxe => 7,
        Weapon::GoldenSword => 4,
        Weapon::IronAxe => 9,
        Weapon::IronSword => 6,
        Weapon::NetheriteAxe => 10,
        Weapon::NetheriteSword => 8,
        Weapon::StoneAxe => 9,
        Weapon::StoneSword => 5,
        Weapon::WoodenAxe => 7,
        Weapon::WoodenSword => 4,
    }
}

fn damage_of(w: Weapon) -> (r: i32)
    ensures
        r as int == damage(w),
{
    match w {
        Weapon::DiamondAxe => 9,
        Weapon::DiamondSword => 7,
        Weapon::GoldenAxe => 7,
        Weapon::GoldenSword => 4,
        Weapon::IronAxe => 9,
        Weapon::IronSword => 6,
        Weapon::NetheriteAxe => 10,
        Weapon::NetheriteSword => 8,
        Weapon::StoneAxe => 9,
        Weapon::StoneSword => 5,
        Weapon::WoodenAxe => 7,
        Weapon::WoodenSword => 4,
    }
}

/// Law: the weapon table holds Minecraft's attack damage of each weapon.
pub proof fn lemma_weapon_table()
    ensures
        damage(Weapon::DiamondAxe) == 9,
        damage(Weapon::DiamondSword) == 7,
        damage(Weapon::GoldenAxe) == 7,
        damage(Weapon::GoldenSword) == 4,
        damage(Weapon::IronAxe) == 9,
        damage(Weapon::IronSword) == 6,
        damage(Weapon::NetheriteAxe) == 10,
        damage(Weapon::NetheriteSword) == 8,
        damage(Weapon::StoneAxe) == 9,
        damage(Weapon::StoneSword) == 5,
        damage(Weapon::WoodenAxe) == 7,
        damage(Weapon::WoodenSword) == 4,
{
}

/// Law: the netherite axe does the most damage of all weapons, and each axe more than the
/// sword of its material.
pub proof fn lemma_weapon_ranking(w: Weapon)
    ensures
        w != Weapon::NetheriteAxe ==> damage(w) < damage(Weapon::NetheriteAxe),
        damage(Weapon::WoodenSword) < damage(Weapon::WoodenAxe),
        damage(Weapon::StoneSword) < damage(Weapon::StoneAxe),
        damage(Weapon::GoldenSword) < damage(Weapon::GoldenAxe),
        damage(Weapon::IronSword) < damage(Weapon::IronAxe),
        damage(Weapon::DiamondSword) < damage(Weapon::DiamondAxe),
        damage(Weapon::NetheriteSword) < damage(Weapon::NetheriteAxe),
{
}

/// Whether entry `k` is the weapon to take: it holds a weapon, none does more damage, and
/// it comes before every other entry with as much.
pub open spec fn best_weapon_at(slots: Seq<(u16, Option<Weapon>)>, k: int) -> bool {
    &&& 0 <= k < slots.len()
    &&& slots[k].1 is Some
    &&& forall|j: int| 0 <= j < slots.len() && (#[trigger] slots[j]).1 is Some ==> {
        &&& damage(slots[j].1->0) <= damage(slots[k].1->0)
        &&& (j < k ==> damage(slots[j].1->0) < damage(slots[k].1->0))
    }
}

/// Law: the weapon taken does at least as much damage as the weapon of every slot; so when
/// any slot holds a netherite axe, a netherite axe is taken.
pub proof fn lemma_best_weapon_wins(slots: Seq<(u16, Option<Weapon>)>, k: int, j: int)
    requires
        best_weapon_at(slots, k),
        0 <= j < slots.len(),
        slots[j].1 is Some,
    ensures
        damage(slots[j].1->0) <= damage(slots[k].1->0),
        slots[j].1 == Some(Weapon::NetheriteAxe) ==> slots[k].1 == Some(Weapon::NetheriteAxe),
{
    lemma_weapon_ranking(slots[k].1->0);
    assert(damage(slots[j].1->0) <= damage(slots[k].1->0));
}

/// The auto-kill settings.
pub struct AutoKillSettings {
    pub enabled: bool,
    pub auto_weapon: bool,
    pub delay_ticks: u128,
}

/// What auto-kill does at a tick: nothing; look at the target; or look, swap the slot into
/// the selected hotbar slot if asked, and attack.
#[derive(Clone, Copy, PartialEq, Eq, Structural, Debug)]
pub enum KillAction {
    Idle,
    Look(u64),
    Attack { target: u64, swap: Option<SwapClick> },
}

/// The auto-kill module.
pub struct AutoKillPlugin;

impl AutoKillPlugin {
    /// Auto-kill at a tick: `walking` says whether the bot has somewhere to go, `target` is the
    /// nearest monster in reach, if any; then the held item's weapon (if a weapon) and each
    /// inventory slot with its weapon (if a weapon) in inventory order.
    pub fn handle_auto_kill(
        settings: &AutoKillSettings,
        ticks: u128,
        walking: bool,
        target: Option<u64>,
        held: Option<Weapon>,
        slots: &Vec<(u16, Option<Weapon>)>,
        selected: u8,
    ) -> (r: KillAction)
        requires
            settings.enabled ==> settings.delay_ticks > 0,
        ensures
            !settings.enabled || walking || target is None ==> r == KillAction::Idle,
            settings.enabled && !walking && target is Some && !due(ticks, settings.delay_ticks)
                ==> r == KillAction::Look(target->0),
            settings.enabled && !walking && target is Some && due(ticks, settings.delay_ticks) ==> match r {
                KillAction::Attack { target: t, swap } => {
                    &&& t == target->0
                    &&& if !settings.auto_weapon || held is Some {
                        swap is None
                    } else {
                        match swap {
                            None => forall|j: int| 0 <= j < slots@.len() ==> (#[trigger] slots@[j]).1 is None,
                            Some(c) => c.target_slot == selected && exists|k: int|
                                #[trigger] best_weapon_at(slots@, k) && slots@[k].0 == c.source_slot,
                        }
                    }
                },
                _ => false,
            },
    {
        if !settings.enabled || walking {
            return KillAction::Idle;
        }
        let t = match target {
            Some(t) => t,
            None => return KillAction::Idle,
        };
        if !is_due(settings.enabled, ticks, settings.delay_ticks) {
            return KillAction::Look(t);
        }
        if !settings.auto_weapon || held.is_some() {
            return KillAction::Attack { target: t, swap: None };
        }
        let mut best: Option<(usize, i32)> = None;
        let mut i: usize = 0;
        while i < slots.len()
            invariant
                i <= slots@.len(),
                best is None ==> forall|j: int| 0 <= j < i ==> (#[trigger] slots@[j]).1 is None,
                best matches Some((b, bd)) ==> {
                    &&& b < i
                    &&& slots@[b as int].1 is Some
                    &&& bd as int == damage(slots@[b as int].1->0)
                    &&& forall|j: int| 0 <= j < i && (#[trigger] slots@[j]).1 is Some ==> {
                        &&& damage(slots@[j].1->0) <= bd
                        &&& (j < b ==> damage(slots@[j].1->0) < bd)
                    }
                },
            decreases slots@.len() - i,
        {
            match slots[i].1 {
                Some(w) => {
                    let d = damage_of(w);
                    let better = match best {
                        None => true,
                        Some((_, bd)) => d > bd,
                    };
                    if better {
                        best = Some((i, d));
                    }
                },
                None => {},
            }
            i = i + 1;
        }
        match best {
            None => KillAction::Attack { target: t, swap: None },
            Some((b, _)) => {
                assert(best_weapon_at(slots@, b as int));
                KillAction::Attack { target: t, swap: Some(SwapClick { source_slot: slots[b].0, target_slot: selected }) }
            },
        }
    }
}

} // verus!
