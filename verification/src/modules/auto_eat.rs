//! Eating when hungry: the food with the most saturation, then the most nutrition, is swapped
//! into the hand first.
use vstd::prelude::*;
use crate::modules::ticks::{due, is_due};
use crate::modules::SwapClick;

verus! {

/// The foods the bot eats.
#[derive(Clone, Copy, PartialEq, Eq, Structural, Debug)]
pub enum Food {
    Apple,
    BakedPotato,
    Beef,
    Beetroot,
    BeetrootSoup,
    Bread,
    Carrot,
    Chicken,
    Cod,
    CookedBeef,
    CookedChicken,
    CookedCod,
    CookedMutton,
    CookedPorkchop,
    CookedRabbit,
    CookedSalmon,
    Cookie,
    DriedKelp,
    EnchantedGoldenApple,
    GlowBerries,
    GoldenApple,
    GoldenCarrot,
    HoneyBottle,
    MelonSlice,
    MushroomStew,
    Mutton,
    Porkchop,
    Potato,
    PumpkinPie,
    Rabbit,
    RabbitStew,
    Salmon,
    SweetBerries,
    TropicalFish,
}

/// The nutrition of a food and its saturation in tenths.
pub open spec fn food_value(f: Food) -> (int, int) {
    match f {
        Food::Apple => (4, 24),
        Food::BakedPotato => (5, 60),
        Food::Beef => (3, 18),
        Food::Beetroot => (1, 12),
        Food::BeetrootSoup => (6, 72),
        Food::Bread => (5, 60),
        Food::Carrot => (3, 36),
        Food::Chicken => (2, 12),
        Food::Cod => (2, 4),
        Food::CookedBeef => (8, 128),
        Food::CookedChicken => (6, 72),
        Food::CookedCod => (5, 60),
        Food::CookedMutton => (6, 96),
        Food::CookedPorkchop => (8, 128),
        Food::CookedRabbit => (5, 60),
        Food::CookedSalmon => (6, 96),
        Food::Cookie => (2, 4),
        Food::DriedKelp => (1, 6),
        Food::EnchantedGoldenApple => (4, 96),
        Food::GlowBerries => (2, 4),
        Food::GoldenApple => (4, 96),
        Food::GoldenCarrot => (6, 144),
        Food::HoneyBottle => (6, 12),
        Food::MelonSlice => (2, 12),
        Food::MushroomStew => (6, 72),
        Food::Mutton => (2, 12),
        Food::Porkchop => (3, 18),
        Food::Potato => (1, 6),
        Food::PumpkinPie => (8, 48),
        Food::Rabbit => (3, 18),
        Food::RabbitStew => (10, 120),
        Food::Salmon => (2, 4),
        Food::SweetBerries => (2, 4),
        Food::TropicalFish => (1, 2),
    }
}

fn food_values(f: Food) -> (r: (i32, i32))
    ensures
        (r.0 as int, r.1 as int) == food_value(f),
{
    match f {
        Food::Apple => (4, 24),
        Food::BakedPotato => (5, 60),
        Food::Beef => (3, 18),
        Food::Beetroot => (1, 12),
        Food::BeetrootSoup => (6, 72),
        Food::Bread => (5, 60),
        Food::Carrot => (3, 36),
        Food::Chicken => (2, 12),
        Food::Cod => (2, 4),
        Food::CookedBeef => (8, 128),
        Food::CookedChicken => (6, 72),
        Food::CookedCod => (5, 60),
        Food::CookedMutton => (6, 96),
        Food::CookedPorkchop => (8, 128),
        Food::CookedRabbit => (5, 60),
        Food::CookedSalmon => (6, 96),
        Food::Cookie => (2, 4),
        Food::DriedKelp => (1, 6),
        Food::EnchantedGoldenApple => (4, 96),
        Food::GlowBerries => (2, 4),
        Food::GoldenApple => (4, 96),
        Food::GoldenCarrot => (6, 144),
        Food::HoneyBottle => (6, 12),
        Food::MelonSlice => (2, 12),
        Food::MushroomStew => (6, 72),
        Food::Mutton => (2, 12),
        Food::Porkchop => (3, 18),
        Food::Potato => (1, 6),
        Food::PumpkinPie => (8, 48),
        Food::Rabbit => (3, 18),
        Food::RabbitStew => (10, 120),
        Food::Salmon => (2, 4),
        Food::SweetBerries => (2, 4),
        Food::TropicalFish => (1, 2),
    }
}

/// Whether food `a` ranks above food `b`: more saturation, then more nutrition.
pub open spec fn food_above(a: Food, b: Food) -> bool {
    food_value(a).1 > food_value(b).1 || (food_value(a).1 == food_value(b).1 && food_value(a).0 > food_value(b).0)
}

/// Law: the food table holds Minecraft's nutrition and saturation (in tenths) of each food.
pub proof fn lemma_food_table()
    ensures
        food_value(Food::Apple) == (4int, 24int),
        food_value(Food::BakedPotato) == (5int, 60int),
        food_value(Food::Beef) == (3int, 18int),
        food_value(Food::Beetroot) == (1int, 12int),
        food_value(Food::BeetrootSoup) == (6int, 72int),
        food_value(Food::Bread) == (5int, 60int),
        food_value(Food::Carrot) == (3int, 36int),
        food_value(Food::Chicken) == (2int, 12int),
        food_value(Food::Cod) == (2int, 4int),
        food_value(Food::CookedBeef) == (8int, 128int),
        food_value(Food::CookedChicken) == (6int, 72int),
        food_value(Food::CookedCod) == (5int, 60int),
        food_value(Food::CookedMutton) == (6int, 96int),
        food_value(Food::CookedPorkchop) == (8int, 128int),
        food_value(Food::CookedRabbit) == (5int, 60int),
        food_value(Food::CookedSalmon) == (6int, 96int),
        food_value(Food::Cookie) == (2int, 4int),
        food_value(Food::DriedKelp) == (1int, 6int),
        food_value(Food::EnchantedGoldenApple) == (4int, 96int),
        food_value(Food::GlowBerries) == (2int, 4int),
        food_value(Food::GoldenApple) == (4int, 96int),
        food_value(Food::GoldenCarrot) == (6int, 144int),
        food_value(Food::HoneyBottle) == (6int, 12int),
        food_value(Food::MelonSlice) == (2int, 12int),
        food_value(Food::MushroomStew) == (6int, 72int),
        food_value(Food::Mutton) == (2int, 12int),
        food_value(Food::Porkchop) == (3int, 18int),
        food_value(Food::Potato) == (1int, 6int),
        food_value(Food::PumpkinPie) == (8int, 48int),
        food_value(Food::Rabbit) == (3int, 18int),
        food_value(Food::RabbitStew) == (10int, 120int),
        food_value(Food::Salmon) == (2int, 4int),
        food_value(Food::SweetBerries) == (2int, 4int),
        food_value(Food::TropicalFish) == (1int, 2int),
{
}

/// Law: the golden carrot ranks above every other food, and each cooked food ranks above its
/// raw form.
pub proof fn lemma_food_ranking(f: Food)
    ensures
        f != Food::GoldenCarrot ==> food_above(Food::GoldenCarrot, f),
        food_above(Food::CookedBeef, Food::Beef),
        food_above(Food::CookedChicken, Food::Chicken),
        food_above(Food::CookedCod, Food::Cod),
        food_above(Food::CookedMutton, Food::Mutton),
        food_above(Food::CookedPorkchop, Food::Porkchop),
        food_above(Food::CookedRabbit, Food::Rabbit),
        food_above(Food::CookedSalmon, Food::Salmon),
        food_above(Food::BakedPotato, Food::Potato),
        !food_above(f, f),
{
}

/// Whether entry `k` is the food to eat: it holds food, none ranks above it, and it comes
/// before every other entry of the same rank.
pub open spec fn best_food_at(slots: Seq<(u16, Option<Food>)>, k: int) -> bool {
    &&& 0 <= k < slots.len()
    &&& slots[k].1 is Some
    &&& forall|j: int| 0 <= j < slots.len() && (#[trigger] slots[j]).1 is Some ==> {
        &&& !food_above(slots[j].1->0, slots[k].1->0)
        &&& (j < k ==> food_above(slots[k].1->0, slots[j].1->0))
    }
}

/// Law: when any slot holds a golden carrot, the food eaten is a golden carrot; and the food
/// eaten ranks at least as high as the food of every slot.
pub proof fn lemma_best_food_wins(slots: Seq<(u16, Option<Food>)>, k: int, j: int)
    requires
        best_food_at(slots, k),
        0 <= j < slots.len(),
        slots[j].1 is Some,
    ensures
        slots[j].1 == Some(Food::GoldenCarrot) ==> slots[k].1 == Some(Food::GoldenCarrot),
        food_value(slots[j].1->0).1 <= food_value(slots[k].1->0).1,
{
    lemma_food_ranking(slots[k].1->0);
    assert(!food_above(slots[j].1->0, slots[k].1->0));
}

/// The auto-eat settings.
pub struct AutoEatSettings {
    pub enabled: bool,
    pub delay_ticks: u128,
}

/// What auto-eat does at a tick: nothing, or eat, having first swapped the slot into the
/// selected hotbar slot if the hand held no food.
#[derive(Clone, Copy, PartialEq, Eq, Structural, Debug)]
pub enum EatAction {
    Idle,
    Eat { swap: Option<SwapClick> },
}

/// The auto-eat module.
pub struct AutoEatPlugin;

impl AutoEatPlugin {
    /// Auto-eat at a tick, with the hunger bar at `food_level`, the held item's food (if
    /// food), and each inventory slot with its food (if food) in inventory order.
    pub fn handle_auto_eat(
        settings: &AutoEatSettings,
        ticks: u128,
        food_level: u32,
        held: Option<Food>,
        slots: &Vec<(u16, Option<Food>)>,
        selected: u8,
    ) -> (r: EatAction)
        requires
            settings.enabled ==> settings.delay_ticks > 0,
        ensures
            !settings.enabled || food_level >= 18 || !due(ticks, settings.delay_ticks) ==> r == EatAction::Idle,
            settings.enabled && food_level < 18 && due(ticks, settings.delay_ticks) ==> match r {
                EatAction::Eat { swap } => {
                    if held is Some {
                        swap is None
                    } else {
                        match swap {
                            None => forall|j: int| 0 <= j < slots@.len() ==> (#[trigger] slots@[j]).1 is None,
                            Some(c) => c.target_slot == selected && exists|k: int|
                                #[trigger] best_food_at(slots@, k) && slots@[k].0 == c.source_slot,
                        }
                    }
                },
                EatAction::Idle => false,
            },
    {
        if !settings.enabled || food_level >= 18 {
            return EatAction::Idle;
        }
        if !is_due(settings.enabled, ticks, settings.delay_ticks) {
            return EatAction::Idle;
        }
        if held.is_some() {
            return EatAction::Eat { swap: None };
        }
        let mut best: Option<(usize, i32, i32)> = None;
        let mut i: usize = 0;
        while i < slots.len()
            invariant
                i <= slots@.len(),
                best is None ==> forall|j: int| 0 <= j < i ==> (#[trigger] slots@[j]).1 is None,
                best matches Some((b, bs, bn)) ==> {
                    &&& b < i
                    &&& slots@[b as int].1 is Some
                    &&& (bn as int, bs as int) == food_value(slots@[b as int].1->0)
                    &&& forall|j: int| 0 <= j < i && (#[trigger] slots@[j]).1 is Some ==> {
                        &&& !food_above(slots@[j].1->0, slots@[b as int].1->0)
                        &&& (j < b ==> food_above(slots@[b as int].1->0, slots@[j].1->0))
                    }
                },
            decreases slots@.len() - i,
        {
            match slots[i].1 {
                Some(f) => {
                    let (n, s) = food_values(f);
                    let better = match best {
                        None => true,
                        Some((_, bs, bn)) => s > bs || (s == bs && n > bn),
                    };
                    if better {
                        best = Some((i, s, n));
                    }
                },
                None => {},
            }
            i = i + 1;
        }
        match best {
            None => EatAction::Eat { swap: None },
            Some((b, _, _)) => {
                assert(best_food_at(slots@, b as int));
                EatAction::Eat { swap: Some(SwapClick { source_slot: slots[b].0, target_slot: selected }) }
            },
        }
    }
}

} // verus!
