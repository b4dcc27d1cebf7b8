//! Keeping a totem of undying in the off hand.
use vstd::prelude::*;

verus! {

/// The auto-totem module.
pub struct AutoTotemPlugin;

/// The first slot from the eighth on that holds a totem.
pub open spec fn first_totem(slots: Seq<bool>) -> Option<int> {
    if exists|i: int| 8 <= i < slots.len() && slots[i] {
        Some(choose|i: int| 8 <= i < slots.len() && slots[i] && forall|j: int| 8 <= j < i ==> !slots[j])
    } else {
        None
    }
}

impl AutoTotemPlugin {
    /// The slot to swap into the off hand at this tick, if any: on odd ticks, when the off hand
    /// holds no totem, the first slot from the eighth on with a totem. `slots` says for each
    /// slot of the inventory menu whether it holds a totem.
    pub fn handle_auto_totem(ticks: u128, offhand_totem: bool, slots: &Vec<bool>) -> (r: Option<u16>)
        requires
            slots@.len() >= 8,
        ensures
            if ticks % 2 == 0 || offhand_totem {
                r is None
            } else {
                match first_totem(slots@) {
                    Some(i) => if i <= u16::MAX { r == Some(i as u16) } else { r is None },
                    None => r is None,
                }
            },
    {
        if ticks % 2 == 0 || offhand_totem {
            return None;
        }
        let mut i: usize = 8;
        while i < slots.len()
            invariant
                ticks % 2 != 0 && !offhand_totem,
                8 <= i <= slots@.len(),
                forall|j: int| 8 <= j < i ==> !slots@[j],
            decreases slots.len() - i,
        {
            if slots[i] {
                proof {
                    let c = choose|c: int| 8 <= c < slots@.len() && slots@[c] && forall|j: int| 8 <= j < c ==> !slots@[j];
                    if c < i {
                    } else if c > i {
                        assert(!slots@[i as int]);
                    }
                }
                if i <= 65535 {
                    return Some(i as u16);
                }
                return None;
            }
            i = i + 1;
        }
        None
    }
}

} // verus!
