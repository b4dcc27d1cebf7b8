//! Whitelisting the players who come into view, when the settings ask for it.
use vstd::prelude::*;
use crate::settings::{User, Users};

verus! {

/// The auto-whitelist module.
pub struct AutoWhitelistPlugin;

/// An entity that appeared: whether it is a player, and its UUID.
#[derive(Clone, Copy, PartialEq, Eq, Structural, Debug)]
pub struct Appeared {
    pub is_player: bool,
    pub uuid: u128,
}

/// The players added, in order, each once: players in view that were not whitelisted, when
/// players in range are to be whitelisted.
pub open spec fn added_players(seen: Seq<Appeared>, known: Set<u128>, in_range: bool) -> Seq<u128>
    decreases seen.len(),
{
    if seen.len() == 0 {
        Seq::empty()
    } else {
        let prev = added_players(seen.drop_last(), known, in_range);
        let a = seen.last();
        if a.is_player && in_range && !known.contains(a.uuid) && !prev.contains(a.uuid) {
            prev.push(a.uuid)
        } else {
            prev
        }
    }
}

impl AutoWhitelistPlugin {
    /// Whitelists the players that appear, as [`added_players`] lists them; each new user has
    /// nothing linked and no password. Gives the players added (each is then saved).
    pub fn handle_add_entity_packets(seen: &Vec<Appeared>, users: &mut Users, in_range: bool) -> (r: Vec<u128>)
        requires
            old(users).wf(),
        ensures
            final(users).wf(),
            r@ == added_players(seen@, old(users)@.dom(), in_range),
            final(users)@.dom() == old(users)@.dom() + r@.to_set(),
            forall|k: u128| #[trigger] old(users)@.contains_key(k) ==> final(users)@[k] == old(users)@[k],
            forall|k: u128| r@.contains(k) ==> (#[trigger] final(users)@[k]).discord_id@.len() == 0
                && final(users)@[k].api_password@.len() == 0,
    {
        let ghost known = users@.dom();
        let ghost m0 = users@;
        let mut added: Vec<u128> = Vec::new();
        let mut i: usize = 0;
        assert(m0.dom() + Seq::<u128>::empty().to_set() =~= m0.dom());
        while i < seen.len()
            invariant
                i <= seen.len(),
                users.wf(),
                known == m0.dom(),
                m0 == old(users)@,
                added@ == added_players(seen@.take(i as int), known, in_range),
                users@.dom() == known + added@.to_set(),
                forall|k: u128| #[trigger] m0.contains_key(k) ==> users@[k] == m0[k],
                forall|k: u128| added@.contains(k) ==> (#[trigger] users@[k]).discord_id@.len() == 0
                    && users@[k].api_password@.len() == 0,
            decreases seen.len() - i,
        {
            assert(seen@.take(i + 1).drop_last() =~= seen@.take(i as int));
            assert(seen@.take(i + 1).last() == seen@[i as int]);
            let a = seen[i];
            if a.is_player && in_range && !users.contains_key(a.uuid) {
                let ghost before = added@;
                assert(!known.contains(a.uuid) && !before.contains(a.uuid));
                users.insert(a.uuid, User::empty());
                added.push(a.uuid);
                proof {
                    assert(added@.to_set() =~= before.to_set().insert(a.uuid)) by {
                        before.lemma_push_to_set_commute(a.uuid);
                    }
                    assert(users@.dom() =~= known + added@.to_set());
                    assert forall|k: u128| added@.contains(k) implies (#[trigger] users@[k]).discord_id@.len() == 0
                        && users@[k].api_password@.len() == 0 by {
                        if k != a.uuid {
                            assert(before.contains(k)) by {
                                let j = choose|j: int| 0 <= j < added@.len() && added@[j] == k;
                                assert(before[j] == k);
                            }
                        }
                    }
                }
            } else {
                proof {
                    if a.is_player && in_range && !known.contains(a.uuid) {
                        assert(users@.dom().contains(a.uuid));
                        assert(added@.to_set().contains(a.uuid));
                        assert(added@.contains(a.uuid));
                    }
                }
            }
            i = i + 1;
        }
        assert(seen@.take(seen.len() as int) =~= seen@);
        added
    }
}

} // verus!
