//! Keeping the stasis chambers up to date from the server's packets: a pearl thrown onto a
//! trapdoor is a new chamber, a trapdoor that closes or a pearl that vanishes nearby ends one.
use vstd::prelude::*;
use crate::chambers::{BlockPos, Chamber, StasisChambers};
use crate::maps::{kept, lemma_kept_members};

verus! {

/// A block changed at `pos`; `open` is the new block's `open` property, if it has one.
pub struct BlockUpdate {
    pub pos: BlockPos,
    pub open: Option<bool>,
}

/// Whether a chamber survives a block update at `pos`.
pub open spec fn off_block(e: (u128, Chamber), pos: BlockPos) -> bool {
    e.1.block_pos != pos
}

impl BlockUpdate {
    /// An opened trapdoor changes nothing; any other block change ends every chamber at the
    /// position. Gives whether the chambers are to be saved.
    pub fn execute(&self, chambers: &mut StasisChambers) -> (saved: bool)
        requires
            old(chambers).wf(),
        ensures
            final(chambers).wf(),
            saved == (self.open != Some(true)),
            !saved ==> final(chambers).entries@ == old(chambers).entries@,
            saved ==> final(chambers).entries@ == kept(
                old(chambers).entries@,
                old(chambers).entries@.map_values(|e: (u128, Chamber)| off_block(e, self.pos)),
            ),
            saved ==> forall|x: (u128, Chamber)| #[trigger] final(chambers).entries@.contains(x)
                <==> old(chambers).entries@.contains(x) && x.1.block_pos != self.pos,
    {
        if self.open == Some(true) {
            return false;
        }
        let ghost es = chambers.entries@;
        let mut keep: Vec<bool> = Vec::new();
        let mut i: usize = 0;
        while i < chambers.entries.len()
            invariant
                i <= chambers.entries@.len(),
                chambers.entries@ == es,
                keep@ == es.map_values(|e: (u128, Chamber)| off_block(e, self.pos)).take(i as int),
            decreases chambers.entries@.len() - i,
        {
            keep.push(chambers.entries[i].1.block_pos != self.pos);
            assert(keep@ =~= es.map_values(|e: (u128, Chamber)| off_block(e, self.pos)).take(i + 1));
            i = i + 1;
        }
        assert(keep@ =~= es.map_values(|e: (u128, Chamber)| off_block(e, self.pos)));
        chambers.retain_marked(&keep);
        proof {
            assert forall|x: (u128, Chamber)| #[trigger] chambers.entries@.contains(x)
                <==> es.contains(x) && x.1.block_pos != self.pos by {
                lemma_kept_members(es, keep@, x);
                if es.contains(x) && x.1.block_pos != self.pos {
                    let i = choose|i: int| 0 <= i < es.len() && es[i] == x;
                    assert(keep@[i]);
                }
            }
        }
        true
    }
}

/// An entity appeared: its UUID, its entity number, whether it is an ender pearl, and its
/// data (the number of the entity that threw it, zero when that one is out of sight).
pub struct EntityAdd {
    pub uuid: u128,
    pub id: i32,
    pub is_pearl: bool,
    pub data: i32,
}

/// The owner recorded for a pearl whose thrower is out of sight.
pub open spec fn unknown_owner() -> u128 {
    u128::MAX
}

impl EntityAdd {
    /// A pearl that lands on a trapdoor becomes a chamber at the trapdoor, keyed by the pearl's
    /// UUID, owned by its thrower (or by no one known when the thrower is out of sight) and
    /// tagged with the bot's location. `trapdoor` is the nearest trapdoor to the pearl, if
    /// any; `thrower` the UUID of the player whose entity number the data names, if one is in
    /// sight. Gives whether the chambers are to be saved.
    pub fn execute(
        &self,
        chambers: &mut StasisChambers,
        trapdoor: Option<BlockPos>,
        thrower: Option<u128>,
        location: String,
    ) -> (saved: bool)
        requires
            old(chambers).wf(),
        ensures
            final(chambers).wf(),
            saved == (self.is_pearl && trapdoor is Some && (self.data == 0 || thrower is Some)),
            !saved ==> final(chambers)@ == old(chambers)@,
            saved ==> {
                &&& final(chambers)@.dom() == old(chambers)@.dom().insert(self.uuid)
                &&& forall|k: u128| k != self.uuid && #[trigger] old(chambers)@.contains_key(k)
                    ==> final(chambers)@[k] == old(chambers)@[k]
                &&& final(chambers)@[self.uuid].block_pos == trapdoor->0
                &&& final(chambers)@[self.uuid].entity_id == self.id
                &&& final(chambers)@[self.uuid].owner_uuid == if self.data == 0 { unknown_owner() } else { thrower->0 }
                &&& final(chambers)@[self.uuid].location@ == location@
            },
    {
        if !self.is_pearl {
            return false;
        }
        let block_pos = match trapdoor {
            Some(p) => p,
            None => return false,
        };
        let owner_uuid = if self.data == 0 {
            u128::MAX
        } else {
            match thrower {
                Some(u) => u,
                None => return false,
            }
        };
        chambers.insert(self.uuid, Chamber { block_pos, entity_id: self.id, owner_uuid, location });
        true
    }
}

/// Entities that vanished, by entity number.
pub struct EntityRemove {
    pub entity_ids: Vec<i32>,
}

/// Whether a chamber survives: its pearl did not vanish while in the bot's view.
pub open spec fn pearl_stays(e: (u128, Chamber), removed: Seq<i32>, in_view: Seq<u128>) -> bool {
    !(removed.contains(e.1.entity_id) && in_view.contains(e.0))
}

fn contains_i32(v: &Vec<i32>, x: i32) -> (r: bool)
    ensures
        r == v@.contains(x),
{
    let mut i: usize = 0;
    while i < v.len()
        invariant
            i <= v.len(),
            forall|j: int| 0 <= j < i ==> v@[j] != x,
        decreases v.len() - i,
    {
        if v[i] == x {
            return true;
        }
        i = i + 1;
    }
    false
}

fn contains_u128(v: &Vec<u128>, x: u128) -> (r: bool)
    ensures
        r == v@.contains(x),
{
    let mut i: usize = 0;
    while i < v.len()
        invariant
            i <= v.len(),
            forall|j: int| 0 <= j < i ==> v@[j] != x,
        decreases v.len() - i,
    {
        if v[i] == x {
            return true;
        }
        i = i + 1;
    }
    false
}

impl EntityRemove {
    /// Ends the chambers whose pearl vanished while within the pearl view distance of the bot;
    /// `in_view` holds the keys of the chambers that are. The chambers are then saved.
    pub fn execute(&self, chambers: &mut StasisChambers, in_view: &Vec<u128>)
        requires
            old(chambers).wf(),
        ensures
            final(chambers).wf(),
            final(chambers).entries@ == kept(
                old(chambers).entries@,
                old(chambers).entries@.map_values(|e: (u128, Chamber)| pearl_stays(e, self.entity_ids@, in_view@)),
            ),
            forall|x: (u128, Chamber)| #[trigger] final(chambers).entries@.contains(x)
                <==> old(chambers).entries@.contains(x)
                && !(self.entity_ids@.contains(x.1.entity_id) && in_view@.contains(x.0)),
    {
        let ghost es = chambers.entries@;
        let mut keep: Vec<bool> = Vec::new();
        let mut i: usize = 0;
        while i < chambers.entries.len()
            invariant
                i <= chambers.entries@.len(),
                chambers.entries@ == es,
                keep@ == es.map_values(|e: (u128, Chamber)| pearl_stays(e, self.entity_ids@, in_view@)).take(i as int),
            decreases chambers.entries@.len() - i,
        {
            let gone = contains_i32(&self.entity_ids, chambers.entries[i].1.entity_id)
                && contains_u128(in_view, chambers.entries[i].0);
            keep.push(!gone);
            assert(keep@ =~= es.map_values(|e: (u128, Chamber)| pearl_stays(e, self.entity_ids@, in_view@)).take(i + 1));
            i = i + 1;
        }
        assert(keep@ =~= es.map_values(|e: (u128, Chamber)| pearl_stays(e, self.entity_ids@, in_view@)));
        chambers.retain_marked(&keep);
        proof {
            assert forall|x: (u128, Chamber)| #[trigger] chambers.entries@.contains(x)
                <==> es.contains(x) && !(self.entity_ids@.contains(x.1.entity_id) && in_view@.contains(x.0)) by {
                lemma_kept_members(es, keep@, x);
                if es.contains(x) && !(self.entity_ids@.contains(x.1.entity_id) && in_view@.contains(x.0)) {
                    let i = choose|i: int| 0 <= i < es.len() && es[i] == x;
                    assert(keep@[i]);
                }
            }
        }
    }
}

/// The chambers kept when the entities `ids` vanish, `in_view` holding the keys of the
/// chambers in view.
pub open spec fn kept_after_removal(es: Seq<(u128, Chamber)>, ids: Seq<i32>, in_view: Seq<u128>) -> Seq<(u128, Chamber)> {
    kept(es, es.map_values(|e: (u128, Chamber)| pearl_stays(e, ids, in_view)))
}

/// Law: which chambers end depends on the vanished entities only through which ids they are,
/// not their order or repeats: two packets naming the same ids end the same chambers.
pub proof fn lemma_removal_by_id_set(es: Seq<(u128, Chamber)>, ids1: Seq<i32>, ids2: Seq<i32>, in_view: Seq<u128>)
    requires
        ids1.to_set() == ids2.to_set(),
    ensures
        kept_after_removal(es, ids1, in_view) == kept_after_removal(es, ids2, in_view),
{
    assert forall|k: i32| ids1.contains(k) <==> ids2.contains(k) by {
        assert(ids1.contains(k) <==> ids1.to_set().contains(k));
        assert(ids2.contains(k) <==> ids2.to_set().contains(k));
    }
    assert(es.map_values(|e: (u128, Chamber)| pearl_stays(e, ids1, in_view))
        =~= es.map_values(|e: (u128, Chamber)| pearl_stays(e, ids2, in_view)));
}

/// Law: a chamber whose pearl's entity id occurs anywhere among the vanished ids while it is in
/// view ends; every other chamber stays.
pub proof fn lemma_vanished_pearls_end(es: Seq<(u128, Chamber)>, ids: Seq<i32>, in_view: Seq<u128>, x: (u128, Chamber), k: int)
    requires
        es.contains(x),
        0 <= k < ids.len(),
    ensures
        ids[k] == x.1.entity_id && in_view.contains(x.0) ==> !kept_after_removal(es, ids, in_view).contains(x),
        !ids.contains(x.1.entity_id) ==> kept_after_removal(es, ids, in_view).contains(x),
{
    let flags = es.map_values(|e: (u128, Chamber)| pearl_stays(e, ids, in_view));
    lemma_kept_members(es, flags, x);
    if ids[k] == x.1.entity_id {
        assert(ids.contains(x.1.entity_id));
    }
    if !ids.contains(x.1.entity_id) {
        let i = choose|i: int| 0 <= i < es.len() && es[i] == x;
        assert(flags[i]);
    }
}

} // verus!
