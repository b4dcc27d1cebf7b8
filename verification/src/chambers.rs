//! Stasis chambers (ender pearls resting on trapdoors) and the choice of which one to pull.
//!
//! A player's chamber is chosen first by how few other players' pearls share its block, then
//! by how close it is to the bot; among equals the first in the chamber list wins.
use vstd::prelude::*;
use crate::maps::UuidMap;

verus! {

/// A block position.
#[derive(Clone, Copy, PartialEq, Eq, Structural, Debug)]
pub struct BlockPos {
    pub x: i32,
    pub y: i32,
    pub z: i32,
}

/// A pearl resting in a stasis chamber: its block, its entity number, its owner and the named
/// location of the bot that tracks it.
pub struct Chamber {
    pub block_pos: BlockPos,
    pub entity_id: i32,
    pub owner_uuid: u128,
    pub location: String,
}

/// The chambers, keyed by the pearl entity's UUID.
pub type StasisChambers = UuidMap<Chamber>;

/// The chambers in the order they are kept.
pub open spec fn chamber_list(m: StasisChambers) -> Seq<Chamber> {
    m.entries@.map_values(|e: (u128, Chamber)| e.1)
}

pub open spec fn abs(v: int) -> int {
    if v < 0 { -v } else { v }
}

/// The taxicab distance between two blocks.
pub open spec fn manhattan(a: BlockPos, b: BlockPos) -> int {
    abs(a.x - b.x) + abs(a.y - b.y) + abs(a.z - b.z)
}

/// What a search for a player's chamber looks at: the owner, the location the chamber must
/// have (if any), the largest distance allowed (if any), a constant added to every distance,
/// and where the bot stands.
pub struct PearlQuery {
    pub owner: u128,
    pub location: Option<String>,
    pub max_distance: Option<i32>,
    pub offset: i32,
    pub from: BlockPos,
}

/// A search as contracts see it.
pub struct Search {
    pub owner: u128,
    pub location: Option<Seq<char>>,
    pub max_distance: Option<int>,
    pub offset: int,
    pub from: BlockPos,
}

impl PearlQuery {
    pub open spec fn view(&self) -> Search {
        Search {
            owner: self.owner,
            location: match self.location {
                Some(l) => Some(l@),
                None => None,
            },
            max_distance: match self.max_distance {
                Some(m) => Some(m as int),
                None => None,
            },
            offset: self.offset as int,
            from: self.from,
        }
    }
}

/// The distance the search measures to a chamber.
pub open spec fn measured(q: Search, c: Chamber) -> int {
    q.offset + manhattan(q.from, c.block_pos)
}

/// Whether a chamber is the owner's, at the location asked for.
pub open spec fn owned_here(q: Search, c: Chamber) -> bool {
    c.owner_uuid == q.owner && (q.location matches Some(l) ==> c.location@ == l)
}

/// Whether a chamber is one the search may pick: the owner's, at the location, in range.
pub open spec fn eligible(q: Search, c: Chamber) -> bool {
    owned_here(q, c) && (q.max_distance matches Some(m) ==> measured(q, c) <= m)
}

/// How many chambers in `all` share the block of `c` but belong to someone else.
pub open spec fn shared_count(all: Seq<Chamber>, c: Chamber) -> int
    decreases all.len(),
{
    if all.len() == 0 {
        0
    } else {
        shared_count(all.drop_last(), c) + (if all.last().block_pos == c.block_pos
            && all.last().owner_uuid != c.owner_uuid { 1int } else { 0int })
    }
}

/// Law: only other owners' pearls on the same block count as sharers. A chamber of the same
/// owner (on any block), or of anyone on another block, added to the list leaves a chamber's
/// shared count as it was; one of another owner on the same block raises it by one.
pub proof fn lemma_shared_count_push(all: Seq<Chamber>, c: Chamber, d: Chamber)
    ensures
        d.owner_uuid == c.owner_uuid || d.block_pos != c.block_pos
            ==> shared_count(all.push(d), c) == shared_count(all, c),
        d.owner_uuid != c.owner_uuid && d.block_pos == c.block_pos
            ==> shared_count(all.push(d), c) == shared_count(all, c) + 1,
{
    assert(all.push(d).drop_last() =~= all);
}

/// Law: the shared count of a chamber is the number of chambers in the list on its block
/// whose owner is someone else.
pub proof fn lemma_shared_count_is_other_owners_on_block(all: Seq<Chamber>, c: Chamber)
    ensures
        shared_count(all, c) == all.filter(|e: Chamber| e.block_pos == c.block_pos && e.owner_uuid != c.owner_uuid).len(),
    decreases all.len(),
{
    if all.len() > 0 {
        lemma_shared_count_is_other_owners_on_block(all.drop_last(), c);
        assert(all.drop_last().push(all.last()) =~= all);
        all.drop_last().lemma_filter_push(all.last(), |e: Chamber| e.block_pos == c.block_pos && e.owner_uuid != c.owner_uuid);
    } else {
        assert(all.filter(|e: Chamber| e.block_pos == c.block_pos && e.owner_uuid != c.owner_uuid) =~= Seq::<Chamber>::empty());
    }
}

/// How many chambers in `all` the query counts as the owner's at the location.
pub open spec fn owned_count(all: Seq<Chamber>, q: Search) -> int
    decreases all.len(),
{
    if all.len() == 0 {
        0
    } else {
        owned_count(all.drop_last(), q) + (if owned_here(q, all.last()) { 1int } else { 0int })
    }
}

/// How many chambers in `all` belong to `owner`.
pub open spec fn owner_count(all: Seq<Chamber>, owner: u128) -> nat
    decreases all.len(),
{
    if all.len() == 0 {
        0
    } else {
        owner_count(all.drop_last(), owner) + (if all.last().owner_uuid == owner { 1nat } else { 0nat })
    }
}

/// Counts the chambers that belong to `owner`.
pub fn count_owned_by(chambers: &StasisChambers, owner: u128) -> (n: usize)
    ensures
        n == owner_count(chamber_list(*chambers), owner),
{
    let ghost all = chamber_list(*chambers);
    let mut n: usize = 0;
    let mut i: usize = 0;
    while i < chambers.entries.len()
        invariant
            i <= all.len(),
            all == chamber_list(*chambers),
            n == owner_count(all.take(i as int), owner),
            n <= i,
        decreases all.len() - i,
    {
        assert(all.take(i + 1).drop_last() =~= all.take(i as int));
        assert(all[i as int] == chambers.entries@[i as int].1);
        if chambers.entries[i].1.owner_uuid == owner {
            n = n + 1;
        }
        i = i + 1;
    }
    assert(all.take(all.len() as int) =~= all);
    n
}

/// Whether rank `(s1, d1)` is smaller than rank `(s2, d2)`: fewer sharers, then closer.
pub open spec fn rank_lt(s1: int, d1: int, s2: int, d2: int) -> bool {
    s1 < s2 || (s1 == s2 && d1 < d2)
}

/// Whether entry `i` is the chamber chosen: eligible, of smallest rank, and before every other
/// eligible chamber of the same rank.
pub open spec fn chosen(all: Seq<Chamber>, q: Search, i: int) -> bool {
    &&& 0 <= i < all.len()
    &&& eligible(q, all[i])
    &&& forall|j: int| 0 <= j < all.len() && #[trigger] eligible(q, all[j]) ==> {
        &&& !rank_lt(shared_count(all, all[j]), measured(q, all[j]), shared_count(all, all[i]), measured(q, all[i]))
        &&& (j < i ==> rank_lt(shared_count(all, all[i]), measured(q, all[i]), shared_count(all, all[j]), measured(q, all[j])))
    }
}

/// At most one chamber is the chosen one.
pub proof fn lemma_chosen_unique(all: Seq<Chamber>, q: Search, i: int, k: int)
    requires
        chosen(all, q, i),
        chosen(all, q, k),
    ensures
        i == k,
{
    if i < k {
        assert(eligible(q, all[i]));
    } else if k < i {
        assert(eligible(q, all[k]));
    }
}

/// The index of the chosen chamber, when there is one.
pub open spec fn chosen_index(all: Seq<Chamber>, q: Search) -> int {
    choose|i: int| chosen(all, q, i)
}

/// The distances measured from `from`, counted from `offset`, fit the 32-bit arithmetic the
/// bot computes them with.
pub open spec fn reach_fits(all: Seq<Chamber>, from: BlockPos, offset: int) -> bool {
    forall|i: int| 0 <= i < all.len() ==> {
        let p = #[trigger] all[i].block_pos;
        &&& i32::MIN < from.x - p.x <= i32::MAX
        &&& i32::MIN < from.y - p.y <= i32::MAX
        &&& i32::MIN < from.z - p.z <= i32::MAX
        &&& offset + manhattan(from, p) <= i32::MAX
        &&& 0 <= offset
    }
}

/// The measured distances of a search fit 32-bit arithmetic.
pub open spec fn distances_fit(all: Seq<Chamber>, q: Search) -> bool {
    reach_fits(all, q.from, q.offset)
}

/// Counts the chambers that share the block of `c` with another owner.
fn count_shared(chambers: &StasisChambers, c: &Chamber) -> (n: usize)
    ensures
        n == shared_count(chamber_list(*chambers), *c),
{
    let ghost all = chamber_list(*chambers);
    let mut n: usize = 0;
    let mut i: usize = 0;
    while i < chambers.entries.len()
        invariant
            i <= all.len(),
            all == chamber_list(*chambers),
            n == shared_count(all.take(i as int), *c),
            n <= i,
        decreases all.len() - i,
    {
        assert(all.take(i + 1).drop_last() =~= all.take(i as int));
        let e = &chambers.entries[i].1;
        assert(all[i as int] == *e);
        if e.block_pos == c.block_pos && e.owner_uuid != c.owner_uuid {
            n = n + 1;
        }
        i = i + 1;
    }
    assert(all.take(all.len() as int) =~= all);
    n
}

fn same_text(a: &String, b: &String) -> (r: bool)
    ensures
        r == (a@ == b@),
{
    *a == *b
}

fn is_owned_here(q: &PearlQuery, c: &Chamber) -> (r: bool)
    ensures
        r == owned_here(q@, *c),
{
    c.owner_uuid == q.owner && match &q.location {
        Some(l) => same_text(&c.location, l),
        None => true,
    }
}

/// The distance to a chamber as measured.
fn measure(q: &PearlQuery, c: &Chamber) -> (d: i64)
    requires
        i32::MIN < q.from.x - c.block_pos.x <= i32::MAX,
        i32::MIN < q.from.y - c.block_pos.y <= i32::MAX,
        i32::MIN < q.from.z - c.block_pos.z <= i32::MAX,
        0 <= q.offset,
        q.offset + manhattan(q.from, c.block_pos) <= i32::MAX,
    ensures
        d == measured(q@, *c),
{
    let dx = q.from.x as i64 - c.block_pos.x as i64;
    let dy = q.from.y as i64 - c.block_pos.y as i64;
    let dz = q.from.z as i64 - c.block_pos.z as i64;
    let ax = if dx < 0 { -dx } else { dx };
    let ay = if dy < 0 { -dy } else { dy };
    let az = if dz < 0 { -dz } else { dz };
    q.offset as i64 + ax + ay + az
}

/// Counts the chambers that are the owner's at the location, in range or not.
pub fn count_owned(chambers: &StasisChambers, q: &PearlQuery) -> (n: usize)
    ensures
        n == owned_count(chamber_list(*chambers), q@),
{
    let ghost all = chamber_list(*chambers);
    let mut n: usize = 0;
    let mut i: usize = 0;
    while i < chambers.entries.len()
        invariant
            i <= all.len(),
            all == chamber_list(*chambers),
            n == owned_count(all.take(i as int), q@),
            n <= i,
        decreases all.len() - i,
    {
        assert(all.take(i + 1).drop_last() =~= all.take(i as int));
        let e = &chambers.entries[i].1;
        assert(all[i as int] == *e);
        if is_owned_here(q, e) {
            n = n + 1;
        }
        i = i + 1;
    }
    assert(all.take(all.len() as int) =~= all);
    n
}

/// Chooses the chamber to pull: the index of the chosen entry, or none when no chamber is
/// eligible.
pub fn select_chamber(chambers: &StasisChambers, q: &PearlQuery) -> (r: Option<usize>)
    requires
        distances_fit(chamber_list(*chambers), q@),
    ensures
        r is None <==> forall|j: int| 0 <= j < chamber_list(*chambers).len() ==> !eligible(q@, #[trigger] chamber_list(*chambers)[j]),
        r matches Some(i) ==> chosen(chamber_list(*chambers), q@, i as int)
            && i == chosen_index(chamber_list(*chambers), q@),
{
    let ghost all = chamber_list(*chambers);
    let mut best: Option<(usize, usize, i64)> = None;
    let mut i: usize = 0;
    while i < chambers.entries.len()
        invariant
            i <= all.len(),
            all == chamber_list(*chambers),
            distances_fit(all, q@),
            best is None ==> forall|j: int| 0 <= j < i ==> !eligible(q@, #[trigger] all[j]),
            best matches Some((b, bs, bd)) ==> {
                &&& b < i
                &&& eligible(q@, all[b as int])
                &&& bs == shared_count(all, all[b as int])
                &&& bd == measured(q@, all[b as int])
                &&& forall|j: int| 0 <= j < i && #[trigger] eligible(q@, all[j]) ==> {
                    &&& !rank_lt(shared_count(all, all[j]), measured(q@, all[j]), bs as int, bd as int)
                    &&& (j < b ==> rank_lt(bs as int, bd as int, shared_count(all, all[j]), measured(q@, all[j])))
                }
            },
        decreases all.len() - i,
    {
        let c = &chambers.entries[i].1;
        assert(all[i as int] == *c);
        if is_owned_here(q, c) {
            let d = measure(q, c);
            let in_range = match q.max_distance {
                Some(m) => d <= m as i64,
                None => true,
            };
            if in_range {
                let s = count_shared(chambers, c);
                let better = match best {
                    None => true,
                    Some((_, bs, bd)) => s < bs || (s == bs && d < bd),
                };
                if better {
                    best = Some((i, s, d));
                }
            }
        }
        i = i + 1;
    }
    match best {
        None => None,
        Some((b, _, _)) => {
            proof {
                let c = chosen_index(all, q@);
                assert(chosen(all, q@, b as int));
                lemma_chosen_unique(all, q@, b as int, c);
            }
            Some(b)
        },
    }
}

} // verus!
