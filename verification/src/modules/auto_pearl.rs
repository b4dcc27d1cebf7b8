//! Pulling pearls: a bot walks to the chamber, uses the trapdoor once the owner is online,
//! and what cannot be done now waits in queues for a bot that is free.
use vstd::prelude::*;
use crate::chat::TabEntry;
use crate::commands::pearl::PearlEvent;

verus! {

/// The requests that wait: walks to chambers and pulls.
pub struct ResendPearlEvents {
    pub goto: Vec<PearlEvent>,
    pub pull: Vec<PearlEvent>,
}

/// The pearl module.
pub struct AutoPearlPlugin;

/// A bot as the pearl module sees it: its entity and whether it is walking somewhere.
#[derive(Clone, Copy, PartialEq, Eq, Structural, Debug)]
pub struct Walker {
    pub entity: u64,
    pub busy: bool,
}

/// Whether the first bot with the entity is known, and whether it is walking.
pub open spec fn walker_of(bots: Seq<Walker>, entity: u64) -> Option<bool>
    decreases bots.len(),
{
    if bots.len() == 0 {
        None
    } else if bots[0].entity == entity {
        Some(bots[0].busy)
    } else {
        walker_of(bots.skip(1), entity)
    }
}

/// The number of bots that are not walking.
pub open spec fn idle_count(bots: Seq<Walker>) -> nat
    decreases bots.len(),
{
    if bots.len() == 0 {
        0
    } else {
        idle_count(bots.drop_last()) + if bots.last().busy { 0nat } else { 1nat }
    }
}

/// The last `n` items of a queue, latest first: what `n` pops take.
pub open spec fn popped(q: Seq<PearlEvent>, n: nat) -> Seq<PearlEvent> {
    let k: int = if n < q.len() { n as int } else { q.len() as int };
    q.skip(q.len() - k).reverse()
}

/// The queue after `n` pops.
pub open spec fn after_pops(q: Seq<PearlEvent>, n: nat) -> Seq<PearlEvent> {
    let k: int = if n < q.len() { n as int } else { q.len() as int };
    q.take(q.len() - k)
}

fn find_walker(bots: &Vec<Walker>, entity: u64) -> (r: Option<bool>)
    ensures
        r == walker_of(bots@, entity),
{
    let mut i: usize = 0;
    assert(bots@.skip(0) =~= bots@);
    while i < bots.len()
        invariant
            i <= bots.len(),
            walker_of(bots@.skip(i as int), entity) == walker_of(bots@, entity),
        decreases bots.len() - i,
    {
        assert(bots@.skip(i as int)[0] == bots@[i as int]);
        assert(bots@.skip(i as int).skip(1) =~= bots@.skip(i + 1));
        if bots[i].entity == entity {
            return Some(bots[i].busy);
        }
        i = i + 1;
    }
    None
}

fn pop_into(q: &mut Vec<PearlEvent>, out: &mut Vec<PearlEvent>)
    ensures
        old(q)@.len() == 0 ==> final(q)@ == old(q)@ && final(out)@ == old(out)@,
        old(q)@.len() > 0 ==> final(q)@ == old(q)@.drop_last() && final(out)@ == old(out)@.push(old(q)@.last()),
{
    match q.pop() {
        Some(e) => out.push(e),
        None => {},
    }
}

proof fn lemma_pop_step(q: Seq<PearlEvent>, n: nat)
    ensures
        after_pops(q, n).len() > 0 ==> after_pops(q, n + 1) == after_pops(q, n).drop_last()
            && popped(q, n + 1) == popped(q, n).push(after_pops(q, n).last()),
        after_pops(q, n).len() == 0 ==> after_pops(q, n + 1) == after_pops(q, n) && popped(q, n + 1) == popped(q, n),
{
    let k: int = if n < q.len() { n as int } else { q.len() as int };
    if after_pops(q, n).len() > 0 {
        assert(after_pops(q, n + 1) =~= after_pops(q, n).drop_last());
        assert(popped(q, n + 1) =~= popped(q, n).push(after_pops(q, n).last()));
    } else {
        assert(after_pops(q, n + 1) =~= after_pops(q, n));
        assert(popped(q, n + 1) =~= popped(q, n));
    }
}

impl AutoPearlPlugin {
    /// Each bot that is not walking takes one waiting walk and one waiting pull, the latest
    /// first. Gives the walks and pulls sent again.
    pub fn handle_resend_pearl_events(pending: &mut ResendPearlEvents, bots: &Vec<Walker>) -> (r: (Vec<PearlEvent>, Vec<PearlEvent>))
        ensures
            r.0@ == popped(old(pending).goto@, idle_count(bots@)),
            r.1@ == popped(old(pending).pull@, idle_count(bots@)),
            final(pending).goto@ == after_pops(old(pending).goto@, idle_count(bots@)),
            final(pending).pull@ == after_pops(old(pending).pull@, idle_count(bots@)),
    {
        let ghost g0 = pending.goto@;
        let ghost p0 = pending.pull@;
        let mut gotos: Vec<PearlEvent> = Vec::new();
        let mut pulls: Vec<PearlEvent> = Vec::new();
        let mut i: usize = 0;
        assert(popped(g0, 0) =~= Seq::<PearlEvent>::empty());
        assert(popped(p0, 0) =~= Seq::<PearlEvent>::empty());
        assert(after_pops(g0, 0) =~= g0);
        assert(after_pops(p0, 0) =~= p0);
        while i < bots.len()
            invariant
                i <= bots.len(),
                gotos@ == popped(g0, idle_count(bots@.take(i as int))),
                pulls@ == popped(p0, idle_count(bots@.take(i as int))),
                pending.goto@ == after_pops(g0, idle_count(bots@.take(i as int))),
                pending.pull@ == after_pops(p0, idle_count(bots@.take(i as int))),
            decreases bots.len() - i,
        {
            let ghost n = idle_count(bots@.take(i as int));
            assert(bots@.take(i + 1).drop_last() =~= bots@.take(i as int));
            assert(bots@.take(i + 1).last() == bots@[i as int]);
            if !bots[i].busy {
                proof {
                    lemma_pop_step(g0, n);
                    lemma_pop_step(p0, n);
                }
                pop_into(&mut pending.goto, &mut gotos);
                pop_into(&mut pending.pull, &mut pulls);
            }
            i = i + 1;
        }
        assert(bots@.take(bots.len() as int) =~= bots@);
        (gotos, pulls)
    }

    /// Each walk for a known bot: a bot that is walking keeps it waiting; one that is not
    /// walks to the chamber and then pulls. Gives the walks started (each also a pull).
    pub fn handle_goto_pearl_events(events: &Vec<PearlEvent>, pending: &mut ResendPearlEvents, bots: &Vec<Walker>) -> (r: Vec<PearlEvent>)
        ensures
            final(pending).pull@ == old(pending).pull@,
            final(pending).goto@ == old(pending).goto@ + events@.filter(|e: PearlEvent| walker_of(bots@, e.entity) == Some(true)),
            r@ == events@.filter(|e: PearlEvent| walker_of(bots@, e.entity) == Some(false)),
    {
        let ghost g0 = pending.goto@;
        let mut started: Vec<PearlEvent> = Vec::new();
        let mut i: usize = 0;
        assert(events@.take(0) =~= Seq::<PearlEvent>::empty());
        assert(g0 + Seq::<PearlEvent>::empty() =~= g0);
        while i < events.len()
            invariant
                i <= events.len(),
                pending.pull@ == old(pending).pull@,
                g0 == old(pending).goto@,
                pending.goto@ == g0 + events@.take(i as int).filter(|e: PearlEvent| walker_of(bots@, e.entity) == Some(true)),
                started@ == events@.take(i as int).filter(|e: PearlEvent| walker_of(bots@, e.entity) == Some(false)),
            decreases events.len() - i,
        {
            let e = events[i];
            assert(events@.take(i + 1) =~= events@.take(i as int).push(e));
            proof {
                events@.take(i as int).lemma_filter_push(e, |e: PearlEvent| walker_of(bots@, e.entity) == Some(true));
                events@.take(i as int).lemma_filter_push(e, |e: PearlEvent| walker_of(bots@, e.entity) == Some(false));
            }
            let ghost before = pending.goto@;
            match find_walker(bots, e.entity) {
                Some(true) => {
                    pending.goto.push(e);
                    assert(pending.goto@ =~= g0 + events@.take(i + 1).filter(|e: PearlEvent| walker_of(bots@, e.entity) == Some(true)));
                },
                Some(false) => started.push(e),
                None => {},
            }
            i = i + 1;
        }
        assert(events@.take(events.len() as int) =~= events@);
        started
    }
}

/// A bot as the pull step sees it: its entity, whether it is walking, and its tab list.
pub struct PullView {
    pub entity: u64,
    pub busy: bool,
    pub tab: Vec<TabEntry>,
}

/// The first bot with the entity.
pub open spec fn puller_of(bots: Seq<PullView>, entity: u64) -> Option<PullView>
    decreases bots.len(),
{
    if bots.len() == 0 {
        None
    } else if bots[0].entity == entity {
        Some(bots[0])
    } else {
        puller_of(bots.skip(1), entity)
    }
}

/// Whether the owner is in the tab list.
pub open spec fn online(tab: Seq<TabEntry>, uuid: u128) -> bool {
    exists|i: int| 0 <= i < tab.len() && (#[trigger] tab[i]).uuid == uuid
}

/// What the pull step does with a pull: nothing for an unknown bot; wait while the bot
/// walks; walk again while the owner is offline; else use the trapdoor.
#[derive(Clone, Copy, PartialEq, Eq, Structural, Debug)]
pub enum PullStep {
    Drop,
    WaitPull,
    WaitGoto,
    Use,
}

/// The step for a pull.
pub open spec fn pull_step(bots: Seq<PullView>, e: PearlEvent) -> PullStep {
    match puller_of(bots, e.entity) {
        None => PullStep::Drop,
        Some(b) => if b.busy {
            PullStep::WaitPull
        } else if !online(b.tab@, e.owner_uuid) {
            PullStep::WaitGoto
        } else {
            PullStep::Use
        },
    }
}

fn find_puller(bots: &Vec<PullView>, entity: u64) -> (r: Option<usize>)
    ensures
        match r {
            Some(i) => i < bots@.len() && puller_of(bots@, entity) == Some(bots@[i as int]),
            None => puller_of(bots@, entity) is None,
        },
{
    let mut i: usize = 0;
    assert(bots@.skip(0) =~= bots@);
    while i < bots.len()
        invariant
            i <= bots.len(),
            puller_of(bots@.skip(i as int), entity) == puller_of(bots@, entity),
        decreases bots.len() - i,
    {
        assert(bots@.skip(i as int)[0] == bots@[i as int]);
        assert(bots@.skip(i as int).skip(1) =~= bots@.skip(i + 1));
        if bots[i].entity == entity {
            return Some(i);
        }
        i = i + 1;
    }
    None
}

fn in_tab(tab: &Vec<TabEntry>, uuid: u128) -> (r: bool)
    ensures
        r == online(tab@, uuid),
{
    let mut i: usize = 0;
    while i < tab.len()
        invariant
            i <= tab.len(),
            forall|j: int| 0 <= j < i ==> (#[trigger] tab@[j]).uuid != uuid,
        decreases tab.len() - i,
    {
        if tab[i].uuid == uuid {
            return true;
        }
        i = i + 1;
    }
    false
}

impl AutoPearlPlugin {
    /// Each pull in turn, as [`pull_step`] says: waiting pulls and walks join their queues,
    /// and the pulls done now are given back (the bot uses the trapdoor at the chamber, then
    /// walks to its idle spot if it has one).
    pub fn handle_pull_pearl_events(events: &Vec<PearlEvent>, pending: &mut ResendPearlEvents, bots: &Vec<PullView>) -> (r: Vec<PearlEvent>)
        ensures
            final(pending).pull@ == old(pending).pull@ + events@.filter(|e: PearlEvent| pull_step(bots@, e) == PullStep::WaitPull),
            final(pending).goto@ == old(pending).goto@ + events@.filter(|e: PearlEvent| pull_step(bots@, e) == PullStep::WaitGoto),
            r@ == events@.filter(|e: PearlEvent| pull_step(bots@, e) == PullStep::Use),
    {
        let ghost g0 = pending.goto@;
        let ghost p0 = pending.pull@;
        let mut used: Vec<PearlEvent> = Vec::new();
        let mut i: usize = 0;
        assert(events@.take(0) =~= Seq::<PearlEvent>::empty());
        assert(g0 + Seq::<PearlEvent>::empty() =~= g0);
        assert(p0 + Seq::<PearlEvent>::empty() =~= p0);
        while i < events.len()
            invariant
                i <= events.len(),
                g0 == old(pending).goto@,
                p0 == old(pending).pull@,
                pending.pull@ == p0 + events@.take(i as int).filter(|e: PearlEvent| pull_step(bots@, e) == PullStep::WaitPull),
                pending.goto@ == g0 + events@.take(i as int).filter(|e: PearlEvent| pull_step(bots@, e) == PullStep::WaitGoto),
                used@ == events@.take(i as int).filter(|e: PearlEvent| pull_step(bots@, e) == PullStep::Use),
            decreases events.len() - i,
        {
            let e = events[i];
            assert(events@.take(i + 1) =~= events@.take(i as int).push(e));
            proof {
                events@.take(i as int).lemma_filter_push(e, |e: PearlEvent| pull_step(bots@, e) == PullStep::WaitPull);
                events@.take(i as int).lemma_filter_push(e, |e: PearlEvent| pull_step(bots@, e) == PullStep::WaitGoto);
                events@.take(i as int).lemma_filter_push(e, |e: PearlEvent| pull_step(bots@, e) == PullStep::Use);
            }
            match find_puller(bots, e.entity) {
                None => {},
                Some(b) => {
                    if bots[b].busy {
                        let ghost before = pending.pull@;
                        pending.pull.push(e);
                        assert(pending.pull@ =~= p0 + events@.take(i + 1).filter(|e: PearlEvent| pull_step(bots@, e) == PullStep::WaitPull));
                    } else if !in_tab(&bots[b].tab, e.owner_uuid) {
                        pending.goto.push(e);
                        assert(pending.goto@ =~= g0 + events@.take(i + 1).filter(|e: PearlEvent| pull_step(bots@, e) == PullStep::WaitGoto));
                    } else {
                        used.push(e);
                    }
                },
            }
            i = i + 1;
        }
        assert(events@.take(events.len() as int) =~= events@);
        used
    }
}

} // verus!
