//! Leaving when in danger, reconnecting afterwards as the reason allows, and re-queueing
//! the extra bots at a location.
use vstd::prelude::*;
use vstd::set_lib::{lemma_int_range, lemma_len_subset, lemma_subset_equality, set_int_range};
use crate::chat::TabEntry;
use crate::commands::leave::leave_prefix;
use crate::settings::Users;
use crate::swarm::SwarmState;
use crate::text::{chars_of, lowercase, push_str, starts_with, string_of, to_lowercase};

verus! {

/// The auto-leave module.
pub struct AutoLeavePlugin;

/// Whether `s` begins with `p`.
pub open spec fn begins(s: Seq<char>, p: Seq<char>) -> bool {
    p.len() <= s.len() && s.take(p.len() as int) == p
}

/// How a bot reconnects after a disconnect, by the reason: the proxy's own disconnects and
/// ordinary ones after ten seconds, a throttled connection after thirty, and not at all
/// after the leave command.
pub open spec fn reconnect_policy(reason: Seq<char>) -> (bool, u64) {
    if begins(reason, "[AutoDisconnect] "@) {
        (true, 10)
    } else if begins(reason, "Leave Command: "@) {
        (false, 10)
    } else if begins(reason, "Connection throttled"@) {
        (true, 30)
    } else {
        (true, 10)
    }
}

/// Law: a bot that the leave command disconnected is not reconnected, whoever sent the
/// command.
pub proof fn lemma_left_bots_stay_away(sender: Seq<char>)
    ensures
        !reconnect_policy(leave_prefix() + sender).0,
{
    reveal_strlit("Leave Command: ");
    reveal_strlit("[AutoDisconnect] ");
    let r = leave_prefix() + sender;
    assert(r[0] == 'L');
    if begins(r, "[AutoDisconnect] "@) {
        assert(r.take(17)[0] == r[0]);
    }
    assert(r.take(15) =~= "Leave Command: "@);
}

fn policy(reason: &str) -> (r: (bool, u64))
    ensures
        r == reconnect_policy(reason@),
{
    if starts_with(reason, "[AutoDisconnect] ") {
        (true, 10)
    } else if starts_with(reason, "Leave Command: ") {
        (false, 10)
    } else if starts_with(reason, "Connection throttled") {
        (true, 30)
    } else {
        (true, 10)
    }
}

/// The first tab-list entry with the UUID.
pub open spec fn entry_of(tab: Seq<TabEntry>, uuid: u128) -> Option<TabEntry>
    decreases tab.len(),
{
    if tab.len() == 0 {
        None
    } else if tab[0].uuid == uuid {
        Some(tab[0])
    } else {
        entry_of(tab.skip(1), uuid)
    }
}

fn find_entry(tab: &Vec<TabEntry>, uuid: u128) -> (r: Option<usize>)
    ensures
        match r {
            Some(i) => i < tab@.len() && entry_of(tab@, uuid) == Some(tab@[i as int]),
            None => entry_of(tab@, uuid) is None,
        },
{
    let mut i: usize = 0;
    assert(tab@.skip(0) =~= tab@);
    while i < tab.len()
        invariant
            i <= tab.len(),
            entry_of(tab@.skip(i as int), uuid) == entry_of(tab@, uuid),
        decreases tab.len() - i,
    {
        assert(tab@.skip(i as int)[0] == tab@[i as int]);
        assert(tab@.skip(i as int).skip(1) =~= tab@.skip(i + 1));
        if tab[i].uuid == uuid {
            return Some(i);
        }
        i = i + 1;
    }
    None
}

impl AutoLeavePlugin {
    /// The reason the bot disconnects with when the server sends it a transfer packet; none
    /// for any other packet.
    pub fn handle_transfer_packets(is_transfer: bool) -> (r: Option<String>)
        ensures
            is_transfer ==> (r matches Some(t) && t@ == "Received transfer packet, disconnecting..."@),
            !is_transfer ==> r is None,
    {
        if is_transfer {
            Some("Received transfer packet, disconnecting...".to_owned())
        } else {
            None
        }
    }

    /// The pong to answer a ping with: its id, unless the bot stops answering pings to be
    /// disconnected (re-queueing).
    pub fn handle_ping_packets(ping_id: Option<u32>, grim_disconnect: bool) -> (r: Option<u32>)
        ensures
            r == if grim_disconnect { None } else { ping_id },
    {
        if grim_disconnect {
            None
        } else {
            ping_id
        }
    }

    /// After a disconnect with a reason, the bot's reconnect setting (by lowercased name)
    /// follows [`reconnect_policy`] and the bot answers pings again (`grim_disconnect`, set
    /// while re-queueing, is cleared); without a reason nothing changes.
    pub fn handle_disconnect_events(
        state: &mut SwarmState,
        grim_disconnect: &mut bool,
        username: &str,
        reason: &Option<String>,
    )
        requires
            old(state).auto_reconnect.wf(),
        ensures
            final(state).auto_reconnect.wf(),
            final(state).auto_reconnect@ == match reason {
                None => old(state).auto_reconnect@,
                Some(r) => old(state).auto_reconnect@.insert(lowercase(username@), reconnect_policy(r@)),
            },
            *final(grim_disconnect) == (reason is None && *old(grim_disconnect)),
    {
        match reason {
            None => {},
            Some(r) => {
                let p = policy(r.as_str());
                *grim_disconnect = false;
                state.auto_reconnect.insert(to_lowercase(username), p);
            },
        }
    }

    /// The reason to disconnect when a player appears in view: with the whitelist enforced
    /// and unknown players to be avoided, a player in the tab list who is not whitelisted.
    pub fn handle_add_entity_packets(
        is_player: bool,
        uuid: u128,
        tab: &Vec<TabEntry>,
        whitelist_only: bool,
        unknown_player: bool,
        users: &Users,
    ) -> (r: Option<String>)
        requires
            users.wf(),
        ensures
            match entry_of(tab@, uuid) {
                Some(e) if is_player && whitelist_only && unknown_player && !users@.contains_key(uuid) =>
                    r matches Some(t) && t@ == "Unknown player in visual range: "@ + e.name@,
                _ => r is None,
            },
    {
        if !is_player {
            return None;
        }
        let i = match find_entry(tab, uuid) {
            Some(i) => i,
            None => return None,
        };
        if whitelist_only && unknown_player && !users.contains_key(uuid) {
            let mut v = chars_of("Unknown player in visual range: ");
            push_str(&mut v, tab[i].name.as_str());
            Some(string_of(&v))
        } else {
            None
        }
    }
}

/// A bot as re-queueing sees it.
pub struct RequeueView {
    pub entity: u64,
    pub ticks: u128,
    pub location: String,
    pub auto_requeue: bool,
    pub grim_disconnect: bool,
    pub tab_len: usize,
}

/// What re-queueing does to a bot: stop answering pings, or disconnect it.
#[derive(Clone, Copy, PartialEq, Eq, Structural, Debug)]
pub enum RequeueAction {
    Grim(u64),
    Requeue(u64),
}

/// The bots that take part: those that see more than themselves in the tab list.
pub open spec fn requeue_candidates(bots: Seq<RequeueView>) -> Seq<RequeueView> {
    bots.filter(|b: RequeueView| b.tab_len > 1)
}

/// Whether bot `i` comes before bot `j`: fewer ticks, or as many and earlier in the list.
pub open spec fn queued_before(f: Seq<RequeueView>, i: int, j: int) -> bool {
    f[i].ticks < f[j].ticks || (f[i].ticks == f[j].ticks && i < j)
}

/// Whether `p` lists the bots of `f` by ticks, ties in list order.
pub open spec fn queue_order(f: Seq<RequeueView>, p: Seq<int>) -> bool {
    &&& p.len() == f.len()
    &&& forall|a: int| 0 <= a < p.len() ==> 0 <= #[trigger] p[a] < f.len()
    &&& forall|a: int, b: int| 0 <= a < b < p.len() ==> queued_before(f, #[trigger] p[a], #[trigger] p[b])
}

/// The bots in the order re-queueing goes through them.
pub open spec fn requeue_order(f: Seq<RequeueView>) -> Seq<int> {
    choose|p: Seq<int>| queue_order(f, p)
}

/// What happens to the bot at position `a` of the order: the first at each location (in the
/// order, by runs of equal locations) stays; the others that re-queue do.
pub open spec fn action_at(f: Seq<RequeueView>, p: Seq<int>, a: int) -> Option<RequeueAction> {
    let b = f[p[a]];
    let first = a == 0 || f[p[a - 1]].location@ != b.location@;
    if first || !b.auto_requeue {
        None
    } else if b.grim_disconnect {
        Some(RequeueAction::Grim(b.entity))
    } else {
        Some(RequeueAction::Requeue(b.entity))
    }
}

/// The actions for the first `k` positions of the order.
pub open spec fn actions_upto(f: Seq<RequeueView>, p: Seq<int>, k: int) -> Seq<RequeueAction>
    decreases k,
{
    if k <= 0 {
        Seq::empty()
    } else {
        let prev = actions_upto(f, p, k - 1);
        match action_at(f, p, k - 1) {
            Some(x) => prev.push(x),
            None => prev,
        }
    }
}

proof fn lemma_order_values(f: Seq<RequeueView>, p: Seq<int>)
    requires
        queue_order(f, p),
    ensures
        p.to_set() == set_int_range(0, f.len() as int),
        p.no_duplicates(),
{
    assert forall|a: int, b: int| 0 <= a < p.len() && 0 <= b < p.len() && a != b implies p[a] != p[b] by {
        if a < b {
            assert(queued_before(f, p[a], p[b]));
        } else {
            assert(queued_before(f, p[b], p[a]));
        }
    }
    p.unique_seq_to_set();
    lemma_int_range(0, f.len() as int);
    assert(p.to_set().subset_of(set_int_range(0, f.len() as int))) by {
        assert forall|x: int| p.to_set().contains(x) implies set_int_range(0, f.len() as int).contains(x) by {
            assert(p.contains(x));
            let a = choose|a: int| 0 <= a < p.len() && p[a] == x;
            assert(0 <= p[a] < f.len());
        }
    }
    lemma_subset_equality(p.to_set(), set_int_range(0, f.len() as int));
}

/// Law: there is only one order by ticks with ties in list order.
pub proof fn lemma_queue_order_unique(f: Seq<RequeueView>, p: Seq<int>, q: Seq<int>)
    requires
        queue_order(f, p),
        queue_order(f, q),
    ensures
        p == q,
    decreases p.len(),
{
    lemma_order_values(f, p);
    lemma_order_values(f, q);
    assert forall|a: int| 0 <= a < p.len() implies p[a] == q[a] by {
        lemma_same_position(f, p, q, a);
    }
    assert(p =~= q);
}

proof fn lemma_same_position(f: Seq<RequeueView>, p: Seq<int>, q: Seq<int>, a: int)
    requires
        queue_order(f, p),
        queue_order(f, q),
        p.to_set() == q.to_set(),
        0 <= a < p.len(),
    ensures
        p[a] == q[a],
    decreases a,
{
    // p[a] is in q at some position b; q[a] is in p at some position c.
    assert(p.to_set().contains(p[a]));
    assert(q.contains(p[a]));
    let b = choose|b: int| 0 <= b < q.len() && q[b] == p[a];
    assert(q.to_set().contains(q[a]));
    assert(p.contains(q[a]));
    let c = choose|c: int| 0 <= c < p.len() && p[c] == q[a];
    if b < a {
        // q[b] == p[b] by the earlier positions, so p[a] == p[b] with b < a: impossible.
        lemma_same_position(f, p, q, b);
        assert(queued_before(f, p[b], p[a]));
        assert(!queued_before(f, p[a], p[a]));
    } else if b > a {
        if c < a {
            lemma_same_position(f, p, q, c);
            assert(queued_before(f, q[c], q[a]));
            assert(!queued_before(f, q[a], q[a]));
        } else if c > a {
            // q[a] before q[b] = p[a] in q, and p[a] before p[c] = q[a] in p.
            assert(queued_before(f, q[a], q[b]));
            assert(queued_before(f, p[a], p[c]));
            assert(false);
        }
    }
}

fn requeue_candidate_indices(bots: &Vec<RequeueView>) -> (r: Vec<usize>)
    ensures
        r@.len() == requeue_candidates(bots@).len(),
        forall|k: int| 0 <= k < r@.len() ==> (#[trigger] r@[k]) < bots@.len()
            && bots@[r@[k] as int] == requeue_candidates(bots@)[k],
{
    let mut r: Vec<usize> = Vec::new();
    let mut i: usize = 0;
    while i < bots.len()
        invariant
            i <= bots.len(),
            r@.len() == requeue_candidates(bots@.take(i as int)).len(),
            forall|k: int| 0 <= k < r@.len() ==> (#[trigger] r@[k]) < bots@.len()
                && bots@[r@[k] as int] == requeue_candidates(bots@.take(i as int))[k],
        decreases bots.len() - i,
    {
        assert(bots@.take(i + 1) =~= bots@.take(i as int).push(bots@[i as int]));
        proof {
            bots@.take(i as int).lemma_filter_push(bots@[i as int], |b: RequeueView| b.tab_len > 1);
        }
        if bots[i].tab_len > 1 {
            r.push(i);
        }
        i = i + 1;
    }
    assert(bots@.take(bots.len() as int) =~= bots@);
    r
}

impl AutoLeavePlugin {
    /// Re-queueing: the bots that see others, by ticks (ties in list order), in runs of equal
    /// locations; every bot but the first of a run that re-queues either stops answering
    /// pings (when set to) or is disconnected.
    pub fn handle_requeue(bots: &Vec<RequeueView>) -> (r: Vec<RequeueAction>)
        ensures
            ({
                let f = requeue_candidates(bots@);
                r@ == actions_upto(f, requeue_order(f), f.len() as int)
            }),
    {
        let cand = requeue_candidate_indices(bots);
        let ghost f = requeue_candidates(bots@);
        let mut order: Vec<usize> = Vec::new();
        let mut i: usize = 0;
        while i < cand.len()
            invariant
                i <= cand@.len(),
                cand@.len() == f.len(),
                f == requeue_candidates(bots@),
                forall|k: int| 0 <= k < cand@.len() ==> (#[trigger] cand@[k]) < bots@.len()
                    && bots@[cand@[k] as int] == f[k],
                order@.len() == i,
                forall|a: int| 0 <= a < order@.len() ==> (#[trigger] order@[a]) < i,
                forall|a: int, b: int| 0 <= a < b < order@.len() ==>
                    queued_before(f, #[trigger] order@[a] as int, #[trigger] order@[b] as int),
            decreases cand@.len() - i,
        {
            let t = bots[cand[i]].ticks;
            let mut pos: usize = 0;
            while pos < order.len() && bots[cand[order[pos]]].ticks <= t
                invariant
                    pos <= order@.len(),
                    i < cand@.len(),
                    cand@.len() == f.len(),
                    forall|k: int| 0 <= k < cand@.len() ==> (#[trigger] cand@[k]) < bots@.len()
                        && bots@[cand@[k] as int] == f[k],
                    forall|a: int| 0 <= a < order@.len() ==> (#[trigger] order@[a]) < i,
                    t == f[i as int].ticks,
                    forall|a: int| 0 <= a < pos ==> f[#[trigger] order@[a] as int].ticks <= t,
                decreases order@.len() - pos,
            {
                pos = pos + 1;
            }
            let ghost before = order@;
            order.insert(pos, i);
            proof {
                assert forall|a: int, b: int| 0 <= a < b < order@.len() implies
                    queued_before(f, #[trigger] order@[a] as int, #[trigger] order@[b] as int) by {
                    if b < pos {
                        assert(order@[a] == before[a] && order@[b] == before[b]);
                    } else if b == pos {
                        assert(order@[a] == before[a]);
                        assert(f[before[a] as int].ticks <= t);
                    } else if a == pos {
                        assert(order@[b] == before[b - 1]);
                        if f[before[b - 1] as int].ticks <= t {
                            // the scan stopped at pos, so everything after has more ticks
                            assert(b - 1 >= pos);
                            if b - 1 > pos {
                                assert(queued_before(f, before[pos as int] as int, before[b - 1] as int));
                            }
                        }
                    } else if a < pos {
                        assert(order@[a] == before[a] && order@[b] == before[b - 1]);
                    } else {
                        assert(order@[a] == before[a - 1] && order@[b] == before[b - 1]);
                    }
                }
            }
            i = i + 1;
        }
        let ghost p = order@.map_values(|x: usize| x as int);
        proof {
            assert(queue_order(f, p));
            lemma_queue_order_unique(f, p, requeue_order(f));
        }
        let mut r: Vec<RequeueAction> = Vec::new();
        let mut a: usize = 0;
        while a < order.len()
            invariant
                a <= order@.len(),
                order@.len() == f.len(),
                cand@.len() == f.len(),
                p == order@.map_values(|x: usize| x as int),
                p == requeue_order(f),
                forall|k: int| 0 <= k < cand@.len() ==> (#[trigger] cand@[k]) < bots@.len()
                    && bots@[cand@[k] as int] == f[k],
                forall|k: int| 0 <= k < order@.len() ==> (#[trigger] order@[k]) < f.len(),
                r@ == actions_upto(f, p, a as int),
            decreases order@.len() - a,
        {
            let b = &bots[cand[order[a]]];
            let first = a == 0 || bots[cand[order[a - 1]]].location != b.location;
            if !first && b.auto_requeue {
                if b.grim_disconnect {
                    r.push(RequeueAction::Grim(b.entity));
                } else {
                    r.push(RequeueAction::Requeue(b.entity));
                }
            }
            a = a + 1;
        }
        r
    }
}

} // verus!
