//! The swarm's shared state: which bots reconnect after a disconnect, and after how long.
use vstd::prelude::*;
use crate::maps::NameMap;
use crate::text::{chars_of, lowercase, matches_at, to_lowercase};

verus! {

/// Whether each bot (by lowercased name) reconnects, and the seconds to wait first.
pub struct SwarmState {
    pub auto_reconnect: NameMap<(bool, u64)>,
}

/// What the swarm does after a bot disconnects: wait and then reconnect or not, or look again
/// now that the bot has a setting.
#[derive(Clone, Copy, PartialEq, Eq, Structural, Debug)]
pub enum ReconnectStep {
    /// The bot had no setting; one was made (off, five seconds). Look again.
    Retry,
    /// Wait this many seconds, then reconnect if told to; else look again.
    Wait(bool, u64),
}

/// The step after the bot `account` disconnected, and the settings after it: wait as the bot's
/// setting (by lowercased name) says; a bot with none gets one (off, five seconds) and looks
/// again.
pub open spec fn reconnect_outcome(m: Map<Seq<char>, (bool, u64)>, account: Seq<char>) -> (ReconnectStep, Map<Seq<char>, (bool, u64)>) {
    let name = lowercase(account);
    if m.contains_key(name) {
        (ReconnectStep::Wait(m[name].0, m[name].1), m)
    } else {
        (ReconnectStep::Retry, m.insert(name, (false, 5u64)))
    }
}

/// Law: once reconnecting is turned on for a bot, its next disconnect is followed by a
/// reconnect without waiting, whatever the case of the name used.
pub proof fn lemma_enabled_bot_reconnects(m: Map<Seq<char>, (bool, u64)>, bot_name: Seq<char>, account: Seq<char>)
    requires
        lowercase(bot_name) == lowercase(account),
    ensures
        reconnect_outcome(m.insert(lowercase(bot_name), (true, 0u64)), account).0 == ReconnectStep::Wait(true, 0),
{
}

impl SwarmState {
    /// A state with no settings.
    pub fn new() -> (s: Self)
        ensures
            s.auto_reconnect.wf(),
            s.auto_reconnect@ == Map::<Seq<char>, (bool, u64)>::empty(),
    {
        SwarmState { auto_reconnect: NameMap::new() }
    }

    /// Turns reconnecting on for a bot, with no wait.
    pub fn enable_reconnect(&mut self, bot_name: &str)
        requires
            old(self).auto_reconnect.wf(),
        ensures
            final(self).auto_reconnect.wf(),
            final(self).auto_reconnect@ == old(self).auto_reconnect@.insert(lowercase(bot_name@), (true, 0u64)),
    {
        self.auto_reconnect.insert(to_lowercase(bot_name), (true, 0));
    }

    /// The step after the bot `account` disconnected.
    pub fn reconnect_step(&mut self, account: &str) -> (r: ReconnectStep)
        requires
            old(self).auto_reconnect.wf(),
        ensures
            final(self).auto_reconnect.wf(),
            (r, final(self).auto_reconnect@) == reconnect_outcome(old(self).auto_reconnect@, account@),
    {
        let name = to_lowercase(account);
        match self.auto_reconnect.get(&name) {
            Some(v) => ReconnectStep::Wait(v.0, v.1),
            None => {
                self.auto_reconnect.insert(name, (false, 5));
                ReconnectStep::Retry
            },
        }
    }

    /// After a failed reconnect the bot waits thirty seconds; a bot with no setting gets one
    /// that is off.
    pub fn reconnect_failed(&mut self, account: &str)
        requires
            old(self).auto_reconnect.wf(),
        ensures
            final(self).auto_reconnect.wf(),
            ({
                let name = lowercase(account@);
                final(self).auto_reconnect@ == old(self).auto_reconnect@.insert(name, (
                    if old(self).auto_reconnect@.contains_key(name) { old(self).auto_reconnect@[name].0 } else { false },
                    30u64,
                ))
            }),
    {
        let name = to_lowercase(account);
        let rejoin = match self.auto_reconnect.get(&name) {
            Some(v) => v.0,
            None => false,
        };
        self.auto_reconnect.insert(name, (rejoin, 30));
    }
}

/// Whether `pat` occurs in `s`.
pub open spec fn occurs(s: Seq<char>, pat: Seq<char>) -> bool {
    exists|i: int| 0 <= i && i + pat.len() <= s.len() && #[trigger] s.subrange(i, i + pat.len()) == pat
}

/// Whether a swarm chat line is 2b2t's queue position, which is not printed.
pub fn is_queue_position(text: &str) -> (r: bool)
    ensures
        r == occurs(text@, "Position in queue: "@),
{
    let s = chars_of(text);
    let p = chars_of("Position in queue: ");
    let mut i: usize = 0;
    while i < s.len() && p.len() <= s.len() - i
        invariant
            s@ == text@,
            p@ == "Position in queue: "@,
            i <= s.len(),
            forall|k: int| 0 <= k < i && k + p@.len() <= s@.len() ==> #[trigger] s@.subrange(k, k + p@.len()) != p@,
        decreases s.len() - i,
    {
        if matches_at(&s, i, &p) {
            assert(text@.subrange(i as int, i + "Position in queue: "@.len()) == "Position in queue: "@);
            return true;
        }
        i = i + 1;
    }
    if i == s.len() && p.len() == 0 {
        assert(text@.subrange(i as int, i + "Position in queue: "@.len()) =~= "Position in queue: "@);
        return true;
    }
    false
}

} // verus!
