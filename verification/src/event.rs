//! The per-tick chat sender: it keeps under the server's spam limit by spending a budget that
//! each sent message raises and each tick lowers.
use vstd::prelude::*;
use vstd::utf8::encode_utf8;
use crate::commands::texts;

verus! {

/// The spam budget's ceiling; a message costs twenty.
pub open spec fn spam_limit() -> int {
    100
}

/// How many queued messages a tick sends: as many as the budget left after the tick's decay
/// allows, at most the queue.
pub open spec fn tick_sends(spam: usize, queued: nat) -> nat {
    let decayed: int = if spam > 0 { spam - 1 } else { 0 };
    let allowed: int = (spam_limit() - decayed) / 20;
    if allowed < queued { allowed as nat } else { queued }
}

/// Whether a chat message fits the chat: at most 256 bytes of UTF-8.
pub open spec fn fits_chat(m: Seq<char>) -> bool {
    encode_utf8(m).len() <= 256
}

/// One tick of the sender: the budget decays by one, then the first messages the budget
/// allows leave the queue and each raises it by twenty; those too long for the chat are
/// dropped rather than sent. Gives the messages to send.
pub fn handle_tick(spam: &mut usize, queue: &mut Vec<String>) -> (sent: Vec<String>)
    requires
        *old(spam) <= spam_limit(),
    ensures
        ({
            let n = tick_sends(*old(spam), old(queue)@.len());
            let decayed: int = if *old(spam) > 0 { *old(spam) - 1 } else { 0 };
            &&& texts(final(queue)@) == texts(old(queue)@).skip(n as int)
            &&& *final(spam) == decayed + 20 * n
            &&& texts(sent@) == texts(old(queue)@).take(n as int).filter(|m: Seq<char>| fits_chat(m))
        }),
        *final(spam) <= spam_limit(),
{
    if *spam > 0 {
        *spam = *spam - 1;
    }
    let allowed = (100 - *spam) / 20;
    let n = if allowed < queue.len() { allowed } else { queue.len() };
    let ghost q0 = texts(queue@);
    let mut sent: Vec<String> = Vec::new();
    let mut i: usize = 0;
    assert(q0.take(0) =~= Seq::<Seq<char>>::empty());
    while i < n
        invariant
            i <= n,
            n <= q0.len(),
            texts(queue@) == q0.skip(i as int),
            texts(sent@) == q0.take(i as int).filter(|m: Seq<char>| fits_chat(m)),
        decreases n - i,
    {
        let ghost before = queue@;
        assert(queue@.len() == texts(queue@).len());
        let m = queue.remove(0);
        assert(texts(queue@) =~= texts(before).skip(1));
        assert(q0.skip(i as int)[0] == m@);
        assert(q0.skip(i as int).skip(1) =~= q0.skip(i + 1));
        assert(q0.take(i + 1) =~= q0.take(i as int).push(m@));
        proof {
            q0.take(i as int).lemma_filter_push(m@, |m: Seq<char>| fits_chat(m));
        }
        let bytes = m.as_str().as_bytes();
        if bytes.len() <= 256 {
            let ghost b2 = sent@;
            sent.push(m);
            assert(texts(sent@) =~= texts(b2).push(m@));
        }
        i = i + 1;
    }
    *spam = *spam + n * 20;
    sent
}

} // verus!
