//! The `online` command.
use vstd::prelude::*;
use crate::chat::TabEntry;
use crate::text::{chars_of, decimal, decimal_i64, decimal_u64, join, join_with, push_all, push_str, signed_decimal, string_of, views};

verus! {

/// Lists the players online who are not the bots.
pub struct Command;

/// The names in the tab list that are not bots, in tab-list order.
pub open spec fn listed_players(tab: Seq<TabEntry>, bots: Seq<Seq<char>>) -> Seq<Seq<char>> {
    tab.map_values(|e: TabEntry| e.name@).filter(|n: Seq<char>| !bots.contains(n))
}

/// The reply: the number of players listed, online and allowed, then their names.
pub open spec fn online_text(players: Seq<Seq<char>>, online: int, max: int) -> Seq<char> {
    "["@ + decimal(players.len()) + "/"@ + signed_decimal(online) + "/"@ + signed_decimal(max) + "]: "@
        + join_with(players, ", "@)
}

fn is_bot(name: &String, bots: &Vec<String>) -> (r: bool)
    ensures
        r == bots@.map_values(|b: String| b@).contains(name@),
{
    let mut i: usize = 0;
    while i < bots.len()
        invariant
            i <= bots.len(),
            forall|j: int| 0 <= j < i ==> bots@[j]@ != name@,
        decreases bots.len() - i,
    {
        if bots[i] == *name {
            assert(bots@.map_values(|b: String| b@)[i as int] == name@);
            return true;
        }
        i = i + 1;
    }
    let ghost bv = bots@.map_values(|b: String| b@);
    assert forall|j: int| 0 <= j < bv.len() implies #[trigger] bv[j] != name@ by {
        assert(bots@[j]@ != name@);
    }
    false
}

impl Command {
    /// The reply, from the tab list, the bots' names and the server's player counts.
    pub fn message(&self, tab: &Vec<TabEntry>, bots: &Vec<String>, online: i32, max: i32) -> (r: String)
        ensures
            r@ == online_text(listed_players(tab@, bots@.map_values(|b: String| b@)), online as int, max as int),
    {
        let ghost botv = bots@.map_values(|b: String| b@);
        let ghost names = tab@.map_values(|e: TabEntry| e.name@);
        let mut parts: Vec<Vec<char>> = Vec::new();
        let mut i: usize = 0;
        while i < tab.len()
            invariant
                i <= tab.len(),
                botv == bots@.map_values(|b: String| b@),
                names == tab@.map_values(|e: TabEntry| e.name@),
                views(parts@) == names.take(i as int).filter(|n: Seq<char>| !botv.contains(n)),
            decreases tab.len() - i,
        {
            let ghost before = parts@;
            assert(names.take(i + 1) =~= names.take(i as int).push(tab@[i as int].name@));
            proof {
                names.take(i as int).lemma_filter_push(tab@[i as int].name@, |n: Seq<char>| !botv.contains(n));
            }
            if !is_bot(&tab[i].name, bots) {
                let a = chars_of(tab[i].name.as_str());
                parts.push(a);
                assert(views(parts@) =~= views(before).push(a@));
            }
            i = i + 1;
        }
        assert(names.take(tab.len() as int) =~= names);
        let mut v = chars_of("[");
        push_all(&mut v, &decimal_u64(parts.len() as u64));
        push_str(&mut v, "/");
        push_all(&mut v, &decimal_i64(online as i64));
        push_str(&mut v, "/");
        push_all(&mut v, &decimal_i64(max as i64));
        push_str(&mut v, "]: ");
        push_all(&mut v, &join(&parts, &chars_of(", ")));
        string_of(&v)
    }
}

} // verus!
