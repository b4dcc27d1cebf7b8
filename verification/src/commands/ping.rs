//! The ping command of the first command set: a player's latency, with a remark.
use vstd::prelude::*;
use crate::command::{bare_name, strip_prefixes};
use crate::commands::texts;
use crate::text::{chars_of, decimal_i64, push_all, push_str, signed_decimal, string_of};

verus! {

/// A player in the tab list with the latency the server reports.
pub struct PlayerLatency {
    pub name: String,
    pub latency: i32,
}

/// Tells a player's latency.
pub struct Command;

/// The remark for a latency in milliseconds.
pub open spec fn quote(latency: i32) -> Seq<char> {
    if latency < 1 {
        "You just joined."@
    } else if latency < 10 {
        "You're just showing off."@
    } else if latency < 20 {
        "Someone has fiber."@
    } else if latency < 30 {
        "That's great!"@
    } else if latency < 40 {
        "That's pretty good!"@
    } else if latency < 50 {
        "Could be better..."@
    } else if latency < 100 {
        "Getting up there."@
    } else if latency < 200 {
        "That's pretty bad."@
    } else if latency < 300 {
        "Are you okay?"@
    } else if latency < 500 {
        "Can you even read this?"@
    } else if latency < i32::MAX {
        "MOM TURN THE ROUTER BACK ON"@
    } else {
        "ERROR 404 QUOTE NOT FOUND"@
    }
}

fn quote_str(latency: i32) -> (r: &'static str)
    ensures
        r@ == quote(latency),
{
    if latency < 1 {
        "You just joined."
    } else if latency < 10 {
        "You're just showing off."
    } else if latency < 20 {
        "Someone has fiber."
    } else if latency < 30 {
        "That's great!"
    } else if latency < 40 {
        "That's pretty good!"
    } else if latency < 50 {
        "Could be better..."
    } else if latency < 100 {
        "Getting up there."
    } else if latency < 200 {
        "That's pretty bad."
    } else if latency < 300 {
        "Are you okay?"
    } else if latency < 500 {
        "Can you even read this?"
    } else if latency < i32::MAX {
        "MOM TURN THE ROUTER BACK ON"
    } else {
        "ERROR 404 QUOTE NOT FOUND"
    }
}

/// The latency of the first player in the list with the name.
pub open spec fn latency_of(tab: Seq<PlayerLatency>, name: Seq<char>) -> Option<i32>
    decreases tab.len(),
{
    if tab.len() == 0 {
        None
    } else if tab[0].name@ == name {
        Some(tab[0].latency)
    } else {
        latency_of(tab.skip(1), name)
    }
}

/// The reply about `who`.
pub open spec fn ping_text(who: Seq<char>, latency: Option<i32>) -> Seq<char> {
    match latency {
        None => "No username '"@ + who + "' found"@,
        Some(l) => who + "'s ping latency is "@ + signed_decimal(l as int) + "ms, "@ + quote(l),
    }
}

fn find_latency(tab: &Vec<PlayerLatency>, name: &Vec<char>) -> (r: Option<i32>)
    ensures
        r == latency_of(tab@, name@),
{
    let mut i: usize = 0;
    assert(tab@.skip(0) =~= tab@);
    while i < tab.len()
        invariant
            i <= tab.len(),
            latency_of(tab@.skip(i as int), name@) == latency_of(tab@, name@),
        decreases tab.len() - i,
    {
        assert(tab@.skip(i as int)[0] == tab@[i as int]);
        assert(tab@.skip(i as int).skip(1) =~= tab@.skip(i + 1));
        if crate::text::eq_chars(&chars_of(tab[i].name.as_str()), name) {
            return Some(tab[i].latency);
        }
        i = i + 1;
    }
    None
}

impl Command {
    /// The reply about the player named in the first argument, else about the sender (without
    /// rank prefixes); nothing when the chat line shows no sender.
    pub fn message(&self, username: &Option<String>, args: &Vec<String>, tab: &Vec<PlayerLatency>) -> (r: Option<String>)
        ensures
            match username {
                None => r is None,
                Some(u) => {
                    let who = if args@.len() > 0 { args@[0]@ } else { bare_name(u@) };
                    r matches Some(m) && m@ == ping_text(who, latency_of(tab@, who))
                },
            },
    {
        let u = match username {
            Some(u) => u,
            None => return None,
        };
        let who: Vec<char> = if args.len() > 0 { chars_of(args[0].as_str()) } else { strip_prefixes(u.as_str()) };
        match find_latency(tab, &who) {
            None => {
                let mut v = chars_of("No username '");
                push_all(&mut v, &who);
                push_str(&mut v, "' found");
                Some(string_of(&v))
            },
            Some(l) => {
                let mut v: Vec<char> = Vec::new();
                push_all(&mut v, &who);
                push_str(&mut v, "'s ping latency is ");
                push_all(&mut v, &decimal_i64(l as i64));
                push_str(&mut v, "ms, ");
                push_str(&mut v, quote_str(l));
                assert(v@ =~= ping_text(who@, Some(l)));
                Some(string_of(&v))
            },
        }
    }
}

} // verus!
