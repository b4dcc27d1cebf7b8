//! Line patterns the bridges look for: demo bots, sleep notices, Club Mate pickups and
//! Discord `name#0000` tags.
//!
//! A multi-line pattern (`(?m)^...$`) matches a text when one of its lines matches whole.
use vstd::prelude::*;
use crate::text::{all_digits, chars_of, eq_chars, is_digit, split, split_on, suffix_from, views};
use crate::chat_format::is_word_char;

verus! {

/// Some line of `s` satisfies `p`.
pub open spec fn some_line(s: Seq<char>, p: spec_fn(Seq<char>) -> bool) -> bool {
    exists|i: int| 0 <= i < split_on(s, '\n').len() && p(#[trigger] split_on(s, '\n')[i])
}

/// `([BN])00bBot[0-9]+` as a whole line.
pub open spec fn demo_bot_line(l: Seq<char>) -> bool {
    &&& l.len() >= 8
    &&& (l[0] == 'B' || l[0] == 'N')
    &&& l.subrange(1, 7) == "00bBot"@
    &&& all_digits(l.skip(7))
}

/// `([BN])00bBot[0-9]+ (joined|left) the game` as a whole line.
pub open spec fn demo_bot_message_line(l: Seq<char>) -> bool {
    exists|k: int| 8 <= k <= l.len() && #[trigger] demo_bot_line(l.take(k))
        && (l.skip(k) == " joined the game"@ || l.skip(k) == " left the game"@)
}

/// `[0-9]/[0-9] players sleeping` as a whole line.
pub open spec fn sleeping_line(l: Seq<char>) -> bool {
    l.len() >= 3 && is_digit(l[0]) && l[1] == '/' && is_digit(l[2]) && l.skip(3) == " players sleeping"@
}

/// `^[a-zA-Z0-9_]{3,16} acquired a Club Mate$` for the whole text.
pub open spec fn club_mate_text(s: Seq<char>) -> bool {
    exists|k: int| 3 <= k <= 16 && k <= s.len() && (forall|i: int| 0 <= i < k ==> is_word_char(#[trigger] s[i]))
        && #[trigger] s.skip(k) == " acquired a Club Mate"@
}

/// `.{3,32}#[0-9]{4}:?` as a whole line, ending with or without the colon.
pub open spec fn discord_tag_line_with(l: Seq<char>, colon: bool) -> bool {
    let m: int = if colon { 6 } else { 5 };
    &&& l.len() >= m + 3
    &&& l.len() - m <= 32
    &&& l[l.len() - m] == '#'
    &&& all_digits(l.subrange(l.len() - m + 1, l.len() - m + 5))
    &&& (colon ==> l[l.len() - 1] == ':')
}

pub open spec fn discord_tag_line(l: Seq<char>) -> bool {
    discord_tag_line_with(l, true) || discord_tag_line_with(l, false)
}

fn is_word(c: char) -> (b: bool)
    ensures
        b == is_word_char(c),
{
    ('a' <= c && c <= 'z') || ('A' <= c && c <= 'Z') || ('0' <= c && c <= '9') || c == '_'
}

fn all_digit_chars(s: &Vec<char>, start: usize, end: usize) -> (b: bool)
    requires
        start <= end <= s.len(),
    ensures
        b == all_digits(s@.subrange(start as int, end as int)),
{
    let mut i = start;
    while i < end
        invariant
            start <= i <= end <= s.len(),
            forall|j: int| start <= j < i ==> is_digit(s@[j]),
        decreases end - i,
    {
        if !('0' <= s[i] && s[i] <= '9') {
            assert(!is_digit(s@.subrange(start as int, end as int)[i - start]));
            return false;
        }
        i = i + 1;
    }
    assert forall|j: int| 0 <= j < end - start implies is_digit(#[trigger] s@.subrange(start as int, end as int)[j]) by {
        assert(is_digit(s@[start + j]));
    }
    true
}

/// Whether a single line is a demo bot's name.
pub fn is_demo_bot_line(l: &Vec<char>) -> (b: bool)
    ensures
        b == demo_bot_line(l@),
{
    if l.len() < 8 || !(l[0] == 'B' || l[0] == 'N') {
        return false;
    }
    let lit = chars_of("00bBot");
    let got = crate::text::slice_chars(l, 1, 7);
    if !eq_chars(&got, &lit) {
        return false;
    }
    let r = all_digit_chars(l, 7, l.len());
    assert(l@.subrange(7, l.len() as int) =~= l@.skip(7));
    r
}

/// Whether a single line announces a demo bot joining or leaving.
pub fn is_demo_bot_message_line(l: &Vec<char>) -> (b: bool)
    ensures
        b == demo_bot_message_line(l@),
{
    if l.len() < 8 {
        return false;
    }
    // The digits run as far as they go; the next character must be the space.
    let mut k: usize = 7;
    while k < l.len() && '0' <= l[k] && l[k] <= '9'
        invariant
            7 <= k <= l.len(),
            forall|j: int| 7 <= j < k ==> is_digit(l@[j]),
        decreases l.len() - k,
    {
        k = k + 1;
    }
    let joined = chars_of(" joined the game");
    let left = chars_of(" left the game");
    let prefix = crate::text::slice_chars(l, 0, k);
    let rest = suffix_from(l, k);
    let head_ok = k >= 8 && is_demo_bot_line(&prefix);
    let tail_ok = eq_chars(&rest, &joined) || eq_chars(&rest, &left);
    proof {
        assert(prefix@ =~= l@.take(k as int));
        assert forall|k2: int| 8 <= k2 <= l@.len() && #[trigger] demo_bot_line(l@.take(k2))
            && (l@.skip(k2) == " joined the game"@ || l@.skip(k2) == " left the game"@) implies k2 == k by {
            let t = l@.take(k2);
            assert(all_digits(t.skip(7)));
            if k2 < k {
                // The text after the name would start with a digit, not a space.
                assert(is_digit(l@[k2]));
                if l@.skip(k2) == " joined the game"@ {
                    assert(l@.skip(k2)[0] == l@[k2]);
                    assert(" joined the game"@[0] == ' ') by { reveal_strlit(" joined the game"); }
                } else {
                    assert(l@.skip(k2)[0] == l@[k2]);
                    assert(" left the game"@[0] == ' ') by { reveal_strlit(" left the game"); }
                }
            } else if k2 > k {
                assert(t.skip(7)[k - 7] == l@[k as int]);
                assert(is_digit(l@[k as int]));
            }
        }
        if head_ok && tail_ok {
            assert(demo_bot_line(l@.take(k as int)));
        }
    }
    head_ok && tail_ok
}

/// Whether a single line is a sleep notice.
pub fn is_sleeping_line(l: &Vec<char>) -> (b: bool)
    ensures
        b == sleeping_line(l@),
{
    if l.len() < 3 || !('0' <= l[0] && l[0] <= '9') || l[1] != '/' || !('0' <= l[2] && l[2] <= '9') {
        return false;
    }
    let lit = chars_of(" players sleeping");
    eq_chars(&suffix_from(l, 3), &lit)
}

/// Whether the whole text is a Club Mate pickup notice.
pub fn is_club_mate_text(s: &Vec<char>) -> (b: bool)
    ensures
        b == club_mate_text(s@),
{
    let mut k: usize = 0;
    while k < s.len() && k < 17 && is_word(s[k])
        invariant
            k <= s.len(),
            k <= 17,
            forall|j: int| 0 <= j < k ==> is_word_char(#[trigger] s@[j]),
        decreases 17 - k,
    {
        k = k + 1;
    }
    let lit = chars_of(" acquired a Club Mate");
    let rest = suffix_from(s, if k <= s.len() { k } else { s.len() });
    let r = 3 <= k && k <= 16 && eq_chars(&rest, &lit);
    proof {
        reveal_strlit(" acquired a Club Mate");
        assert forall|k2: int| 3 <= k2 <= 16 && k2 <= s@.len() && (forall|i: int| 0 <= i < k2 ==> is_word_char(#[trigger] s@[i]))
            && #[trigger] s@.skip(k2) == " acquired a Club Mate"@ implies k2 == k by {
            if k2 < k {
                assert(s@.skip(k2)[0] == s@[k2]);
                assert(is_word_char(s@[k2]));
            } else if k2 > k {
                assert(is_word_char(s@[k as int]));
            }
        }
    }
    r
}

fn is_discord_tag_line_with(l: &Vec<char>, colon: bool) -> (b: bool)
    ensures
        b == discord_tag_line_with(l@, colon),
{
    let m: usize = if colon { 6 } else { 5 };
    if l.len() < m + 3 || l.len() - m > 32 || l[l.len() - m] != '#' {
        return false;
    }
    if !all_digit_chars(l, l.len() - m + 1, l.len() - m + 5) {
        return false;
    }
    !colon || l[l.len() - 1] == ':'
}

/// Whether a single line is a Discord `name#0000` tag, with or without a trailing colon.
pub fn is_discord_tag_line(l: &Vec<char>) -> (b: bool)
    ensures
        b == discord_tag_line(l@),
{
    is_discord_tag_line_with(l, true) || is_discord_tag_line_with(l, false)
}

/// Which line checks `lines_match` can run.
#[derive(Clone, Copy, PartialEq, Eq, Structural, Debug)]
pub enum LinePattern {
    DemoBot,
    DemoBotMessage,
    Sleeping,
    DiscordTag,
}

pub open spec fn line_pattern(p: LinePattern) -> spec_fn(Seq<char>) -> bool {
    match p {
        LinePattern::DemoBot => |l: Seq<char>| demo_bot_line(l),
        LinePattern::DemoBotMessage => |l: Seq<char>| demo_bot_message_line(l),
        LinePattern::Sleeping => |l: Seq<char>| sleeping_line(l),
        LinePattern::DiscordTag => |l: Seq<char>| discord_tag_line(l),
    }
}

/// Whether some line of `s` matches the pattern, as a multi-line regex `is_match` answers.
pub fn lines_match(s: &Vec<char>, p: LinePattern) -> (b: bool)
    ensures
        b == some_line(s@, line_pattern(p)),
{
    let ls = split(s, '\n');
    let mut i: usize = 0;
    while i < ls.len()
        invariant
            i <= ls.len(),
            views(ls@) == split_on(s@, '\n'),
            forall|j: int| 0 <= j < i ==> !(line_pattern(p))(split_on(s@, '\n')[j]),
        decreases ls.len() - i,
    {
        let l = &ls[i];
        assert(l@ == split_on(s@, '\n')[i as int]);
        let hit = match p {
            LinePattern::DemoBot => is_demo_bot_line(l),
            LinePattern::DemoBotMessage => is_demo_bot_message_line(l),
            LinePattern::Sleeping => is_sleeping_line(l),
            LinePattern::DiscordTag => is_discord_tag_line(l),
        };
        if hit {
            return true;
        }
        i = i + 1;
    }
    false
}

} // verus!
