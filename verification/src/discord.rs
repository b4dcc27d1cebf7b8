//! The Discord bridge: Discord messages sent on into Minecraft chat in pieces the chat takes,
//! and chat lines posted to Discord, without the noise.
use vstd::prelude::*;
use crate::command::{bare_name, strip_prefixes};
use crate::patterns::{club_mate_text, demo_bot_line, demo_bot_message_line, is_club_mate_text, lines_match, some_line, sleeping_line, LinePattern};
use crate::text::{chars_of, chunks, chunks_of, decimal, decimal_u64, pad_left, pad_start, push_all, push_str, splitn, splitn_spec, string_of, views};

verus! {

/// The chat line for one line of a Discord message: `name#0000: text`.
pub open spec fn bridge_line(name: Seq<char>, discriminator: u16, line: Seq<char>) -> Seq<char> {
    name + "#"@ + pad_left(decimal(discriminator as nat), '0', 4) + ": "@ + line
}

/// Pieces of pieces, one after another.
pub open spec fn flatten(parts: Seq<Seq<Seq<char>>>) -> Seq<Seq<char>>
    decreases parts.len(),
{
    if parts.len() == 0 {
        Seq::empty()
    } else {
        flatten(parts.drop_last()) + parts.last()
    }
}

/// The chat messages for a Discord message: its first four lines (the fifth holds the rest),
/// each as a bridge line cut into pieces of 256 characters.
pub open spec fn bridge_messages(name: Seq<char>, discriminator: u16, content: Seq<char>) -> Seq<Seq<char>> {
    flatten(splitn_spec(content, 5, '\n').map_values(|l: Seq<char>| chunks_of(bridge_line(name, discriminator, l), 256)))
}

proof fn lemma_flatten_bounds(parts: Seq<Seq<Seq<char>>>)
    requires
        forall|a: int, b: int| 0 <= a < parts.len() && 0 <= b < parts[a].len() ==> 1 <= #[trigger] parts[a][b].len() <= 256,
    ensures
        forall|k: int| 0 <= k < flatten(parts).len() ==> 1 <= #[trigger] flatten(parts)[k].len() <= 256,
    decreases parts.len(),
{
    if parts.len() > 0 {
        lemma_flatten_bounds(parts.drop_last());
        let prev = flatten(parts.drop_last());
        assert forall|k: int| 0 <= k < flatten(parts).len() implies 1 <= #[trigger] flatten(parts)[k].len() <= 256 by {
            if k < prev.len() {
                assert(flatten(parts)[k] == prev[k]);
            } else {
                assert(flatten(parts)[k] == parts.last()[k - prev.len()]);
                assert(parts[parts.len() - 1][k - prev.len()] == parts.last()[k - prev.len()]);
            }
        }
    }
}

/// Law: every chat message the bridge sends holds between one and 256 characters.
pub proof fn lemma_bridge_messages_fit(name: Seq<char>, discriminator: u16, content: Seq<char>)
    ensures
        forall|k: int| 0 <= k < bridge_messages(name, discriminator, content).len()
            ==> 1 <= #[trigger] bridge_messages(name, discriminator, content)[k].len() <= 256,
{
    let ls = splitn_spec(content, 5, '\n');
    let parts = ls.map_values(|l: Seq<char>| chunks_of(bridge_line(name, discriminator, l), 256));
    assert forall|a: int, b: int| 0 <= a < parts.len() && 0 <= b < parts[a].len() implies 1 <= #[trigger] parts[a][b].len() <= 256 by {
        crate::text::lemma_chunks_concat(bridge_line(name, discriminator, ls[a]), 256);
    }
    lemma_flatten_bounds(parts);
}

/// The Discord message handler.
pub struct Handler;

impl Handler {
    /// The chat messages for a Discord message: none from bots or from another channel than
    /// the configured one.
    pub fn message(
        &self,
        author_bot: bool,
        channel: u64,
        configured_channel: &String,
        name: &str,
        discriminator: u16,
        content: &str,
    ) -> (r: Vec<String>)
        ensures
            author_bot || decimal(channel as nat) != configured_channel@ ==> r@.len() == 0,
            !author_bot && decimal(channel as nat) == configured_channel@ ==>
                r@.map_values(|s: String| s@) == bridge_messages(name@, discriminator, content@),
    {
        let mut r: Vec<String> = Vec::new();
        if author_bot {
            return r;
        }
        let ch = decimal_u64(channel);
        if !crate::text::eq_chars(&ch, &chars_of(configured_channel.as_str())) {
            return r;
        }
        let lines = splitn(&chars_of(content), 5, '\n');
        let ghost ls = splitn_spec(content@, 5, '\n');
        let ghost parts = ls.map_values(|l: Seq<char>| chunks_of(bridge_line(name@, discriminator, l), 256));
        let mut tag = chars_of(name);
        push_str(&mut tag, "#");
        push_all(&mut tag, &pad_start(&decimal_u64(discriminator as u64), '0', 4));
        push_str(&mut tag, ": ");
        let mut i: usize = 0;
        assert(parts.take(0) =~= Seq::<Seq<Seq<char>>>::empty());
        while i < lines.len()
            invariant
                i <= lines.len(),
                views(lines@) == ls,
                parts == ls.map_values(|l: Seq<char>| chunks_of(bridge_line(name@, discriminator, l), 256)),
                tag@ == name@ + "#"@ + pad_left(decimal(discriminator as nat), '0', 4) + ": "@,
                r@.map_values(|s: String| s@) == flatten(parts.take(i as int)),
            decreases lines.len() - i,
        {
            let mut line: Vec<char> = Vec::new();
            push_all(&mut line, &tag);
            push_all(&mut line, &lines[i]);
            assert(views(lines@)[i as int] == lines@[i as int]@);
            assert(line@ =~= bridge_line(name@, discriminator, ls[i as int]));
            let pieces = chunks(&line, 256);
            let mut k: usize = 0;
            let ghost before = r@.map_values(|s: String| s@);
            while k < pieces.len()
                invariant
                    k <= pieces.len(),
                    r@.map_values(|s: String| s@) == before + views(pieces@).take(k as int),
                decreases pieces.len() - k,
            {
                let ghost b2 = r@;
                let piece = string_of(&pieces[k]);
                r.push(piece);
                assert(r@.map_values(|s: String| s@) =~= b2.map_values(|s: String| s@).push(piece@));
                assert(views(pieces@).take(k + 1) =~= views(pieces@).take(k as int).push(pieces@[k as int]@));
                k = k + 1;
            }
            assert(views(pieces@).take(pieces.len() as int) =~= views(pieces@));
            assert(parts.take(i + 1).drop_last() =~= parts.take(i as int));
            assert(parts[i as int] == chunks_of(line@, 256));
            i = i + 1;
        }
        assert(parts.take(lines.len() as int) =~= parts);
        r
    }
}

/// Chat lines the bridge never posts.
pub open spec fn blocked_messages() -> Seq<Seq<char>> {
    seq![
        "Are you a real hacker? Try to solve: [Club Mate Chest], [Club Mate Fountain], [Sheep Ritual]"@,
        "Herobrine: Try to find me near spawn."@,
        "Hit another player with a snowball first."@,
        "Sleeping through this night"@,
        "Welcome to the LiveOverflow 1.19.2 Demo Server"@,
        "You reach the end of Demo!"@,
        "[iambot]"@,
        "[iamnotbot]"@,
    ]
}

fn blocked_strs() -> (r: Vec<&'static str>)
    ensures
        r@.map_values(|s: &str| s@) == blocked_messages(),
{
    let r = vec![
        "Are you a real hacker? Try to solve: [Club Mate Chest], [Club Mate Fountain], [Sheep Ritual]",
        "Herobrine: Try to find me near spawn.",
        "Hit another player with a snowball first.",
        "Sleeping through this night",
        "Welcome to the LiveOverflow 1.19.2 Demo Server",
        "You reach the end of Demo!",
        "[iambot]",
        "[iamnotbot]",
    ];
    assert(r@.map_values(|s: &str| s@) =~= blocked_messages());
    r
}

/// Whether the bridge leaves a chat line out: a blocked line, a line from a demo bot, a demo
/// bot joining or leaving, a sleep count, or a Club Mate pickup.
pub open spec fn filtered_out(username: Seq<char>, content: Seq<char>) -> bool {
    ||| blocked_messages().contains(content)
    ||| some_line(username, |l: Seq<char>| demo_bot_line(l))
    ||| some_line(content, |l: Seq<char>| demo_bot_message_line(l))
    ||| some_line(content, |l: Seq<char>| sleeping_line(l))
    ||| club_mate_text(content)
}

/// A chat line to post to Discord.
pub struct BridgePost {
    pub username: String,
    pub avatar_url: String,
    pub content: String,
}

/// The name a chat line is posted under: the sender without rank prefixes, `Host` when the
/// line shows none.
pub open spec fn poster(username: Option<Seq<char>>) -> Seq<char> {
    match username {
        Some(u) => bare_name(u),
        None => bare_name("Host"@),
    }
}

fn is_blocked(content: &Vec<char>) -> (r: bool)
    ensures
        r == blocked_messages().contains(content@),
{
    let list = blocked_strs();
    let mut i: usize = 0;
    while i < list.len()
        invariant
            i <= list.len(),
            list@.map_values(|s: &str| s@) == blocked_messages(),
            forall|j: int| 0 <= j < i ==> blocked_messages()[j] != content@,
        decreases list.len() - i,
    {
        assert(blocked_messages()[i as int] == list@[i as int]@);
        if crate::text::eq_chars(&chars_of(list[i]), content) {
            return true;
        }
        i = i + 1;
    }
    false
}

/// What the bridge posts for a chat line from `username` (as the server shows it, if at all)
/// whose decrypted text is `content`: nothing for a filtered line, else the poster, the
/// poster's avatar and the text.
pub fn bridge_post(username: &Option<String>, content: &String) -> (r: Option<BridgePost>)
    ensures
        ({
            let name = poster(match username {
                Some(u) => Some(u@),
                None => None,
            });
            if filtered_out(name, content@) {
                r is None
            } else {
                r matches Some(p) && p.username@ == name
                    && p.avatar_url@ == "https://crafthead.net/helm/"@ + name
                    && p.content@ == content@
            }
        }),
{
    let name = match username {
        Some(u) => strip_prefixes(u.as_str()),
        None => strip_prefixes("Host"),
    };
    let c = chars_of(content.as_str());
    assert(crate::patterns::line_pattern(LinePattern::DemoBot) =~= |l: Seq<char>| demo_bot_line(l));
    assert(crate::patterns::line_pattern(LinePattern::DemoBotMessage) =~= |l: Seq<char>| demo_bot_message_line(l));
    assert(crate::patterns::line_pattern(LinePattern::Sleeping) =~= |l: Seq<char>| sleeping_line(l));
    if is_blocked(&c) || lines_match(&name, LinePattern::DemoBot) || lines_match(&c, LinePattern::DemoBotMessage)
        || lines_match(&c, LinePattern::Sleeping) || is_club_mate_text(&c) {
        return None;
    }
    let mut avatar = chars_of("https://crafthead.net/helm/");
    push_all(&mut avatar, &name);
    Some(BridgePost { username: string_of(&name), avatar_url: string_of(&avatar), content: content.clone() })
}

} // verus!
