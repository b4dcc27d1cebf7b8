//! The chat line formats of custom servers: an optional `[tag]`, a player name, an optional
//! `> `, an optional whisper marker and the message.
//!
//! A line can often be cut up in more than one way. The cut that is taken is the one a
//! backtracking matcher finds first: the longest tag, then the longest name, then the arrow
//! taken before left out, then the earliest marker before none. In the contracts this is the
//! cut that is greatest in the lexicographic order of those four choices.
use vstd::prelude::*;
use crate::text::{matches_at, slice_chars, suffix_from, views};

verus! {

/// How the optional `[tag]` before the name is written.
#[derive(Clone, Copy, PartialEq, Eq, Structural, Debug)]
pub enum TagForm {
    /// `(?:\[.+\] )?` directly before the name.
    TagSpace,
    /// `(?:\[.+\])? ` : an optional tag, then a space that is always there.
    TagThenSpace,
    /// No tag.
    NoTag,
}

/// The chat line formats the bot understands.
#[derive(Clone, Copy, PartialEq, Eq, Structural, Debug)]
pub enum ChatFormat {
    /// `^(?:\[.+\] )?([a-zA-Z_0-9]{1,16}) (?:> )?(whispers: |-> me] )?(.+)$`
    Whisper,
    /// `^(?:\[.+\] )?([a-zA-Z_0-9]{1,16}) (?:> )?(?:whispers: |-> )?(.+)$`
    Command,
    /// `^(?:\[.+\])? ([a-zA-Z_0-9]{1,16}) (?:> )?(?:whispers: )?(.+)$`
    Legacy,
    /// `^([a-zA-Z_0-9]{1,16}) (?:whispers: )?(.+)$`
    Plain,
}

pub open spec fn tag_form(f: ChatFormat) -> TagForm {
    match f {
        ChatFormat::Whisper => TagForm::TagSpace,
        ChatFormat::Command => TagForm::TagSpace,
        ChatFormat::Legacy => TagForm::TagThenSpace,
        ChatFormat::Plain => TagForm::NoTag,
    }
}

pub open spec fn has_arrow(f: ChatFormat) -> bool {
    f != ChatFormat::Plain
}

pub open spec fn whispers_marker() -> Seq<char> {
    seq!['w', 'h', 'i', 's', 'p', 'e', 'r', 's', ':', ' ']
}

/// The whisper markers of a format, the one tried first first.
pub open spec fn markers(f: ChatFormat) -> Seq<Seq<char>> {
    match f {
        ChatFormat::Whisper => seq![whispers_marker(), seq!['-', '>', ' ', 'm', 'e', ']', ' ']],
        ChatFormat::Command => seq![whispers_marker(), seq!['-', '>', ' ']],
        _ => seq![whispers_marker()],
    }
}

/// A letter, digit or underscore: `[a-zA-Z_0-9]`.
pub open spec fn is_word_char(c: char) -> bool {
    ('a' <= c && c <= 'z') || ('A' <= c && c <= 'Z') || ('0' <= c && c <= '9') || c == '_'
}

pub open spec fn no_newline(s: Seq<char>) -> bool {
    forall|i: int| 0 <= i < s.len() ==> s[i] != '\n'
}

/// One way of cutting a line: the length of the tag (0 when there is none), the length of
/// the name, whether the arrow is there, and which marker is (by index).
pub struct Cut {
    pub tag: int,
    pub name: int,
    pub arrow: bool,
    pub marker: Option<int>,
}

/// Whether the tag part of a cut fits the line.
pub open spec fn tag_ok(s: Seq<char>, f: ChatFormat, t: int) -> bool {
    match tag_form(f) {
        TagForm::NoTag => t == 0,
        TagForm::TagSpace => t == 0 || (4 <= t <= s.len() && s[0] == '[' && s[t - 2] == ']'
            && s[t - 1] == ' '),
        TagForm::TagThenSpace => (t == 0 || (3 <= t <= s.len() && s[0] == '[' && s[t - 1] == ']'))
            && t < s.len() && s[t] == ' ',
    }
}

/// Where the name starts after a tag of length `t`.
pub open spec fn name_start(f: ChatFormat, t: int) -> int {
    if tag_form(f) == TagForm::TagThenSpace { t + 1 } else { t }
}

/// A name of `n` characters at `a`, followed by a space.
pub open spec fn name_ok(s: Seq<char>, a: int, n: int) -> bool {
    &&& 1 <= n <= 16
    &&& 0 <= a
    &&& a + n < s.len()
    &&& forall|i: int| a <= i < a + n ==> is_word_char(#[trigger] s[i])
    &&& s[a + n] == ' '
}

/// The arrow, if the cut has it, at `q`.
pub open spec fn arrow_ok(s: Seq<char>, f: ChatFormat, q: int, arrow: bool) -> bool {
    arrow ==> (has_arrow(f) && 0 <= q && q + 2 <= s.len() && s[q] == '>' && s[q + 1] == ' ')
}

pub open spec fn marker_len(f: ChatFormat, m: Option<int>) -> int {
    match m {
        Some(i) => markers(f)[i].len() as int,
        None => 0,
    }
}

/// The marker, if the cut has one, at `r`, followed by a message of at least one character.
pub open spec fn marker_ok(s: Seq<char>, f: ChatFormat, r: int, m: Option<int>) -> bool {
    &&& 0 <= r
    &&& match m {
        Some(i) => 0 <= i < markers(f).len() && r + markers(f)[i].len() <= s.len()
            && s.subrange(r, r + markers(f)[i].len()) == markers(f)[i],
        None => true,
    }
    &&& r + marker_len(f, m) < s.len()
}

pub open spec fn arrow_end(q: int, arrow: bool) -> int {
    if arrow { q + 2 } else { q }
}

/// Where the message starts in a cut.
pub open spec fn content_start(f: ChatFormat, c: Cut) -> int {
    arrow_end(name_start(f, c.tag) + c.name + 1, c.arrow) + marker_len(f, c.marker)
}

/// Whether the cut matches the whole line.
pub open spec fn valid_cut(s: Seq<char>, f: ChatFormat, c: Cut) -> bool {
    let a = name_start(f, c.tag);
    let q = a + c.name + 1;
    &&& no_newline(s)
    &&& tag_ok(s, f, c.tag)
    &&& name_ok(s, a, c.name)
    &&& arrow_ok(s, f, q, c.arrow)
    &&& marker_ok(s, f, arrow_end(q, c.arrow), c.marker)
}

/// The rank of a marker choice: earlier markers rank higher, no marker lowest.
pub open spec fn marker_rank(f: ChatFormat, m: Option<int>) -> int {
    match m {
        Some(i) => markers(f).len() - i,
        None => 0,
    }
}

/// Whether cut `c` comes before cut `d` in the order a backtracking matcher tries them.
pub open spec fn preferred(f: ChatFormat, c: Cut, d: Cut) -> bool {
    ||| c.tag > d.tag
    ||| (c.tag == d.tag && c.name > d.name)
    ||| (c.tag == d.tag && c.name == d.name && c.arrow && !d.arrow)
    ||| (c.tag == d.tag && c.name == d.name && c.arrow == d.arrow
        && marker_rank(f, c.marker) > marker_rank(f, d.marker))
}

/// The cut the matcher takes: valid, with no valid cut preferred to it.
pub open spec fn is_first_cut(s: Seq<char>, f: ChatFormat, c: Cut) -> bool {
    &&& valid_cut(s, f, c)
    &&& forall|d: Cut| valid_cut(s, f, d) ==> !preferred(f, d, c)
}

/// A parsed chat line: the name, the index of the whisper marker if there is one, and the
/// message.
pub struct ChatLine {
    pub name: Vec<char>,
    pub marker: Option<usize>,
    pub content: Vec<char>,
}

/// What a line parses to, when it matches the format.
pub open spec fn parse_line_spec(s: Seq<char>, f: ChatFormat) -> Option<(Seq<char>, Option<int>, Seq<char>)> {
    if exists|c: Cut| is_first_cut(s, f, c) {
        let c = choose|c: Cut| is_first_cut(s, f, c);
        let a = name_start(f, c.tag);
        Some((s.subrange(a, a + c.name), c.marker, s.skip(content_start(f, c))))
    } else {
        None
    }
}


pub open spec fn opt_int(m: Option<usize>) -> Option<int> {
    match m {
        Some(i) => Some(i as int),
        None => None,
    }
}

pub open spec fn tail_ok(s: Seq<char>, f: ChatFormat, q: int, arrow: bool, m: Option<int>) -> bool {
    arrow_ok(s, f, q, arrow) && marker_ok(s, f, arrow_end(q, arrow), m)
}

/// Two cuts the matcher would both take first are the same cut.
proof fn lemma_first_cut_unique(s: Seq<char>, f: ChatFormat, c: Cut, d: Cut)
    requires
        is_first_cut(s, f, c),
        is_first_cut(s, f, d),
    ensures
        c == d,
{
    assert(!preferred(f, c, d));
    assert(!preferred(f, d, c));
    match (c.marker, d.marker) {
        (Some(i), Some(j)) => { assert(i == j); },
        (None, None) => {},
        (Some(i), None) => { assert(marker_rank(f, c.marker) > 0); },
        (None, Some(j)) => { assert(marker_rank(f, d.marker) > 0); },
    }
}

fn marker_vecs(f: ChatFormat) -> (r: Vec<Vec<char>>)
    ensures
        views(r@) == markers(f),
{
    let w = vec!['w', 'h', 'i', 's', 'p', 'e', 'r', 's', ':', ' '];
    let mut r: Vec<Vec<char>> = Vec::new();
    r.push(w);
    match f {
        ChatFormat::Whisper => { r.push(vec!['-', '>', ' ', 'm', 'e', ']', ' ']); },
        ChatFormat::Command => { r.push(vec!['-', '>', ' ']); },
        _ => {},
    }
    assert(views(r@) =~= markers(f));
    r
}

fn is_word(c: char) -> (b: bool)
    ensures
        b == is_word_char(c),
{
    ('a' <= c && c <= 'z') || ('A' <= c && c <= 'Z') || ('0' <= c && c <= '9') || c == '_'
}

/// The first marker choice at `r` that leaves a message: the earliest marker that is there,
/// else none.
fn first_marker(s: &Vec<char>, f: ChatFormat, ms: &Vec<Vec<char>>, r: usize) -> (res: Option<Option<usize>>)
    requires
        views(ms@) == markers(f),
        r <= s.len(),
    ensures
        res is None <==> forall|m: Option<int>| !marker_ok(s@, f, r as int, m),
        res matches Some(m) ==> marker_ok(s@, f, r as int, opt_int(m)) && forall|m2: Option<int>|
            marker_ok(s@, f, r as int, m2) ==> marker_rank(f, m2) <= marker_rank(f, opt_int(m)),
{
    let mut i: usize = 0;
    while i < ms.len()
        invariant
            views(ms@) == markers(f),
            r <= s.len(),
            i <= ms.len(),
            forall|j: int| 0 <= j < i ==> !marker_ok(s@, f, r as int, Some(j)),
        decreases ms.len() - i,
    {
        assert(ms@[i as int]@ == markers(f)[i as int]);
        if matches_at(s, r, &ms[i]) && r + ms[i].len() < s.len() {
            proof {
                assert(marker_ok(s@, f, r as int, Some(i as int)));
                assert forall|m2: Option<int>| marker_ok(s@, f, r as int, m2) implies
                    marker_rank(f, m2) <= marker_rank(f, Some(i as int)) by {
                    if let Some(j) = m2 {
                        if j < i {
                            assert(!marker_ok(s@, f, r as int, Some(j)));
                        }
                    }
                }
            }
            return Some(Some(i));
        }
        i = i + 1;
    }
    if r < s.len() {
        assert(marker_ok(s@, f, r as int, None));
        Some(None)
    } else {
        proof {
            assert forall|m: Option<int>| !marker_ok(s@, f, r as int, m) by {
                if let Some(j) = m {
                    if 0 <= j < ms.len() {
                        assert(!marker_ok(s@, f, r as int, Some(j)));
                    }
                }
            }
        }
        None
    }
}

/// The first arrow and marker choice at `q`.
fn first_tail(s: &Vec<char>, f: ChatFormat, ms: &Vec<Vec<char>>, q: usize) -> (res: Option<(bool, Option<usize>)>)
    requires
        views(ms@) == markers(f),
        q <= s.len(),
    ensures
        res is None <==> forall|a: bool, m: Option<int>| !tail_ok(s@, f, q as int, a, m),
        res matches Some((a, m)) ==> tail_ok(s@, f, q as int, a, opt_int(m)) && forall|a2: bool, m2: Option<int>|
            tail_ok(s@, f, q as int, a2, m2) ==> (a2 ==> a) && (a2 == a ==> marker_rank(f, m2) <= marker_rank(f, opt_int(m))),
{
    let arrow_possible = f != ChatFormat::Plain && s.len() - q >= 2 && s[q] == '>' && s[q + 1] == ' ';
    if arrow_possible {
        if let Some(m) = first_marker(s, f, ms, q + 2) {
            assert(tail_ok(s@, f, q as int, true, opt_int(m)));
            return Some((true, m));
        }
    }
    match first_marker(s, f, ms, q) {
        Some(m) => {
            assert(tail_ok(s@, f, q as int, false, opt_int(m)));
            proof {
                assert forall|a2: bool, m2: Option<int>| tail_ok(s@, f, q as int, a2, m2) implies
                    !a2 by {
                    if a2 {
                        assert(arrow_possible);
                    }
                }
            }
            Some((false, m))
        },
        None => {
            proof {
                assert forall|a: bool, m: Option<int>| !tail_ok(s@, f, q as int, a, m) by {
                    if a && arrow_ok(s@, f, q as int, a) {
                        assert(arrow_possible);
                    }
                }
            }
            None
        },
    }
}

pub open spec fn rest_ok(s: Seq<char>, f: ChatFormat, a: int, n: int, arrow: bool, m: Option<int>) -> bool {
    name_ok(s, a, n) && tail_ok(s, f, a + n + 1, arrow, m)
}

/// The first name, arrow and marker choice for a name starting at `a`.
fn first_rest(s: &Vec<char>, f: ChatFormat, ms: &Vec<Vec<char>>, a: usize) -> (res: Option<(usize, bool, Option<usize>)>)
    requires
        views(ms@) == markers(f),
        a <= s.len(),
    ensures
        res is None <==> forall|n: int, ar: bool, m: Option<int>| !rest_ok(s@, f, a as int, n, ar, m),
        res matches Some((n, ar, m)) ==> rest_ok(s@, f, a as int, n as int, ar, opt_int(m))
            && forall|n2: int, ar2: bool, m2: Option<int>| rest_ok(s@, f, a as int, n2, ar2, m2) ==>
            n2 == n && (ar2 ==> ar) && (ar2 == ar ==> marker_rank(f, m2) <= marker_rank(f, opt_int(m))),
{
    let mut k: usize = 0;
    while k < 17 && a + k < s.len() && is_word(s[a + k])
        invariant
            a <= s.len(),
            k <= 17,
            a + k <= s.len(),
            forall|i: int| a <= i < a + k ==> is_word_char(#[trigger] s@[i]),
        decreases 17 - k,
    {
        k = k + 1;
    }
    // The only possible name length is the whole run of word characters.
    assert forall|n: int| name_ok(s@, a as int, n) implies n == k by {
        if n < k {
            assert(is_word_char(s@[a + n]));
        } else if n > k {
            assert(is_word_char(s@[a + k]));
        }
    }
    if k == 0 || k > 16 || a + k >= s.len() || s[a + k] != ' ' {
        assert forall|n: int, ar: bool, m: Option<int>| !rest_ok(s@, f, a as int, n, ar, m) by {
            if name_ok(s@, a as int, n) {
                assert(n == k);
            }
        }
        return None;
    }
    assert(name_ok(s@, a as int, k as int));
    match first_tail(s, f, ms, a + k + 1) {
        Some((ar, m)) => {
            assert(rest_ok(s@, f, a as int, k as int, ar, opt_int(m)));
            Some((k, ar, m))
        },
        None => {
            assert forall|n: int, ar: bool, m: Option<int>| !rest_ok(s@, f, a as int, n, ar, m) by {
                if name_ok(s@, a as int, n) {
                    assert(n == k);
                }
            }
            None
        },
    }
}

fn has_newline(s: &Vec<char>) -> (b: bool)
    ensures
        b == !no_newline(s@),
{
    let mut i: usize = 0;
    while i < s.len()
        invariant
            i <= s.len(),
            forall|j: int| 0 <= j < i ==> s@[j] != '\n',
        decreases s.len() - i,
    {
        if s[i] == '\n' {
            return true;
        }
        i = i + 1;
    }
    false
}

fn tag_fits(s: &Vec<char>, f: ChatFormat, t: usize) -> (b: bool)
    ensures
        b == tag_ok(s@, f, t as int),
{
    match f {
        ChatFormat::Plain => t == 0,
        ChatFormat::Legacy => (t == 0 || (3 <= t && t <= s.len() && s[0] == '[' && s[t - 1] == ']'))
            && t < s.len() && s[t] == ' ',
        _ => t == 0 || (4 <= t && t <= s.len() && s[0] == '[' && s[t - 2] == ']' && s[t - 1] == ' '),
    }
}

/// The first cut with a tag of length `t`, if one exists.
fn first_cut_at(s: &Vec<char>, f: ChatFormat, ms: &Vec<Vec<char>>, t: usize) -> (res: Option<(usize, bool, Option<usize>)>)
    requires
        views(ms@) == markers(f),
        t <= s.len(),
        no_newline(s@),
    ensures
        res is None <==> forall|c: Cut| c.tag == t ==> !valid_cut(s@, f, c),
        res matches Some((n, ar, m)) ==> valid_cut(s@, f, Cut { tag: t as int, name: n as int, arrow: ar, marker: opt_int(m) })
            && forall|d: Cut| d.tag == t && valid_cut(s@, f, d) ==>
                !preferred(f, d, Cut { tag: t as int, name: n as int, arrow: ar, marker: opt_int(m) }),
{
    if !tag_fits(s, f, t) {
        return None;
    }
    let a: usize = if f == ChatFormat::Legacy { t + 1 } else { t };
    assert(a as int == name_start(f, t as int));
    let r = first_rest(s, f, ms, a);
    proof {
        if r is None {
            assert forall|c: Cut| c.tag == t implies !valid_cut(s@, f, c) by {
                assert(!rest_ok(s@, f, a as int, c.name, c.arrow, c.marker));
            }
        } else {
            let (n, ar, m) = r->0;
            assert(rest_ok(s@, f, a as int, n as int, ar, opt_int(m)));
            assert(valid_cut(s@, f, Cut { tag: t as int, name: n as int, arrow: ar, marker: opt_int(m) }));
            assert forall|d: Cut| d.tag == t && valid_cut(s@, f, d) implies
                !preferred(f, d, Cut { tag: t as int, name: n as int, arrow: ar, marker: opt_int(m) }) by {
                assert(rest_ok(s@, f, a as int, d.name, d.arrow, d.marker));
            }
        }
    }
    r
}

/// Parses a chat line in the given format, taking the cut a backtracking matcher takes.
pub fn parse_line(s: &Vec<char>, f: ChatFormat) -> (r: Option<ChatLine>)
    ensures
        match r {
            None => parse_line_spec(s@, f) is None,
            Some(l) => parse_line_spec(s@, f) == Some((l.name@, opt_int(l.marker), l.content@)),
        },
{
    if has_newline(s) {
        assert(!exists|c: Cut| is_first_cut(s@, f, c));
        return None;
    }
    let ms = marker_vecs(f);
    // Tags are tried from the longest down; a tag of length 0 stands for no tag.
    let mut t: usize = if f == ChatFormat::Plain { 0 } else { s.len() };
    let mut found: Option<(usize, bool, Option<usize>)> = None;
    let mut done = false;
    while !done
        invariant
            views(ms@) == markers(f),
            no_newline(s@),
            t <= s.len(),
            forall|c: Cut| c.tag > t ==> !valid_cut(s@, f, c),
            found matches Some((n, ar, m)) ==> valid_cut(s@, f, Cut { tag: t as int, name: n as int, arrow: ar, marker: opt_int(m) })
                && forall|d: Cut| d.tag == t && valid_cut(s@, f, d) ==>
                    !preferred(f, d, Cut { tag: t as int, name: n as int, arrow: ar, marker: opt_int(m) }),
            !done ==> found is None,
            done && found is None ==> t == 0 && forall|c: Cut| c.tag >= t ==> !valid_cut(s@, f, c),
        decreases t + (if done { 0int } else { 1int }),
    {
        let r = first_cut_at(s, f, &ms, t);
        if r.is_some() {
            found = r;
            done = true;
        } else if t == 0 {
            done = true;
        } else {
            t = t - 1;
        }
    }
    match found {
        None => {
            proof {
                assert forall|c: Cut| !is_first_cut(s@, f, c) by {
                    if valid_cut(s@, f, c) {
                        assert(c.tag >= 0);
                    }
                }
            }
            None
        },
        Some((n, ar, m)) => {
            let ghost c = Cut { tag: t as int, name: n as int, arrow: ar, marker: opt_int(m) };
            proof {
                assert forall|d: Cut| valid_cut(s@, f, d) implies !preferred(f, d, c) by {
                    if d.tag > t {
                        assert(!valid_cut(s@, f, d));
                    }
                }
                assert(is_first_cut(s@, f, c));
                let c2 = choose|c2: Cut| is_first_cut(s@, f, c2);
                lemma_first_cut_unique(s@, f, c, c2);
            }
            let a: usize = if f == ChatFormat::Legacy { t + 1 } else { t };
            let q: usize = a + n + 1;
            let q2: usize = if ar { q + 2 } else { q };
            let cstart: usize = match m {
                Some(i) => q2 + ms[i].len(),
                None => q2,
            };
            assert(cstart as int == content_start(f, c));
            Some(ChatLine { name: slice_chars(s, a, a + n), marker: m, content: suffix_from(s, cstart) })
        },
    }
}

} // verus!
