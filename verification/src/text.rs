//! Character-level text operations the bot's parsers are built from.
//!
//! Text is handled as sequences of `char`, the abstract view of `str` and `String`.
use vstd::prelude::*;
use vstd::std_specs::iter::IteratorSpec;

verus! {

/// The pieces of `s` between occurrences of `sep`, as `str::split` with a `char` pattern
/// yields them (an empty text gives one empty piece).
pub open spec fn split_on(s: Seq<char>, sep: char) -> Seq<Seq<char>>
    decreases s.len(),
{
    if s.len() == 0 {
        seq![Seq::<char>::empty()]
    } else {
        let init = split_on(s.drop_last(), sep);
        if s.last() == sep {
            init.push(Seq::<char>::empty())
        } else {
            init.update(init.len() - 1, init.last().push(s.last()))
        }
    }
}

/// The pieces joined back together with `sep` between neighbours, as `[T]::join` does.
pub open spec fn join_with(parts: Seq<Seq<char>>, sep: Seq<char>) -> Seq<char>
    decreases parts.len(),
{
    if parts.len() == 0 {
        Seq::<char>::empty()
    } else if parts.len() == 1 {
        parts[0]
    } else {
        join_with(parts.drop_last(), sep) + sep + parts.last()
    }
}

pub proof fn lemma_split_on_nonempty(s: Seq<char>, sep: char)
    ensures
        split_on(s, sep).len() >= 1,
    decreases s.len(),
{
    if s.len() > 0 {
        lemma_split_on_nonempty(s.drop_last(), sep);
    }
}

/// Appending one character to the last piece appends it to the joined text.
pub proof fn lemma_join_extend_last(parts: Seq<Seq<char>>, sep: Seq<char>, c: char)
    requires
        parts.len() >= 1,
    ensures
        join_with(parts.update(parts.len() - 1, parts.last().push(c)), sep)
            == join_with(parts, sep).push(c),
{
    let p2 = parts.update(parts.len() - 1, parts.last().push(c));
    if parts.len() >= 2 {
        assert(p2.drop_last() =~= parts.drop_last());
    }
    assert(join_with(p2, sep) =~= join_with(parts, sep).push(c));
}

/// Law: splitting on a character and joining with that character gives the text back.
pub proof fn lemma_join_split(s: Seq<char>, sep: char)
    ensures
        join_with(split_on(s, sep), seq![sep]) == s,
    decreases s.len(),
{
    if s.len() > 0 {
        let init = split_on(s.drop_last(), sep);
        lemma_join_split(s.drop_last(), sep);
        lemma_split_on_nonempty(s.drop_last(), sep);
        if s.last() == sep {
            let p = init.push(Seq::<char>::empty());
            assert(p.drop_last() =~= init);
            assert(join_with(p, seq![sep]) =~= s);
        } else {
            lemma_join_extend_last(init, seq![sep], s.last());
            assert(s.drop_last().push(s.last()) =~= s);
        }
    }
}

/// The character sequences held by a vector of character vectors.
pub open spec fn views(v: Seq<Vec<char>>) -> Seq<Seq<char>> {
    v.map_values(|x: Vec<char>| x@)
}

/// Splits `s` at every `sep`, as `str::split(sep)` does.
pub fn split(s: &Vec<char>, sep: char) -> (r: Vec<Vec<char>>)
    ensures
        views(r@) == split_on(s@, sep),
        r.len() >= 1,
{
    let mut pieces: Vec<Vec<char>> = Vec::new();
    let mut cur: Vec<char> = Vec::new();
    let mut i: usize = 0;
    while i < s.len()
        invariant
            i <= s.len(),
            views(pieces@).push(cur@) == split_on(s@.take(i as int), sep),
        decreases s.len() - i,
    {
        let c = s[i];
        proof {
            assert(s@.take(i + 1).drop_last() =~= s@.take(i as int));
            lemma_split_on_nonempty(s@.take(i as int), sep);
        }
        let ghost before = views(pieces@).push(cur@);
        if c == sep {
            let done = cur;
            pieces.push(done);
            cur = Vec::new();
            assert(views(pieces@).push(cur@) =~= before.push(Seq::<char>::empty()));
        } else {
            cur.push(c);
            assert(before.update(before.len() - 1, before.last().push(c))
                =~= views(pieces@).push(cur@));
        }
        i = i + 1;
    }
    pieces.push(cur);
    proof {
        assert(s@.take(s.len() as int) =~= s@);
    }
    pieces
}


/// `s` with every non-overlapping occurrence of `pat` removed, scanning from the left,
/// as `str::replace(pat, "")` gives it (an empty pattern leaves the text as it is).
pub open spec fn remove_all(s: Seq<char>, pat: Seq<char>) -> Seq<char>
    decreases s.len(),
{
    if pat.len() == 0 || s.len() < pat.len() {
        s
    } else if s.take(pat.len() as int) == pat {
        remove_all(s.skip(pat.len() as int), pat)
    } else {
        seq![s[0]] + remove_all(s.skip(1), pat)
    }
}

/// `s` with every non-overlapping occurrence of the non-empty `pat` replaced by `rep`,
/// scanning from the left, as `str::replace` gives it.
pub open spec fn replace_all(s: Seq<char>, pat: Seq<char>, rep: Seq<char>) -> Seq<char>
    decreases s.len(),
{
    if pat.len() == 0 || s.len() < pat.len() {
        s
    } else if s.take(pat.len() as int) == pat {
        rep + replace_all(s.skip(pat.len() as int), pat, rep)
    } else {
        seq![s[0]] + replace_all(s.skip(1), pat, rep)
    }
}

/// The characters of a string slice, read with `str::chars`.
pub(crate) fn chars_of(s: &str) -> (r: Vec<char>)
    ensures
        r@ == s@,
{
    broadcast use vstd::string::axiom_spec_iter, vstd::string::next_postcondition;
    let mut it = s.chars();
    let mut v: Vec<char> = Vec::new();
    loop
        invariant
            v@ + IteratorSpec::remaining(&it) == s@,
            IteratorSpec::decrease(&it) is Some,
        ensures
            v@ == s@,
        decreases IteratorSpec::decrease(&it)->0,
    {
        let ghost before = IteratorSpec::remaining(&it);
        match it.next() {
            Some(c) => {
                let ghost prev = v@;
                v.push(c);
                assert(v@ + IteratorSpec::remaining(&it) =~= prev + before);
            },
            None => {
                assert(before.len() == 0);
                assert(v@ + before =~= v@);
                break;
            },
        }
    }
    v
}

/// Appends a character with `String::push`.
#[verifier::external_body]
fn push_char(s: &mut String, c: char)
    ensures
        final(s)@ == old(s)@.push(c),
{
    s.push(c);
}

/// A string holding the given characters.
pub(crate) fn string_of(v: &Vec<char>) -> (r: String)
    ensures
        r@ == v@,
{
    let mut s = String::new();
    let mut i: usize = 0;
    while i < v.len()
        invariant
            i <= v.len(),
            s@ == v@.take(i as int),
        decreases v.len() - i,
    {
        push_char(&mut s, v[i]);
        assert(v@.take(i + 1) =~= v@.take(i as int).push(v@[i as int]));
        i = i + 1;
    }
    assert(v@.take(v.len() as int) =~= v@);
    s
}

/// Whether two character vectors hold the same text.
pub fn eq_chars(a: &Vec<char>, b: &Vec<char>) -> (r: bool)
    ensures
        r == (a@ == b@),
{
    if a.len() != b.len() {
        return false;
    }
    let mut i: usize = 0;
    while i < a.len()
        invariant
            a.len() == b.len(),
            i <= a.len(),
            forall|k: int| 0 <= k < i ==> a@[k] == b@[k],
        decreases a.len() - i,
    {
        if a[i] != b[i] {
            return false;
        }
        i = i + 1;
    }
    assert(a@ =~= b@);
    true
}

/// Appends the characters of `src` to `dst`.
pub fn push_all(dst: &mut Vec<char>, src: &Vec<char>)
    ensures
        final(dst)@ == old(dst)@ + src@,
{
    let mut i: usize = 0;
    while i < src.len()
        invariant
            i <= src.len(),
            dst@ == old(dst)@ + src@.take(i as int),
        decreases src.len() - i,
    {
        dst.push(src[i]);
        assert(old(dst)@ + src@.take(i + 1) =~= (old(dst)@ + src@.take(i as int)).push(src@[i as int]));
        i = i + 1;
    }
    assert(src@.take(src.len() as int) =~= src@);
}

/// The characters of `s` from `start` on.
pub fn suffix_from(s: &Vec<char>, start: usize) -> (r: Vec<char>)
    requires
        start <= s.len(),
    ensures
        r@ == s@.skip(start as int),
{
    let mut r: Vec<char> = Vec::new();
    let mut i: usize = start;
    while i < s.len()
        invariant
            start <= i <= s.len(),
            r@ == s@.subrange(start as int, i as int),
        decreases s.len() - i,
    {
        r.push(s[i]);
        assert(s@.subrange(start as int, i + 1) =~= s@.subrange(start as int, i as int).push(s@[i as int]));
        i = i + 1;
    }
    assert(s@.subrange(start as int, s.len() as int) =~= s@.skip(start as int));
    r
}

/// The characters of `s` in `start..end`.
pub fn slice_chars(s: &Vec<char>, start: usize, end: usize) -> (r: Vec<char>)
    requires
        start <= end <= s.len(),
    ensures
        r@ == s@.subrange(start as int, end as int),
{
    let mut r: Vec<char> = Vec::new();
    let mut i: usize = start;
    while i < end
        invariant
            start <= i <= end <= s.len(),
            r@ == s@.subrange(start as int, i as int),
        decreases end - i,
    {
        r.push(s[i]);
        assert(s@.subrange(start as int, i + 1) =~= s@.subrange(start as int, i as int).push(s@[i as int]));
        i = i + 1;
    }
    r
}

/// Whether `pat` occurs in `s` at position `at`.
pub fn matches_at(s: &Vec<char>, at: usize, pat: &Vec<char>) -> (r: bool)
    ensures
        r == (at + pat.len() <= s.len() && s@.subrange(at as int, at + pat.len()) == pat@),
{
    if at > s.len() || pat.len() > s.len() - at {
        return false;
    }
    let mut i: usize = 0;
    while i < pat.len()
        invariant
            at + pat.len() <= s.len(),
            i <= pat.len(),
            forall|k: int| 0 <= k < i ==> s@[at + k] == pat@[k],
        decreases pat.len() - i,
    {
        if s[at + i] != pat[i] {
            assert(s@.subrange(at as int, at + pat.len())[i as int] != pat@[i as int]);
            return false;
        }
        i = i + 1;
    }
    assert(s@.subrange(at as int, at + pat.len()) =~= pat@);
    true
}

/// `s` with every occurrence of `pat` removed, as `str::replace(pat, "")` gives it.
pub fn remove_matches(s: &Vec<char>, pat: &Vec<char>) -> (r: Vec<char>)
    ensures
        r@ == remove_all(s@, pat@),
{
    let mut r: Vec<char> = Vec::new();
    if pat.len() == 0 {
        push_all(&mut r, s);
        return r;
    }
    let mut i: usize = 0;
    assert(s@.skip(0) =~= s@);
    assert(r@ + remove_all(s@, pat@) =~= remove_all(s@, pat@));
    while i < s.len()
        invariant
            pat.len() > 0,
            i <= s.len(),
            r@ + remove_all(s@.skip(i as int), pat@) == remove_all(s@, pat@),
        decreases s.len() - i,
    {
        let ghost rest = s@.skip(i as int);
        if matches_at(s, i, pat) {
            assert(rest.take(pat.len() as int) =~= s@.subrange(i as int, i + pat.len()));
            assert(rest.skip(pat.len() as int) =~= s@.skip(i + pat.len()));
            i = i + pat.len();
        } else {
            proof {
                if rest.len() >= pat.len() {
                    assert(rest.take(pat.len() as int) =~= s@.subrange(i as int, i + pat.len()));
                }
            }
            assert(rest.skip(1) =~= s@.skip(i + 1));
            if s.len() - i < pat.len() {
                assert(r@ + remove_all(s@.skip(i as int), pat@) == r@ + rest);
                push_all(&mut r, &suffix_from(s, i));
                assert(s@.skip(s.len() as int) =~= Seq::<char>::empty());
                return r;
            }
            r.push(s[i]);
            assert(r@ + remove_all(s@.skip(i + 1), pat@) =~= r@.drop_last() + (seq![rest[0]] + remove_all(rest.skip(1), pat@)));
            i = i + 1;
        }
    }
    assert(s@.skip(i as int) =~= Seq::<char>::empty());
    assert(r@ + Seq::<char>::empty() =~= r@);
    r
}

/// `s` with every occurrence of the non-empty `pat` replaced by `rep`, as `str::replace`
/// gives it.
pub fn replace_matches(s: &Vec<char>, pat: &Vec<char>, rep: &Vec<char>) -> (r: Vec<char>)
    requires
        pat.len() > 0,
    ensures
        r@ == replace_all(s@, pat@, rep@),
{
    let mut r: Vec<char> = Vec::new();
    let mut i: usize = 0;
    assert(s@.skip(0) =~= s@);
    assert(r@ + replace_all(s@, pat@, rep@) =~= replace_all(s@, pat@, rep@));
    while i < s.len()
        invariant
            pat.len() > 0,
            i <= s.len(),
            r@ + replace_all(s@.skip(i as int), pat@, rep@) == replace_all(s@, pat@, rep@),
        decreases s.len() - i,
    {
        let ghost rest = s@.skip(i as int);
        if matches_at(s, i, pat) {
            assert(rest.take(pat.len() as int) =~= s@.subrange(i as int, i + pat.len()));
            assert(rest.skip(pat.len() as int) =~= s@.skip(i + pat.len()));
            let ghost before = r@;
            push_all(&mut r, rep);
            assert(r@ + replace_all(s@.skip(i + pat.len()), pat@, rep@)
                =~= before + (rep@ + replace_all(rest.skip(pat.len() as int), pat@, rep@)));
            i = i + pat.len();
        } else {
            proof {
                if rest.len() >= pat.len() {
                    assert(rest.take(pat.len() as int) =~= s@.subrange(i as int, i + pat.len()));
                }
            }
            assert(rest.skip(1) =~= s@.skip(i + 1));
            if s.len() - i < pat.len() {
                assert(r@ + replace_all(s@.skip(i as int), pat@, rep@) == r@ + rest);
                push_all(&mut r, &suffix_from(s, i));
                assert(s@.skip(s.len() as int) =~= Seq::<char>::empty());
                return r;
            }
            r.push(s[i]);
            assert(r@ + replace_all(s@.skip(i + 1), pat@, rep@) =~= r@.drop_last() + (seq![rest[0]] + replace_all(rest.skip(1), pat@, rep@)));
            i = i + 1;
        }
    }
    assert(s@.skip(i as int) =~= Seq::<char>::empty());
    assert(r@ + Seq::<char>::empty() =~= r@);
    r
}

/// The pieces joined with `sep` between neighbours, as `[T]::join` does.
pub fn join(parts: &Vec<Vec<char>>, sep: &Vec<char>) -> (r: Vec<char>)
    ensures
        r@ == join_with(views(parts@), sep@),
{
    let mut r: Vec<char> = Vec::new();
    let mut i: usize = 0;
    while i < parts.len()
        invariant
            i <= parts.len(),
            r@ == join_with(views(parts@.take(i as int)), sep@),
        decreases parts.len() - i,
    {
        assert(views(parts@.take(i + 1)).drop_last() =~= views(parts@.take(i as int)));
        if i > 0 {
            push_all(&mut r, sep);
        }
        push_all(&mut r, &parts[i]);
        proof {
            if i == 0 {
                assert(r@ =~= views(parts@.take(1))[0]);
            }
        }
        i = i + 1;
    }
    assert(parts@.take(parts.len() as int) =~= parts@);
    r
}


/// The decimal digit character for `d` in `0..10`.
pub open spec fn digit_char(d: int) -> char {
    if d == 0 { '0' } else if d == 1 { '1' } else if d == 2 { '2' } else if d == 3 { '3' }
    else if d == 4 { '4' } else if d == 5 { '5' } else if d == 6 { '6' } else if d == 7 { '7' }
    else if d == 8 { '8' } else { '9' }
}

/// Whether `c` is an ASCII decimal digit.
pub open spec fn is_digit(c: char) -> bool {
    '0' <= c && c <= '9'
}

/// The value of an ASCII decimal digit.
pub open spec fn digit_value(c: char) -> int {
    c as int - '0' as int
}

/// The decimal representation of `n`, without leading zeros, as `{}` formats it.
pub open spec fn decimal(n: nat) -> Seq<char>
    decreases n,
{
    if n < 10 {
        seq![digit_char(n as int)]
    } else {
        decimal(n / 10).push(digit_char((n % 10) as int))
    }
}

/// The decimal representation of a signed integer, as `{}` formats it.
pub open spec fn signed_decimal(n: int) -> Seq<char> {
    if n < 0 {
        seq!['-'] + decimal((-n) as nat)
    } else {
        decimal(n as nat)
    }
}

/// `text` padded on the left with `fill` to at least `width` characters, as `{:0>width}`
/// and `{:0width}` (for non-negative numbers) pad.
pub open spec fn pad_left(text: Seq<char>, fill: char, width: nat) -> Seq<char> {
    if text.len() >= width {
        text
    } else {
        Seq::new((width - text.len()) as nat, |i: int| fill) + text
    }
}

fn digit(d: u64) -> (c: char)
    requires
        d < 10,
    ensures
        c == digit_char(d as int),
{
    if d == 0 { '0' } else if d == 1 { '1' } else if d == 2 { '2' } else if d == 3 { '3' }
    else if d == 4 { '4' } else if d == 5 { '5' } else if d == 6 { '6' } else if d == 7 { '7' }
    else if d == 8 { '8' } else { '9' }
}

/// The decimal representation of `n`.
pub fn decimal_u64(n: u64) -> (r: Vec<char>)
    ensures
        r@ == decimal(n as nat),
    decreases n,
{
    if n < 10 {
        let mut r = Vec::new();
        r.push(digit(n));
        r
    } else {
        let mut r = decimal_u64(n / 10);
        r.push(digit(n % 10));
        r
    }
}

/// The decimal representation of a signed integer.
pub fn decimal_i64(n: i64) -> (r: Vec<char>)
    requires
        n > i64::MIN,
    ensures
        r@ == signed_decimal(n as int),
{
    if n < 0 {
        let mut r = Vec::new();
        r.push('-');
        let m: u64 = (-n) as u64;
        let d = decimal_u64(m);
        push_all(&mut r, &d);
        r
    } else {
        decimal_u64(n as u64)
    }
}

/// `text` padded on the left with `fill` to at least `width` characters.
pub fn pad_start(text: &Vec<char>, fill: char, width: usize) -> (r: Vec<char>)
    ensures
        r@ == pad_left(text@, fill, width as nat),
{
    let mut r: Vec<char> = Vec::new();
    if text.len() < width {
        let n = width - text.len();
        let mut i: usize = 0;
        while i < n
            invariant
                i <= n,
                r@ == Seq::new(i as nat, |j: int| fill),
            decreases n - i,
        {
            r.push(fill);
            assert(r@ =~= Seq::new((i + 1) as nat, |j: int| fill));
            i = i + 1;
        }
    }
    push_all(&mut r, text);
    proof {
        if text.len() >= width {
            assert(r@ =~= text@);
        }
    }
    r
}

/// The value of a sequence of decimal digits.
pub open spec fn digits_value(s: Seq<char>) -> int
    decreases s.len(),
{
    if s.len() == 0 {
        0
    } else {
        digits_value(s.drop_last()) * 10 + digit_value(s.last())
    }
}

/// Whether every character of `s` is an ASCII decimal digit.
pub open spec fn all_digits(s: Seq<char>) -> bool {
    forall|i: int| 0 <= i < s.len() ==> is_digit(#[trigger] s[i])
}

/// What `str::parse::<i32>` gives: an optional sign, then one or more digits whose value fits.
pub open spec fn parse_i32_spec(s: Seq<char>) -> Option<i32> {
    let neg = s.len() > 0 && s[0] == '-';
    let signed = s.len() > 0 && (s[0] == '-' || s[0] == '+');
    let ds = if signed { s.skip(1) } else { s };
    let v = if neg { -digits_value(ds) } else { digits_value(ds) };
    if ds.len() == 0 || !all_digits(ds) || v < i32::MIN || v > i32::MAX {
        None
    } else {
        Some(v as i32)
    }
}

/// What `str::parse::<u64>` gives: an optional `+`, then one or more digits whose value fits.
pub open spec fn parse_u64_spec(s: Seq<char>) -> Option<u64> {
    let ds = if s.len() > 0 && s[0] == '+' { s.skip(1) } else { s };
    if ds.len() == 0 || !all_digits(ds) || digits_value(ds) > u64::MAX {
        None
    } else {
        Some(digits_value(ds) as u64)
    }
}

proof fn lemma_digits_value_nonneg(s: Seq<char>)
    requires
        all_digits(s),
    ensures
        digits_value(s) >= 0,
    decreases s.len(),
{
    if s.len() > 0 {
        assert(all_digits(s.drop_last()));
        lemma_digits_value_nonneg(s.drop_last());
        assert(is_digit(s[s.len() - 1]));
    }
}

proof fn lemma_digits_value_prefix(s: Seq<char>, k: int, j: int)
    requires
        all_digits(s),
        0 <= k <= j <= s.len(),
    ensures
        digits_value(s.take(k)) <= digits_value(s.take(j)),
    decreases j - k,
{
    if k < j {
        lemma_digits_value_prefix(s, k, j - 1);
        let t = s.take(j);
        assert(t.drop_last() =~= s.take(j - 1));
        assert(all_digits(s.take(j - 1)));
        lemma_digits_value_nonneg(s.take(j - 1));
        assert(is_digit(s[j - 1]));
    }
}

/// Reads the digits of `s` from `start` on as a number no larger than `bound`.
fn digits_upto(s: &Vec<char>, start: usize, bound: u64) -> (r: Option<u64>)
    requires
        start <= s.len(),
        bound >= 9,
    ensures
        r is Some <==> (all_digits(s@.skip(start as int)) && digits_value(s@.skip(start as int)) <= bound),
        r matches Some(v) ==> v == digits_value(s@.skip(start as int)),
{
    let ghost ds = s@.skip(start as int);
    let mut v: u64 = 0;
    let mut i: usize = start;
    assert(ds.take(0) =~= Seq::<char>::empty());
    while i < s.len()
        invariant
            start <= i <= s.len(),
            ds == s@.skip(start as int),
            all_digits(ds.take(i - start)),
            v == digits_value(ds.take(i - start)),
            v <= bound,
            bound >= 9,
        decreases s.len() - i,
    {
        let c = s[i];
        let ghost k: int = i - start;
        assert(ds.take(k + 1).drop_last() =~= ds.take(k));
        assert(ds[k] == c);
        if !('0' <= c && c <= '9') {
            assert(!is_digit(ds[k]));
            return None;
        }
        let d: u64 = (c as u32 - '0' as u32) as u64;
        assert(d == digit_value(c));
        assert(all_digits(ds.take(k + 1)));
        if v > (bound - d) / 10 {
            proof {
                assert(v * 10 + d > bound) by (nonlinear_arith)
                    requires v > (bound - d) / 10, d <= bound;
                if all_digits(ds) {
                    lemma_digits_value_prefix(ds, k + 1, ds.len() as int);
                    assert(ds.take(ds.len() as int) =~= ds);
                }
            }
            return None;
        }
        v = v * 10 + d;
        i = i + 1;
    }
    assert(ds.take(s.len() - start) =~= ds);
    Some(v)
}

/// Parses a signed 32-bit integer as `str::parse::<i32>` does.
pub fn parse_i32(s: &Vec<char>) -> (r: Option<i32>)
    ensures
        r == parse_i32_spec(s@),
{
    let neg = s.len() > 0 && s[0] == '-';
    let signed = s.len() > 0 && (s[0] == '-' || s[0] == '+');
    let start: usize = if signed { 1 } else { 0 };
    assert(s@.skip(0) =~= s@);
    if start == s.len() {
        return None;
    }
    let bound: u64 = if neg { 2147483648 } else { 2147483647 };
    match digits_upto(s, start, bound) {
        None => {
            proof {
                let ds = s@.skip(start as int);
                if all_digits(ds) {
                    lemma_digits_value_nonneg(ds);
                }
            }
            None
        },
        Some(v) => {
            proof { lemma_digits_value_nonneg(s@.skip(start as int)); }
            if neg {
                Some((0 - (v as i64)) as i32)
            } else {
                Some(v as i32)
            }
        },
    }
}

/// Parses an unsigned 64-bit integer as `str::parse::<u64>` does.
pub fn parse_u64(s: &Vec<char>) -> (r: Option<u64>)
    ensures
        r == parse_u64_spec(s@),
{
    let start: usize = if s.len() > 0 && s[0] == '+' { 1 } else { 0 };
    assert(s@.skip(0) =~= s@);
    if start == s.len() {
        return None;
    }
    let r = digits_upto(s, start, u64::MAX);
    proof {
        let ds = s@.skip(start as int);
        if all_digits(ds) {
            lemma_digits_value_nonneg(ds);
        }
    }
    r
}


/// `s` cut into consecutive pieces of `k` characters, the last one possibly shorter,
/// as `[T]::chunks(k)` yields them (an empty text gives no piece).
pub open spec fn chunks_of(s: Seq<char>, k: nat) -> Seq<Seq<char>>
    decreases s.len(),
{
    if s.len() == 0 || k == 0 {
        Seq::<Seq<char>>::empty()
    } else if s.len() <= k {
        seq![s]
    } else {
        seq![s.take(k as int)] + chunks_of(s.skip(k as int), k)
    }
}

/// The concatenation of a sequence of pieces.
pub open spec fn concat(parts: Seq<Seq<char>>) -> Seq<char>
    decreases parts.len(),
{
    if parts.len() == 0 {
        Seq::<char>::empty()
    } else {
        parts[0] + concat(parts.skip(1))
    }
}

/// Law: the chunks of a text, put back together, are the text; each holds between one
/// and `k` characters.
pub proof fn lemma_chunks_concat(s: Seq<char>, k: nat)
    requires
        k > 0,
    ensures
        concat(chunks_of(s, k)) == s,
        forall|i: int| 0 <= i < chunks_of(s, k).len() ==>
            1 <= #[trigger] chunks_of(s, k)[i].len() <= k,
    decreases s.len(),
{
    if s.len() > k {
        lemma_chunks_concat(s.skip(k as int), k);
        let c = chunks_of(s, k);
        assert(c.skip(1) =~= chunks_of(s.skip(k as int), k));
        assert(s.take(k as int) + s.skip(k as int) =~= s);
        assert forall|i: int| 0 <= i < c.len() implies 1 <= #[trigger] c[i].len() <= k by {
            if i > 0 {
                assert(c[i] == chunks_of(s.skip(k as int), k)[i - 1]);
            }
        }
        assert(concat(c) == c[0] + concat(c.skip(1)));
        assert(concat(c) =~= s);
    } else if s.len() > 0 {
        let c = chunks_of(s, k);
        assert(c.skip(1) =~= Seq::<Seq<char>>::empty());
        assert(concat(c) == c[0] + concat(c.skip(1)));
        assert(s + Seq::<char>::empty() =~= s);
    }
}

/// Appends the characters of a text.
pub fn push_str(dst: &mut Vec<char>, s: &str)
    ensures
        final(dst)@ == old(dst)@ + s@,
{
    push_all(dst, &chars_of(s));
}

/// Whether `s` begins with `p`.
pub fn starts_with(s: &str, p: &str) -> (r: bool)
    ensures
        r == (p@.len() <= s@.len() && s@.take(p@.len() as int) == p@),
{
    let sc = chars_of(s);
    let pc = chars_of(p);
    let r = matches_at(&sc, 0, &pc);
    assert(s@.subrange(0, p@.len() as int) =~= s@.take(p@.len() as int));
    r
}

/// Whether `s` ends with `p`.
pub fn ends_with(s: &str, p: &str) -> (r: bool)
    ensures
        r == (p@.len() <= s@.len() && s@.skip(s@.len() - p@.len()) == p@),
{
    let sc = chars_of(s);
    let pc = chars_of(p);
    if pc.len() > sc.len() {
        return false;
    }
    let at = sc.len() - pc.len();
    let r = matches_at(&sc, at, &pc);
    assert(s@.subrange(at as int, at + p@.len()) =~= s@.skip(s@.len() - p@.len()));
    r
}

/// A copy of a list of strings.
pub fn copy_strings(v: &Vec<String>) -> (r: Vec<String>)
    ensures
        r@.map_values(|s: String| s@) == v@.map_values(|s: String| s@),
{
    let mut r: Vec<String> = Vec::new();
    let mut i: usize = 0;
    while i < v.len()
        invariant
            i <= v.len(),
            r@.map_values(|s: String| s@) == v@.map_values(|s: String| s@).take(i as int),
        decreases v.len() - i,
    {
        let ghost before = r@;
        let x = v[i].clone();
        r.push(x);
        assert(r@.map_values(|s: String| s@) =~= before.map_values(|s: String| s@).push(x@));
        assert(v@.map_values(|s: String| s@).take(i + 1) =~= v@.map_values(|s: String| s@).take(i as int).push(v@[i as int]@));
        i = i + 1;
    }
    assert(v@.map_values(|s: String| s@).take(v.len() as int) =~= v@.map_values(|s: String| s@));
    r
}

/// Cuts `s` into pieces of `k` characters, as `[T]::chunks(k)` does.
pub fn chunks(s: &Vec<char>, k: usize) -> (r: Vec<Vec<char>>)
    requires
        k > 0,
    ensures
        views(r@) == chunks_of(s@, k as nat),
{
    let mut r: Vec<Vec<char>> = Vec::new();
    let mut start: usize = 0;
    assert(s@.skip(0) =~= s@);
    while start < s.len()
        invariant
            k > 0,
            start <= s.len(),
            views(r@) + chunks_of(s@.skip(start as int), k as nat) == chunks_of(s@, k as nat),
        decreases s.len() - start,
    {
        let ghost rest = s@.skip(start as int);
        let end: usize = if s.len() - start <= k { s.len() } else { start + k };
        let piece = slice_chars(s, start, end);
        r.push(piece);
        proof {
            if s.len() - start <= k {
                assert(piece@ =~= rest);
                assert(s@.skip(end as int) =~= Seq::<char>::empty());
            } else {
                assert(piece@ =~= rest.take(k as int));
                assert(rest.skip(k as int) =~= s@.skip(end as int));
            }
            assert(views(r@) =~= views(r@.drop_last()).push(piece@));
            assert(views(r@) + chunks_of(s@.skip(end as int), k as nat)
                =~= views(r@.drop_last()) + chunks_of(rest, k as nat));
        }
        start = end;
    }
    assert(views(r@) + Seq::<Seq<char>>::empty() =~= views(r@));
    r
}

/// The index of the first `c` in `s`, if any.
pub open spec fn first_index(s: Seq<char>, c: char) -> Option<int>
    decreases s.len(),
{
    if s.len() == 0 {
        None
    } else if s[0] == c {
        Some(0)
    } else {
        match first_index(s.skip(1), c) {
            Some(i) => Some(i + 1),
            None => None,
        }
    }
}

/// At most `n` pieces of `s` split at `sep` from the left, the last holding the rest,
/// as `str::splitn(n, sep)` yields them.
pub open spec fn splitn_spec(s: Seq<char>, n: nat, sep: char) -> Seq<Seq<char>>
    decreases n,
{
    if n == 0 {
        Seq::<Seq<char>>::empty()
    } else if n == 1 {
        seq![s]
    } else {
        match first_index(s, sep) {
            None => seq![s],
            Some(i) => seq![s.take(i)] + splitn_spec(s.skip(i + 1), (n - 1) as nat, sep),
        }
    }
}

/// Finds the first `c` in `s` at or after `from`.
pub fn find_from(s: &Vec<char>, from: usize, c: char) -> (r: Option<usize>)
    requires
        from <= s.len(),
    ensures
        match first_index(s@.skip(from as int), c) {
            Some(i) => r == Some((from + i) as usize),
            None => r is None,
        },
    decreases s.len() - from,
{
    if from == s.len() {
        return None;
    }
    assert(s@.skip(from as int).skip(1) =~= s@.skip(from + 1));
    if s[from] == c {
        Some(from)
    } else {
        find_from(s, from + 1, c)
    }
}

pub proof fn lemma_first_index_bounds(s: Seq<char>, c: char)
    ensures
        first_index(s, c) matches Some(i) ==> 0 <= i < s.len() && s[i] == c,
    decreases s.len(),
{
    if s.len() > 0 && s[0] != c {
        lemma_first_index_bounds(s.skip(1), c);
    }
}

/// Splits `s` at `sep` into at most `n` pieces, as `str::splitn(n, sep)` does.
pub fn splitn(s: &Vec<char>, n: usize, sep: char) -> (r: Vec<Vec<char>>)
    ensures
        views(r@) == splitn_spec(s@, n as nat, sep),
{
    let mut r: Vec<Vec<char>> = Vec::new();
    if n == 0 {
        return r;
    }
    let mut start: usize = 0;
    assert(s@.skip(0) =~= s@);
    while r.len() + 1 < n
        invariant
            r.len() < n,
            start <= s.len(),
            views(r@) + splitn_spec(s@.skip(start as int), (n - r.len()) as nat, sep)
                == splitn_spec(s@, n as nat, sep),
        decreases n - r.len(),
    {
        let ghost rest = s@.skip(start as int);
        match find_from(s, start, sep) {
            None => {
                let last = suffix_from(s, start);
                r.push(last);
                assert(splitn_spec(rest, (n - r.len() + 1) as nat, sep) == seq![rest]);
                assert(views(r@) =~= views(r@.drop_last()) + seq![rest]);
                return r;
            },
            Some(j) => {
                proof { lemma_first_index_bounds(rest, sep); }
                let piece = slice_chars(s, start, j);
                r.push(piece);
                assert(piece@ =~= rest.take(j - start));
                assert(rest.skip(j - start + 1) =~= s@.skip(j + 1));
                assert(views(r@) =~= views(r@.drop_last()).push(piece@));
                assert(views(r@) + splitn_spec(s@.skip(j + 1), (n - r.len()) as nat, sep)
                    =~= views(r@.drop_last()) + splitn_spec(rest, (n - r.len() + 1) as nat, sep));
                start = j + 1;
            },
        }
    }
    let last = suffix_from(s, start);
    r.push(last);
    assert(views(r@) =~= views(r@.drop_last()) + splitn_spec(s@.skip(start as int), 1, sep));
    r
}

/// The last piece of `s` split at `sep`: what follows the last `sep`, or all of `s`.
pub fn last_piece(s: &Vec<char>, sep: char) -> (r: Vec<char>)
    ensures
        r@ == split_on(s@, sep).last(),
{
    let mut parts = split(s, sep);
    let last = parts.pop();
    match last {
        Some(p) => p,
        None => Vec::new(),
    }
}


/// Whether `a` comes before `b` in the order of `String`'s `Ord`: character by character, a
/// proper prefix first.
pub open spec fn text_lt(a: Seq<char>, b: Seq<char>) -> bool
    decreases a.len(),
{
    if a.len() == 0 {
        b.len() > 0
    } else if b.len() == 0 {
        false
    } else if a[0] != b[0] {
        (a[0] as u32) < (b[0] as u32)
    } else {
        text_lt(a.skip(1), b.skip(1))
    }
}

pub proof fn lemma_text_lt_irreflexive(a: Seq<char>)
    ensures
        !text_lt(a, a),
    decreases a.len(),
{
    if a.len() > 0 {
        lemma_text_lt_irreflexive(a.skip(1));
    }
}

pub proof fn lemma_text_lt_total(a: Seq<char>, b: Seq<char>)
    ensures
        text_lt(a, b) || a == b || text_lt(b, a),
        !(text_lt(a, b) && text_lt(b, a)),
    decreases a.len(),
{
    if a.len() > 0 && b.len() > 0 {
        lemma_text_lt_total(a.skip(1), b.skip(1));
        vstd::utf8::char_u32_cast(a[0], a[0] as u32);
        vstd::utf8::char_u32_cast(b[0], b[0] as u32);
        if a[0] == b[0] && a.skip(1) == b.skip(1) {
            assert(a =~= seq![a[0]] + a.skip(1));
            assert(b =~= seq![b[0]] + b.skip(1));
        }
    } else if a.len() == 0 && b.len() == 0 {
        assert(a =~= b);
    }
}

pub proof fn lemma_text_lt_transitive(a: Seq<char>, b: Seq<char>, c: Seq<char>)
    requires
        text_lt(a, b),
        text_lt(b, c),
    ensures
        text_lt(a, c),
    decreases a.len(),
{
    if a.len() > 0 && b.len() > 0 && c.len() > 0 {
        if a[0] == b[0] && b[0] == c[0] {
            lemma_text_lt_transitive(a.skip(1), b.skip(1), c.skip(1));
        }
    }
}

/// Compares two texts in `String` order.
pub fn text_less(a: &Vec<char>, b: &Vec<char>) -> (r: bool)
    ensures
        r == text_lt(a@, b@),
{
    let mut i: usize = 0;
    assert(a@.skip(0) =~= a@);
    assert(b@.skip(0) =~= b@);
    while i < a.len() && i < b.len() && a[i] == b[i]
        invariant
            i <= a.len(),
            i <= b.len(),
            text_lt(a@.skip(i as int), b@.skip(i as int)) == text_lt(a@, b@),
        decreases a.len() - i,
    {
        assert(a@.skip(i as int).skip(1) =~= a@.skip(i + 1));
        assert(b@.skip(i as int).skip(1) =~= b@.skip(i + 1));
        i = i + 1;
    }
    if i == a.len() {
        i < b.len()
    } else if i == b.len() {
        false
    } else {
        (a[i] as u32) < (b[i] as u32)
    }
}

/// Texts in strictly increasing `String` order.
pub open spec fn strictly_sorted(v: Seq<Seq<char>>) -> bool {
    forall|i: int, j: int| 0 <= i < j < v.len() ==> text_lt(#[trigger] v[i], #[trigger] v[j])
}

/// The texts of a finite set listed in strictly increasing `String` order.
pub open spec fn sorted_listing(s: Set<Seq<char>>) -> Seq<Seq<char>> {
    choose|l: Seq<Seq<char>>| strictly_sorted(l) && l.to_set() == s
}

/// Two strictly increasing listings of the same texts are the same listing.
pub proof fn lemma_sorted_listing_unique(a: Seq<Seq<char>>, b: Seq<Seq<char>>)
    requires
        strictly_sorted(a),
        strictly_sorted(b),
        a.to_set() == b.to_set(),
    ensures
        a == b,
    decreases a.len(),
{
    if a.len() == 0 {
        if b.len() > 0 {
            assert(b.contains(b[0]));
            assert(b.to_set().contains(b[0]));
        }
        assert(a =~= b);
    } else {
        assert(a.contains(a[0]));
        assert(a.to_set().contains(a[0]));
        assert(b.contains(a[0]));
        let j = choose|j: int| 0 <= j < b.len() && b[j] == a[0];
        assert(b.contains(b[0]));
        assert(b.to_set().contains(b[0]));
        assert(a.contains(b[0]));
        let i = choose|i: int| 0 <= i < a.len() && a[i] == b[0];
        if j > 0 {
            assert(text_lt(b[0], b[j]));
            if i > 0 {
                assert(text_lt(a[0], a[i]));
                lemma_text_lt_total(a[0], a[i]);
            } else {
                lemma_text_lt_irreflexive(a[0]);
            }
        }
        assert(a[0] == b[0]);
        let a1 = a.skip(1);
        let b1 = b.skip(1);
        assert forall|t: Seq<char>| a1.to_set().contains(t) <==> b1.to_set().contains(t) by {
            if a1.contains(t) {
                let k = choose|k: int| 0 <= k < a1.len() && a1[k] == t;
                assert(a[k + 1] == t);
                assert(a.contains(t));
                assert(a.to_set().contains(t));
                assert(b.contains(t));
                let m = choose|m: int| 0 <= m < b.len() && b[m] == t;
                if m == 0 {
                    assert(text_lt(a[0], a[k + 1]));
                    lemma_text_lt_irreflexive(a[0]);
                }
                assert(b1[m - 1] == t);
                assert(b1.contains(t));
            }
            if b1.contains(t) {
                let k = choose|k: int| 0 <= k < b1.len() && b1[k] == t;
                assert(b[k + 1] == t);
                assert(b.contains(t));
                assert(b.to_set().contains(t));
                assert(a.contains(t));
                let m = choose|m: int| 0 <= m < a.len() && a[m] == t;
                if m == 0 {
                    assert(text_lt(b[0], b[k + 1]));
                    lemma_text_lt_irreflexive(b[0]);
                }
                assert(a1[m - 1] == t);
                assert(a1.contains(t));
            }
        }
        assert(a1.to_set() =~= b1.to_set());
        assert(strictly_sorted(a1)) by {
            assert forall|x: int, y: int| 0 <= x < y < a1.len() implies text_lt(#[trigger] a1[x], #[trigger] a1[y]) by {
                assert(a1[x] == a[x + 1] && a1[y] == a[y + 1]);
            }
        }
        assert(strictly_sorted(b1)) by {
            assert forall|x: int, y: int| 0 <= x < y < b1.len() implies text_lt(#[trigger] b1[x], #[trigger] b1[y]) by {
                assert(b1[x] == b[x + 1] && b1[y] == b[y + 1]);
            }
        }
        lemma_sorted_listing_unique(a1, b1);
        assert(a.len() == b.len());
        assert forall|k: int| 0 <= k < a.len() implies a[k] == b[k] by {
            if k > 0 {
                assert(a[k] == a1[k - 1] && b[k] == b1[k - 1]);
            }
        }
        assert(a =~= b);
    }
}

proof fn lemma_finite_max(s: Set<Seq<char>>) -> (m: Seq<char>)
    requires
        s.finite(),
        s.len() > 0,
    ensures
        s.contains(m),
        forall|t: Seq<char>| #[trigger] s.contains(t) && t != m ==> text_lt(t, m),
    decreases s.len(),
{
    let y = s.choose();
    let rest = s.remove(y);
    if rest.len() == 0 {
        assert forall|t: Seq<char>| #[trigger] s.contains(t) && t != y implies text_lt(t, y) by {
            assert(rest.contains(t));
        }
        y
    } else {
        let m2 = lemma_finite_max(rest);
        lemma_text_lt_total(m2, y);
        if text_lt(m2, y) {
            assert forall|t: Seq<char>| #[trigger] s.contains(t) && t != y implies text_lt(t, y) by {
                assert(rest.contains(t));
                if t != m2 {
                    lemma_text_lt_transitive(t, m2, y);
                }
            }
            y
        } else {
            assert forall|t: Seq<char>| #[trigger] s.contains(t) && t != m2 implies text_lt(t, m2) by {
                if t != y {
                    assert(rest.contains(t));
                }
            }
            m2
        }
    }
}

proof fn lemma_sorted_listing_exists(s: Set<Seq<char>>)
    requires
        s.finite(),
    ensures
        exists|l: Seq<Seq<char>>| strictly_sorted(l) && l.to_set() == s,
    decreases s.len(),
{
    if s.len() == 0 {
        let l = Seq::<Seq<char>>::empty();
        assert(l.to_set() =~= s);
        assert(strictly_sorted(l));
    } else {
        let m = lemma_finite_max(s);
        let rest = s.remove(m);
        lemma_sorted_listing_exists(rest);
        let l0 = choose|l: Seq<Seq<char>>| strictly_sorted(l) && l.to_set() == rest;
        let l = l0.push(m);
        assert forall|i: int, j: int| 0 <= i < j < l.len() implies text_lt(#[trigger] l[i], #[trigger] l[j]) by {
            if j == l0.len() {
                assert(l0.contains(l0[i]));
                assert(l0.to_set().contains(l0[i]));
                assert(l[i] == l0[i]);
            } else {
                assert(l[i] == l0[i] && l[j] == l0[j]);
            }
        }
        l0.lemma_push_to_set_commute(m);
        assert(rest.insert(m) =~= s);
    }
}

/// A strictly increasing listing holds no text twice.
pub proof fn lemma_strictly_sorted_no_duplicates(l: Seq<Seq<char>>)
    requires
        strictly_sorted(l),
    ensures
        l.no_duplicates(),
{
    assert forall|i: int, j: int| 0 <= i < l.len() && 0 <= j < l.len() && i != j implies l[i] != l[j] by {
        if i < j {
            assert(text_lt(l[i], l[j]));
            lemma_text_lt_irreflexive(l[i]);
        } else {
            assert(text_lt(l[j], l[i]));
            lemma_text_lt_irreflexive(l[j]);
        }
    }
}

/// The listing of a finite set of texts is in strictly increasing order, holds no text
/// twice, and holds exactly the texts of the set.
pub proof fn lemma_sorted_listing(s: Set<Seq<char>>)
    requires
        s.finite(),
    ensures
        strictly_sorted(sorted_listing(s)),
        sorted_listing(s).no_duplicates(),
        sorted_listing(s).to_set() == s,
{
    lemma_sorted_listing_exists(s);
    lemma_strictly_sorted_no_duplicates(sorted_listing(s));
}

/// The strings sorted in `String` order with repeats dropped, as `sort` then `dedup` leave
/// them: the strictly increasing listing of their texts.
pub fn sorted_unique(v: &Vec<String>) -> (r: Vec<String>)
    ensures
        r@.map_values(|s: String| s@) == sorted_listing(v@.map_values(|s: String| s@).to_set()),
        r@.map_values(|s: String| s@).to_set() == v@.map_values(|s: String| s@).to_set(),
{
    let mut r: Vec<String> = Vec::new();
    let mut i: usize = 0;
    while i < v.len()
        invariant
            i <= v.len(),
            strictly_sorted(r@.map_values(|s: String| s@)),
            r@.map_values(|s: String| s@).to_set() == v@.take(i as int).map_values(|s: String| s@).to_set(),
        decreases v.len() - i,
    {
        let x = v[i].clone();
        let xc = chars_of(x.as_str());
        let ghost rv = r@.map_values(|s: String| s@);
        let mut k: usize = 0;
        while k < r.len() && text_less(&chars_of(r[k].as_str()), &xc)
            invariant
                k <= r.len(),
                rv == r@.map_values(|s: String| s@),
                forall|j: int| 0 <= j < k ==> text_lt(rv[j], xc@),
            decreases r.len() - k,
        {
            k = k + 1;
        }
        let present = k < r.len() && r[k] == x;
        proof {
            assert(v@.take(i + 1).map_values(|s: String| s@) =~= v@.take(i as int).map_values(|s: String| s@).push(x@));
        }
        if !present {
            proof {
                if k < r.len() {
                    lemma_text_lt_total(rv[k as int], x@);
                }
                assert forall|j: int| k <= j < rv.len() implies text_lt(x@, #[trigger] rv[j]) by {
                    lemma_text_lt_total(rv[k as int], x@);
                    if j > k {
                        lemma_text_lt_transitive(x@, rv[k as int], rv[j]);
                    }
                }
            }
            r.insert(k, x);
            proof {
                let nv = r@.map_values(|s: String| s@);
                assert(nv =~= rv.insert(k as int, x@));
                assert forall|a: int, b: int| 0 <= a < b < nv.len() implies text_lt(#[trigger] nv[a], #[trigger] nv[b]) by {
                    if b == k {
                    } else if a == k {
                        assert(nv[b] == rv[b - 1]);
                    } else if a < k && b > k {
                        assert(nv[b] == rv[b - 1]);
                        lemma_text_lt_transitive(rv[a], x@, rv[b - 1]);
                    } else if a > k {
                        assert(nv[a] == rv[a - 1] && nv[b] == rv[b - 1]);
                    }
                }
                assert(nv.to_set() =~= rv.to_set().insert(x@)) by {
                    assert forall|t: Seq<char>| nv.to_set().contains(t) <==> rv.to_set().insert(x@).contains(t) by {
                        if nv.contains(t) {
                            let a = choose|a: int| 0 <= a < nv.len() && nv[a] == t;
                            if a < k { assert(rv[a] == t); } else if a > k { assert(rv[a - 1] == t); }
                        }
                        if rv.contains(t) {
                            let a = choose|a: int| 0 <= a < rv.len() && rv[a] == t;
                            if a < k { assert(nv[a] == t); } else { assert(nv[a + 1] == t); }
                        }
                        if t == x@ { assert(nv[k as int] == t); }
                    }
                }
            }
        } else {
            proof {
                assert(rv[k as int] == x@);
                assert(rv.to_set().insert(x@) =~= rv.to_set());
            }
        }
        proof {
            v@.take(i as int).map_values(|s: String| s@).lemma_push_to_set_commute(x@);
        }
        i = i + 1;
    }
    assert(v@.take(v.len() as int) =~= v@);
    proof {
        let rv = r@.map_values(|s: String| s@);
        let set = v@.map_values(|s: String| s@).to_set();
        let l = sorted_listing(set);
        assert(strictly_sorted(rv) && rv.to_set() == set);
        lemma_sorted_listing_unique(l, rv);
    }
    r
}

/// Names what `str::to_lowercase` gives back for a text: each character replaced by its
/// Unicode lowercase mapping.
pub uninterp spec fn lowercase(s: Seq<char>) -> Seq<char>;

/// Lowercases a text with `str::to_lowercase`.
#[verifier::external_body]
pub(crate) fn to_lowercase(s: &str) -> (r: String)
    ensures
        r@ == lowercase(s@),
{
    s.to_lowercase()
}

} // verus!
