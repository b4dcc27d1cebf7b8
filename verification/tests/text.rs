use shaysbot::text::{
    chunks, decimal_i64, decimal_u64, eq_chars, find_from, join, last_piece, matches_at, pad_start,
    parse_i32, parse_u64, remove_matches, replace_matches, slice_chars, sorted_unique, split, splitn,
    suffix_from, text_less,
};

fn cs(s: &str) -> Vec<char> {
    s.chars().collect()
}

fn st(v: &[char]) -> String {
    v.iter().collect()
}

fn pieces(v: &[Vec<char>]) -> Vec<String> {
    v.iter().map(|p| st(p)).collect()
}

#[test]
fn split_matches_str_split() {
    for s in ["", "a", "a b", " a  b ", "!pearl > Steve", "::"] {
        let got = pieces(&split(&cs(s), ' '));
        let want: Vec<String> = s.split(' ').map(|p| p.to_string()).collect();
        assert_eq!(got, want, "{s:?}");
    }
}

#[test]
fn join_undoes_split() {
    for s in ["", "x", "a,b,,c", ",", "no separators"] {
        let parts = split(&cs(s), ',');
        assert_eq!(st(&join(&parts, &cs(","))), s);
    }
}

#[test]
fn join_with_longer_separator() {
    let parts = vec![cs("a"), cs("b"), cs("c")];
    assert_eq!(st(&join(&parts, &cs(", "))), "a, b, c");
    assert_eq!(st(&join(&Vec::new(), &cs(", "))), "");
}

#[test]
fn chunks_concatenate_back() {
    let s: String = (0..600).map(|i| char::from(b'a' + (i % 26) as u8)).collect();
    let got = chunks(&cs(&s), 256);
    assert_eq!(got.len(), 3);
    assert_eq!(got[0].len(), 256);
    assert_eq!(got[2].len(), 600 - 512);
    let back: String = got.iter().map(|c| st(c)).collect();
    assert_eq!(back, s);
    assert!(chunks(&cs(""), 5).is_empty());
}

#[test]
fn splitn_matches_str_splitn() {
    for (s, n) in [("a b c d", 3usize), ("a", 2), ("", 1), ("a b", 1), ("a  b", 2), ("x y", 0)] {
        let got = pieces(&splitn(&cs(s), n, ' '));
        let want: Vec<String> = s.splitn(n, ' ').map(|p| p.to_string()).collect();
        assert_eq!(got, want, "{s:?} {n}");
    }
}

#[test]
fn last_piece_is_after_last_separator() {
    assert_eq!(st(&last_piece(&cs("https://x/releases/tag/1.2.3"), '/')), "1.2.3");
    assert_eq!(st(&last_piece(&cs("plain"), '/')), "plain");
    assert_eq!(st(&last_piece(&cs("ends/"), '/')), "");
}

#[test]
fn decimals_match_formatting() {
    for n in [0u64, 7, 10, 99, 12345, u64::MAX] {
        assert_eq!(st(&decimal_u64(n)), n.to_string());
    }
    for n in [0i64, -1, -90, 42, i64::MAX, i64::MIN + 1] {
        assert_eq!(st(&decimal_i64(n)), n.to_string());
    }
}

#[test]
fn pad_start_pads_to_width() {
    assert_eq!(st(&pad_start(&cs("7"), '0', 2)), "07");
    assert_eq!(st(&pad_start(&cs("123"), '0', 2)), "123");
    assert_eq!(st(&pad_start(&cs(""), ' ', 3)), "   ");
}

#[test]
fn parse_i32_matches_str_parse() {
    for s in ["0", "-0", "+5", "-", "+", "", "12a", "2147483647", "2147483648", "-2147483648", "-2147483649", " 1", "007"] {
        assert_eq!(parse_i32(&cs(s)), s.parse::<i32>().ok(), "{s:?}");
    }
}

#[test]
fn parse_u64_matches_str_parse() {
    for s in ["0", "+5", "-5", "", "18446744073709551615", "18446744073709551616", "1_0"] {
        assert_eq!(parse_u64(&cs(s)), s.parse::<u64>().ok(), "{s:?}");
    }
}

#[test]
fn find_from_finds_first_after_start() {
    let s = cs("a:b:c");
    assert_eq!(find_from(&s, 0, ':'), Some(1));
    assert_eq!(find_from(&s, 2, ':'), Some(3));
    assert_eq!(find_from(&s, 4, ':'), None);
    assert_eq!(find_from(&s, 5, ':'), None);
}

#[test]
fn slices_and_suffixes() {
    let s = cs("hello world");
    assert_eq!(st(&slice_chars(&s, 0, 5)), "hello");
    assert_eq!(st(&suffix_from(&s, 6)), "world");
    assert!(matches_at(&s, 6, &cs("wor")));
    assert!(!matches_at(&s, 9, &cs("ldx")));
    assert!(eq_chars(&cs("abc"), &cs("abc")));
    assert!(!eq_chars(&cs("abc"), &cs("abd")));
}

#[test]
fn remove_and_replace_match_std() {
    for (s, p) in [("Basic abc", "Basic "), ("aaa", "aa"), ("xyz", "q"), ("", "a")] {
        assert_eq!(st(&remove_matches(&cs(s), &cs(p))), s.replace(p, ""), "{s:?}");
        assert_eq!(st(&replace_matches(&cs(s), &cs(p), &cs("-"))), s.replace(p, "-"), "{s:?}");
    }
}

#[test]
fn text_order_matches_string_order() {
    let words = ["", "a", "ab", "b", "B", "ba", "é", "Zed"];
    for a in words {
        for b in words {
            assert_eq!(text_less(&cs(a), &cs(b)), a.to_string() < b.to_string(), "{a:?} {b:?}");
        }
    }
}

#[test]
fn sorted_unique_matches_sort_dedup() {
    let v: Vec<String> = ["steve", "alex", "steve", "Bob", "alex", ""].iter().map(|s| s.to_string()).collect();
    let mut want = v.clone();
    want.sort();
    want.dedup();
    assert_eq!(sorted_unique(&v), want);
    assert!(sorted_unique(&Vec::new()).is_empty());
}

#[test]
fn sorted_unique_is_idempotent() {
    let v: Vec<String> = ["c", "a", "b", "a"].iter().map(|s| s.to_string()).collect();
    let once = sorted_unique(&v);
    assert_eq!(sorted_unique(&once), once);
}
