use regex::Regex;
use shaysbot::chat_format::{parse_line, ChatFormat};

fn cs(s: &str) -> Vec<char> {
    s.chars().collect()
}

fn st(v: &[char]) -> String {
    v.iter().collect()
}

const LINES: [&str; 24] = [
    "Steve whispers: !pearl",
    "Steve whispers: ",
    "Steve -> me] !help",
    "[VIP] Steve > hi there",
    "[VIP] [Mod] Steve hello",
    "[a] b] Steve x",
    "Steve > whispers: -> me] x",
    "Steve",
    "Steve ",
    "Steve  ",
    "Averyveryverylongname hi",
    "abcdefghijklmnop ok",
    "abcdefghijklmnopq ok",
    "[Tag]Steve hi",
    " Steve hi",
    "[x] Steve > ",
    "[x] Steve >  y",
    "Steve -> !seen alex",
    "Steve whispers: whispers: twice",
    "two\nlines here",
    "Ünïcode name",
    "Name_1 ünïcode text",
    "[] Steve hi",
    "[t] Alex whispers: [t] Bob x",
];

fn check(f: ChatFormat, re: &str, marker_group: bool, markers: &[&str]) {
    let re = Regex::new(re).unwrap();
    for line in LINES {
        let got = parse_line(&cs(line), f);
        match re.captures(line) {
            None => assert!(got.is_none(), "{f:?} {line:?} should not match"),
            Some(c) => {
                let got = got.unwrap_or_else(|| panic!("{f:?} {line:?} should match"));
                assert_eq!(st(&got.name), &c[1], "{f:?} {line:?}");
                let content_group = if marker_group { 3 } else { 2 };
                assert_eq!(st(&got.content), &c[content_group], "{f:?} {line:?}");
                if marker_group {
                    let want = c.get(2).map(|m| markers.iter().position(|x| *x == m.as_str()).unwrap());
                    assert_eq!(got.marker, want, "{f:?} {line:?}");
                }
            }
        }
    }
}

#[test]
fn whisper_format_matches_its_expression() {
    check(
        ChatFormat::Whisper,
        r"^(?:\[.+\] )?([a-zA-Z_0-9]{1,16}) (?:> )?(whispers: |-> me] )?(.+)$",
        true,
        &["whispers: ", "-> me] "],
    );
}

#[test]
fn command_format_matches_its_expression() {
    check(
        ChatFormat::Command,
        r"^(?:\[.+\] )?([a-zA-Z_0-9]{1,16}) (?:> )?(whispers: |-> )?(.+)$",
        true,
        &["whispers: ", "-> "],
    );
}

#[test]
fn legacy_format_matches_its_expression() {
    check(
        ChatFormat::Legacy,
        r"^(?:\[.+\])? ([a-zA-Z_0-9]{1,16}) (?:> )?(whispers: )?(.+)$",
        true,
        &["whispers: "],
    );
}

#[test]
fn plain_format_matches_its_expression() {
    check(ChatFormat::Plain, r"^([a-zA-Z_0-9]{1,16}) (?:whispers: )?(.+)$", false, &[]);
}

#[test]
fn whisper_line_gives_name_and_message() {
    let l = parse_line(&cs("[VIP] Steve whispers: !pearl home"), ChatFormat::Whisper).unwrap();
    assert_eq!(st(&l.name), "Steve");
    assert_eq!(l.marker, Some(0));
    assert_eq!(st(&l.content), "!pearl home");
}

#[test]
fn line_with_newline_is_refused() {
    assert!(parse_line(&cs("Steve hi\nthere"), ChatFormat::Plain).is_none());
}
