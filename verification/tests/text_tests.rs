use hyfetch::text::{
    chars_eq, chars_of, has_prefix_at, join, lines, replace, split_after_first, string_of, trim,
    white_space,
};

fn cs(s: &str) -> Vec<char> {
    s.chars().collect()
}

fn st(v: &[char]) -> String {
    v.iter().collect()
}

#[test]
fn white_space_agrees_with_std_on_every_char() {
    for u in 0u32..=0x10FFFF {
        if let Some(c) = char::from_u32(u) {
            assert_eq!(white_space(c), c.is_whitespace(), "char {u:#x}");
        }
    }
}

#[test]
fn trim_agrees_with_std() {
    let samples = [
        "", " ", "  a  ", "\t\nabc\r\n", "a b", "\u{3000}x\u{2028}", "\u{85}y\u{a0}", "no-trim",
        "\u{200b}z\u{200b}",
    ];
    for s in samples {
        assert_eq!(st(&trim(&cs(s))), s.trim(), "sample {s:?}");
    }
}

#[test]
fn lines_agree_with_std() {
    let samples = [
        "", "\n", "a", "a\n", "a\nb", "a\r\nb\r\n", "a\r", "\r\n", "\n\n", "x\n\ny\n", "a\rb\nc",
        "foo\nbar\n\r\nbaz\r",
    ];
    for s in samples {
        let ours: Vec<String> = lines(&cs(s)).iter().map(|l| st(l)).collect();
        let theirs: Vec<String> = s.lines().map(|l| l.to_string()).collect();
        assert_eq!(ours, theirs, "sample {s:?}");
    }
}

#[test]
fn replace_agrees_with_std() {
    let samples = [
        ("aaa", "aa", "b"),
        ("a\\b\\\\c", "\\", "\\\\"),
        ("a\\\\\\b", "\\\\", "\\"),
        ("OS: Arch Linux", "OS: ", ""),
        ("OOS: S: ", "OS: ", ""),
        ("", "x", "y"),
        ("xyz", "xyz", ""),
    ];
    for (s, p, r) in samples {
        assert_eq!(st(&replace(&cs(s), &cs(p), &cs(r))), s.replace(p, r), "sample {s:?}");
    }
}

#[test]
fn join_agrees_with_std() {
    let parts = vec!["a".to_string(), "".to_string(), "bc".to_string()];
    assert_eq!(st(&join(&parts, "|")), parts.join("|"));
    assert_eq!(st(&join(&Vec::new(), "|")), "");
    assert_eq!(st(&join(&vec!["one".to_string()], ", ")), "one");
}

#[test]
fn split_after_first_dash() {
    assert_eq!(st(&split_after_first(&cs("Distribution - Arch Linux"), '-')), " Arch Linux");
    assert_eq!(st(&split_after_first(&cs("a-b-c"), '-')), "b-c");
    assert_eq!(st(&split_after_first(&cs("no dash"), '-')), "no dash");
    assert_eq!(st(&split_after_first(&cs("-"), '-')), "");
}

#[test]
fn small_helpers() {
    assert!(chars_eq(&cs("abc"), &cs("abc")));
    assert!(!chars_eq(&cs("abc"), &cs("abd")));
    assert!(!chars_eq(&cs("ab"), &cs("abc")));
    assert!(has_prefix_at(&cs("xxabc"), 2, &cs("ab")));
    assert!(!has_prefix_at(&cs("xxabc"), 4, &cs("cd")));
    assert_eq!(chars_of("héllo"), cs("héllo"));
    assert_eq!(string_of(&cs("héllo")), "héllo");
}
