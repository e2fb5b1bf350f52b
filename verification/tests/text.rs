use marker_sweep::lines::{line_end, next_line};
use marker_sweep::text::{
    blank_within, find_within, is_whitespace, is_word2, is_word3, is_word4, matches_at,
    push_chars, to_chars, trim_end_within,
};

fn chars(s: &str) -> Vec<char> {
    s.chars().collect()
}

#[test]
fn whitespace_agrees_with_std_on_every_char() {
    let mut code: u32 = 0;
    while code <= 0x10FFFF {
        if let Some(c) = char::from_u32(code) {
            assert_eq!(is_whitespace(c), c.is_whitespace(), "U+{:04X}", code);
        }
        code += 1;
    }
}

#[test]
fn to_chars_keeps_every_character() {
    assert_eq!(to_chars("a\u{203C}\u{FE0F}z"), vec!['a', '\u{203C}', '\u{FE0F}', 'z']);
    assert_eq!(to_chars(""), Vec::<char>::new());
}

#[test]
fn words_are_compared_whole() {
    assert!(is_word2(&chars("rs"), 'r', 's'));
    assert!(!is_word2(&chars("rx"), 'r', 's'));
    assert!(!is_word2(&chars("r"), 'r', 's'));
    assert!(!is_word2(&chars("rss"), 'r', 's'));
    assert!(is_word3(&chars("css"), 'c', 's', 's'));
    assert!(!is_word3(&chars("cs"), 'c', 's', 's'));
    assert!(!is_word3(&chars("csx"), 'c', 's', 's'));
    assert!(is_word4(&chars("html"), 'h', 't', 'm', 'l'));
    assert!(!is_word4(&chars("htm"), 'h', 't', 'm', 'l'));
    assert!(!is_word4(&chars("xtml"), 'h', 't', 'm', 'l'));
    assert!(!is_word4(&chars(""), 'h', 't', 'm', 'l'));
}

#[test]
fn matches_at_checks_bounds_and_content() {
    let hay = chars("ab//cd");
    assert!(matches_at(&hay, &chars("//"), 2));
    assert!(!matches_at(&hay, &chars("//"), 1));
    assert!(!matches_at(&hay, &chars("cd"), 5));
    assert!(!matches_at(&hay, &chars("cd"), 100));
    assert!(matches_at(&hay, &chars(""), 6));
}

#[test]
fn find_within_agrees_with_std() {
    let samples = ["", "a", "abcabc", "a//b//c", "/*/ x */", "xx{/* y */}", "\u{203C}\u{FE0F}!"];
    let needles = ["", "a", "bc", "//", "*/", "{/*", "\u{FE0F}", "zz"];
    for sample in samples {
        let hay = chars(sample);
        for needle in needles {
            let found = find_within(&hay, 0, hay.len(), &chars(needle));
            let expected = sample.find(needle).map(|byte| sample[..byte].chars().count());
            assert_eq!(found, expected, "{:?} in {:?}", needle, sample);
        }
    }
}

#[test]
fn find_within_counts_from_the_start_of_the_range() {
    let hay = chars("ab*/cd*/");
    assert_eq!(find_within(&hay, 3, 8, &chars("*/")), Some(3));
    assert_eq!(find_within(&hay, 2, 8, &chars("*/")), Some(0));
    assert_eq!(find_within(&hay, 0, 3, &chars("*/")), None);
    assert_eq!(find_within(&hay, 7, 8, &chars("*/")), None);
}

#[test]
fn trim_end_within_agrees_with_std() {
    let samples = ["", "   ", "a", "a  ", " a\t\u{A0}\u{3000}", "a\u{200B} ", "a \r"];
    for sample in samples {
        let hay = chars(sample);
        let end = trim_end_within(&hay, 0, hay.len());
        let kept: String = hay[..end].iter().collect();
        assert_eq!(kept, sample.trim_end(), "{:?}", sample);
    }
}

#[test]
fn trim_end_within_stops_at_the_range_start() {
    let hay = chars("a    ");
    assert_eq!(trim_end_within(&hay, 2, 5), 2);
    assert_eq!(trim_end_within(&hay, 0, 5), 1);
}

#[test]
fn blank_within_agrees_with_std() {
    let samples = ["", "   ", " a ", "\t\u{2028}", "\u{200B}"];
    for sample in samples {
        let hay = chars(sample);
        assert_eq!(blank_within(&hay, 0, hay.len()), sample.trim().is_empty(), "{:?}", sample);
    }
}

#[test]
fn push_chars_appends_the_range() {
    let mut out = String::from("x");
    push_chars(&mut out, &chars("hello"), 1, 4);
    assert_eq!(out, "xell");
    push_chars(&mut out, &chars("hello"), 2, 2);
    assert_eq!(out, "xell");
}

#[test]
fn line_end_finds_the_next_line_feed() {
    let text = chars("ab\ncd");
    assert_eq!(line_end(&text, 0), 2);
    assert_eq!(line_end(&text, 2), 2);
    assert_eq!(line_end(&text, 3), 5);
    assert_eq!(line_end(&text, 5), 5);
}

fn split(text: &str) -> Vec<String> {
    let all = chars(text);
    let mut found = Vec::new();
    let mut from = 0;
    while from < all.len() {
        let (end, next) = next_line(&all, from);
        found.push(all[from..end].iter().collect());
        from = next;
    }
    found
}

#[test]
fn next_line_agrees_with_std_lines() {
    let samples = [
        "",
        "a",
        "a\n",
        "\n",
        "\n\n",
        "a\nb",
        "a\r\nb\r\n",
        "a\r",
        "a\r\r\n",
        "\r\n",
        "a\n\nb\n\n",
        "a\rb\nc",
    ];
    for sample in samples {
        let expected: Vec<String> = sample.lines().map(|l| l.to_string()).collect();
        assert_eq!(split(sample), expected, "{:?}", sample);
    }
}
