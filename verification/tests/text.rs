use brush::text::{
    contains_str, decimal_string, ends_with_str, same_text, sort_texts, split_whitespace, text_less,
};

#[test]
fn decimal_rendering() {
    assert_eq!(decimal_string(0), "0");
    assert_eq!(decimal_string(10), "10");
    assert_eq!(decimal_string(u64::MAX), "18446744073709551615");
}

#[test]
fn substring_and_suffix() {
    assert!(contains_str("frame_0001_image.png", "image"));
    assert!(contains_str("abc", ""));
    assert!(!contains_str("abc", "abcd"));
    assert!(!contains_str("mask.png", "image"));
    assert!(contains_str("ääb", "äb"));
    assert!(ends_with_str("w2c.txt", ".txt"));
    assert!(!ends_with_str("txt", ".txt"));
    assert!(same_text("abc", "abc"));
    assert!(!same_text("abc", "abd"));
    assert!(!same_text("abc", "ab"));
}

#[test]
fn whitespace_tokens() {
    assert_eq!(
        split_whitespace("  1 0\t0\n 2.5 \u{a0}x\u{3000}y  "),
        vec!["1", "0", "0", "2.5", "x", "y"]
    );
    assert!(split_whitespace("").is_empty());
    assert!(split_whitespace(" \n\t ").is_empty());
    let text = "1 0 0 0\n0 1 0 0\n0 0 1 0\n0 0 0 1\n";
    let expected: Vec<&str> = text.split_whitespace().collect();
    assert_eq!(split_whitespace(text), expected);
}

#[test]
fn whitespace_matches_std_on_unicode_spaces() {
    let spaces = [
        '\u{9}', '\u{a}', '\u{b}', '\u{c}', '\u{d}', '\u{20}', '\u{85}', '\u{a0}', '\u{1680}',
        '\u{2000}', '\u{2001}', '\u{2002}', '\u{2003}', '\u{2004}', '\u{2005}', '\u{2006}',
        '\u{2007}', '\u{2008}', '\u{2009}', '\u{200a}', '\u{2028}', '\u{2029}', '\u{202f}',
        '\u{205f}', '\u{3000}',
    ];
    let others = ['\u{200b}', '\u{180e}', '\u{feff}', '\u{1c}', 'x'];
    let mut text = String::new();
    for (i, c) in spaces.iter().enumerate() {
        text.push_str(&i.to_string());
        text.push(*c);
    }
    for c in others.iter() {
        text.push(*c);
        text.push('y');
    }
    let expected: Vec<&str> = text.split_whitespace().collect();
    assert_eq!(split_whitespace(&text), expected);
    assert_eq!(expected.len(), spaces.len() + 1);
}

#[test]
fn sorting_matches_string_order() {
    let names = vec![
        "b/frame_10_image.png", "b/frame_2_image.png", "a/x", "", "b/frame_10_image.png", "äb", "zz",
        "a", "ab", "a\u{10ffff}",
    ];
    let input: Vec<String> = names.iter().map(|s| s.to_string()).collect();
    let mut expected = input.clone();
    expected.sort();
    assert_eq!(sort_texts(input), expected);
    assert!(sort_texts(Vec::new()).is_empty());
}

#[test]
fn text_order() {
    let c = |s: &str| s.chars().collect::<Vec<char>>();
    assert!(text_less(&c("a"), &c("ab")));
    assert!(!text_less(&c("ab"), &c("a")));
    assert!(!text_less(&c("ab"), &c("ab")));
    assert!(text_less(&c("Z"), &c("a")));
    assert!(text_less(&c("z"), &c("é")));
}
