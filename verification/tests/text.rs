use fak::text::{
    chars_of, find_last_seq, find_seq, first_word_of, join_strings, split_lines, trim_chars,
    utf8_length, CharClass,
};

fn cs(s: &str) -> Vec<char> {
    s.chars().collect()
}

#[test]
fn trims_by_class() {
    assert_eq!(trim_chars(&cs(" \t\u{3000}a b\n "), CharClass::Whitespace), cs("a b"));
    assert_eq!(trim_chars(&cs("``a`b``"), CharClass::Backtick), cs("a`b"));
    assert_eq!(trim_chars(&cs("*`a*`"), CharClass::BacktickOrStar), cs("a"));
    assert_eq!(trim_chars(&cs("   "), CharClass::Whitespace), cs(""));
}

#[test]
fn finds_first_and_last() {
    assert_eq!(find_seq(&cs("abcabc"), &cs("bc")), Some(1));
    assert_eq!(find_last_seq(&cs("abcabc"), &cs("bc")), Some(4));
    assert_eq!(find_seq(&cs("abc"), &cs("x")), None);
    assert_eq!(find_seq(&cs("ab"), &cs("")), Some(0));
    assert_eq!(find_last_seq(&cs("ab"), &cs("")), Some(2));
}

#[test]
fn splits_lines() {
    let l = split_lines(&cs("a\nb\n"));
    assert_eq!(l, vec![cs("a"), cs("b"), cs("")]);
}

#[test]
fn first_word() {
    assert_eq!(first_word_of(&cs("  git  status")), Some(cs("git")));
    assert_eq!(first_word_of(&cs(" \n ")), None);
}

#[test]
fn joins() {
    let parts = vec!["a".to_string(), "b c".to_string()];
    assert_eq!(join_strings(&parts, " "), "a b c");
    assert_eq!(join_strings(&[], " "), "");
}

#[test]
fn utf8_lengths() {
    assert_eq!(utf8_length(&cs("aä€😀")), 1 + 2 + 3 + 4);
}

#[test]
fn chars_in_order() {
    assert_eq!(chars_of("héllo"), cs("héllo"));
}

#[test]
fn trimming_twice_is_trimming_once() {
    let once = trim_chars(&cs("  a b  "), CharClass::Whitespace);
    assert_eq!(trim_chars(&once, CharClass::Whitespace), once);
}
