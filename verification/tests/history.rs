use fak::history::{last_command, resembles_alias};

fn owned(words: &[&str]) -> Vec<String> {
    words.iter().map(|w| w.to_string()).collect()
}

#[test]
fn forced_words_are_joined_with_spaces() {
    let r = last_command(&owned(&["git", "stats"]), Some("ls\n"), None);
    assert_eq!(r, Ok("git stats".to_string()));
}

#[test]
fn forced_single_word_is_kept() {
    let r = last_command(&owned(&["gti status"]), None, None);
    assert_eq!(r, Ok("gti status".to_string()));
}

#[test]
fn missing_history_is_an_error() {
    let r = last_command(&[], None, None);
    let e = r.unwrap_err();
    assert!(e.starts_with("FAK_HISTORY is not set.\n\n"));
    assert!(e.contains("eval \"$(cargo run --quiet -- --alias)\"\nfak\n"));
    assert!(e.ends_with("(After install: eval \"$(fak --alias)\" in your ~/.bashrc)"));
}

#[test]
fn last_history_line_is_taken() {
    let r = last_command(&[], Some("  ls -la\n  gti status  \n"), None);
    assert_eq!(r, Ok("gti status".to_string()));
}

#[test]
fn the_alias_itself_is_skipped() {
    let r = last_command(&[], Some("gti status\nfak\n"), None);
    assert_eq!(r, Ok("gti status".to_string()));
}

#[test]
fn alias_with_arguments_is_skipped() {
    let r = last_command(&[], Some("gti status\nfak --alias\n   \n\n"), None);
    assert_eq!(r, Ok("gti status".to_string()));
}

#[test]
fn custom_alias_is_skipped() {
    let r = last_command(&[], Some("make buld\nfix\n"), Some("fix"));
    assert_eq!(r, Ok("make buld".to_string()));
}

#[test]
fn custom_alias_leaves_default_name_alone() {
    let r = last_command(&[], Some("make buld\nfak\n"), Some("fix"));
    // "fak" does not resemble "fix": one of three characters matches
    assert_eq!(r, Ok("fak".to_string()));
}

#[test]
fn crlf_lines_are_trimmed() {
    let r = last_command(&[], Some("git stauts\r\nfak\r\n"), None);
    assert_eq!(r, Ok("git stauts".to_string()));
}

#[test]
fn only_the_alias_gives_an_error() {
    let r = last_command(&[], Some("fak\n  \nfa\n"), None);
    assert_eq!(r, Err("no previous command found in FAK_HISTORY".to_string()));
}

#[test]
fn empty_history_gives_an_error() {
    let r = last_command(&[], Some(""), None);
    assert_eq!(r, Err("no previous command found in FAK_HISTORY".to_string()));
}

#[test]
fn resemblance_counts_matching_characters() {
    // 2 matches: 4 * 2 >= 3 + 2
    assert!(resembles_alias("fak", "fa"));
    // 2 matches: 8 >= 6
    assert!(resembles_alias("fak", "fad"));
    // 1 match: 4 < 6
    assert!(!resembles_alias("fak", "fix"));
    // no match
    assert!(!resembles_alias("fak", "git status"));
}

#[test]
fn resemblance_counts_utf8_bytes() {
    // "fäk" takes 4 bytes: 2 matches, 8 >= 7
    assert!(resembles_alias("fak", "fäk"));
    // 1 match, 4 < 7
    assert!(!resembles_alias("fak", "fäx"));
}

#[test]
fn resemblance_by_first_word() {
    assert!(resembles_alias("fak", "  fak git stats"));
    assert!(!resembles_alias("fak", "git fak"));
}

#[test]
fn alias_resembles_itself() {
    assert!(resembles_alias("", ""));
    assert!(resembles_alias("fix", "fix"));
}
