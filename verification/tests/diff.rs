use fak::diff::show_diff;

/// Splits a rendered diff back into (old side, new side).
fn sides(rendered: &str) -> (String, String) {
    let mut old = String::new();
    let mut new = String::new();
    let mut rest = rendered;
    while !rest.is_empty() {
        if let Some(r) = rest.strip_prefix("\x1b[31m") {
            let end = r.find("\x1b[0m").unwrap();
            old.push_str(&r[..end]);
            rest = &r[end + 4..];
        } else if let Some(r) = rest.strip_prefix("\x1b[32m") {
            let end = r.find("\x1b[0m").unwrap();
            new.push_str(&r[..end]);
            rest = &r[end + 4..];
        } else {
            let c = rest.chars().next().unwrap();
            old.push(c);
            new.push(c);
            rest = &rest[c.len_utf8()..];
        }
    }
    (old, new)
}

#[test]
fn equal_texts_show_plainly() {
    assert_eq!(show_diff("git status", "git status"), "git status");
    assert_eq!(show_diff("", ""), "");
}

#[test]
fn insertion_is_green() {
    assert_eq!(show_diff("ab", "abc"), "ab\x1b[32mc\x1b[0m");
    assert_eq!(show_diff("", "x"), "\x1b[32mx\x1b[0m");
}

#[test]
fn deletion_is_red() {
    assert_eq!(show_diff("abc", "ab"), "ab\x1b[31mc\x1b[0m");
}

#[test]
fn sides_spell_both_texts() {
    for (a, b) in [("gti status", "git status"), ("crago check", "cargo check"), ("ls -l", "ls -la"), ("äöü", "aöu")] {
        let shown = show_diff(a, b);
        assert_eq!(sides(&shown), (a.to_string(), b.to_string()));
    }
}

#[test]
fn equal_texts_keep_every_character() {
    for s in ["", "git status", "äöü €"] {
        assert_eq!(show_diff(s, s), s);
    }
}
