use vstd::prelude::*;
use crate::text::{
    lemma_count_matches_bound, lemma_len_le_utf8_len,
    lemma_trim_idempotent,
    CharClass, chars_of, count_matches, count_matching, first_word, first_word_of, join,
    join_strings, lines_of, opt_view, result_view, same_chars, split_lines, string_of, trim, trim_chars, utf8_len,
    utf8_length,
};

verus! {

/// Whether `command` looks like a call of the alias itself, so that it is no
/// command to correct: it is the alias, or its first word is the alias, or the
/// two agree in at least half of their UTF-8 length when compared character by
/// character (`2 * matches / (len(alias) + len(command)) >= 0.5`).
pub open spec fn resembles(alias: Seq<char>, command: Seq<char>) -> bool {
    ||| alias == command
    ||| first_word(command) == Some(alias)
    ||| 4 * count_matches(alias, command) >= utf8_len(alias) + utf8_len(command)
}

/// Decides `resembles` on character sequences.
pub fn resembles_chars(alias: &[char], command: &[char]) -> (b: bool)
    ensures
        b == resembles(alias@, command@),
{
    if same_chars(alias, command) {
        return true;
    }
    match first_word_of(command) {
        Some(w) => {
            if same_chars(&w, alias) {
                return true;
            }
        },
        None => {},
    }
    let m = count_matching(alias, command);
    let la = utf8_length(alias);
    let lc = utf8_length(command);
    assert(alias@.len() == alias.len() && command@.len() == command.len());
    4 * (m as u128) >= la + lc
}

/// Whether `command` looks like a call of the alias `alias`.
pub fn resembles_alias(alias: &str, command: &str) -> (b: bool)
    ensures
        b == resembles(alias@, command@),
{
    let a = chars_of(alias);
    let c = chars_of(command);
    resembles_chars(&a, &c)
}

/// The alias name used when none is given.
pub open spec fn default_alias() -> Seq<char> {
    "fak"@
}

/// The error when there is no history to read.
pub open spec fn history_missing_message() -> Seq<char> {
    "FAK_HISTORY is not set.\n\n`cargo run` / bare `fak` cannot see shell history by itself.\nLoad the hook in this shell, then call the function:\n\neval \"$(cargo run --quiet -- --alias)\"\nfak\n\n(After install: eval \"$(fak --alias)\" in your ~/.bashrc)"@
}

/// The error when no line of the history is a command to correct.
pub open spec fn no_previous_command_message() -> Seq<char> {
    "no previous command found in FAK_HISTORY"@
}

/// A history line names a command to correct: trimmed, it is not empty and does
/// not look like a call of the alias.
pub open spec fn usable(line: Seq<char>, alias: Seq<char>) -> bool {
    trim(line).len() > 0 && !resembles(alias, trim(line))
}

/// The last line of `lines` that names a command to correct, trimmed.
pub open spec fn last_usable(lines: Seq<Seq<char>>, alias: Seq<char>) -> Option<Seq<char>>
    decreases lines.len(),
{
    if lines.len() == 0 {
        None
    } else if usable(lines.last(), alias) {
        Some(trim(lines.last()))
    } else {
        last_usable(lines.drop_last(), alias)
    }
}

/// The command to correct: the command given on the command line, its words
/// joined by spaces; else the last line of the shell history that is not empty
/// and does not look like a call of the alias (by default `fak`); else an error.
pub open spec fn last_command_result(
    forced: Seq<Seq<char>>,
    history: Option<Seq<char>>,
    alias: Option<Seq<char>>,
) -> Result<Seq<char>, Seq<char>> {
    if forced.len() > 0 {
        Ok(join(forced, " "@))
    } else {
        match history {
            None => Err(history_missing_message()),
            Some(h) => {
                let a = match alias {
                    Some(a) => a,
                    None => default_alias(),
                };
                match last_usable(lines_of(h), a) {
                    Some(c) => Ok(c),
                    None => Err(no_previous_command_message()),
                }
            },
        }
    }
}

/// Picks the command to correct from the words given on the command line
/// (`forced`), the shell history (`FAK_HISTORY`, where it is set) and the alias
/// name (`FAK_ALIAS`, where it is set).
pub fn last_command(forced: &[String], history: Option<&str>, alias: Option<&str>) -> (r: Result<
    String,
    String,
>)
    ensures
        result_view(r) == last_command_result(
            forced@.map_values(|s: String| s@),
            opt_view(history),
            opt_view(alias),
        ),
{
    if forced.len() > 0 {
        return Ok(join_strings(forced, " "));
    }
    let h = match history {
        Some(h) => h,
        None => {
            return Err(String::from_str("FAK_HISTORY is not set.\n\n`cargo run` / bare `fak` cannot see shell history by itself.\nLoad the hook in this shell, then call the function:\n\neval \"$(cargo run --quiet -- --alias)\"\nfak\n\n(After install: eval \"$(fak --alias)\" in your ~/.bashrc)"));
        },
    };
    let a: Vec<char> = match alias {
        Some(a) => chars_of(a),
        None => chars_of("fak"),
    };
    let hc = chars_of(h);
    let lines = split_lines(&hc);
    let ghost all = lines.deep_view();
    let mut k: usize = lines.len();
    proof {
        assert(all.take(k as int) =~= all);
    }
    while k > 0
        invariant
            k <= lines@.len(),
            all == lines.deep_view(),
            all == lines_of(h@),
            forced@.len() == 0,
            history == Some(h),
            a@ == match opt_view(alias) {
                Some(x) => x,
                None => default_alias(),
            },
            last_usable(all, a@) == last_usable(all.take(k as int), a@),
        decreases k,
    {
        let t = trim_chars(&lines[k - 1], CharClass::Whitespace);
        proof {
            assert(all.take(k as int).last() == lines@[k - 1]@);
            assert(all.take(k as int).drop_last() =~= all.take(k - 1));
        }
        if t.len() > 0 && !resembles_chars(&a, &t) {
            return Ok(string_of(&t));
        }
        k = k - 1;
    }
    Err(String::from_str("no previous command found in FAK_HISTORY"))
}

/// The command taken from the history is never empty, has no whitespace at its
/// ends, does not look like a call of the alias, and is one of the history's
/// lines, trimmed.
pub proof fn law_history_command_is_usable(lines: Seq<Seq<char>>, alias: Seq<char>)
    ensures
        last_usable(lines, alias) matches Some(c) ==> {
            &&& c.len() > 0
            &&& trim(c) == c
            &&& !resembles(alias, c)
            &&& exists|i: int| 0 <= i < lines.len() && c == trim(#[trigger] lines[i])
        },
    decreases lines.len(),
{
    if lines.len() == 0 {
    } else if usable(lines.last(), alias) {
        lemma_trim_idempotent(lines.last(), CharClass::Whitespace);
        assert(lines[lines.len() - 1] == lines.last());
    } else {
        law_history_command_is_usable(lines.drop_last(), alias);
        if last_usable(lines, alias) is Some {
            let c = last_usable(lines, alias).unwrap();
            let i = choose|i: int| 0 <= i < lines.drop_last().len() && c == trim(#[trigger] lines.drop_last()[i]);
            assert(lines[i] == lines.drop_last()[i]);
        }
    }
}

/// A command always resembles the alias when it is the alias itself.
pub proof fn law_alias_resembles_itself(alias: Seq<char>)
    ensures
        resembles(alias, alias),
{
}

/// A command that is neither the alias nor starts with it looks like the alias
/// exactly when the characters it shares position by position with the alias,
/// counted four times, reach the UTF-8 lengths of both texts together: the
/// threshold grows with the command's length.
pub proof fn law_resemblance_threshold(alias: Seq<char>, command: Seq<char>)
    requires
        command != alias,
        first_word(command) != Some(alias),
    ensures
        resembles(alias, command) <==> 4 * count_matches(alias, command) >= utf8_len(alias)
            + utf8_len(command),
{
}

/// A command more than three times as long in UTF-8 as the alias, that is
/// neither the alias nor starts with it, never looks like the alias.
pub proof fn law_long_commands_never_resemble(alias: Seq<char>, command: Seq<char>)
    requires
        command != alias,
        first_word(command) != Some(alias),
        utf8_len(command) > 3 * utf8_len(alias),
    ensures
        !resembles(alias, command),
{
    lemma_count_matches_bound(alias, command);
    lemma_len_le_utf8_len(alias);
}
} // verus!
