use vstd::prelude::*;
use crate::text::{chars_of, opt_view, same_chars, string_of};

verus! {

/// The text of `s` made safe inside single quotes: each `'` becomes `'\''`.
pub open spec fn quote_escaped(s: Seq<char>) -> Seq<char>
    decreases s.len(),
{
    if s.len() == 0 {
        Seq::empty()
    } else if s.last() == '\'' {
        quote_escaped(s.drop_last()) + seq!['\'', '\\', '\'', '\'']
    } else {
        quote_escaped(s.drop_last()).push(s.last())
    }
}

/// The path of the running program as the shell hook calls it: the path (or
/// `fak` where it is not known) with its single quotes escaped.
pub fn binary_path(exe: Option<&str>) -> (r: String)
    ensures
        r@ == quote_escaped(
            match opt_view(exe) {
                Some(p) => p,
                None => "fak"@,
            },
        ),
{
    let p: Vec<char> = match exe {
        Some(e) => chars_of(e),
        None => chars_of("fak"),
    };
    let mut out: Vec<char> = Vec::new();
    let n = p.len();
    let mut i: usize = 0;
    while i < n
        invariant
            i <= n,
            n == p@.len(),
            out@ == quote_escaped(p@.take(i as int)),
        decreases n - i,
    {
        proof {
            assert(p@.take(i + 1).drop_last() =~= p@.take(i as int));
        }
        let c = p[i];
        if c == '\'' {
            let ghost before = out@;
            out.push('\'');
            out.push('\\');
            out.push('\'');
            out.push('\'');
            proof {
                assert(out@ =~= before + seq!['\'', '\\', '\'', '\'']);
            }
        } else {
            out.push(c);
        }
        i = i + 1;
    }
    proof {
        assert(p@.take(n as int) =~= p@);
    }
    string_of(&out)
}

/// The shell function that connects `fak` to the shell history: the zsh form
/// where the shell is `zsh`, the bash form otherwise. `name` is the function's
/// name and `bin` the (escaped) path of the program.
pub open spec fn alias_script(name: Seq<char>, shell: Seq<char>, bin: Seq<char>) -> Seq<char> {
    if shell == "zsh"@ {
        "\n"@ + name + " () {\n    export FAK_SHELL=zsh;\n    export FAK_ALIAS="@ + name
            + ";\n    export FAK_HISTORY=\"$(fc -ln -10)\";\n    local _fak_fixed\n    _fak_fixed=\"$('"@
            + bin
            + "' --shell-command \"$@\")\"\n    local _fak_status=$?\n    unset FAK_HISTORY FAK_SHELL FAK_ALIAS;\n    if (( _fak_status != 0 || -z \"$_fak_fixed\" )); then\n        return $_fak_status\n    fi\n    print -s -- \"$_fak_fixed\"\n    eval \"$_fak_fixed\"\n}\n"@
    } else {
        "\nfunction "@ + name + " () {\n    export FAK_SHELL=bash;\n    export FAK_ALIAS="@ + name
            + ";\n    export FAK_HISTORY=$(fc -ln -10);\n    local _fak_fixed\n    _fak_fixed=\"$('"@
            + bin
            + "' --shell-command \"$@\")\"\n    local _fak_status=$?\n    unset FAK_HISTORY FAK_SHELL FAK_ALIAS;\n    if [ \"$_fak_status\" -ne 0 ] || [ -z \"$_fak_fixed\" ]; then\n        return \"$_fak_status\"\n    fi\n    history -s \"$_fak_fixed\"\n    eval \"$_fak_fixed\"\n}\n"@
    }
}

/// Writes the shell function named `alias_name` for the shell `shell`, calling
/// the program at `bin`.
pub fn app_alias(alias_name: &str, shell: &str, bin: &str) -> (r: String)
    ensures
        r@ == alias_script(alias_name@, shell@, bin@),
{
    let sc = chars_of(shell);
    let zsh = chars_of("zsh");
    let mut r: String;
    if same_chars(&sc, &zsh) {
        r = String::from_str("\n");
        r.append(alias_name);
        r.append(" () {\n    export FAK_SHELL=zsh;\n    export FAK_ALIAS=");
        r.append(alias_name);
        r.append(";\n    export FAK_HISTORY=\"$(fc -ln -10)\";\n    local _fak_fixed\n    _fak_fixed=\"$('");
        r.append(bin);
        r.append("' --shell-command \"$@\")\"\n    local _fak_status=$?\n    unset FAK_HISTORY FAK_SHELL FAK_ALIAS;\n    if (( _fak_status != 0 || -z \"$_fak_fixed\" )); then\n        return $_fak_status\n    fi\n    print -s -- \"$_fak_fixed\"\n    eval \"$_fak_fixed\"\n}\n");
    } else {
        r = String::from_str("\nfunction ");
        r.append(alias_name);
        r.append(" () {\n    export FAK_SHELL=bash;\n    export FAK_ALIAS=");
        r.append(alias_name);
        r.append(";\n    export FAK_HISTORY=$(fc -ln -10);\n    local _fak_fixed\n    _fak_fixed=\"$('");
        r.append(bin);
        r.append("' --shell-command \"$@\")\"\n    local _fak_status=$?\n    unset FAK_HISTORY FAK_SHELL FAK_ALIAS;\n    if [ \"$_fak_status\" -ne 0 ] || [ -z \"$_fak_fixed\" ]; then\n        return \"$_fak_status\"\n    fi\n    history -s \"$_fak_fixed\"\n    eval \"$_fak_fixed\"\n}\n");
    }
    r
}

/// What `std::path::Path::file_name` gives for a path, as text.
pub uninterp spec fn path_file_name(path: Seq<char>) -> Option<Seq<char>>;

/// The last component of the path `path`.
///
/// Calls `std::path::Path::file_name` (and `OsStr::to_str`, which cannot fail on
/// text that came from a `str`); the contract only names the result, as a
/// function of the path.
#[verifier::external_body]
fn file_name_of(path: &str) -> (r: Option<String>)
    ensures
        match r {
            Some(n) => path_file_name(path@) == Some(n@),
            None => path_file_name(path@) is None,
        },
{
    std::path::Path::new(path).file_name().and_then(|n| n.to_str()).map(|n| n.to_string())
}

/// The shell in use: `FAK_SHELL` where it is set, else the file name of
/// `SHELL`, else `bash`.
pub open spec fn shell_choice(fak_shell: Option<Seq<char>>, shell_file_name: Option<Seq<char>>) -> Seq<char> {
    match fak_shell {
        Some(s) => s,
        None => match shell_file_name {
            Some(n) => n,
            None => "bash"@,
        },
    }
}

/// Chooses the shell from `FAK_SHELL` and the file name of `SHELL`.
pub fn choose_shell(fak_shell: Option<&str>, shell_file_name: Option<&str>) -> (r: String)
    ensures
        r@ == shell_choice(opt_view(fak_shell), opt_view(shell_file_name)),
{
    match fak_shell {
        Some(s) => String::from_str(s),
        None => match shell_file_name {
            Some(n) => String::from_str(n),
            None => String::from_str("bash"),
        },
    }
}

/// The shell in use, from the values of `FAK_SHELL` and `SHELL` where they are set.
pub fn detect_shell(fak_shell: Option<&str>, shell_path: Option<&str>) -> (r: String)
    ensures
        r@ == shell_choice(
            opt_view(fak_shell),
            match shell_path {
                Some(p) => path_file_name(p@),
                None => None,
            },
        ),
{
    if fak_shell.is_some() {
        return choose_shell(fak_shell, None);
    }
    let name: Option<String> = match shell_path {
        Some(p) => file_name_of(p),
        None => None,
    };
    match name {
        Some(n) => choose_shell(None, Some(n.as_str())),
        None => choose_shell(None, None),
    }
}

/// A path without single quotes is called as it is.
pub proof fn law_quote_free_path_unchanged(s: Seq<char>)
    requires
        forall|i: int| 0 <= i < s.len() ==> s[i] != '\'',
    ensures
        quote_escaped(s) == s,
    decreases s.len(),
{
    if s.len() > 0 {
        law_quote_free_path_unchanged(s.drop_last());
        assert(s.drop_last().push(s.last()) =~= s);
    }
}

/// Whatever the shell, the hook defines a function named `name` at its start,
/// exports `FAK_ALIAS` as `name` (so that the history filter skips calls of
/// that very function), and calls the program at `bin`, quoted, with
/// `--shell-command` and the function's arguments.
pub proof fn law_script_uses_name_and_program(name: Seq<char>, shell: Seq<char>, bin: Seq<char>)
    ensures
        exists|x: Seq<char>, y: Seq<char>| alias_script(name, shell, bin) == x + (
        "    export FAK_ALIAS="@ + name + ";\n"@) + y,
        exists|x: Seq<char>, y: Seq<char>| alias_script(name, shell, bin) == x + (
        "_fak_fixed=\"$('"@ + bin + "' --shell-command \"$@\")\""@) + y,
        shell == "zsh"@ ==> exists|y: Seq<char>| alias_script(name, shell, bin) == "\n"@ + name
            + " () {"@ + y,
        shell != "zsh"@ ==> exists|y: Seq<char>| alias_script(name, shell, bin)
            == "\nfunction "@ + name + " () {"@ + y,
{
    reveal_strlit("\n");
    reveal_strlit("\nfunction ");
    reveal_strlit(" () {");
    reveal_strlit(" () {\n    export FAK_SHELL=zsh;\n    export FAK_ALIAS=");
    reveal_strlit(" () {\n    export FAK_SHELL=bash;\n    export FAK_ALIAS=");
    reveal_strlit("    export FAK_ALIAS=");
    reveal_strlit(";\n");
    reveal_strlit("_fak_fixed=\"$('");
    reveal_strlit("' --shell-command \"$@\")\"");
    reveal_strlit(";\n    export FAK_HISTORY=\"$(fc -ln -10)\";\n    local _fak_fixed\n    _fak_fixed=\"$('");
    reveal_strlit(";\n    export FAK_HISTORY=$(fc -ln -10);\n    local _fak_fixed\n    _fak_fixed=\"$('");
    reveal_strlit("' --shell-command \"$@\")\"\n    local _fak_status=$?\n    unset FAK_HISTORY FAK_SHELL FAK_ALIAS;\n    if (( _fak_status != 0 || -z \"$_fak_fixed\" )); then\n        return $_fak_status\n    fi\n    print -s -- \"$_fak_fixed\"\n    eval \"$_fak_fixed\"\n}\n");
    reveal_strlit("' --shell-command \"$@\")\"\n    local _fak_status=$?\n    unset FAK_HISTORY FAK_SHELL FAK_ALIAS;\n    if [ \"$_fak_status\" -ne 0 ] || [ -z \"$_fak_fixed\" ]; then\n        return \"$_fak_status\"\n    fi\n    history -s \"$_fak_fixed\"\n    eval \"$_fak_fixed\"\n}\n");
    let s = alias_script(name, shell, bin);
    let alias_part = "    export FAK_ALIAS="@ + name + ";\n"@;
    let call_part = "_fak_fixed=\"$('"@ + bin + "' --shell-command \"$@\")\""@;
    if shell == "zsh"@ {
        let l1 = " () {\n    export FAK_SHELL=zsh;\n    export FAK_ALIAS="@;
        let l2 = ";\n    export FAK_HISTORY=\"$(fc -ln -10)\";\n    local _fak_fixed\n    _fak_fixed=\"$('"@;
        let l3 = "' --shell-command \"$@\")\"\n    local _fak_status=$?\n    unset FAK_HISTORY FAK_SHELL FAK_ALIAS;\n    if (( _fak_status != 0 || -z \"$_fak_fixed\" )); then\n        return $_fak_status\n    fi\n    print -s -- \"$_fak_fixed\"\n    eval \"$_fak_fixed\"\n}\n"@;
        let x1 = "\n"@ + name + l1.take(l1.len() - 21);
        let y1 = l2.skip(2) + bin + l3;
        assert(s =~= x1 + alias_part + y1);
        let x2 = "\n"@ + name + l1 + name + l2.take(l2.len() - 15);
        let y2 = l3.skip(24);
        assert(s =~= x2 + call_part + y2);
        let y3 = l1.skip(5) + name + l2 + bin + l3;
        assert(s =~= "\n"@ + name + " () {"@ + y3);
    } else {
        let l1 = " () {\n    export FAK_SHELL=bash;\n    export FAK_ALIAS="@;
        let l2 = ";\n    export FAK_HISTORY=$(fc -ln -10);\n    local _fak_fixed\n    _fak_fixed=\"$('"@;
        let l3 = "' --shell-command \"$@\")\"\n    local _fak_status=$?\n    unset FAK_HISTORY FAK_SHELL FAK_ALIAS;\n    if [ \"$_fak_status\" -ne 0 ] || [ -z \"$_fak_fixed\" ]; then\n        return \"$_fak_status\"\n    fi\n    history -s \"$_fak_fixed\"\n    eval \"$_fak_fixed\"\n}\n"@;
        let x1 = "\nfunction "@ + name + l1.take(l1.len() - 21);
        let y1 = l2.skip(2) + bin + l3;
        assert(s =~= x1 + alias_part + y1);
        let x2 = "\nfunction "@ + name + l1 + name + l2.take(l2.len() - 15);
        let y2 = l3.skip(24);
        assert(s =~= x2 + call_part + y2);
        let y3 = l1.skip(5) + name + l2 + bin + l3;
        assert(s =~= "\nfunction "@ + name + " () {"@ + y3);
    }
}

} // verus!
