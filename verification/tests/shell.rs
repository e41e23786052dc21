use fak::shell::{app_alias, binary_path, choose_shell, detect_shell};

fn zsh_script(name: &str, bin: &str) -> String {
    format!(
        r#"
{name} () {{
    export FAK_SHELL=zsh;
    export FAK_ALIAS={name};
    export FAK_HISTORY="$(fc -ln -10)";
    local _fak_fixed
    _fak_fixed="$('{bin}' --shell-command "$@")"
    local _fak_status=$?
    unset FAK_HISTORY FAK_SHELL FAK_ALIAS;
    if (( _fak_status != 0 || -z "$_fak_fixed" )); then
        return $_fak_status
    fi
    print -s -- "$_fak_fixed"
    eval "$_fak_fixed"
}}
"#,
        name = name,
        bin = bin
    )
}

fn bash_script(name: &str, bin: &str) -> String {
    format!(
        r#"
function {name} () {{
    export FAK_SHELL=bash;
    export FAK_ALIAS={name};
    export FAK_HISTORY=$(fc -ln -10);
    local _fak_fixed
    _fak_fixed="$('{bin}' --shell-command "$@")"
    local _fak_status=$?
    unset FAK_HISTORY FAK_SHELL FAK_ALIAS;
    if [ "$_fak_status" -ne 0 ] || [ -z "$_fak_fixed" ]; then
        return "$_fak_status"
    fi
    history -s "$_fak_fixed"
    eval "$_fak_fixed"
}}
"#,
        name = name,
        bin = bin
    )
}

#[test]
fn zsh_gets_the_zsh_function() {
    assert_eq!(app_alias("fak", "zsh", "/usr/bin/fak"), zsh_script("fak", "/usr/bin/fak"));
}

#[test]
fn other_shells_get_the_bash_function() {
    assert_eq!(app_alias("fix", "bash", "/opt/fak"), bash_script("fix", "/opt/fak"));
    assert_eq!(app_alias("fix", "fish", "/opt/fak"), bash_script("fix", "/opt/fak"));
    assert_eq!(app_alias("fix", "ZSH", "/opt/fak"), bash_script("fix", "/opt/fak"));
}

#[test]
fn zsh_function_starts_with_its_name() {
    let s = app_alias("fix", "zsh", "fak");
    assert!(s.starts_with("\nfix () {\n"));
    assert!(s.ends_with("}\n"));
}

#[test]
fn binary_path_escapes_single_quotes() {
    assert_eq!(binary_path(Some("/opt/it's/fak")), "/opt/it'\\''s/fak");
    assert_eq!(binary_path(Some("''")), "'\\'''\\''");
}

#[test]
fn binary_path_without_quotes_is_unchanged() {
    assert_eq!(binary_path(Some("/usr/local/bin/fak")), "/usr/local/bin/fak");
}

#[test]
fn binary_path_defaults_to_the_program_name() {
    assert_eq!(binary_path(None), "fak");
}

#[test]
fn fak_shell_wins() {
    assert_eq!(detect_shell(Some("fish"), Some("/bin/zsh")), "fish");
    assert_eq!(detect_shell(Some(""), Some("/bin/zsh")), "");
}

#[test]
fn shell_is_the_file_name_of_shell() {
    assert_eq!(detect_shell(None, Some("/bin/zsh")), "zsh");
    assert_eq!(detect_shell(None, Some("/usr/local/bin/bash/")), "bash");
    assert_eq!(detect_shell(None, Some("zsh")), "zsh");
}

#[test]
fn shell_defaults_to_bash() {
    assert_eq!(detect_shell(None, None), "bash");
    assert_eq!(detect_shell(None, Some("/")), "bash");
    assert_eq!(detect_shell(None, Some("/usr/bin/..")), "bash");
}

#[test]
fn choose_shell_order() {
    assert_eq!(choose_shell(Some("a"), Some("b")), "a");
    assert_eq!(choose_shell(None, Some("b")), "b");
    assert_eq!(choose_shell(None, None), "bash");
}
