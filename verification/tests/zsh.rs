use theshit::shells::zsh::{get_aliases, get_shell_function, parse_alias};

#[test]
fn test_get_shell_function_contains_name() {
    let result = get_shell_function("shit", "/usr/bin/theshit");
    assert!(result.contains("shit()"));
}

#[test]
fn test_get_shell_function_contains_path() {
    let result = get_shell_function("shit", "/usr/bin/theshit");
    assert!(result.contains("/usr/bin/theshit"));
}

#[test]
fn test_get_shell_function_exports_shell_type() {
    let result = get_shell_function("shit", "/usr/bin/theshit");
    assert!(result.contains("export SH_SHELL=zsh"));
}

#[test]
fn test_parse_alias_empty() {
    let aliases = parse_alias("".to_string());
    assert!(aliases.is_empty());
}

#[test]
fn test_parse_alias_single_alias() {
    let aliases = parse_alias("ll='ls -l'".to_string());
    assert_eq!(aliases.get("ll"), Some(&"ls -l".to_string()));
}

#[test]
fn test_parse_alias_multiple_aliases() {
    let aliases = parse_alias("ll='ls -l'\nla='ls -la'".to_string());
    assert_eq!(aliases.get("ll"), Some(&"ls -l".to_string()));
    assert_eq!(aliases.get("la"), Some(&"ls -la".to_string()));
}

#[test]
fn test_parse_alias_with_double_quotes() {
    let aliases = parse_alias("grep=\"grep --color=auto\"".to_string());
    assert_eq!(aliases.get("grep"), Some(&"grep --color=auto".to_string()));
}

#[test]
fn test_parse_alias_with_single_quotes() {
    let aliases = parse_alias("cls='clear'".to_string());
    assert_eq!(aliases.get("cls"), Some(&"clear".to_string()));
}

#[test]
fn test_parse_alias_mixed_quotes() {
    let aliases = parse_alias("ll='ls -l'\ngrep=\"grep --color=auto\"".to_string());
    assert_eq!(aliases.get("ll"), Some(&"ls -l".to_string()));
    assert_eq!(aliases.get("grep"), Some(&"grep --color=auto".to_string()));
}

#[test]
fn test_parse_alias_ignores_invalid_format() {
    let aliases = parse_alias("not_an_alias\ngrep='grep --color=auto'".to_string());
    assert_eq!(aliases.get("grep"), Some(&"grep --color=auto".to_string()));
    assert_eq!(aliases.get("not_an_alias"), None);
}

#[test]
fn test_parse_alias_with_spaces_in_value() {
    let aliases = parse_alias("myalias='command with spaces'".to_string());
    assert_eq!(
        aliases.get("myalias"),
        Some(&"command with spaces".to_string())
    );
}

#[test]
fn shell_function_is_the_whole_definition() {
    let expected = "shit() {\n    export SH_SHELL=zsh;\n    SH_PREV_CMD=\"$(fc -ln -1)\";\n    export SH_PREV_CMD;\n    SH_SHELL_ALIASES=$(alias);\n    export SH_SHELL_ALIASES;\n\n    SH_CMD=$(\n      /usr/bin/theshit fix $@\n    ) && eval \"$SH_CMD\";\n\n    unset SH_SHELL_ALIASES;\n    unset SH_PREV_CMD;\n    unset SH_SHELL;\n}";
    assert_eq!(get_shell_function("shit", "/usr/bin/theshit"), expected);
    assert_eq!(get_shell_function(" \t\u{a0}shit", "/usr/bin/theshit"), expected);
}

#[test]
fn shell_function_keeps_white_space_after_the_start_of_the_name() {
    let result = get_shell_function("a b ", "/p");
    assert!(result.starts_with("a b () {\n"));
    assert!(get_shell_function("  ", "/p").starts_with("() {\n"));
}

#[test]
fn parse_alias_keeps_the_value_after_the_first_equals_sign() {
    let aliases = parse_alias("a=b=c\nempty=\nquote='\nmixed='x\"\n=v".to_string());
    assert_eq!(aliases.get("a"), Some(&"b=c".to_string()));
    assert_eq!(aliases.get("empty"), Some(&"".to_string()));
    assert_eq!(aliases.get("quote"), Some(&"'".to_string()));
    assert_eq!(aliases.get("mixed"), Some(&"'x\"".to_string()));
    assert_eq!(aliases.get(""), Some(&"v".to_string()));
    assert_eq!(aliases.len(), 5);
}

#[test]
fn parse_alias_strips_one_pair_of_quotes_only() {
    let aliases = parse_alias("a=''x''\nb=\"\"\nc='\"y\"'".to_string());
    assert_eq!(aliases.get("a"), Some(&"'x'".to_string()));
    assert_eq!(aliases.get("b"), Some(&"".to_string()));
    assert_eq!(aliases.get("c"), Some(&"\"y\"".to_string()));
}

#[test]
fn parse_alias_lets_the_later_line_win() {
    let aliases = parse_alias("ll='ls -l'\nll='ls -la'".to_string());
    assert_eq!(aliases.get("ll"), Some(&"ls -la".to_string()));
    assert_eq!(aliases.len(), 1);
}

#[test]
fn get_aliases_without_a_dump_is_empty() {
    assert!(get_aliases(None).is_empty());
    let aliases = get_aliases(Some("g='git'".to_string()));
    assert_eq!(aliases.get("g"), Some(&"git".to_string()));
}
