use theshit::error::AppError;
use theshit::fix::rust::NativeRule;
use theshit::fix::structs::{Command, CommandOutput};
use theshit::fix::{choose_script_fix, fix_command, fix_with_native_rules, parse_rule_names, FixFailure};
use theshit::misc::expand_aliases;
use theshit::shells::enums::Shell;
use theshit::shells::zsh::parse_alias;

fn failed(line: &str, stderr: &str) -> Command {
    Command::new(line.to_string(), CommandOutput::new(String::new(), stderr.to_string()))
}

#[test]
fn alias_is_expanded_once_and_only_in_the_first_word() {
    let aliases = parse_alias("ll='ls -l'\nls='ls --color'\ng=git".to_string());
    assert_eq!(expand_aliases("ll -a", &aliases), "ls -l -a");
    assert_eq!(expand_aliases("ll", &aliases), "ls -l");
    assert_eq!(expand_aliases("g  psuh ll", &aliases), "git  psuh ll");
    assert_eq!(expand_aliases("echo ll", &aliases), "echo ll");
    assert_eq!(expand_aliases(" ll", &aliases), " ll");
    assert_eq!(expand_aliases("", &aliases), "");
}

#[test]
fn empty_alias_name_is_never_expanded() {
    let aliases = parse_alias("=oops".to_string());
    assert_eq!(expand_aliases(" x", &aliases), " x");
}

#[test]
fn rule_names_are_all_known_or_the_list_is_refused() {
    let names = vec!["to_cd".to_string(), "sudo".to_string(), "to_cd".to_string()];
    let rules = parse_rule_names(&names).expect("all names are known");
    assert_eq!(rules, vec![NativeRule::ToCd, NativeRule::Sudo, NativeRule::ToCd]);
    assert_eq!(parse_rule_names(&vec![]).expect("no names"), vec![]);
    let names = vec!["sudo".to_string(), "sodu".to_string(), "nope".to_string()];
    match parse_rule_names(&names) {
        Err(AppError::Config(detail)) => assert_eq!(detail, "Unknown native rule: sodu"),
        other => panic!("expected a configuration error, got {:?}", other),
    }
}

#[test]
fn first_native_rule_with_a_correction_wins() {
    let command = failed("cs /root", "permission denied");
    let rules = vec![NativeRule::MkdirP, NativeRule::Sudo, NativeRule::ToCd];
    assert_eq!(fix_with_native_rules(&rules, &command), Some("sudo cs /root".to_string()));
    let rules = vec![NativeRule::ToCd, NativeRule::Sudo];
    assert_eq!(fix_with_native_rules(&rules, &command), Some("cd /root".to_string()));
    assert_eq!(fix_with_native_rules(&vec![NativeRule::Unsudo], &command), None);
    assert_eq!(fix_with_native_rules(&vec![], &command), None);
}

#[test]
fn script_rules_give_their_first_correction() {
    assert_eq!(
        choose_script_fix(Ok(vec!["a".to_string(), "b".to_string()])),
        Ok("a".to_string())
    );
    assert_eq!(choose_script_fix(Ok(vec![])), Err(FixFailure::NoFixFound));
    assert_eq!(
        choose_script_fix(Err(AppError::Config("No common parent found for rule paths".to_string()))),
        Err(FixFailure::NoCommonParent)
    );
    assert_eq!(
        choose_script_fix(Err(AppError::Python("boom".to_string()))),
        Err(FixFailure::NoFixFound)
    );
}

#[test]
fn pipeline_needs_a_shell() {
    let aliases = parse_alias(String::new());
    let command = failed("cs x", "");
    let fixed = fix_command(None, &aliases, &command, &vec![NativeRule::ToCd], |_| {
        panic!("no rule may run without a shell")
    });
    assert_eq!(fixed, Err(FixFailure::NoShell));
}

#[test]
fn pipeline_asks_native_rules_first_and_on_the_expanded_command() {
    let aliases = parse_alias("go='cs'".to_string());
    let command = failed("go /tmp", "");
    let fixed = fix_command(Some(Shell::Zsh), &aliases, &command, &vec![NativeRule::ToCd], |_| {
        panic!("script rules must not run after a native correction")
    });
    assert_eq!(fixed, Ok("cd /tmp".to_string()));
}

#[test]
fn pipeline_falls_back_to_script_rules_with_the_expanded_command() {
    let aliases = parse_alias("g='git'".to_string());
    let command = Command::new(
        "g psuh".to_string(),
        CommandOutput::new("out".to_string(), "err".to_string()),
    );
    let fixed = fix_command(Some(Shell::Bash), &aliases, &command, &vec![NativeRule::Sudo], |seen| {
        assert_eq!(seen.command(), "git psuh");
        assert_eq!(seen.output().stdout(), "out");
        assert_eq!(seen.output().stderr(), "err");
        Ok(vec!["git push".to_string(), "git pull".to_string()])
    });
    assert_eq!(fixed, Ok("git push".to_string()));
}

#[test]
fn pipeline_reports_why_there_is_no_correction() {
    let aliases = parse_alias(String::new());
    let command = failed("ls", "");
    let none = fix_command(Some(Shell::Fish), &aliases, &command, &vec![], |_| Ok(vec![]));
    assert_eq!(none, Err(FixFailure::NoFixFound));
    let apart = fix_command(Some(Shell::Fish), &aliases, &command, &vec![], |_| {
        Err(AppError::Config("No common parent found for rule paths".to_string()))
    });
    assert_eq!(apart, Err(FixFailure::NoCommonParent));
}
