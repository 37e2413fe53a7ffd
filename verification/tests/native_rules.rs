use theshit::error::AppError;
use theshit::fix::rust::NativeRule;

#[test]
fn test_native_rule_from_str_sudo() {
    let rule = NativeRule::from_str("sudo");
    assert!(rule.is_ok());
    assert!(matches!(rule.expect("should be Ok"), NativeRule::Sudo));
}

#[test]
fn test_native_rule_from_str_to_cd() {
    let rule = NativeRule::from_str("to_cd");
    assert!(rule.is_ok());
    assert!(matches!(rule.expect("should be Ok"), NativeRule::ToCd));
}

#[test]
fn test_native_rule_from_str_unsudo() {
    let rule = NativeRule::from_str("unsudo");
    assert!(rule.is_ok());
    assert!(matches!(rule.expect("should be Ok"), NativeRule::Unsudo));
}

#[test]
fn test_native_rule_from_str_mkdir_p() {
    let rule = NativeRule::from_str("mkdir_p");
    assert!(rule.is_ok());
    assert!(matches!(rule.expect("should be Ok"), NativeRule::MkdirP));
}

#[test]
fn test_native_rule_from_str_cargo_no_command() {
    let rule = NativeRule::from_str("cargo_no_command");
    assert!(rule.is_ok());
    assert!(matches!(
        rule.expect("should be Ok"),
        NativeRule::CargoNoCommand
    ));
}

#[test]
fn test_native_rule_from_str_invalid() {
    let rule = NativeRule::from_str("invalid_rule");
    assert!(rule.is_err());
}

#[test]
fn unknown_rule_name_is_a_configuration_error_that_says_the_name() {
    match NativeRule::from_str("Sudo") {
        Err(AppError::Config(detail)) => assert_eq!(detail, "Unknown native rule: Sudo"),
        other => panic!("expected a configuration error, got {:?}", other),
    }
    assert!(NativeRule::from_str("").is_err());
    assert!(NativeRule::from_str("sudo ").is_err());
}

use theshit::fix::rust::{cargo_no_command, mkdir_p, sudo, to_cd, unsudo};
use theshit::fix::structs::{Command, CommandOutput};

fn failed(line: &str, stdout: &str, stderr: &str) -> Command {
    Command::new(
        line.to_string(),
        CommandOutput::new(stdout.to_string(), stderr.to_string()),
    )
}

#[test]
fn test_fix_native_sudo() {
    let command = Command::new(
        "some_command".to_string(),
        CommandOutput::new("".to_string(), "permission denied".to_string()),
    );
    let rule = NativeRule::Sudo;
    let result = rule.fix_native(&command);
    assert!(result.is_some());
    assert_eq!(result.expect("should be Some"), "sudo some_command");
}

#[test]
fn test_fix_native_to_cd() {
    let command = Command::new(
        "cs /some/directory".to_string(),
        CommandOutput::new("".to_string(), "".to_string()),
    );
    let rule = NativeRule::ToCd;
    let result = rule.fix_native(&command);
    assert!(result.is_some());
    assert_eq!(result.expect("should be Some"), "cd /some/directory");
}

#[test]
fn test_fix_native_no_match() {
    let command = Command::new(
        "ls -l".to_string(),
        CommandOutput::new("".to_string(), "".to_string()),
    );
    let rule = NativeRule::Sudo;
    let result = rule.fix_native(&command);
    assert!(result.is_none());
}

#[test]
fn match_and_fix_runs_the_fix_only_after_a_match() {
    let command = failed("x", "", "");
    let fixed = NativeRule::match_and_fix(|_| true, || Some("y".to_string()), &command);
    assert_eq!(fixed, Some("y".to_string()));
    let fixed = NativeRule::match_and_fix(|_| true, || None, &command);
    assert_eq!(fixed, None);
    let fixed = NativeRule::match_and_fix(
        |_| false,
        || panic!("the fix must not run"),
        &command,
    );
    assert_eq!(fixed, None);
}

#[test]
fn sudo_matches_either_stream_in_any_case() {
    assert!(sudo::is_match(&failed("apt install x", "E: Permission Denied", "")));
    assert!(sudo::is_match(&failed("apt install x", "", "Operation not permitted")));
    assert!(sudo::is_match(&failed("x", "", "error: EACCES: open")));
    assert!(sudo::is_match(&failed("x", "this must be run as ROOT", "")));
    assert!(sudo::is_match(&failed("x", "", "You must be root")));
    assert!(sudo::is_match(&failed("x", "", "you need to be root to do this")));
    assert!(sudo::is_match(&failed("x", "", "Authentication is required")));
    assert!(!sudo::is_match(&failed("x", "file not found", "no such file")));
    assert!(!sudo::is_match(&failed("sudo x", "", "permission denied")));
    assert!(sudo::is_match(&failed("sudoku", "", "permission denied")));
    assert_eq!(sudo::fix(&failed("rm -rf /x", "", "")), "sudo rm -rf /x");
}

#[test]
fn to_cd_matches_the_word_cs_only() {
    assert!(to_cd::is_match(&failed("cs", "", "")));
    assert!(to_cd::is_match(&failed("cs ..", "", "")));
    assert!(!to_cd::is_match(&failed("css", "", "")));
    assert!(!to_cd::is_match(&failed(" cs x", "", "")));
    assert!(!to_cd::is_match(&failed("", "", "")));
    assert_eq!(to_cd::fix(&failed("cs", "", "")), "cd");
    assert_eq!(to_cd::fix(&failed("cs  a b", "", "")), "cd  a b");
    assert_eq!(NativeRule::ToCd.fix_native(&failed("cd x", "", "")), None);
}

#[test]
fn unsudo_drops_sudo_where_root_is_refused() {
    let command = failed("sudo  makepkg -si", "", "ERROR: You cannot perform this operation as root.");
    assert!(unsudo::is_match(&command));
    assert_eq!(unsudo::fix(&command), "makepkg -si");
    assert_eq!(NativeRule::Unsudo.fix_native(&command), Some("makepkg -si".to_string()));
    assert!(!unsudo::is_match(&failed("makepkg", "", "you cannot perform this operation as root")));
    assert!(!unsudo::is_match(&failed("sudo makepkg", "", "fine")));
    assert_eq!(unsudo::fix(&failed("sudo", "", "")), "");
    assert_eq!(unsudo::fix(&failed("su", "", "")), "su");
}

#[test]
fn mkdir_p_adds_the_flag_after_the_first_mkdir() {
    let command = failed("mkdir a/b/c", "", "mkdir: cannot create directory: No such file or directory");
    assert!(mkdir_p::is_match(&command));
    assert_eq!(mkdir_p::fix(&command), Ok("mkdir -p a/b/c".to_string()));
    let chained = failed("cd x && mkdir a/b && mkdir c/d", "No such file or directory", "");
    assert_eq!(mkdir_p::fix(&chained), Ok("cd x && mkdir -p a/b && mkdir c/d".to_string()));
    assert!(!mkdir_p::is_match(&failed("mkdir a/b", "", "no such file or directory")));
    assert!(!mkdir_p::is_match(&failed("touch a/b", "", "No such file or directory")));
}

#[test]
fn mkdir_p_without_an_argument_has_no_correction() {
    let command = failed("mkdir", "", "No such file or directory");
    assert!(mkdir_p::is_match(&command));
    assert_eq!(mkdir_p::fix(&command), Err("mkdir is given nothing to create".to_string()));
    assert_eq!(NativeRule::MkdirP.fix_native(&command), None);
}

#[test]
fn cargo_no_command_takes_the_suggested_subcommand() {
    let stderr = "error: no such command: `buid`\n\nhelp: a command with a similar name exists: `build`\n";
    let command = failed("cargo buid --release", "", stderr);
    assert!(cargo_no_command::is_match(&command));
    assert_eq!(cargo_no_command::fix(&command), Ok("cargo build --release".to_string()));
    assert_eq!(
        NativeRule::CargoNoCommand.fix_native(&failed("cargo   tset", "", stderr)),
        Some("cargo build".to_string())
    );
    assert!(!cargo_no_command::is_match(&failed("carg buid", "", stderr)));
    assert!(!cargo_no_command::is_match(&failed("cargo buid", stderr, "")));
    assert!(!cargo_no_command::is_match(&failed("cargo buid", "", "error: no such command: `buid`")));
}

#[test]
fn cargo_no_command_without_a_suggestion_has_no_correction() {
    let open = "error: no such command\nhelp: a command with a similar name exists: `build";
    let command = failed("cargo buid", "", open);
    assert!(cargo_no_command::is_match(&command));
    assert_eq!(cargo_no_command::fix(&command), Err("cargo suggests no subcommand".to_string()));
    assert_eq!(NativeRule::CargoNoCommand.fix_native(&command), None);
    let closed = "no such command\na command with a similar name exists: `build`";
    assert_eq!(
        cargo_no_command::fix(&failed("cargo", "", closed)),
        Err("cargo suggests no subcommand".to_string())
    );
}
