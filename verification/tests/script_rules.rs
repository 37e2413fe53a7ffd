use theshit::error::AppError;
use theshit::fix::python::{
    process_python_rules, LoaderAction, LoaderEvent, Phase, RecordedRule, RuleAnswers,
    ScriptLoader, SkipReason,
};
use theshit::fix::security::FileMeta;
use theshit::fix::structs::{Command, CommandOutput};

const ME: u32 = 1000;

fn dummy_command() -> Command {
    let output = CommandOutput::new(String::new(), String::new());
    Command::new("test".to_string(), output)
}

fn private_file() -> Result<FileMeta, std::io::Error> {
    Ok(FileMeta { uid: ME, mode: 0o100600 })
}

fn rule(path: &str, matched: Result<bool, &str>, fixed: Result<&str, &str>) -> RecordedRule {
    RecordedRule {
        path: path.to_string(),
        answers: RuleAnswers {
            stat: private_file(),
            current_uid: ME,
            imported: Ok(()),
            has_match: true,
            has_fix: true,
            matched: matched.map_err(|e| e.to_string()),
            fixed: fixed.map(|s| s.to_string()).map_err(|e| e.to_string()),
        },
    }
}

#[test]
fn process_single_rule_match() {
    let cmd = dummy_command();
    let rules = vec![rule("/tmp/rules/match_ok.py", Ok(true), Ok("fixed-command"))];
    let result = process_python_rules(&cmd, rules);
    assert!(result.is_ok());
    let commands = result.expect("Processing should succeed");
    assert_eq!(commands, vec!["fixed-command".to_string()]);
}

#[test]
fn process_rule_no_match() {
    let cmd = dummy_command();
    let rules = vec![rule("/tmp/rules/no_match.py", Ok(false), Ok("should-not-be-called"))];
    let result = process_python_rules(&cmd, rules);
    assert!(result.is_ok());
    let commands = result.expect("Processing should succeed");
    assert!(commands.is_empty());
}

#[test]
fn process_rule_missing_match_func() {
    let cmd = dummy_command();
    let mut missing = rule("/tmp/rules/missing_match.py", Ok(true), Ok("something"));
    missing.answers.has_match = false;
    let result = process_python_rules(&cmd, vec![missing]);
    assert!(result.is_ok());
    let commands = result.expect("Processing should succeed");
    assert!(commands.is_empty());
}

#[test]
fn process_rule_match_raises() {
    let cmd = dummy_command();
    let rules = vec![rule("/tmp/rules/match_raises.py", Err("ValueError: oops"), Ok("fixed"))];
    let result = process_python_rules(&cmd, rules);
    assert!(result.is_ok());
    let commands = result.expect("Processing should succeed");
    assert!(commands.is_empty());
}

#[test]
fn process_rule_fix_raises() {
    let cmd = dummy_command();
    let rules = vec![rule("/tmp/rules/fix_raises.py", Ok(true), Err("Exception: fix failed"))];
    let result = process_python_rules(&cmd, rules);
    assert!(result.is_ok());
    let commands = result.expect("Processing should succeed");
    assert!(commands.is_empty());
}

#[test]
fn process_multiple_rules() {
    let cmd = dummy_command();
    let rules = vec![
        rule("/tmp/rules/multi1.py", Ok(true), Ok("cmd1")),
        rule("/tmp/rules/multi2.py", Ok(false), Ok("cmd2")),
        rule("/tmp/rules/multi3.py", Ok(true), Ok("cmd3")),
    ];
    let result = process_python_rules(&cmd, rules);
    assert!(result.is_ok());
    let commands = result.expect("Processing should succeed");
    assert_eq!(commands, vec!["cmd1".to_string(), "cmd3".to_string()]);
}

#[test]
fn process_no_common_parent() {
    let cmd = dummy_command();
    let rules = vec![
        rule("a/b.py", Ok(true), Ok("x")),
        rule("c/d.py", Ok(true), Ok("y")),
    ];
    let result = process_python_rules(&cmd, rules);
    assert!(result.is_err());
    let err = result.unwrap_err();
    assert!(err.to_string().contains("No common parent found"));
    assert!(matches!(err, AppError::Config(_)));
    assert_eq!(
        err.to_string(),
        "Configuration error: No common parent found for rule paths"
    );
}

#[test]
fn process_empty_rules() {
    let cmd = dummy_command();
    let result = process_python_rules(&cmd, vec![]);
    assert!(result.is_ok());
    let commands = result.expect("Processing should succeed");
    assert!(commands.is_empty());
}

#[test]
fn import_fails_if_file_not_readable() {
    let cmd = dummy_command();
    let mut unreadable = rule("/tmp/rules/no_read.py", Ok(true), Ok("fixed"));
    unreadable.answers.imported = Err("PermissionError: [Errno 13]".to_string());
    let result = process_python_rules(&cmd, vec![unreadable]);
    assert!(result.is_ok());
    let commands = result.expect("Processing should succeed");
    assert!(commands.is_empty());
}

#[test]
fn file_of_another_user_gives_nothing_whatever_its_mode() {
    let cmd = dummy_command();
    for mode in [0o100600, 0o100644, 0o100666, 0o100400, 0] {
        let mut foreign = rule("/r/a.py", Ok(true), Ok("evil"));
        foreign.answers.stat = Ok(FileMeta { uid: 0, mode });
        let rules = vec![foreign, rule("/r/b.py", Ok(true), Ok("good"))];
        let commands = process_python_rules(&cmd, rules).expect("Processing should succeed");
        assert_eq!(commands, vec!["good".to_string()]);
    }
}

#[test]
fn file_writable_by_group_or_others_gives_nothing_whoever_owns_it() {
    let cmd = dummy_command();
    for (uid, mode) in [(ME, 0o100620), (ME, 0o100602), (ME, 0o100666), (0, 0o100622)] {
        let mut writable = rule("/r/a.py", Ok(true), Ok("evil"));
        writable.answers.stat = Ok(FileMeta { uid, mode });
        let rules = vec![rule("/r/b.py", Ok(true), Ok("good")), writable];
        let commands = process_python_rules(&cmd, rules).expect("Processing should succeed");
        assert_eq!(commands, vec!["good".to_string()]);
    }
}

#[test]
fn file_that_cannot_be_inspected_gives_nothing() {
    let cmd = dummy_command();
    let mut gone = rule("/r/gone.py", Ok(true), Ok("never"));
    gone.answers.stat = Err(std::io::Error::new(std::io::ErrorKind::NotFound, "gone"));
    let rules = vec![gone, rule("/r/b.py", Ok(true), Ok("good"))];
    let commands = process_python_rules(&cmd, rules).expect("Processing should succeed");
    assert_eq!(commands, vec!["good".to_string()]);
}

#[test]
fn file_without_fix_function_gives_nothing() {
    let cmd = dummy_command();
    let mut missing = rule("/r/a.py", Ok(true), Ok("something"));
    missing.answers.has_fix = false;
    let rules = vec![missing, rule("/r/b.py", Ok(true), Ok("good"))];
    let commands = process_python_rules(&cmd, rules).expect("Processing should succeed");
    assert_eq!(commands, vec!["good".to_string()]);
}

#[test]
fn lone_path_without_file_name_gives_nothing() {
    let cmd = dummy_command();
    let commands = process_python_rules(&cmd, vec![rule("/", Ok(true), Ok("x"))])
        .expect("Processing should succeed");
    assert!(commands.is_empty());
}

fn action_name(action: &LoaderAction) -> String {
    match action {
        LoaderAction::AddSearchRoot { root } => format!("root {}", root),
        LoaderAction::Inspect { path } => format!("inspect {}", path),
        LoaderAction::Import { module } => format!("import {}", module),
        LoaderAction::Resolve => "resolve".to_string(),
        LoaderAction::CallMatch { command, stdout, stderr } => {
            format!("match {}|{}|{}", command, stdout, stderr)
        }
        LoaderAction::CallFix { command, stdout, stderr } => {
            format!("fix {}|{}|{}", command, stdout, stderr)
        }
        LoaderAction::Finish => "finish".to_string(),
    }
}

#[test]
fn engine_asks_step_by_step_and_hands_the_command_on_unchanged() {
    let cmd = Command::new(
        "git psuh".to_string(),
        CommandOutput::new("out\n".to_string(), "err: \u{e9}\n".to_string()),
    );
    let paths = vec!["/rules/sub/one.py".to_string(), "/rules/two.py".to_string()];
    let mut loader = ScriptLoader::new(&cmd, paths).expect("the files share a directory");
    let mut asked: Vec<String> = Vec::new();
    let mut skipped: Vec<SkipReason> = Vec::new();
    loop {
        let action = loader.next_action();
        asked.push(action_name(&action));
        let event = match action {
            LoaderAction::AddSearchRoot { .. } => LoaderEvent::RootAdded,
            LoaderAction::Inspect { .. } => LoaderEvent::Inspected {
                stat: private_file(),
                current_uid: ME,
            },
            LoaderAction::Import { module } => LoaderEvent::Imported {
                outcome: if module == "two" { Err("SyntaxError".to_string()) } else { Ok(()) },
            },
            LoaderAction::Resolve => LoaderEvent::Resolved { has_match: true, has_fix: true },
            LoaderAction::CallMatch { .. } => LoaderEvent::MatchReturned { answer: Ok(true) },
            LoaderAction::CallFix { .. } => LoaderEvent::FixReturned {
                correction: Ok("git push".to_string()),
            },
            LoaderAction::Finish => break,
        };
        let (next, skip) = loader.handle(event);
        loader = next;
        skipped.extend(skip);
    }
    assert_eq!(
        asked,
        vec![
            "root /rules",
            "inspect /rules/sub/one.py",
            "import sub.one",
            "resolve",
            "match git psuh|out\n|err: \u{e9}\n",
            "fix git psuh|out\n|err: \u{e9}\n",
            "inspect /rules/two.py",
            "import two",
            "finish",
        ]
    );
    assert!(loader.is_finished());
    assert_eq!(loader.fixes(), &vec!["git push".to_string()]);
    assert_eq!(skipped.len(), 1);
    assert!(matches!(&skipped[0], SkipReason::ImportFailed(text) if text == "SyntaxError"));
    assert_eq!(loader.into_fixes(), vec!["git push".to_string()]);
}

#[test]
fn engine_never_asks_to_import_a_file_that_was_turned_away() {
    let cmd = dummy_command();
    let paths = vec!["/rules/a.py".to_string(), "/rules/b.py".to_string()];
    let loader = ScriptLoader::new(&cmd, paths).expect("the files share a directory");
    let (loader, skip) = loader.handle(LoaderEvent::RootAdded);
    assert!(skip.is_none());
    assert_eq!(loader.phase(), Phase::Inspecting);
    let (loader, skip) = loader.handle(LoaderEvent::Inspected {
        stat: Ok(FileMeta { uid: ME + 1, mode: 0o100600 }),
        current_uid: ME,
    });
    match skip {
        Some(SkipReason::Denied(AppError::Security(message))) => assert_eq!(
            message,
            "SECURITY ERROR: Running with UID 1000, but file '/rules/a.py' is owned by UID 1001."
        ),
        other => panic!("expected a denial, got {:?}", other),
    }
    assert!(matches!(loader.next_action(), LoaderAction::Inspect { path } if path == "/rules/b.py"));
    let (loader, skip) = loader.handle(LoaderEvent::Inspected {
        stat: Ok(FileMeta { uid: ME, mode: 0o100664 }),
        current_uid: ME,
    });
    match skip {
        Some(SkipReason::Denied(AppError::Security(message))) => assert_eq!(
            message,
            "SECURITY ERROR: Python rule '/rules/b.py' is writable by non-owners."
        ),
        other => panic!("expected a denial, got {:?}", other),
    }
    assert!(matches!(loader.next_action(), LoaderAction::Finish));
    assert!(loader.into_fixes().is_empty());
}

#[test]
fn engine_ignores_a_report_that_answers_nothing_asked() {
    let cmd = dummy_command();
    let loader = ScriptLoader::new(&cmd, vec!["/rules/a.py".to_string()]).expect("one file");
    let (loader, skip) = loader.handle(LoaderEvent::FixReturned { correction: Ok("x".to_string()) });
    assert!(skip.is_none());
    assert_eq!(loader.phase(), Phase::AddingRoot);
    let (loader, _) = loader.handle(LoaderEvent::RootAdded);
    let (loader, skip) = loader.handle(LoaderEvent::Imported { outcome: Ok(()) });
    assert!(skip.is_none());
    assert_eq!(loader.phase(), Phase::Inspecting);
    assert!(loader.fixes().is_empty());
}

#[test]
fn engine_reports_why_a_file_was_left() {
    let cmd = dummy_command();
    let paths = vec!["/r/a.py".to_string(), "/r/b.py".to_string(), "/r/c.py".to_string()];
    let loader = ScriptLoader::new(&cmd, paths).expect("the files share a directory");
    let (loader, _) = loader.handle(LoaderEvent::RootAdded);
    let clear = || LoaderEvent::Inspected { stat: private_file(), current_uid: ME };
    let (loader, _) = loader.handle(clear());
    let (loader, _) = loader.handle(LoaderEvent::Imported { outcome: Ok(()) });
    let (loader, skip) = loader.handle(LoaderEvent::Resolved { has_match: true, has_fix: false });
    assert!(matches!(skip, Some(SkipReason::MissingFunctions)));
    let (loader, _) = loader.handle(clear());
    let (loader, _) = loader.handle(LoaderEvent::Imported { outcome: Ok(()) });
    let (loader, _) = loader.handle(LoaderEvent::Resolved { has_match: true, has_fix: true });
    let (loader, skip) = loader.handle(LoaderEvent::MatchReturned {
        answer: Err("TypeError".to_string()),
    });
    assert!(matches!(skip, Some(SkipReason::MatchFailed(text)) if text == "TypeError"));
    let (loader, _) = loader.handle(clear());
    let (loader, _) = loader.handle(LoaderEvent::Imported { outcome: Ok(()) });
    let (loader, _) = loader.handle(LoaderEvent::Resolved { has_match: true, has_fix: true });
    let (loader, skip) = loader.handle(LoaderEvent::MatchReturned { answer: Ok(true) });
    assert!(skip.is_none());
    let (loader, skip) = loader.handle(LoaderEvent::FixReturned {
        correction: Err("not a string".to_string()),
    });
    assert!(matches!(skip, Some(SkipReason::FixFailed(text)) if text == "not a string"));
    assert!(loader.is_finished());
}

#[test]
fn directory_of_the_batch_is_never_imported_as_a_module() {
    let cmd = dummy_command();
    let paths = vec!["/a/b".to_string(), "/a/b/c.py".to_string()];
    let mut loader = ScriptLoader::new(&cmd, paths).expect("the files share a directory");
    let mut asked: Vec<String> = Vec::new();
    let mut skipped: Vec<SkipReason> = Vec::new();
    loop {
        let action = loader.next_action();
        asked.push(action_name(&action));
        let event = match action {
            LoaderAction::AddSearchRoot { .. } => LoaderEvent::RootAdded,
            LoaderAction::Inspect { .. } => LoaderEvent::Inspected {
                stat: private_file(),
                current_uid: ME,
            },
            LoaderAction::Import { .. } => LoaderEvent::Imported { outcome: Ok(()) },
            LoaderAction::Resolve => LoaderEvent::Resolved { has_match: true, has_fix: true },
            LoaderAction::CallMatch { .. } => LoaderEvent::MatchReturned { answer: Ok(true) },
            LoaderAction::CallFix { .. } => LoaderEvent::FixReturned {
                correction: Ok("fixed".to_string()),
            },
            LoaderAction::Finish => break,
        };
        let (next, skip) = loader.handle(event);
        loader = next;
        skipped.extend(skip);
    }
    assert_eq!(
        asked,
        vec![
            "root /a/b",
            "inspect /a/b",
            "inspect /a/b/c.py",
            "import c",
            "resolve",
            "match test||",
            "fix test||",
            "finish",
        ]
    );
    assert_eq!(skipped.len(), 1);
    assert!(matches!(skipped[0], SkipReason::NoModuleName));
    assert_eq!(loader.into_fixes(), vec!["fixed".to_string()]);
}

#[test]
fn directory_of_the_batch_gives_no_correction() {
    let cmd = dummy_command();
    let rules = vec![
        rule("/a/b", Ok(true), Ok("from the directory")),
        rule("/a/b/c.py", Ok(true), Ok("from the file")),
    ];
    let commands = process_python_rules(&cmd, rules).expect("Processing should succeed");
    assert_eq!(commands, vec!["from the file".to_string()]);
}
