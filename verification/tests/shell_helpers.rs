use std::collections::HashMap;
use theshit::shells::enums::Shell;
use theshit::shells::helpers::{
    find_shell_in_process_tree, find_shell_in_snapshot, get_current_shell,
    get_current_shell_by_env, next_process, shell_of_name, ProcessInspector,
};
use theshit::shells::process_table::{ProcessEntry, ProcessTable};

struct MockProcessTree {
    parents: HashMap<u32, u32>,
    names: HashMap<u32, String>,
}

impl ProcessInspector for MockProcessTree {
    fn get_parent_pid(&self, pid: u32) -> Option<u32> {
        self.parents.get(&pid).copied()
    }

    fn get_exe_name(&self, pid: u32) -> Option<String> {
        self.names.get(&pid).cloned()
    }
}

#[test]
fn find_shell_immediately_at_start_process() {
    let tree = MockProcessTree {
        parents: HashMap::new(),
        names: HashMap::from([(100, "bash".to_string())]),
    };

    let shell = find_shell_in_process_tree(&tree, 100);
    assert!(matches!(shell, Some(Shell::Bash)));
}

#[test]
fn find_shell_deep_in_tree() {
    let tree = MockProcessTree {
        parents: HashMap::from([(300, 200), (200, 100)]),
        names: HashMap::from([
            (100, "bash".to_string()),
            (200, "cargo".to_string()),
            (300, "my_cli_app".to_string()),
        ]),
    };

    let shell = find_shell_in_process_tree(&tree, 300);
    assert!(matches!(shell, Some(Shell::Bash)));
}

#[test]
fn find_shell_skips_non_shell_processes() {
    let tree = MockProcessTree {
        parents: HashMap::from([(400, 300), (300, 200), (200, 100)]),
        names: HashMap::from([
            (100, "zsh".to_string()),
            (200, "node".to_string()),
            (300, "npm".to_string()),
            (400, "my_app".to_string()),
        ]),
    };

    let shell = find_shell_in_process_tree(&tree, 400);
    assert!(matches!(shell, Some(Shell::Zsh)));
}

#[test]
fn no_shell_found_when_no_parent_pid() {
    let tree = MockProcessTree {
        parents: HashMap::new(),
        names: HashMap::from([(100, "cargo".to_string())]),
    };

    let shell = find_shell_in_process_tree(&tree, 100);
    assert!(matches!(shell, None));
}

#[test]
fn no_shell_found_when_parent_pid_is_zero() {
    let tree = MockProcessTree {
        parents: HashMap::from([(100, 0)]),
        names: HashMap::from([(100, "cargo".to_string()), (0, "init".to_string())]),
    };

    let shell = find_shell_in_process_tree(&tree, 100);
    assert!(matches!(shell, None));
}

#[test]
fn find_first_matching_shell_in_hierarchy() {
    let tree = MockProcessTree {
        parents: HashMap::from([(500, 400), (400, 300), (300, 200), (200, 100)]),
        names: HashMap::from([
            (100, "bash".to_string()),
            (200, "fish".to_string()),
            (300, "zsh".to_string()),
            (400, "cargo".to_string()),
            (500, "my_app".to_string()),
        ]),
    };

    let shell = find_shell_in_process_tree(&tree, 500);
    assert!(matches!(shell, Some(Shell::Zsh)));
}

#[test]
fn no_shell_found_with_missing_exe_names() {
    let tree = MockProcessTree {
        parents: HashMap::from([(300, 200), (200, 100)]),
        names: HashMap::new(),
    };

    let shell = find_shell_in_process_tree(&tree, 300);
    assert!(matches!(shell, None));
}

#[test]
fn no_shell_found_with_valid_shell_names() {
    let tree = MockProcessTree {
        parents: HashMap::from([(300, 200), (200, 100)]),
        names: HashMap::from([
            (100, "bash_unknown".to_string()),
            (200, "zsh_custom".to_string()),
            (300, "my_cli_app".to_string()),
        ]),
    };

    let shell = find_shell_in_process_tree(&tree, 300);
    assert!(matches!(shell, None));
}

#[test]
fn find_fish_shell_in_process_tree() {
    let tree = MockProcessTree {
        parents: HashMap::from([(200, 100)]),
        names: HashMap::from([(100, "fish".to_string()), (200, "cargo".to_string())]),
    };

    let shell = find_shell_in_process_tree(&tree, 200);
    assert!(matches!(shell, Some(Shell::Fish)));
}

#[test]
fn find_zsh_shell_in_process_tree() {
    let tree = MockProcessTree {
        parents: HashMap::from([(200, 100)]),
        names: HashMap::from([(100, "zsh".to_string()), (200, "cargo".to_string())]),
    };

    let shell = find_shell_in_process_tree(&tree, 200);
    assert!(matches!(shell, Some(Shell::Zsh)));
}

#[test]
fn shell_names_are_matched_whole_and_in_lower_case() {
    assert_eq!(Shell::from_str("bash").ok(), Some(Shell::Bash));
    assert_eq!(Shell::from_str("zsh").ok(), Some(Shell::Zsh));
    assert_eq!(Shell::from_str("fish").ok(), Some(Shell::Fish));
    assert!(Shell::from_str("Bash").is_err());
    assert!(Shell::from_str("/bin/bash").is_err());
    assert!(Shell::from_str("").is_err());
}

fn table(entries: &[(u32, Option<u32>, Option<&str>)]) -> ProcessTable {
    ProcessTable {
        entries: entries
            .iter()
            .map(|(pid, parent, exe_name)| ProcessEntry {
                pid: *pid,
                parent: *parent,
                exe_name: exe_name.map(|name| name.to_string()),
            })
            .collect(),
    }
}

#[test]
fn environment_names_the_shell_before_the_process_tree_is_asked() {
    let tree = table(&[(100, None, Some("zsh")), (200, Some(100), Some("cargo"))]);
    assert_eq!(get_current_shell(Some("fish"), &tree, 200), Some(Shell::Fish));
    assert_eq!(get_current_shell(Some("tcsh"), &tree, 200), Some(Shell::Zsh));
    assert_eq!(get_current_shell(None, &tree, 200), Some(Shell::Zsh));
    assert_eq!(get_current_shell(None, &tree, 100), Some(Shell::Zsh));
    assert_eq!(get_current_shell(None, &tree, 7), None);
    assert_eq!(get_current_shell_by_env(Some("bash")), Some(Shell::Bash));
    assert_eq!(get_current_shell_by_env(Some("sh")), None);
    assert_eq!(get_current_shell_by_env(None), None);
}

#[test]
fn snapshot_walk_finds_the_first_shell_above() {
    let tree = table(&[
        (500, Some(400), Some("my_app")),
        (400, Some(300), Some("cargo")),
        (300, Some(200), Some("zsh")),
        (200, Some(100), Some("fish")),
        (100, None, Some("bash")),
    ]);
    assert_eq!(find_shell_in_snapshot(&tree, 500), Some(Shell::Zsh));
    assert_eq!(find_shell_in_snapshot(&tree, 200), Some(Shell::Fish));
    assert_eq!(find_shell_in_snapshot(&tree, 100), Some(Shell::Bash));
    assert_eq!(find_shell_in_process_tree(&tree, 500), Some(Shell::Zsh));
}

#[test]
fn snapshot_walk_ends_without_a_shell() {
    let tree = table(&[
        (300, Some(200), Some("my_app")),
        (200, Some(100), None),
        (100, Some(0), Some("cargo")),
        (0, None, Some("bash")),
        (50, Some(60), Some("make")),
    ]);
    assert_eq!(find_shell_in_snapshot(&tree, 300), None);
    assert_eq!(find_shell_in_snapshot(&tree, 50), None);
    assert_eq!(find_shell_in_snapshot(&tree, 9), None);
}

#[test]
fn first_entry_of_a_process_counts() {
    let tree = table(&[
        (10, Some(20), Some("vim")),
        (10, Some(30), Some("bash")),
        (20, None, Some("fish")),
        (30, None, Some("zsh")),
    ]);
    assert_eq!(tree.get_parent_pid(10), Some(20));
    assert_eq!(tree.get_exe_name(10), Some("vim".to_string()));
    assert_eq!(find_shell_in_snapshot(&tree, 10), Some(Shell::Fish));
}

#[test]
fn walk_judges_each_answer_by_itself() {
    assert_eq!(shell_of_name(Some("zsh")), Some(Shell::Zsh));
    assert_eq!(shell_of_name(Some("zsh ")), None);
    assert_eq!(shell_of_name(None), None);
    assert_eq!(next_process(Some(1)), Some(1));
    assert_eq!(next_process(Some(0)), None);
    assert_eq!(next_process(None), None);
}

#[test]
fn walk_stops_at_a_process_whose_parent_is_process_zero_even_if_that_is_a_shell() {
    let tree = MockProcessTree {
        parents: HashMap::from([(100, 0)]),
        names: HashMap::from([(100, "cargo".to_string()), (0, "bash".to_string())]),
    };
    assert_eq!(find_shell_in_process_tree(&tree, 100), None);
    assert_eq!(find_shell_in_process_tree(&tree, 0), Some(Shell::Bash));
}
