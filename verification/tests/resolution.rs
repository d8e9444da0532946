//! Resolving a script descriptor to its source text.

use tomlua_config::error::ExecError;
use tomlua_config::script::{extract_lua_code, FileEntry, ReadOutcome, Script};

fn inline_script(name: &str, code: &str) -> Script {
    Script { name: name.to_string(), inline: Some(code.to_string()), path: None }
}

fn path_script(name: &str, path: &str) -> Script {
    Script { name: name.to_string(), inline: None, path: Some(path.to_string()) }
}

#[test]
fn inline_text_is_returned_unchanged() {
    let s = inline_script("setup", "x = 1\ny = 'two'");
    let r = extract_lua_code(&s, &vec![]);
    assert_eq!(r.unwrap(), "x = 1\ny = 'two'");
}

#[test]
fn inline_text_wins_over_path() {
    let mut s = inline_script("setup", "x = 1");
    s.path = Some("setup.lua".to_string());
    let files = vec![FileEntry {
        path: "setup.lua".to_string(),
        outcome: ReadOutcome::Content("x = 2".to_string()),
    }];
    let r = extract_lua_code(&s, &files);
    assert_eq!(r.unwrap(), "x = 1");
}

#[test]
fn path_resolves_to_supplied_contents() {
    let s = path_script("setup", "scripts/setup.lua");
    let files = vec![
        FileEntry {
            path: "scripts/other.lua".to_string(),
            outcome: ReadOutcome::Content("y = 9".to_string()),
        },
        FileEntry {
            path: "scripts/setup.lua".to_string(),
            outcome: ReadOutcome::Content("x = 42".to_string()),
        },
    ];
    let r = extract_lua_code(&s, &files);
    assert_eq!(r.unwrap(), "x = 42");
}

#[test]
fn unreadable_path_is_a_descriptive_failure() {
    let s = path_script("setup", "missing.lua");
    let files = vec![FileEntry {
        path: "missing.lua".to_string(),
        outcome: ReadOutcome::Failure("No such file or directory (os error 2)".to_string()),
    }];
    match extract_lua_code(&s, &files) {
        Err(ExecError::ReadFailure { script, detail }) => {
            assert_eq!(script, "setup");
            assert_eq!(detail, "No such file or directory (os error 2)");
        },
        other => panic!("expected a read failure, got {:?}", other),
    }
}

#[test]
fn unsupplied_path_is_a_descriptive_failure() {
    let s = path_script("setup", "missing.lua");
    match extract_lua_code(&s, &vec![]) {
        Err(ExecError::ReadFailure { script, detail }) => {
            assert_eq!(script, "setup");
            assert_eq!(detail, "no contents were supplied for this path");
        },
        other => panic!("expected a read failure, got {:?}", other),
    }
}

#[test]
fn no_source_is_a_descriptive_failure() {
    let s = Script { name: "empty".to_string(), inline: None, path: None };
    match extract_lua_code(&s, &vec![]) {
        Err(e) => {
            assert!(matches!(e, ExecError::NoSource { ref script } if script == "empty"));
            assert_eq!(
                e.message(),
                "No code found for 'empty'\nexpected at least one of: 'inline', 'path'"
            );
        },
        Ok(code) => panic!("expected a failure, got source {:?}", code),
    }
}

#[test]
fn read_failure_message_names_script_and_cause() {
    let e = ExecError::ReadFailure {
        script: "init".to_string(),
        detail: "permission denied".to_string(),
    };
    assert_eq!(e.message(), "Failed to read script `init`:\npermission denied");
}
