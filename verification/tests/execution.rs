//! Running scripts against a real Lua state: injection, execution order,
//! short-circuiting, and synchronising the globals back into the fields.

use tomlua_config::error::ExecError;
use tomlua_config::exec::Config;
use tomlua_config::script::Script;
use tomlua_config::values::{Field, Value};

fn field(name: &str, value: Value) -> Field {
    Field { name: name.to_string(), value }
}

fn inline(name: &str, code: &str) -> Script {
    Script { name: name.to_string(), inline: Some(code.to_string()), path: None }
}

#[test]
fn running_a_missing_name_succeeds_and_changes_nothing() {
    let mut config = Config {
        fields: vec![field("count", Value::Int(7)), field("label", Value::Text("hi".to_string()))],
        scripts: vec![inline("present", "count = 999")],
    };
    let lua = config.execute_script("absent", &vec![]).unwrap();
    config.update(lua).unwrap();
    assert_eq!(config.fields[0].value, Value::Int(7));
    assert_eq!(config.fields[1].value, Value::Text("hi".to_string()));
    assert_eq!(config.scripts.len(), 1);
}

#[test]
fn a_named_script_runs_and_globals_sync_back() {
    let mut config = Config {
        fields: vec![field("count", Value::Int(7))],
        scripts: vec![inline("bump", "count = count + 1")],
    };
    let lua = config.execute_script("bump", &vec![]).unwrap();
    config.update(lua).unwrap();
    assert_eq!(config.fields[0].value, Value::Int(8));
}

#[test]
fn only_the_first_script_of_a_name_runs() {
    let mut config = Config {
        fields: vec![field("x", Value::Int(0))],
        scripts: vec![inline("dup", "x = 1"), inline("dup", "x = 2")],
    };
    let lua = config.execute_script("dup", &vec![]).unwrap();
    config.update(lua).unwrap();
    assert_eq!(config.fields[0].value, Value::Int(1));
}

#[test]
fn all_scripts_run_in_stored_order() {
    // b depends on a's injected value, and the final a depends on the b the
    // first script computed: only the stored order produces (22, 11).
    let mut config = Config {
        fields: vec![field("a", Value::Int(1)), field("b", Value::Int(0))],
        scripts: vec![inline("first", "b = a + 10"), inline("second", "a = b * 2")],
    };
    let lua = config.execute_all(&vec![]).unwrap();
    config.update(lua).unwrap();
    assert_eq!(config.fields[0].value, Value::Int(22));
    assert_eq!(config.fields[1].value, Value::Int(11));
}

#[test]
fn a_failing_script_stops_the_run_and_is_named() {
    let config = Config {
        fields: vec![field("x", Value::Int(0))],
        scripts: vec![
            inline("ok", "x = 1"),
            inline("broken", "y = nil + 1"),
            inline("after", "x = 99"),
        ],
    };
    match config.execute_all(&vec![]) {
        Err(ExecError::ScriptFailure { script, .. }) => assert_eq!(script, "broken"),
        other => panic!("expected the broken script to fail, got {:?}", other),
    }
}

#[test]
fn a_script_without_source_fails_the_run() {
    let config = Config {
        fields: vec![],
        scripts: vec![Script { name: "empty".to_string(), inline: None, path: None }],
    };
    match config.execute_all(&vec![]) {
        Err(ExecError::NoSource { script }) => assert_eq!(script, "empty"),
        other => panic!("expected a missing-source failure, got {:?}", other),
    }
}

#[test]
fn untouched_fields_read_back_unchanged() {
    let mut config = Config {
        fields: vec![
            field("n", Value::Int(-3)),
            field("t", Value::Text("keep".to_string())),
            field("f", Value::Bool(true)),
        ],
        scripts: vec![inline("unrelated", "z = 40 + 2")],
    };
    let lua = config.execute_all(&vec![]).unwrap();
    config.update(lua).unwrap();
    assert_eq!(config.fields[0].value, Value::Int(-3));
    assert_eq!(config.fields[1].value, Value::Text("keep".to_string()));
    assert_eq!(config.fields[2].value, Value::Bool(true));
}

#[test]
fn every_value_kind_can_round_trip_through_a_script() {
    let mut config = Config {
        fields: vec![
            field("n", Value::Int(41)),
            field("t", Value::Text("hello".to_string())),
            field("f", Value::Bool(false)),
        ],
        scripts: vec![inline("mutate", "n = n + 1\nt = t .. '!'\nf = not f")],
    };
    let lua = config.execute_all(&vec![]).unwrap();
    config.update(lua).unwrap();
    assert_eq!(config.fields[0].value, Value::Int(42));
    assert_eq!(config.fields[1].value, Value::Text("hello!".to_string()));
    assert_eq!(config.fields[2].value, Value::Bool(true));
}

#[test]
fn a_global_made_absent_fails_synchronization_and_keeps_the_rest() {
    let mut config = Config {
        fields: vec![field("a", Value::Int(1)), field("b", Value::Int(2))],
        scripts: vec![inline("drop", "b = nil\na = 10")],
    };
    let lua = config.execute_all(&vec![]).unwrap();
    match config.update(lua) {
        Err(ExecError::ReadBackFailure { field, .. }) => assert_eq!(field, "b"),
        other => panic!("expected a read-back failure, got {:?}", other),
    }
    // the field before the failing one was already synchronised; the failing
    // one keeps its previous value
    assert_eq!(config.fields[0].value, Value::Int(10));
    assert_eq!(config.fields[1].value, Value::Int(2));
}

#[test]
fn a_global_of_an_unsupported_type_fails_synchronization() {
    let mut config = Config {
        fields: vec![field("a", Value::Int(1))],
        scripts: vec![inline("table", "a = { 1, 2 }")],
    };
    let lua = config.execute_all(&vec![]).unwrap();
    match config.update(lua) {
        Err(e) => {
            assert!(matches!(e, ExecError::ReadBackFailure { ref field, .. } if field == "a"));
            assert_eq!(
                e.message(),
                "Failed to read global `a` from Lua: the global holds a value outside the supported types"
            );
        },
        Ok(()) => panic!("expected a read-back failure"),
    }
}

#[test]
fn script_failure_message_names_the_script() {
    let config = Config {
        fields: vec![],
        scripts: vec![inline("boom", "error('exploded')")],
    };
    let e = config.execute_all(&vec![]).unwrap_err();
    let msg = e.message();
    assert!(msg.starts_with("Script `boom` failed: "));
    assert!(msg.contains("exploded"));
}

#[test]
fn injection_failure_message_names_the_field() {
    let e = ExecError::InjectFailure {
        field: "speed".to_string(),
        detail: "out of memory".to_string(),
    };
    assert_eq!(
        e.message(),
        "Failed to inject field `speed` as a Lua variable: out of memory"
    );
}

#[test]
fn an_empty_config_runs_all_of_nothing() {
    let mut config = Config { fields: vec![], scripts: vec![] };
    let lua = config.execute_all(&vec![]).unwrap();
    config.update(lua).unwrap();
    assert!(config.fields.is_empty());
}
