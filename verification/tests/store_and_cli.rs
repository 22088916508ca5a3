use duckscript_core::cli::{plan_cli, CliAction};
use duckscript_core::numfmt::format_u64;
use duckscript_core::process::{spawn_options, spawn_outcome};
use duckscript_core::command::CommandResult;
use duckscript_core::store::{HandleError, HandleStore};
use duckscript_core::value::Value;

#[test]
fn put_then_get_returns_stored_value() {
    let mut store = HandleStore::new();
    let key = store.put(Value::ByteArray(vec![1, 2, 3]));
    assert!(store.get(&key).unwrap().is_byte_array());
    match store.get(&key) {
        Some(Value::ByteArray(bytes)) => assert_eq!(bytes, &vec![1, 2, 3]),
        _ => panic!("the stored value must come back structurally equal"),
    }
    // get does not remove
    assert!(store.get(&key).is_some());
}

#[test]
fn take_returns_value_and_removes_key() {
    let mut store = HandleStore::new();
    let key = store.put(Value::ByteArray(vec![9, 8]));
    match store.take(&key) {
        Some(Value::ByteArray(bytes)) => assert_eq!(bytes, vec![9, 8]),
        _ => panic!("take must return the stored value"),
    }
    assert!(store.get(&key).is_none());
    assert!(store.take(&key).is_none());
}

#[test]
fn unknown_key_is_not_found() {
    let mut store = HandleStore::new();
    assert!(store.get(&"handle_0".to_string()).is_none());
    assert!(store.take(&"never issued".to_string()).is_none());
    assert_eq!(
        store.get_byte_array(&"handle_0".to_string()).err().unwrap(),
        HandleError::NotFound
    );
    let _ = store.put(Value::Text("x".to_string()));
    assert_eq!(
        store.get_byte_array(&"no such handle".to_string()).err().unwrap(),
        HandleError::NotFound
    );
}

#[test]
fn wrong_kind_is_distinct_from_not_found() {
    let mut store = HandleStore::new();
    let key = store.put(Value::Text("plain text".to_string()));
    let error = store.get_byte_array(&key).err().unwrap();
    assert_eq!(error, HandleError::WrongKind);
    assert_ne!(error, HandleError::NotFound);

    // and symmetrically: a key holding bytes, read by a caller expecting text
    let bytes_key = store.put(Value::ByteArray(vec![1, 2]));
    assert_eq!(store.get_text(&bytes_key).err().unwrap(), HandleError::WrongKind);
    assert_eq!(store.get_text(&"handle_99".to_string()).err().unwrap(), HandleError::NotFound);
    assert_eq!(store.get_text(&key).unwrap(), "plain text");
}

#[test]
fn issued_keys_are_unique() {
    let mut store = HandleStore::new();
    let first = store.put(Value::ByteArray(vec![1]));
    let second = store.put(Value::ByteArray(vec![2]));
    assert_ne!(first, second);
    match (store.get(&first), store.get(&second)) {
        (Some(Value::ByteArray(a)), Some(Value::ByteArray(b))) => {
            assert_eq!(a, &vec![1]);
            assert_eq!(b, &vec![2]);
        },
        _ => panic!("both keys must stay live"),
    }
}

#[test]
fn format_u64_renders_decimal() {
    assert_eq!(format_u64(0), "0");
    assert_eq!(format_u64(7), "7");
    assert_eq!(format_u64(10), "10");
    assert_eq!(format_u64(40960), "40960");
    assert_eq!(format_u64(u64::MAX), "18446744073709551615");
}

fn args(list: &[&str]) -> Vec<String> {
    list.iter().map(|a| a.to_string()).collect()
}

#[test]
fn plan_cli_selects_modes() {
    assert!(matches!(plan_cli(&args(&["duck"])), CliAction::Repl));
    assert!(matches!(plan_cli(&args(&["duck", "--version"])), CliAction::Version));
    assert!(matches!(plan_cli(&args(&["duck", "--help"])), CliAction::Help));
    assert!(matches!(plan_cli(&args(&["duck", "-h"])), CliAction::Help));
    match plan_cli(&args(&["duck", "script.ds"])) {
        CliAction::RunFile(path) => assert_eq!(path, "script.ds"),
        _ => panic!("a single argument must run a file"),
    }
    match plan_cli(&args(&["duck", "-e", "echo hi"])) {
        CliAction::Eval(text) => assert_eq!(text, "echo hi"),
        _ => panic!("-e must evaluate inline text"),
    }
    match plan_cli(&args(&["duck", "--lint", "script.ds"])) {
        CliAction::Lint(path) => assert_eq!(path, "script.ds"),
        _ => panic!("--lint must lint the file"),
    }
    match plan_cli(&args(&["duck", "script.ds", "extra"])) {
        CliAction::RunFile(path) => assert_eq!(path, "script.ds"),
        _ => panic!("other shapes run the first argument as a file"),
    }
}

#[test]
fn spawn_options_detects_silent_flag() {
    assert_eq!(spawn_options(&args(&["--silent", "ls"])), (false, 1));
    assert_eq!(spawn_options(&args(&["ls", "--silent"])), (true, 0));
    assert_eq!(spawn_options(&args(&[])), (true, 0));
}

#[test]
fn spawn_outcome_reports_pid_or_error() {
    match spawn_outcome(Ok(42)) {
        CommandResult::Continue(Some(pid)) => assert_eq!(pid, "42"),
        _ => panic!("a started child must continue with its pid"),
    }
    match spawn_outcome(Err("spawn failed".to_string())) {
        CommandResult::Error(message) => assert_eq!(message, "spawn failed"),
        _ => panic!("a failure message must be forwarded"),
    }
}
