use duckscript_core::command::{
    create_alias_command, nested_outcome, Command, CommandBehavior, CommandResult,
};
use duckscript_core::registry::Registry;
use duckscript_core::store::HandleStore;
use duckscript_core::strmap::StringMap;
use duckscript_core::value::Value;

fn echo_command(name: &str, aliases: Vec<&str>) -> Command {
    Command::new(
        name.to_string(),
        aliases.iter().map(|a| a.to_string()).collect(),
        "prints its arguments".to_string(),
        CommandBehavior::Echo,
    )
}

fn run_in_context(
    command: &Command,
    args: Vec<&str>,
    state: &mut HandleStore,
    registry: &mut Registry,
) -> CommandResult {
    let arguments: Vec<String> = args.iter().map(|a| a.to_string()).collect();
    let mut variables: StringMap<String> = StringMap::new();
    let instructions = Vec::new();
    command.run_with_context(
        &arguments,
        &mut variables,
        state,
        &None,
        &instructions,
        registry,
        0,
    )
}

#[test]
fn resolve_returns_registered_identity() {
    let mut registry = Registry::new();
    registry.register(echo_command("echo_cmd", vec!["echo", "say"]));

    for lookup in ["echo_cmd", "echo", "say"] {
        let resolved = registry.resolve(&lookup.to_string()).expect("name must resolve");
        assert_eq!(resolved.name(), "echo_cmd");
        assert_eq!(resolved.aliases(), vec!["echo".to_string(), "say".to_string()]);
        assert_eq!(resolved.help(), "prints its arguments");
    }
}

#[test]
fn resolve_unknown_name_is_none() {
    let registry = Registry::new();
    assert!(registry.resolve(&"missing".to_string()).is_none());
}

#[test]
fn later_registration_wins_on_overlap() {
    let mut registry = Registry::new();
    registry.register(echo_command("first", vec!["shared", "only_first"]));
    registry.register(echo_command("second", vec!["shared"]));

    assert_eq!(registry.resolve(&"shared".to_string()).unwrap().name(), "second");
    assert_eq!(registry.resolve(&"second".to_string()).unwrap().name(), "second");
    // names bound only by the earlier registration keep it
    assert_eq!(registry.resolve(&"first".to_string()).unwrap().name(), "first");
    assert_eq!(registry.resolve(&"only_first".to_string()).unwrap().name(), "first");
}

#[test]
fn register_package_prefixes_primary_names() {
    let mut registry = Registry::new();
    let bundle = vec![echo_command("echo_cmd", vec!["echo"])];
    registry.register_package(&"std".to_string(), &bundle);

    let by_full = registry.resolve(&"std::echo_cmd".to_string()).expect("namespaced name");
    let by_alias = registry.resolve(&"echo".to_string()).expect("alias");
    assert_eq!(by_full.name(), "std::echo_cmd");
    assert_eq!(by_alias.name(), "std::echo_cmd");
}

#[test]
fn register_package_empty_prefix_keeps_names() {
    let mut registry = Registry::new();
    registry.register_package(&"".to_string(), &vec![echo_command("echo_cmd", vec![])]);
    assert!(registry.resolve(&"echo_cmd".to_string()).is_some());
}

#[test]
fn echo_joins_arguments() {
    let command = echo_command("echo_cmd", vec![]);
    assert!(!command.requires_context());
    let args: Vec<String> = vec!["a".to_string(), "b".to_string(), "c".to_string()];
    match command.run(&args) {
        CommandResult::Continue(Some(text)) => assert_eq!(text, "a b c"),
        _ => panic!("echo must continue with the joined text"),
    }
    match command.run(&Vec::new()) {
        CommandResult::Continue(Some(text)) => assert_eq!(text, ""),
        _ => panic!("echo of nothing must continue with empty text"),
    }
}

#[test]
fn stateless_path_rejects_context_command() {
    let command = Command::new(
        "std::Base64Encode".to_string(),
        vec!["base64_encode".to_string()],
        "encodes a byte array".to_string(),
        CommandBehavior::Base64Encode,
    );
    assert!(command.requires_context());
    match command.run(&Vec::new()) {
        CommandResult::Error(message) => {
            assert_eq!(message, "Command requires execution context.")
        },
        _ => panic!("a context command must fail on the stateless path"),
    }
}

#[test]
fn base64_encode_command_encodes_stored_bytes() {
    let mut state = HandleStore::new();
    let mut registry = Registry::new();
    let key = state.put(Value::ByteArray(b"hello".to_vec()));
    let command = Command::new(
        "std::Base64Encode".to_string(),
        vec![],
        String::new(),
        CommandBehavior::Base64Encode,
    );
    match run_in_context(&command, vec![&key], &mut state, &mut registry) {
        CommandResult::Continue(Some(text)) => assert_eq!(text, "aGVsbG8="),
        _ => panic!("encode must continue with the base64 text"),
    }
}

#[test]
fn base64_encode_command_errors() {
    let mut state = HandleStore::new();
    let mut registry = Registry::new();
    let command = Command::new(
        "std::Base64Encode".to_string(),
        vec![],
        String::new(),
        CommandBehavior::Base64Encode,
    );

    match run_in_context(&command, vec![], &mut state, &mut registry) {
        CommandResult::Error(message) => assert_eq!(message, "Array handle not provided."),
        _ => panic!("missing handle must be an error"),
    }

    match run_in_context(&command, vec!["nope"], &mut state, &mut registry) {
        CommandResult::Error(message) => {
            assert_eq!(message, "Array for handle: nope not found.")
        },
        _ => panic!("unknown handle must be an error"),
    }

    let key = state.put(Value::Text("plain".to_string()));
    match run_in_context(&command, vec![&key], &mut state, &mut registry) {
        CommandResult::Error(message) => assert_eq!(message, "Invalid handle provided."),
        _ => panic!("a non-byte-array handle must be a wrong-kind error"),
    }
}

#[test]
fn base64_decode_stores_retrievable_bytes() {
    let mut state = HandleStore::new();
    let mut registry = Registry::new();
    let decode = Command::new(
        "std::Base64Decode".to_string(),
        vec![],
        String::new(),
        CommandBehavior::Base64Decode,
    );
    let key = match run_in_context(&decode, vec!["aGVsbG8="], &mut state, &mut registry) {
        CommandResult::Continue(Some(key)) => key,
        _ => panic!("decode must continue with the generated key"),
    };

    // a later command holding the key reads the identical bytes
    match state.get(&key) {
        Some(Value::ByteArray(bytes)) => assert_eq!(bytes, b"hello"),
        _ => panic!("the key must hold the decoded bytes"),
    }

    // and the encode command round-trips them through the same key
    let encode = Command::new(
        "std::Base64Encode".to_string(),
        vec![],
        String::new(),
        CommandBehavior::Base64Encode,
    );
    match run_in_context(&encode, vec![&key], &mut state, &mut registry) {
        CommandResult::Continue(Some(text)) => assert_eq!(text, "aGVsbG8="),
        _ => panic!("encode must accept the decoded handle"),
    }
}

#[test]
fn base64_decode_errors() {
    let mut state = HandleStore::new();
    let mut registry = Registry::new();
    let decode = Command::new(
        "std::Base64Decode".to_string(),
        vec![],
        String::new(),
        CommandBehavior::Base64Decode,
    );
    match run_in_context(&decode, vec![], &mut state, &mut registry) {
        CommandResult::Error(message) => assert_eq!(message, "Input not provided."),
        _ => panic!("missing input must be an error"),
    }
    match run_in_context(&decode, vec!["!!!"], &mut state, &mut registry) {
        CommandResult::Error(message) => assert_eq!(message, "Invalid base64 input provided."),
        _ => panic!("rejected text must be an error"),
    }
}

#[test]
fn alias_with_too_few_arguments_fails_without_expansion() {
    let command = create_alias_command(
        "std::CPGlob".to_string(),
        vec!["glob_cp".to_string(), "cp_glob".to_string()],
        "copies globbed files".to_string(),
        "glob_cp".to_string(),
        &"glob_cp ${1} ${2}".to_string(),
        2,
    )
    .expect("a consistent alias must construct");

    let mut state = HandleStore::new();
    let mut registry = Registry::new();
    match run_in_context(&command, vec!["only_one"], &mut state, &mut registry) {
        CommandResult::Error(message) => assert_eq!(message, "Invalid arguments provided."),
        CommandResult::Expand(_) => panic!("no nested script may exist for too few arguments"),
        _ => panic!("too few arguments must be an argument-count error"),
    }
}

#[test]
fn alias_expands_to_substituted_template() {
    let command = create_alias_command(
        "std::CPGlob".to_string(),
        vec![],
        String::new(),
        "glob_cp".to_string(),
        &"glob_cp ${1} ${2}\necho done".to_string(),
        2,
    )
    .unwrap();

    let mut state = HandleStore::new();
    let mut registry = Registry::new();
    match run_in_context(&command, vec!["*.txt", "backup"], &mut state, &mut registry) {
        CommandResult::Expand(script) => assert_eq!(script, "glob_cp *.txt backup\necho done"),
        _ => panic!("a valid invocation must expand the template"),
    }
}

#[test]
fn alias_leaves_non_placeholder_text_verbatim() {
    let command = create_alias_command(
        "a".to_string(),
        vec![],
        String::new(),
        "d".to_string(),
        &"echo $1 ${} ${x} costs $$".to_string(),
        1,
    )
    .unwrap();
    let mut state = HandleStore::new();
    let mut registry = Registry::new();
    match run_in_context(&command, vec!["unused"], &mut state, &mut registry) {
        CommandResult::Expand(script) => assert_eq!(script, "echo $1 ${} ${x} costs $$"),
        _ => panic!("expansion must succeed"),
    }
}

#[test]
fn create_alias_rejects_blank_template() {
    let result = create_alias_command(
        "a".to_string(),
        vec![],
        String::new(),
        "d".to_string(),
        &"  \t\n".to_string(),
        0,
    );
    assert_eq!(result.err().unwrap(), "Alias script is empty.");
}

#[test]
fn create_alias_rejects_unguaranteed_positions() {
    let result = create_alias_command(
        "a".to_string(),
        vec![],
        String::new(),
        "d".to_string(),
        &"echo ${3}".to_string(),
        2,
    );
    assert_eq!(
        result.err().unwrap(),
        "Alias script references arguments beyond the declared minimum count."
    );
    let zero = create_alias_command(
        "a".to_string(),
        vec![],
        String::new(),
        "d".to_string(),
        &"echo ${0}".to_string(),
        2,
    );
    assert!(zero.is_err());
}

#[test]
fn nested_outcome_is_propagated_unchanged() {
    match nested_outcome(Ok(Some("value".to_string()))) {
        CommandResult::Continue(Some(text)) => assert_eq!(text, "value"),
        _ => panic!("a final value must continue"),
    }
    match nested_outcome(Ok(None)) {
        CommandResult::Continue(None) => {},
        _ => panic!("an empty final value must continue empty"),
    }
    match nested_outcome(Err("nested failure".to_string())) {
        CommandResult::Error(message) => assert_eq!(message, "nested failure"),
        _ => panic!("a nested error must be forwarded unchanged"),
    }
}

#[test]
fn resolved_clone_is_independent() {
    let mut registry = Registry::new();
    registry.register(echo_command("echo_cmd", vec![]));
    let first = registry.resolve(&"echo_cmd".to_string()).unwrap();
    let second = registry.resolve(&"echo_cmd".to_string()).unwrap();
    assert_eq!(first.name(), second.name());
    assert_eq!(first.aliases(), second.aliases());
    assert_eq!(first.help(), second.help());
}
