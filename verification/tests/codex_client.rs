use codexhalo::json::{JsonMember, JsonNumber, JsonValue};
use codexhalo::quota::{account_is_signed_in, is_codex_extension_directory, read_rpc_line, RpcLine, classify_rpc_reply, normalize_windows, npm_native_candidates, windows_target_directory, CodexClientError, RpcReply};

fn to_json(v: &serde_json::Value) -> JsonValue {
    match v {
        serde_json::Value::Null => JsonValue::Null,
        serde_json::Value::Bool(b) => JsonValue::Bool(*b),
        serde_json::Value::Number(n) => JsonValue::Number(JsonNumber { as_u64: n.as_u64(), as_i64: n.as_i64() }),
        serde_json::Value::String(s) => JsonValue::String(s.clone()),
        serde_json::Value::Array(items) => JsonValue::Array(items.iter().map(to_json).collect()),
        serde_json::Value::Object(map) => JsonValue::Object(
            map.iter().map(|(k, v)| JsonMember { key: k.clone(), value: to_json(v) }).collect(),
        ),
    }
}

fn parse(text: &str) -> JsonValue {
    to_json(&serde_json::from_str::<serde_json::Value>(text).unwrap())
}

#[test]
fn normalizes_known_and_future_windows() {
    let source = parse(r#"{ "rateLimits": {
        "limitId": "codex",
        "primary": { "usedPercent": 28, "windowDurationMins": 300, "resetsAt": 10 },
        "secondary": { "usedPercent": 57, "windowDurationMins": 10080, "resetsAt": 20 }
    }}"#);
    let windows = normalize_windows(&source);
    assert_eq!(windows[0].remaining_percent(), 72);
    assert_eq!(windows[1].duration_minutes, 10080);
}

#[test]
fn window_ids_durations_and_clamped_use() {
    let source = parse(r#"{ "rateLimitsByLimitId": { "codex": {
        "secondary": { "usedPercent": 250, "windowDurationMins": 240 },
        "primary": { "usedPercent": 3 }
    }}, "rateLimits": { "primary": { "windowDurationMins": 1 } } }"#);
    let windows = normalize_windows(&source);
    assert_eq!(windows.len(), 1);
    assert_eq!(windows[0].id, "secondary-240");
    assert_eq!(windows[0].used_percent, 100);
    assert_eq!(windows[0].resets_at, None);
    let labelled = normalize_windows(&parse(r#"{ "rateLimits": { "limitId": "codex", "primary": { "windowDurationMins": 300, "resetsAt": -5 } } }"#));
    assert_eq!(labelled[0].id, "codex-300");
    assert_eq!(labelled[0].used_percent, 0);
    assert_eq!(labelled[0].resets_at, Some(-5));
    assert!(normalize_windows(&parse("{}")).is_empty());
}

#[test]
fn account_and_reply_classification() {
    assert!(account_is_signed_in(&parse(r#"{"account":{"email":"x"}}"#)));
    assert!(!account_is_signed_in(&parse(r#"{"account":null}"#)));
    assert!(!account_is_signed_in(&parse(r#"{}"#)));
    assert_eq!(classify_rpc_reply(&parse(r#"{"id":2,"result":{}}"#), 1), RpcReply::Unrelated);
    assert_eq!(classify_rpc_reply(&parse(r#"{"id":1,"error":{"code":1}}"#), 1), RpcReply::Failed);
    assert_eq!(classify_rpc_reply(&parse(r#"{"id":1,"result":{}}"#), 1), RpcReply::Succeeded);
    assert_eq!(classify_rpc_reply(&parse(r#"{"method":"x"}"#), 1), RpcReply::Unrelated);
}

#[test]
fn error_messages_match_their_variants() {
    assert_eq!(CodexClientError::NotFound.message(), "Codex CLI was not found. Install Codex and sign in first.");
    assert_eq!(CodexClientError::Spawn("denied".to_owned()).message(), "Could not start Codex: denied");
    assert_eq!(CodexClientError::Protocol("bad".to_owned()).message(), "Codex app-server returned an error: bad");
    assert_eq!(CodexClientError::Closed.message(), "Codex app-server closed unexpectedly");
}

#[test]
fn npm_candidates_follow_the_package_layouts() {
    let candidates = npm_native_candidates(false);
    assert_eq!(candidates.len(), 6);
    assert_eq!(
        candidates[0],
        vec!["node_modules", "@openai", "codex", "node_modules", "@openai", "codex-win32-x64", "vendor", "x86_64-pc-windows-msvc", "bin", "codex.exe"]
    );
    assert_eq!(candidates[5], vec!["node_modules", "@openai", "codex", "vendor", "x86_64-pc-windows-msvc", "codex", "codex.exe"]);
    assert_eq!(npm_native_candidates(true)[2], vec!["node_modules", "@openai", "codex-win32-arm64", "vendor", "aarch64-pc-windows-msvc", "bin", "codex.exe"]);
    assert_eq!(windows_target_directory(true), "aarch64-pc-windows-msvc");
}

#[test]
fn extension_directories_are_recognized_without_regard_to_case() {
    assert!(is_codex_extension_directory("openai.chatgpt-1.2.3-win32-x64"));
    assert!(is_codex_extension_directory("OpenAI.ChatGPT-0.4"));
    assert!(!is_codex_extension_directory("openai.chatgpt"));
    assert!(!is_codex_extension_directory("ms-python.python-2024"));
}

#[test]
fn app_server_lines_are_read_as_answers_to_a_request() {
    assert!(matches!(read_rpc_line("not json\n", 1), RpcLine::NotJson));
    assert!(matches!(read_rpc_line("{\"id\":2,\"result\":{}}\n", 1), RpcLine::Unrelated));
    match read_rpc_line("{\"id\":1, \"error\":{\"message\":\"no\",\"code\":-1}}\n", 1) {
        RpcLine::Failed(message) => assert_eq!(message, "{\"code\":-1,\"message\":\"no\"}"),
        other => panic!("unexpected {:?}", other),
    }
    match read_rpc_line("{\"id\":1,\"result\":{\"account\":{\"email\":\"x\"}}}", 1) {
        RpcLine::Succeeded(result) => assert!(account_is_signed_in(&result)),
        other => panic!("unexpected {:?}", other),
    }
    match read_rpc_line("{\"id\":1}", 1) {
        RpcLine::Succeeded(result) => assert!(result.is_null()),
        other => panic!("unexpected {:?}", other),
    }
}
