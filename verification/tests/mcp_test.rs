use refactor::cli::Command;
use refactor::config::default_config;
use refactor::error::RefactorError;
use refactor::languages::json::{JsonNumber, JsonValue};
use refactor::mcp::{
    frame_too_large, handle_message, known_tool, migrate_plan_path, prepare_config, protocol_version, resolve_root,
    reply_value, tool_apply, tool_error_result, tool_is_error, tool_request, tool_result, tool_result_text, tools, Reply,
    MAX_FRAME_BYTES,
};

fn s(v: &str) -> JsonValue {
    JsonValue::String(v.to_string())
}

fn obj(members: Vec<(&str, JsonValue)>) -> JsonValue {
    JsonValue::Object(members.into_iter().map(|(k, v)| (k.to_string(), v)).collect())
}

fn id(n: u64) -> JsonValue {
    JsonValue::Number(JsonNumber::PosInt(n))
}

fn id_of(v: &JsonValue) -> Option<u64> {
    match v {
        JsonValue::Number(JsonNumber::PosInt(n)) => Some(*n),
        _ => None,
    }
}

#[test]
fn initialize_echoes_the_requested_version() {
    let m = obj(vec![("id", id(1)), ("method", s("initialize")), ("params", obj(vec![("protocolVersion", s("2024-11-05"))]))]);
    match handle_message(&m) {
        Reply::Initialize { id, protocol_version } => {
            assert_eq!(id_of(&id), Some(1));
            assert_eq!(protocol_version, "2024-11-05");
        }
        _ => panic!("expected an initialize reply"),
    }
    let bare = obj(vec![("id", id(2)), ("method", s("initialize"))]);
    match handle_message(&bare) {
        Reply::Initialize { protocol_version, .. } => assert_eq!(protocol_version, protocol_version_default()),
        _ => panic!("expected an initialize reply"),
    }
}

fn protocol_version_default() -> String {
    protocol_version()
}

#[test]
fn notifications_get_no_reply() {
    for method in ["notifications/initialized", "initialized", "notifications/cancelled"] {
        let m = obj(vec![("id", id(3)), ("method", s(method))]);
        assert!(matches!(handle_message(&m), Reply::Silent));
    }
    let no_id = obj(vec![("method", s("ping"))]);
    assert!(matches!(handle_message(&no_id), Reply::Silent));
}

#[test]
fn known_methods_are_answered() {
    assert!(matches!(handle_message(&obj(vec![("id", id(4)), ("method", s("ping"))])), Reply::Pong { .. }));
    assert!(matches!(handle_message(&obj(vec![("id", id(5)), ("method", s("tools/list"))])), Reply::ToolList { .. }));
    match handle_message(&obj(vec![("id", id(6)), ("method", s("resources/templates/list"))])) {
        Reply::EmptyList { key, .. } => assert_eq!(key, "resourceTemplates"),
        _ => panic!("expected an empty list"),
    }
    match handle_message(&obj(vec![("id", id(7)), ("method", s("bogus"))])) {
        Reply::MethodNotFound { id } => assert_eq!(id_of(&id), Some(7)),
        _ => panic!("expected method not found"),
    }
}

#[test]
fn tool_calls_carry_name_and_object_arguments() {
    let m = obj(vec![
        ("id", id(8)),
        ("method", s("tools/call")),
        ("params", obj(vec![("name", s("scan")), ("arguments", s("not an object"))])),
    ]);
    match handle_message(&m) {
        Reply::CallTool { name, arguments, .. } => {
            assert_eq!(name, "scan");
            assert!(matches!(arguments, JsonValue::Object(ref e) if e.is_empty()));
        }
        _ => panic!("expected a tool call"),
    }
}

#[test]
fn mutating_tools_default_to_a_dry_run() {
    let none = obj(vec![]);
    let apply = obj(vec![("apply", JsonValue::Bool(true))]);
    assert!(!tool_apply("replace", &none));
    assert!(tool_apply("replace", &apply));
    assert!(!tool_apply("scan", &apply), "read-only tools never write");
    assert!(!tool_apply("clean", &obj(vec![("apply", s("true"))])));
    assert!(known_tool("duplicates"));
    assert!(!known_tool("update"));
}

#[test]
fn tool_requests_read_their_arguments() {
    match tool_request("replace", &obj(vec![("new", s("b"))])) {
        Err(RefactorError::Validation(m)) => assert_eq!(m, "Missing required argument 'old'"),
        _ => panic!("expected a missing argument"),
    }
    match tool_request("replace", &obj(vec![("old", s("a")), ("new", s("b")), ("regex", JsonValue::Bool(true))])) {
        Ok(Command::Replace(a)) => {
            assert_eq!(a.old, "a");
            assert_eq!(a.new, "b");
            assert!(a.regex);
            assert!(!a.case_sensitive);
        }
        _ => panic!("expected a replace command"),
    }
    match tool_request("clean", &obj(vec![("cache", JsonValue::Bool(true))])) {
        Ok(Command::Clean(a)) => assert!(a.cache && !a.temp_files && !a.empty_dirs),
        _ => panic!("expected a clean command"),
    }
    match tool_request("frobnicate", &obj(vec![])) {
        Err(RefactorError::Validation(m)) => assert_eq!(m, "Unknown tool 'frobnicate'"),
        _ => panic!("expected an unknown tool"),
    }
    match tool_request("duplicates", &obj(vec![("min_size", id(10))])) {
        Ok(Command::Duplicates(a)) => assert_eq!(a.min_size, Some(10)),
        _ => panic!("expected a duplicates command"),
    }
}

#[test]
fn tool_list_names_every_tool() {
    match tools() {
        JsonValue::Array(items) => assert_eq!(items.len(), 12),
        _ => panic!("expected an array"),
    }
}

#[test]
fn tool_results_mark_errors_and_blank_output() {
    assert_eq!(tool_result_text("  \n".to_string(), 3), "(no output; exit code 3)");
    assert_eq!(tool_result_text("done\n".to_string(), 0), "done\n");
    assert_eq!(tool_result_text(String::new(), -1), "(no output; exit code -1)");
    assert!(tool_is_error(2));
    assert!(!tool_is_error(1));
}

#[test]
fn roots_and_plans_are_joined_when_relative() {
    assert_eq!(resolve_root(&obj(vec![("root", s("/abs"))]), "/srv", "/cwd"), "/abs");
    assert_eq!(resolve_root(&obj(vec![("root", s("rel/x"))]), "/srv", "/cwd"), "/cwd/rel/x");
    assert_eq!(resolve_root(&obj(vec![]), "/srv", "/cwd"), "/srv");
    assert_eq!(migrate_plan_path("/repo", "plan.toml"), "/repo/plan.toml");
    assert_eq!(migrate_plan_path("/repo", "/tmp/plan.toml"), "/tmp/plan.toml");
}

#[test]
fn tool_arguments_override_the_configuration() {
    let mut config = default_config();
    let excludes = config.scan.exclude.len();
    let args = obj(vec![
        ("extensions", JsonValue::Array(vec![s("ts"), id(1), s("php")])),
        ("exclude", JsonValue::Array(vec![s("tmp")])),
    ]);
    prepare_config(&mut config, &args);
    assert_eq!(config.scan.extensions, vec!["ts".to_string(), "php".to_string()]);
    assert_eq!(config.scan.exclude.len(), excludes + 1);
    assert_eq!(config.scan.exclude.last().unwrap(), "tmp");
    assert!(config.scan.include_paths.is_empty());
    prepare_config(&mut config, &obj(vec![("include", JsonValue::Array(vec![s("src")]))]));
    assert_eq!(config.scan.include_paths, vec!["src".to_string()]);
}

fn field<'a>(v: &'a JsonValue, key: &str) -> &'a JsonValue {
    match v {
        JsonValue::Object(m) => &m.iter().find(|(k, _)| k == key).expect("member").1,
        _ => panic!("expected an object"),
    }
}

fn d(v: &JsonValue) -> String {
    format!("{v:?}")
}

#[test]
fn tool_schemas_offer_apply_to_writing_tools() {
    let list = tools();
    let items = match &list {
        JsonValue::Array(items) => items,
        _ => panic!("expected an array"),
    };
    let replace = &items[2];
    assert_eq!(d(field(replace, "name")), d(&s("replace")));
    let schema = field(replace, "inputSchema");
    assert_eq!(d(field(schema, "additionalProperties")), d(&JsonValue::Bool(false)));
    let props = field(schema, "properties");
    assert_eq!(d(field(field(props, "apply"), "type")), d(&s("boolean")));
    assert_eq!(d(field(field(props, "include"), "type")), d(&s("array")));
    assert_eq!(d(field(schema, "required")), d(&JsonValue::Array(vec![s("old"), s("new")])));
    assert_eq!(d(field(&items[11], "name")), d(&s("clean")));
    assert_eq!(
        d(field(field(field(&items[0], "inputSchema"), "properties"), "root")),
        d(&obj(vec![
            ("type", s("string")),
            ("description", s("Repository root for this operation (absolute or relative; defaults to the server root)")),
        ]))
    );
}

#[test]
fn tool_results_carry_parsed_json() {
    let plain = tool_result("done\n".to_string(), 0, None);
    assert_eq!(
        d(&plain),
        d(&obj(vec![
            ("content", JsonValue::Array(vec![obj(vec![("type", s("text")), ("text", s("done\n"))])])),
            ("isError", JsonValue::Bool(false)),
        ]))
    );
    let structured = tool_result("{}".to_string(), 2, Some(obj(vec![])));
    assert_eq!(d(field(&structured, "isError")), d(&JsonValue::Bool(true)));
    assert_eq!(d(field(&structured, "structuredContent")), d(&obj(vec![])));
}

#[test]
fn frames_over_the_limit_are_dropped() {
    assert!(!frame_too_large(MAX_FRAME_BYTES));
    assert!(frame_too_large(MAX_FRAME_BYTES + 1));
    assert_eq!(MAX_FRAME_BYTES, 16 * 1024 * 1024);
}

#[test]
fn replies_become_json_rpc_answers() {
    assert!(reply_value(Reply::Silent, "1.0", "hi", None).is_none());
    let pong = reply_value(Reply::Pong { id: id(3) }, "1.0", "hi", None).unwrap();
    assert_eq!(
        d(&pong),
        d(&obj(vec![("jsonrpc", s("2.0")), ("id", id(3)), ("result", obj(vec![]))]))
    );
    let missing = reply_value(Reply::MethodNotFound { id: id(4) }, "1.0", "hi", None).unwrap();
    assert_eq!(
        d(field(&missing, "error")),
        d(&obj(vec![("code", JsonValue::Number(JsonNumber::NegInt(-32601))), ("message", s("Method not found"))]))
    );
    let init = reply_value(Reply::Initialize { id: id(1), protocol_version: "2025-06-18".to_string() }, "1.0", "hi", None).unwrap();
    let result = field(&init, "result");
    assert_eq!(d(field(result, "protocolVersion")), d(&s("2025-06-18")));
    assert_eq!(d(field(field(result, "serverInfo"), "version")), d(&s("1.0")));
    assert_eq!(d(field(field(field(result, "capabilities"), "tools"), "listChanged")), d(&JsonValue::Bool(false)));
    let empty = reply_value(Reply::EmptyList { id: id(2), key: "prompts".to_string() }, "1.0", "hi", None).unwrap();
    assert_eq!(d(field(&empty, "result")), d(&obj(vec![("prompts", JsonValue::Array(vec![]))])));
    let failed = tool_error_result("Validation error: x".to_string());
    assert_eq!(d(field(&failed, "isError")), d(&JsonValue::Bool(true)));
    let call = reply_value(
        Reply::CallTool { id: id(5), name: "scan".to_string(), arguments: obj(vec![]) },
        "1.0",
        "hi",
        Some(failed),
    )
    .unwrap();
    assert_eq!(d(field(field(&call, "result"), "isError")), d(&JsonValue::Bool(true)));
}
