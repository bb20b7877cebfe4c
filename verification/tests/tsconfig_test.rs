use refactor::analyzers::tsconfig::{aliases_from_document, read_path_aliases};
use refactor::languages::json::{JsonNumber, JsonValue};

fn to_json(v: &serde_json::Value) -> JsonValue {
    match v {
        serde_json::Value::Null => JsonValue::Null,
        serde_json::Value::Bool(b) => JsonValue::Bool(*b),
        serde_json::Value::Number(n) => {
            if let Some(u) = n.as_u64() {
                JsonValue::Number(JsonNumber::PosInt(u))
            } else if let Some(i) = n.as_i64() {
                JsonValue::Number(JsonNumber::NegInt(i))
            } else {
                JsonValue::Number(JsonNumber::Float)
            }
        }
        serde_json::Value::String(s) => JsonValue::String(s.clone()),
        serde_json::Value::Array(items) => JsonValue::Array(items.iter().map(to_json).collect()),
        serde_json::Value::Object(map) => {
            JsonValue::Object(map.iter().map(|(k, v)| (k.clone(), to_json(v))).collect())
        }
    }
}

fn parse(content: &str) -> JsonValue {
    to_json(&serde_json::from_str::<serde_json::Value>(content).unwrap())
}

fn lookup<'a>(aliases: &'a [(String, Vec<String>)], key: &str) -> &'a Vec<String> {
    &aliases.iter().find(|(k, _)| k == key).unwrap().1
}

#[test]
fn parses_tsconfig_aliases() {
    let content = r##"{
            "compilerOptions": {
                "baseUrl": ".",
                "paths": {
                    "@/*": ["./app/resources/js/*"],
                    "#/*": ["src/*"]
                }
            }
        }"##;
    let aliases = aliases_from_document(&parse(content)).unwrap();
    assert_eq!(aliases.len(), 2);
    assert_eq!(lookup(&aliases, "@/*"), &vec!["./app/resources/js/*".to_string()]);
    assert_eq!(lookup(&aliases, "#/*"), &vec!["src/*".to_string()]);
}

#[test]
fn handles_missing_paths() {
    let content = r##"{"compilerOptions": {"strict": true}}"##;
    assert!(aliases_from_document(&parse(content)).is_none());
}

#[test]
fn non_string_alias_target_rejects_the_table() {
    let content = r##"{"compilerOptions": {"paths": {"@/*": ["src/*", 3]}}}"##;
    assert!(aliases_from_document(&parse(content)).is_none());
}

#[test]
fn non_string_base_url_rejects_the_table() {
    let content = r##"{"compilerOptions": {"baseUrl": 1, "paths": {"@/*": ["src/*"]}}}"##;
    assert!(aliases_from_document(&parse(content)).is_none());
    let ok = r##"{"compilerOptions": {"baseUrl": null, "paths": {"@/*": ["src/*"]}}}"##;
    assert_eq!(aliases_from_document(&parse(ok)).unwrap().len(), 1);
}

#[test]
fn document_that_is_not_an_object_has_no_aliases() {
    assert!(aliases_from_document(&parse("[1, 2]")).is_none());
    assert!(aliases_from_document(&parse(r##"{"compilerOptions": 5}"##)).is_none());
    assert!(aliases_from_document(&parse(r##"{"compilerOptions": {"paths": null}}"##)).is_none());
}

#[test]
fn read_path_aliases_defaults_to_empty() {
    assert!(read_path_aliases(None).is_empty());
    let missing = parse(r##"{"compilerOptions": {"strict": true}}"##);
    assert!(read_path_aliases(Some(&missing)).is_empty());
    let present = parse(r##"{"compilerOptions": {"paths": {"~/*": ["lib/*", "vendor/*"]}}}"##);
    let aliases = read_path_aliases(Some(&present));
    assert_eq!(aliases, vec![("~/*".to_string(), vec!["lib/*".to_string(), "vendor/*".to_string()])]);
}
