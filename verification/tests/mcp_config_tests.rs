use bridle::harness::HarnessKind;
use bridle::json::JsonValue;
use bridle::mcp_config::{mcp_exists, read_mcp_config, write_mcp_config, RawServerCollection};

fn txt(s: &str) -> JsonValue {
    JsonValue::Text(s.to_string())
}

fn obj(entries: Vec<(&str, JsonValue)>) -> JsonValue {
    JsonValue::Object(entries.into_iter().map(|(k, v)| (k.to_string(), v)).collect())
}

#[test]
fn read_nonexistent_file_returns_empty() {
    // A missing file is handed to the library as empty text.
    let result = read_mcp_config(HarnessKind::ClaudeCode, "");
    assert!(result.is_ok());
    assert!(result.unwrap().is_empty());
}

#[test]
fn read_empty_file_returns_empty() {
    let result = read_mcp_config(HarnessKind::ClaudeCode, "  \n\t ");
    assert!(result.is_ok());
    assert!(result.unwrap().is_empty());
}

#[test]
fn read_claude_mcp_config() {
    let content = r#"{"mcpServers": {"test-server": {"command": "test"}}}"#;

    let result = read_mcp_config(HarnessKind::ClaudeCode, content).unwrap();
    assert_eq!(result.len(), 1);
    assert!(result.contains_key("test-server"));
}

#[test]
fn read_opencode_jsonc_config() {
    let content = r#"{
        // This is a comment
        "mcp": {
            "my-mcp": {"command": "npx", "args": ["-y", "server"]}
        }
    }"#;

    let result = read_mcp_config(HarnessKind::OpenCode, content).unwrap();
    assert_eq!(result.len(), 1);
    assert!(result.contains_key("my-mcp"));
}

#[test]
fn read_goose_yaml_filters_mcp_types() {
    let content = r#"
extensions:
  developer:
    enabled: true
    type: builtin
  my-mcp:
    type: stdio
    cmd: npx
    args: ["-y", "server"]
"#;

    let result = read_mcp_config(HarnessKind::Goose, content).unwrap();
    assert_eq!(result.len(), 1);
    assert!(result.contains_key("my-mcp"));
    assert!(!result.contains_key("developer"));
}

#[test]
fn read_amp_config() {
    let content = r#"{"amp.mcpServers": {"amp-mcp": {"command": "test"}}}"#;

    let result = read_mcp_config(HarnessKind::AmpCode, content).unwrap();
    assert_eq!(result.len(), 1);
    assert!(result.contains_key("amp-mcp"));
}

#[test]
fn write_creates_file_if_missing() {
    // A missing file is handed to the library as empty text.
    let mut servers = RawServerCollection::new();
    servers.insert("new-server".to_string(), obj(vec![("command", txt("test"))]));

    let output = write_mcp_config(HarnessKind::ClaudeCode, "", &servers).unwrap();

    assert!(output.contains("new-server"));
}

#[test]
fn write_preserves_existing_mcps() {
    let content = r#"{"mcpServers": {"existing": {"command": "old"}}}"#;

    let mut servers = RawServerCollection::new();
    servers.insert("new-server".to_string(), obj(vec![("command", txt("new"))]));

    let output = write_mcp_config(HarnessKind::ClaudeCode, content, &servers).unwrap();

    let result = read_mcp_config(HarnessKind::ClaudeCode, output.as_str()).unwrap();
    assert_eq!(result.len(), 2);
    assert!(result.contains_key("existing"));
    assert!(result.contains_key("new-server"));
}

#[test]
fn write_preserves_other_config_fields() {
    let content = r#"{"model": "some-model", "mcpServers": {}}"#;

    let mut servers = RawServerCollection::new();
    servers.insert("mcp".to_string(), obj(vec![("command", txt("test"))]));

    let output = write_mcp_config(HarnessKind::ClaudeCode, content, &servers).unwrap();

    assert!(output.contains("model"));
    assert!(output.contains("some-model"));
}

#[test]
fn mcp_exists_returns_true_for_existing() {
    let content = r#"{"mcpServers": {"test-mcp": {"command": "test"}}}"#;

    assert!(mcp_exists(HarnessKind::ClaudeCode, content, "test-mcp").unwrap());
    assert!(!mcp_exists(HarnessKind::ClaudeCode, content, "nonexistent").unwrap());
}

#[test]
fn mcp_exists_returns_false_for_missing_file() {
    // A missing file is handed to the library as empty text.
    let result = mcp_exists(HarnessKind::ClaudeCode, "", "any");
    assert!(result.is_ok());
    assert!(!result.unwrap());
}
