use bridle::commands::{Commands, ProfileCommands};
use bridle::envvalue::EnvValue;
use bridle::error::McpConfigError;
use bridle::harness::HarnessKind;
use bridle::json::JsonValue;
use bridle::mcp::McpServer;
use bridle::mcp_config::{get_mcp_key, mcp_exists, read_mcp_config, write_mcp_config, RawServerCollection};
use bridle::mcp_parse::{parse_stdio_server, parse_string_array, parse_timeout, ParseConfig};
use bridle::profile::{resolve_harness, ProfileManager};

fn txt(s: &str) -> JsonValue {
    JsonValue::Text(s.to_string())
}

fn num(n: u64) -> JsonValue {
    JsonValue::Num(n.to_string())
}

fn arr(items: Vec<JsonValue>) -> JsonValue {
    JsonValue::Array(items)
}

fn obj(entries: Vec<(&str, JsonValue)>) -> JsonValue {
    JsonValue::Object(entries.into_iter().map(|(k, v)| (k.to_string(), v)).collect())
}

fn entries(v: Vec<(&str, JsonValue)>) -> Vec<(String, JsonValue)> {
    v.into_iter().map(|(k, x)| (k.to_string(), x)).collect()
}

#[test]
fn enabled_defaults_true_under_disabled_convention() {
    let o = entries(vec![("command", txt("test"))]);

    let server = parse_stdio_server(&o, &ParseConfig::crush()).unwrap();
    if let McpServer::Stdio(s) = server {
        assert!(s.enabled);
    } else {
        panic!("Expected stdio server");
    }
}

#[test]
fn enabled_defaults_true_for_every_mapping() {
    let configs = vec![
        ParseConfig::claude_code(),
        ParseConfig::goose(),
        ParseConfig::crush(),
        ParseConfig::droid(),
        ParseConfig::amp_code(),
        ParseConfig::copilot_cli(),
    ];
    for config in configs {
        let o = entries(vec![
            (config.command_field, txt("test")),
        ]);
        let server = parse_stdio_server(&o, &config).unwrap();
        if let McpServer::Stdio(s) = server {
            assert!(s.enabled, "mapping {} should default to enabled", config.harness_name);
        } else {
            panic!("Expected stdio server");
        }
    }
}

#[test]
fn timeout_near_u64_limit_scales() {
    // u64::MAX / 1000 still scales to milliseconds without overflow.
    let o = entries(vec![("timeout", num(18446744073709551u64))]);
    let result = parse_timeout(&o, "timeout", true, "test").unwrap();
    assert_eq!(result, Some(18446744073709551000u64));
}

#[test]
fn timeout_overflow_is_an_error() {
    let o = entries(vec![("timeout", num(18446744073709552u64))]);
    let result = parse_timeout(&o, "timeout", true, "test");
    assert!(result.is_err());
    assert!(result.unwrap_err().reason.contains("too large"));
}

#[test]
fn timeout_non_number_is_an_error() {
    let o = entries(vec![("timeout", txt("fast"))]);
    let result = parse_timeout(&o, "timeout", false, "test");
    assert!(result.is_err());
    assert!(result.unwrap_err().reason.contains("must be a number"));
}

#[test]
fn timeout_beyond_u64_is_an_error() {
    let o = entries(vec![(
        "timeout",
        JsonValue::Num("18446744073709551616".to_string()),
    )]);
    let result = parse_timeout(&o, "timeout", false, "test");
    assert!(result.is_err());
}

#[test]
fn env_ref_exact_match_resolves() {
    assert_eq!(
        EnvValue::from_native("${MY_VAR}", HarnessKind::ClaudeCode),
        EnvValue::env("MY_VAR")
    );
    assert_eq!(
        EnvValue::from_native("{env:TOKEN}", HarnessKind::OpenCode),
        EnvValue::env("TOKEN")
    );
}

#[test]
fn env_ref_partial_match_stays_literal() {
    assert_eq!(
        EnvValue::from_native("${VAR", HarnessKind::ClaudeCode),
        EnvValue::plain("${VAR")
    );
    assert_eq!(
        EnvValue::from_native("$VAR}", HarnessKind::ClaudeCode),
        EnvValue::plain("$VAR}")
    );
    assert_eq!(
        EnvValue::from_native("${}", HarnessKind::ClaudeCode),
        EnvValue::plain("${}")
    );
    assert_eq!(
        EnvValue::from_native("pre${VAR}", HarnessKind::ClaudeCode),
        EnvValue::plain("pre${VAR}")
    );
}

#[test]
fn env_ref_syntax_is_per_harness() {
    // Each harness only recognizes its own placeholder syntax.
    assert_eq!(
        EnvValue::from_native("{env:X}", HarnessKind::ClaudeCode),
        EnvValue::plain("{env:X}")
    );
    assert_eq!(
        EnvValue::from_native("${X}", HarnessKind::OpenCode),
        EnvValue::plain("${X}")
    );
}

#[test]
fn goose_round_trip_preserves_unrelated_content() {
    let content = r#"
theme: dark
extensions:
  developer:
    enabled: true
    type: builtin
  old-mcp:
    type: stdio
    cmd: old
"#;

    let mut servers = RawServerCollection::new();
    servers.insert(
        "new-mcp".to_string(),
        obj(vec![("type", txt("stdio")), ("cmd", txt("new"))]),
    );

    let output = write_mcp_config(HarnessKind::Goose, content, &servers).unwrap();

    // The unrelated top-level field and the non-MCP extension survive.
    assert!(output.contains("theme"));
    assert!(output.contains("dark"));
    assert!(output.contains("developer"));
    assert!(output.contains("builtin"));

    // Reading back yields both MCP entries and not the built-in one.
    let result = read_mcp_config(HarnessKind::Goose, output.as_str()).unwrap();
    assert_eq!(result.len(), 2);
    assert!(result.contains_key("old-mcp"));
    assert!(result.contains_key("new-mcp"));
    assert!(!result.contains_key("developer"));
}

#[test]
fn write_overwrites_colliding_name() {
    let content = r#"{"mcpServers": {"server": {"command": "old"}}}"#;

    let mut servers = RawServerCollection::new();
    servers.insert("server".to_string(), obj(vec![("command", txt("new"))]));

    let output = write_mcp_config(HarnessKind::ClaudeCode, content, &servers).unwrap();
    let result = read_mcp_config(HarnessKind::ClaudeCode, output.as_str()).unwrap();
    assert_eq!(result.len(), 1);
    let value = result.get("server").unwrap();
    match value.get_field("command") {
        Some(JsonValue::Text(s)) => assert_eq!(s, "new"),
        _ => panic!("command field missing"),
    }
}

#[test]
fn read_missing_root_key_returns_empty() {
    let content = r#"{"other": {"a": 1}}"#;
    let result = read_mcp_config(HarnessKind::ClaudeCode, content).unwrap();
    assert!(result.is_empty());
}

#[test]
fn oauth_with_only_scope() {
    let config = obj(vec![
        ("type", txt("remote")),
        ("url", txt("https://api.example.com/mcp")),
        ("oauth", obj(vec![("scope", txt("read"))])),
    ]);

    let server = bridle::opencode::parse_mcp_server(&config).unwrap();
    if let McpServer::Http(s) = server {
        let oauth = s.oauth.unwrap();
        assert_eq!(oauth.client_id, None);
        assert_eq!(oauth.client_secret, None);
        assert_eq!(oauth.scope, Some("read".to_string()));
    } else {
        panic!("Expected Http server");
    }
}

#[test]
fn oauth_empty_block_is_all_absent() {
    let config = obj(vec![
        ("type", txt("remote")),
        ("url", txt("https://api.example.com/mcp")),
        ("oauth", obj(vec![])),
    ]);

    let server = bridle::opencode::parse_mcp_server(&config).unwrap();
    if let McpServer::Http(s) = server {
        let oauth = s.oauth.unwrap();
        assert_eq!(oauth.client_id, None);
        assert_eq!(oauth.client_secret, None);
        assert_eq!(oauth.scope, None);
    } else {
        panic!("Expected Http server");
    }
}

#[test]
fn string_array_error_names_offending_index() {
    let o = entries(vec![("args", arr(vec![txt("ok"), num(7)]))]);
    let err = parse_string_array(&o, "args", "test").unwrap_err();
    assert_eq!(err.harness, "test");
    assert!(err.reason.contains("args[1] must be a string"));
}

#[test]
fn malformed_json_is_a_parse_error() {
    let result = read_mcp_config(HarnessKind::ClaudeCode, "{ not json");
    match result {
        Err(McpConfigError::JsonParseError(_)) => {}
        _ => panic!("expected a JSON parse error"),
    }
}

#[test]
fn malformed_yaml_is_a_parse_error() {
    let result = read_mcp_config(HarnessKind::Goose, "a: [1, 2");
    match result {
        Err(McpConfigError::YamlParseError(_)) => {}
        _ => panic!("expected a YAML parse error"),
    }
}

#[test]
fn write_rejects_non_object_root() {
    let servers = RawServerCollection::new();
    let result = write_mcp_config(HarnessKind::ClaudeCode, "[1, 2]", &servers);
    match result {
        Err(McpConfigError::WriteError(msg)) => assert!(msg.contains("not an object")),
        _ => panic!("expected a write error"),
    }
}

#[test]
fn write_rejects_non_object_section() {
    let servers = RawServerCollection::new();
    let result = write_mcp_config(HarnessKind::ClaudeCode, r#"{"mcpServers": 5}"#, &servers);
    match result {
        Err(McpConfigError::WriteError(msg)) => assert!(msg.contains("not an object")),
        _ => panic!("expected a write error"),
    }
}

#[test]
fn jsonc_comment_does_not_eat_urls() {
    let content = r#"{
        // servers below
        "mcp": {
            "remote": {"type": "remote", "url": "https://example.com/mcp"}
        }
    }"#;

    let collection = read_mcp_config(HarnessKind::OpenCode, content).unwrap();
    let raw = collection.get("remote").unwrap();
    let server = bridle::opencode::parse_mcp_server(raw).unwrap();
    if let McpServer::Http(s) = server {
        assert_eq!(s.url, "https://example.com/mcp");
    } else {
        panic!("Expected Http server");
    }
}

#[test]
fn jsonc_comment_at_end_of_text() {
    let content = "{\"mcp\": {}} // trailing";
    let result = read_mcp_config(HarnessKind::OpenCode, content);
    assert!(result.unwrap().is_empty());
}

#[test]
fn insert_overwrites_within_collection() {
    let mut servers = RawServerCollection::new();
    servers.insert("a".to_string(), txt("one"));
    servers.insert("a".to_string(), txt("two"));
    assert_eq!(servers.len(), 1);
    match servers.get("a") {
        Some(JsonValue::Text(s)) => assert_eq!(s, "two"),
        _ => panic!("entry missing"),
    }
}

#[test]
fn mcp_exists_applies_goose_filter() {
    let content = r#"
extensions:
  developer:
    type: builtin
  my-mcp:
    type: stdio
    cmd: npx
"#;
    assert!(mcp_exists(HarnessKind::Goose, content, "my-mcp").unwrap());
    assert!(!mcp_exists(HarnessKind::Goose, content, "developer").unwrap());
}

#[test]
fn root_keys_per_harness() {
    assert_eq!(get_mcp_key(HarnessKind::ClaudeCode), "mcpServers");
    assert_eq!(get_mcp_key(HarnessKind::OpenCode), "mcp");
    assert_eq!(get_mcp_key(HarnessKind::Goose), "extensions");
    assert_eq!(get_mcp_key(HarnessKind::AmpCode), "amp.mcpServers");
    assert_eq!(get_mcp_key(HarnessKind::Crush), "mcpServers");
    assert_eq!(get_mcp_key(HarnessKind::Droid), "mcpServers");
    assert_eq!(get_mcp_key(HarnessKind::CopilotCli), "mcpServers");
}

#[test]
fn profile_paths_are_per_harness() {
    let manager = ProfileManager::new("/data/profiles".to_string());
    assert_eq!(manager.profiles_dir().as_str(), "/data/profiles");
    assert_eq!(
        manager.profile_path(HarnessKind::ClaudeCode, "work"),
        "/data/profiles/claude_code/work"
    );
    assert_eq!(
        manager.profile_path(HarnessKind::Goose, "home"),
        "/data/profiles/goose/home"
    );
    assert_eq!(ProfileManager::harness_id(HarnessKind::OpenCode), "opencode");
    assert_eq!(ProfileManager::harness_id(HarnessKind::Crush), "unknown");
}

#[test]
fn resolve_harness_accepts_aliases() {
    assert_eq!(resolve_harness("claude_code"), Some(HarnessKind::ClaudeCode));
    assert_eq!(resolve_harness("cc"), Some(HarnessKind::ClaudeCode));
    assert_eq!(resolve_harness("opencode"), Some(HarnessKind::OpenCode));
    assert_eq!(resolve_harness("oc"), Some(HarnessKind::OpenCode));
    assert_eq!(resolve_harness("goose"), Some(HarnessKind::Goose));
    assert_eq!(resolve_harness("emacs"), None);
}

#[test]
fn command_model_carries_its_fields() {
    let cmd = Commands::Profile(ProfileCommands::Show {
        harness: "goose".to_string(),
        name: "work".to_string(),
    });
    match cmd {
        Commands::Profile(ProfileCommands::Show { harness, name }) => {
            assert_eq!(harness, "goose");
            assert_eq!(name, "work");
        }
        _ => panic!("wrong command shape"),
    }
}

#[test]
fn error_message_names_harness_and_reason() {
    let o = entries(vec![("args", txt("nope"))]);
    let err = parse_string_array(&o, "args", "Crush").unwrap_err();
    assert_eq!(err.message(), "Crush: 'args' must be an array");
}

#[test]
fn write_preserves_number_shapes() {
    // Fractional and negative numbers elsewhere in the document survive
    // a read-modify-write pass unchanged.
    let content = r#"{"scale": 2.5, "offset": -3, "mcpServers": {}}"#;

    let mut servers = RawServerCollection::new();
    servers.insert("s".to_string(), obj(vec![("command", txt("run"))]));

    let output = write_mcp_config(HarnessKind::ClaudeCode, content, &servers).unwrap();
    assert!(output.contains("2.5"));
    assert!(output.contains("-3"));
}

#[test]
fn jsonc_escaped_quote_does_not_end_string() {
    let content = r#"{"mcp": {"q": {"type": "remote", "url": "a\"//b"}}}"#;

    let collection = read_mcp_config(HarnessKind::OpenCode, content).unwrap();
    let raw = collection.get("q").unwrap();
    match raw.get_field("url") {
        Some(JsonValue::Text(s)) => assert_eq!(s, "a\"//b"),
        _ => panic!("url field missing"),
    }
}

#[test]
fn goose_http_server_attaches_oauth() {
    let config = obj(vec![
        ("type", txt("streamable_http")),
        ("uri", txt("https://api.example.com/mcp")),
        (
            "oauth",
            obj(vec![("client_id", txt("app")), ("scope", txt("read"))]),
        ),
    ]);

    let server = bridle::goose::parse_mcp_server(&config).unwrap();
    if let McpServer::Http(s) = server {
        let oauth = s.oauth.unwrap();
        assert_eq!(oauth.client_id, Some("app".to_string()));
        assert_eq!(oauth.scope, Some("read".to_string()));
    } else {
        panic!("Expected Http server");
    }
}

#[test]
fn goose_http_server_invalid_oauth_fails() {
    let config = obj(vec![
        ("type", txt("streamable_http")),
        ("uri", txt("https://api.example.com/mcp")),
        ("oauth", obj(vec![("client_id", num(123))])),
    ]);

    let result = bridle::goose::parse_mcp_server(&config);
    assert!(result.is_err());
}

#[test]
fn collection_error_wraps_entry_name() {
    let config = obj(vec![(
        "extensions",
        obj(vec![
            ("good", obj(vec![("type", txt("stdio")), ("cmd", txt("run"))])),
            ("broken", obj(vec![("type", txt("stdio"))])),
        ]),
    )]);

    let err = bridle::goose::parse_mcp_servers(&config).unwrap_err();
    assert!(err.reason.starts_with("server 'broken': "));
}

#[test]
fn profile_name_validity() {
    assert!(bridle::profile::valid_profile_name("work"));
    assert!(bridle::profile::valid_profile_name("my-profile.1"));
    assert!(!bridle::profile::valid_profile_name(""));
    assert!(!bridle::profile::valid_profile_name("a/b"));
    assert!(!bridle::profile::valid_profile_name("a\\b"));
    assert!(!bridle::profile::valid_profile_name("."));
    assert!(!bridle::profile::valid_profile_name(".."));
}

#[test]
fn unknown_type_reason_names_the_value() {
    let config = obj(vec![("type", txt("weird")), ("cmd", txt("x"))]);
    let err = bridle::goose::parse_mcp_server(&config).unwrap_err();
    assert_eq!(err.reason, "Unknown server type: weird");
}

#[test]
fn missing_root_key_reason_names_the_key() {
    let config = obj(vec![("other", obj(vec![]))]);
    let err = bridle::goose::parse_mcp_servers(&config).unwrap_err();
    assert_eq!(err.reason, "Missing 'extensions' key");
}

#[test]
fn unicode_whitespace_reads_as_empty() {
    // A non-breaking space and a line separator are whitespace too.
    let content = "\u{a0}\u{2028} \n";
    let result = read_mcp_config(HarnessKind::ClaudeCode, content).unwrap();
    assert!(result.is_empty());
}
