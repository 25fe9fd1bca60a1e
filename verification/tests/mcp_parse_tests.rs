use bridle::envvalue::EnvValue;
use bridle::harness::HarnessKind;
use bridle::json::JsonValue;
use bridle::mcp::McpServer;
use bridle::mcp_parse::{
    parse_enabled, parse_env_map, parse_http_server, parse_sse_server, parse_stdio_server,
    parse_string_array, parse_timeout, ParseConfig,
};

fn txt(s: &str) -> JsonValue {
    JsonValue::Text(s.to_string())
}

fn num(n: u64) -> JsonValue {
    JsonValue::Num(n.to_string())
}

fn arr(items: Vec<JsonValue>) -> JsonValue {
    JsonValue::Array(items)
}

fn obj(entries: Vec<(&str, JsonValue)>) -> JsonValue {
    JsonValue::Object(entries.into_iter().map(|(k, v)| (k.to_string(), v)).collect())
}

fn entries(v: Vec<(&str, JsonValue)>) -> Vec<(String, JsonValue)> {
    v.into_iter().map(|(k, x)| (k.to_string(), x)).collect()
}

#[test]
fn parse_string_array_basic() {
    let o = entries(vec![("args", arr(vec![txt("a"), txt("b"), txt("c")]))]);

    let result = parse_string_array(&o, "args", "test").unwrap();
    assert_eq!(result, vec!["a", "b", "c"]);
}

#[test]
fn parse_string_array_empty() {
    let o = entries(vec![]);

    let result = parse_string_array(&o, "args", "test").unwrap();
    assert!(result.is_empty());
}

#[test]
fn parse_env_map_plain() {
    let o = entries(vec![("env", obj(vec![("KEY", txt("value"))]))]);

    let result = parse_env_map(&o, "env", "test", HarnessKind::Goose, true).unwrap();
    assert_eq!(result.get("KEY"), Some(&EnvValue::plain("value")));
}

#[test]
fn parse_env_map_with_env_ref() {
    let o = entries(vec![("env", obj(vec![("KEY", txt("${MY_VAR}"))]))]);

    let result = parse_env_map(&o, "env", "test", HarnessKind::ClaudeCode, false).unwrap();
    assert_eq!(result.get("KEY"), Some(&EnvValue::env("MY_VAR")));
}

#[test]
fn parse_timeout_in_seconds() {
    let o = entries(vec![("timeout", num(30))]);

    let result = parse_timeout(&o, "timeout", true, "test").unwrap();
    assert_eq!(result, Some(30000));
}

#[test]
fn parse_timeout_in_ms() {
    let o = entries(vec![("timeout_ms", num(5000))]);

    let result = parse_timeout(&o, "timeout_ms", false, "test").unwrap();
    assert_eq!(result, Some(5000));
}

#[test]
fn parse_enabled_default_true() {
    let o = entries(vec![]);

    assert!(parse_enabled(&o, None));
}

#[test]
fn parse_enabled_explicit_false() {
    let o = entries(vec![("enabled", JsonValue::Bool(false))]);

    assert!(!parse_enabled(&o, None));
}

#[test]
fn parse_disabled_field() {
    let o = entries(vec![("disabled", JsonValue::Bool(true))]);

    assert!(!parse_enabled(&o, Some("disabled")));
}

#[test]
fn mcp_parse_parse_stdio_server_basic() {
    let o = entries(vec![("command", txt("node")), ("args", arr(vec![txt("server.js")]))]);

    let server = parse_stdio_server(&o, &ParseConfig::claude_code()).unwrap();
    if let McpServer::Stdio(s) = server {
        assert_eq!(s.command, "node");
        assert_eq!(s.args, vec!["server.js"]);
    } else {
        panic!("Expected stdio server");
    }
}

#[test]
fn parse_stdio_server_goose_style() {
    let o = entries(vec![
        ("cmd", txt("npx")),
        ("args", arr(vec![txt("-y"), txt("server")])),
        ("envs", obj(vec![("KEY", txt("value"))])),
        ("timeout", num(30)),
    ]);

    let server = parse_stdio_server(&o, &ParseConfig::goose()).unwrap();
    if let McpServer::Stdio(s) = server {
        assert_eq!(s.command, "npx");
        assert_eq!(s.args, vec!["-y", "server"]);
        assert_eq!(s.env.get("KEY"), Some(&EnvValue::plain("value")));
        assert_eq!(s.timeout_ms, Some(30000));
    } else {
        panic!("Expected stdio server");
    }
}

#[test]
fn mcp_parse_parse_sse_server_basic() {
    let o = entries(vec![("url", txt("https://example.com/sse"))]);

    let server = parse_sse_server(&o, &ParseConfig::claude_code()).unwrap();
    if let McpServer::Sse(s) = server {
        assert_eq!(s.url, "https://example.com/sse");
    } else {
        panic!("Expected SSE server");
    }
}

#[test]
fn mcp_parse_parse_http_server_basic() {
    let o = entries(vec![("url", txt("https://api.example.com/mcp"))]);

    let server = parse_http_server(&o, &ParseConfig::claude_code()).unwrap();
    if let McpServer::Http(s) = server {
        assert_eq!(s.url, "https://api.example.com/mcp");
    } else {
        panic!("Expected HTTP server");
    }
}

#[test]
fn parse_oauth_config() {
    let o = entries(vec![(
        "oauth",
        obj(vec![
            ("client_id", txt("app")),
            ("client_secret", txt("{env:SECRET}")),
            ("scope", txt("read write")),
        ]),
    )]);

    let oauth = bridle::mcp_parse::parse_oauth(&o, &ParseConfig::opencode()).unwrap();
    assert!(oauth.is_some());
    let oauth = oauth.unwrap();
    assert_eq!(oauth.client_id, Some("app".to_string()));
    assert_eq!(oauth.client_secret, Some(EnvValue::env("SECRET")));
    assert_eq!(oauth.scope, Some("read write".to_string()));
}
