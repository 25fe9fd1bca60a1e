use bridle::envvalue::EnvValue;
use bridle::harness::Scope;
use bridle::json::JsonValue;
use bridle::mcp::McpServer;
use bridle::opencode;

fn txt(s: &str) -> JsonValue {
    JsonValue::Text(s.to_string())
}

fn num(n: u64) -> JsonValue {
    JsonValue::Num(n.to_string())
}

fn obj(entries: Vec<(&str, JsonValue)>) -> JsonValue {
    JsonValue::Object(entries.into_iter().map(|(k, v)| (k.to_string(), v)).collect())
}

fn arr(items: Vec<JsonValue>) -> JsonValue {
    JsonValue::Array(items)
}

#[test]
fn opencode_global_config_dir_is_absolute() {
    let path = opencode::global_config_dir("/home/user/.config");
    assert!(path.starts_with('/'));
    assert!(path.ends_with("opencode"));
}

#[test]
fn opencode_project_config_dir_is_relative_to_root() {
    let config = opencode::project_config_dir("/some/project");
    assert_eq!(config, "/some/project/.opencode");
}

#[test]
fn commands_dir_global() {
    let path = opencode::commands_dir(&Scope::Global("/home/user/.config".to_string()));
    assert!(path.ends_with("command"));
}

#[test]
fn commands_dir_project() {
    let path = opencode::commands_dir(&Scope::Project("/some/project".to_string()));
    assert_eq!(path, "/some/project/.opencode/command");
}

#[test]
fn skills_dir_global() {
    let result = opencode::skills_dir(&Scope::Global("/home/user/.config".to_string()));
    assert!(result.is_some());
    assert!(result.unwrap().ends_with("skill"));
}

#[test]
fn skills_dir_project() {
    let result = opencode::skills_dir(&Scope::Project("/some/project".to_string()));
    assert!(result.is_some());
    assert_eq!(result.unwrap(), "/some/project/.opencode/skill");
}

#[test]
fn mcp_dir_global() {
    let path = opencode::mcp_dir(&Scope::Global("/home/user/.config".to_string()));
    assert!(path.ends_with("opencode"));
}

#[test]
fn rules_dir_global_returns_none() {
    assert!(opencode::rules_dir(&Scope::Global("/home/user/.config".to_string())).is_none());
}

#[test]
fn opencode_rules_dir_project_returns_root() {
    let root = "/some/project".to_string();
    let result = opencode::rules_dir(&Scope::Project(root.clone()));
    assert!(result.is_some());
    assert_eq!(result.unwrap(), root);
}

#[test]
fn parse_local_server_basic() {
    let config = obj(vec![
        ("type", txt("local")),
        (
            "command",
            arr(vec![txt("npx"), txt("-y"), txt("@modelcontextprotocol/server")]),
        ),
        ("enabled", JsonValue::Bool(true)),
    ]);

    let server = opencode::parse_mcp_server(&config).unwrap();

    if let McpServer::Stdio(s) = server {
        assert_eq!(s.command, "npx");
        assert_eq!(s.args, vec!["-y", "@modelcontextprotocol/server"]);
        assert!(s.env.is_empty());
        assert!(s.enabled);
        assert_eq!(s.timeout_ms, None);
    } else {
        panic!("Expected Stdio server");
    }
}

#[test]
fn parse_local_server_with_environment() {
    let config = obj(vec![
        ("type", txt("local")),
        ("command", arr(vec![txt("node"), txt("server.js")])),
        (
            "environment",
            obj(vec![
                ("API_KEY", txt("{env:MY_API_KEY}")),
                ("DEBUG", txt("true")),
            ]),
        ),
        ("enabled", JsonValue::Bool(true)),
    ]);

    let server = opencode::parse_mcp_server(&config).unwrap();

    if let McpServer::Stdio(s) = server {
        assert_eq!(s.command, "node");
        assert_eq!(s.args, vec!["server.js"]);
        assert_eq!(s.env.len(), 2);
        assert_eq!(s.env.get("API_KEY"), Some(&EnvValue::env("MY_API_KEY")));
        assert_eq!(s.env.get("DEBUG"), Some(&EnvValue::plain("true")));
    } else {
        panic!("Expected Stdio server");
    }
}

#[test]
fn parse_local_server_with_timeout() {
    let config = obj(vec![
        ("type", txt("local")),
        ("command", arr(vec![txt("test")])),
        ("timeout", num(30000)),
        ("enabled", JsonValue::Bool(true)),
    ]);

    let server = opencode::parse_mcp_server(&config).unwrap();

    if let McpServer::Stdio(s) = server {
        assert_eq!(s.timeout_ms, Some(30000));
    } else {
        panic!("Expected Stdio server");
    }
}

#[test]
fn parse_local_server_disabled() {
    let config = obj(vec![
        ("type", txt("local")),
        ("command", arr(vec![txt("test")])),
        ("enabled", JsonValue::Bool(false)),
    ]);

    let server = opencode::parse_mcp_server(&config).unwrap();

    if let McpServer::Stdio(s) = server {
        assert!(!s.enabled);
    } else {
        panic!("Expected Stdio server");
    }
}

#[test]
fn parse_local_server_enabled_defaults_true() {
    let config = obj(vec![("type", txt("local")), ("command", arr(vec![txt("test")]))]);

    let server = opencode::parse_mcp_server(&config).unwrap();

    if let McpServer::Stdio(s) = server {
        assert!(s.enabled);
    } else {
        panic!("Expected Stdio server");
    }
}

#[test]
fn parse_remote_server_basic() {
    let config = obj(vec![
        ("type", txt("remote")),
        ("url", txt("https://api.example.com/mcp")),
        ("enabled", JsonValue::Bool(true)),
    ]);

    let server = opencode::parse_mcp_server(&config).unwrap();

    if let McpServer::Http(s) = server {
        assert_eq!(s.url, "https://api.example.com/mcp");
        assert!(s.headers.is_empty());
        assert!(s.oauth.is_none());
        assert!(s.enabled);
        assert_eq!(s.timeout_ms, None);
    } else {
        panic!("Expected Http server");
    }
}

#[test]
fn parse_remote_server_with_headers() {
    let config = obj(vec![
        ("type", txt("remote")),
        ("url", txt("https://api.example.com/mcp")),
        (
            "headers",
            obj(vec![
                ("Authorization", txt("{env:TOKEN}")),
                ("X-Custom", txt("value")),
            ]),
        ),
        ("enabled", JsonValue::Bool(true)),
    ]);

    let server = opencode::parse_mcp_server(&config).unwrap();

    if let McpServer::Http(s) = server {
        assert_eq!(s.headers.len(), 2);
        assert_eq!(s.headers.get("Authorization"), Some(&EnvValue::env("TOKEN")));
        assert_eq!(s.headers.get("X-Custom"), Some(&EnvValue::plain("value")));
    } else {
        panic!("Expected Http server");
    }
}

#[test]
fn parse_remote_server_with_oauth() {
    let config = obj(vec![
        ("type", txt("remote")),
        ("url", txt("https://api.example.com/mcp")),
        (
            "oauth",
            obj(vec![
                ("client_id", txt("my-app")),
                ("client_secret", txt("{env:OAUTH_SECRET}")),
                ("scope", txt("read write")),
            ]),
        ),
        ("enabled", JsonValue::Bool(true)),
    ]);

    let server = opencode::parse_mcp_server(&config).unwrap();

    if let McpServer::Http(s) = server {
        assert!(s.oauth.is_some());
        let oauth = s.oauth.unwrap();
        assert_eq!(oauth.client_id, Some("my-app".to_string()));
        assert_eq!(oauth.client_secret, Some(EnvValue::env("OAUTH_SECRET")));
        assert_eq!(oauth.scope, Some("read write".to_string()));
    } else {
        panic!("Expected Http server");
    }
}

#[test]
fn parse_remote_server_with_timeout() {
    let config = obj(vec![
        ("type", txt("remote")),
        ("url", txt("https://api.example.com/mcp")),
        ("timeout", num(60000)),
        ("enabled", JsonValue::Bool(true)),
    ]);

    let server = opencode::parse_mcp_server(&config).unwrap();

    if let McpServer::Http(s) = server {
        assert_eq!(s.timeout_ms, Some(60000));
    } else {
        panic!("Expected Http server");
    }
}

#[test]
fn opencode_parse_mcp_server_missing_type() {
    let config = obj(vec![("command", arr(vec![txt("test")]))]);

    let result = opencode::parse_mcp_server(&config);
    assert!(result.is_err());
}

#[test]
fn parse_mcp_server_invalid_type() {
    let config = obj(vec![
        ("type", txt("invalid")),
        ("command", arr(vec![txt("test")])),
    ]);

    let result = opencode::parse_mcp_server(&config);
    assert!(result.is_err());
}

#[test]
fn parse_local_server_missing_command() {
    let config = obj(vec![("type", txt("local")), ("enabled", JsonValue::Bool(true))]);

    let result = opencode::parse_mcp_server(&config);
    assert!(result.is_err());
}

#[test]
fn parse_local_server_empty_command() {
    let config = obj(vec![
        ("type", txt("local")),
        ("command", arr(vec![])),
        ("enabled", JsonValue::Bool(true)),
    ]);

    let result = opencode::parse_mcp_server(&config);
    assert!(result.is_err());
}

#[test]
fn parse_remote_server_missing_url() {
    let config = obj(vec![("type", txt("remote")), ("enabled", JsonValue::Bool(true))]);

    let result = opencode::parse_mcp_server(&config);
    assert!(result.is_err());
}

#[test]
fn opencode_parse_mcp_servers_basic() {
    let config = obj(vec![(
        "mcp",
        obj(vec![
            (
                "server1",
                obj(vec![
                    ("type", txt("local")),
                    ("command", arr(vec![txt("node"), txt("server1.js")])),
                    ("enabled", JsonValue::Bool(true)),
                ]),
            ),
            (
                "server2",
                obj(vec![
                    ("type", txt("remote")),
                    ("url", txt("https://example.com")),
                    ("enabled", JsonValue::Bool(true)),
                ]),
            ),
        ]),
    )]);

    let servers = opencode::parse_mcp_servers(&config).unwrap();
    assert_eq!(servers.len(), 2);

    let names: Vec<&str> = servers.iter().map(|(n, _)| n.as_str()).collect();
    assert!(names.contains(&"server1"));
    assert!(names.contains(&"server2"));
}

#[test]
fn parse_mcp_servers_includes_disabled() {
    let config = obj(vec![(
        "mcp",
        obj(vec![
            (
                "enabled-server",
                obj(vec![
                    ("type", txt("local")),
                    ("command", arr(vec![txt("test")])),
                    ("enabled", JsonValue::Bool(true)),
                ]),
            ),
            (
                "disabled-server",
                obj(vec![
                    ("type", txt("local")),
                    ("command", arr(vec![txt("test")])),
                    ("enabled", JsonValue::Bool(false)),
                ]),
            ),
        ]),
    )]);

    let servers = opencode::parse_mcp_servers(&config).unwrap();
    assert_eq!(servers.len(), 2);

    let names: Vec<&str> = servers.iter().map(|(n, _)| n.as_str()).collect();
    assert!(names.contains(&"enabled-server"));
    assert!(names.contains(&"disabled-server"));
}

#[test]
fn opencode_parse_mcp_servers_errors_on_invalid() {
    let config = obj(vec![(
        "mcp",
        obj(vec![
            (
                "valid-server",
                obj(vec![
                    ("type", txt("local")),
                    ("command", arr(vec![txt("test")])),
                    ("enabled", JsonValue::Bool(true)),
                ]),
            ),
            ("invalid-server", obj(vec![("type", txt("invalid"))])),
        ]),
    )]);

    let result = opencode::parse_mcp_servers(&config);
    assert!(result.is_err());
}

#[test]
fn parse_mcp_servers_missing_mcp_key() {
    let config = obj(vec![("other", obj(vec![]))]);

    let result = opencode::parse_mcp_servers(&config);
    assert!(result.is_err());
}

#[test]
fn parse_mcp_servers_empty() {
    let config = obj(vec![("mcp", obj(vec![]))]);

    let servers = opencode::parse_mcp_servers(&config).unwrap();
    assert!(servers.is_empty());
}

#[test]
fn parse_remote_server_oauth_invalid_client_id_type() {
    let config = obj(vec![
        ("type", txt("remote")),
        ("url", txt("https://api.example.com/mcp")),
        ("oauth", obj(vec![("client_id", num(123))])),
        ("enabled", JsonValue::Bool(true)),
    ]);

    let result = opencode::parse_mcp_server(&config);
    assert!(result.is_err());
}

#[test]
fn parse_remote_server_oauth_invalid_client_secret_type() {
    let config = obj(vec![
        ("type", txt("remote")),
        ("url", txt("https://api.example.com/mcp")),
        ("oauth", obj(vec![("client_secret", num(123))])),
        ("enabled", JsonValue::Bool(true)),
    ]);

    let result = opencode::parse_mcp_server(&config);
    assert!(result.is_err());
}

#[test]
fn parse_remote_server_oauth_invalid_scope_type() {
    let config = obj(vec![
        ("type", txt("remote")),
        ("url", txt("https://api.example.com/mcp")),
        ("oauth", obj(vec![("scope", num(123))])),
        ("enabled", JsonValue::Bool(true)),
    ]);

    let result = opencode::parse_mcp_server(&config);
    assert!(result.is_err());
}

#[test]
fn parse_mcp_servers_full_example() {
    let config = obj(vec![(
        "mcp",
        obj(vec![
            (
                "filesystem",
                obj(vec![
                    ("type", txt("local")),
                    (
                        "command",
                        arr(vec![
                            txt("npx"),
                            txt("-y"),
                            txt("@modelcontextprotocol/server-filesystem"),
                        ]),
                    ),
                    ("environment", obj(vec![("ALLOWED_PATH", txt("/tmp"))])),
                    ("enabled", JsonValue::Bool(true)),
                    ("timeout", num(30000)),
                ]),
            ),
            (
                "api-server",
                obj(vec![
                    ("type", txt("remote")),
                    ("url", txt("https://api.example.com/mcp")),
                    ("headers", obj(vec![("Authorization", txt("{env:API_TOKEN}"))])),
                    (
                        "oauth",
                        obj(vec![
                            ("client_id", txt("my-client")),
                            ("client_secret", txt("{env:OAUTH_SECRET}")),
                            ("scope", txt("read write")),
                        ]),
                    ),
                    ("enabled", JsonValue::Bool(true)),
                    ("timeout", num(60000)),
                ]),
            ),
            (
                "disabled-server",
                obj(vec![
                    ("type", txt("local")),
                    ("command", arr(vec![txt("test")])),
                    ("enabled", JsonValue::Bool(false)),
                ]),
            ),
        ]),
    )]);

    let servers = opencode::parse_mcp_servers(&config).unwrap();
    assert_eq!(servers.len(), 3);

    let filesystem = servers.iter().find(|(n, _)| n == "filesystem").map(|(_, s)| s);
    assert!(filesystem.is_some());

    if let Some(McpServer::Stdio(s)) = filesystem {
        assert_eq!(s.command, "npx");
        assert_eq!(s.args, vec!["-y", "@modelcontextprotocol/server-filesystem"]);
        assert_eq!(s.timeout_ms, Some(30000));
    } else {
        panic!("Expected Stdio server for filesystem");
    }

    let api_server = servers.iter().find(|(n, _)| n == "api-server").map(|(_, s)| s);
    assert!(api_server.is_some());

    if let Some(McpServer::Http(s)) = api_server {
        assert_eq!(s.url, "https://api.example.com/mcp");
        assert_eq!(s.timeout_ms, Some(60000));
        assert!(s.oauth.is_some());
    } else {
        panic!("Expected Http server for api-server");
    }
}
