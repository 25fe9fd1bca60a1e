//! The OpenCode harness: configuration paths and native server parsing.
//!
//! OpenCode keeps its configuration under `opencode/` in the user
//! configuration root, or `.opencode/` in a project. Its server entries
//! are discriminated by `type: local` or `type: remote`, and a local
//! server's command and arguments form one array under `command`.

use vstd::prelude::*;

use crate::error::McpError;
use crate::harness::{concat_str, Scope};
use crate::json::{arr_view, obj_find, obj_view, JsonV, JsonValue};
use crate::mcp::{HttpMcpServer, HttpV, McpServer, McpV, StdioMcpServer, StdioV};
use crate::mcp_parse::{
    all_texts, enabled_of, env_map_of, env_map_reason, oauth_of, oauth_reason, text_of,
    texts_view, timeout_of, timeout_reason, CfgV, DiscriminatorScheme, ParseConfig,
};

verus! {

/// The user-level OpenCode configuration directory under `config_root`.
pub fn global_config_dir(config_root: &str) -> (r: String)
    ensures
        r@ == config_root@ + "/opencode"@,
{
    concat_str(config_root, "/opencode")
}

/// The project-local OpenCode configuration directory.
pub fn project_config_dir(project_root: &str) -> (r: String)
    ensures
        r@ == project_root@ + "/.opencode"@,
{
    concat_str(project_root, "/.opencode")
}

/// The OpenCode configuration directory for a scope.
pub open spec fn config_dir_spec(scope: Scope) -> Seq<char> {
    match scope {
        Scope::Global(base) => base@ + "/opencode"@,
        Scope::Project(root) => root@ + "/.opencode"@,
        Scope::Custom(path) => path@,
    }
}

/// The base configuration directory for the given scope.
pub fn config_dir(scope: &Scope) -> (r: String)
    ensures
        r@ == config_dir_spec(*scope),
{
    match scope {
        Scope::Global(base) => global_config_dir(base.as_str()),
        Scope::Project(root) => project_config_dir(root.as_str()),
        Scope::Custom(path) => path.clone(),
    }
}

/// The commands directory for the given scope: `command/` under the
/// configuration directory.
pub fn commands_dir(scope: &Scope) -> (r: String)
    ensures
        r@ == config_dir_spec(*scope) + "/command"@,
{
    let base = config_dir(scope);
    concat_str(base.as_str(), "/command")
}

/// The MCP configuration directory for the given scope. OpenCode keeps
/// MCP servers in `opencode.json` under the `mcp` key, in the base
/// configuration directory.
pub fn mcp_dir(scope: &Scope) -> (r: String)
    ensures
        r@ == config_dir_spec(*scope),
{
    config_dir(scope)
}

/// The skills directory for the given scope: `skill/` under the
/// configuration directory.
pub fn skills_dir(scope: &Scope) -> (r: Option<String>)
    ensures
        r matches Some(p) && p@ == config_dir_spec(*scope) + "/skill"@,
{
    let base = config_dir(scope);
    Some(concat_str(base.as_str(), "/skill"))
}

/// The rules directory for the given scope: OpenCode reads rules files
/// from the project root and has no user-level rules directory.
pub fn rules_dir(scope: &Scope) -> (r: Option<String>)
    ensures
        match scope {
            Scope::Global(_) => r is None,
            Scope::Project(root) => r matches Some(p) && p@ == root@,
            Scope::Custom(path) => r matches Some(p) && p@ == path@,
        },
{
    match scope {
        Scope::Global(_) => None,
        Scope::Project(root) => Some(root.clone()),
        Scope::Custom(path) => Some(path.clone()),
    }
}

/// What the local-server builder yields for `obj`: `command` must be a
/// non-empty array of strings, whose first element is the command and
/// whose remainder are the arguments.
pub open spec fn local_of(obj: Seq<(Seq<char>, JsonV)>, cfg: CfgV) -> Option<StdioV> {
    match obj_find(obj, "command"@) {
        Some(JsonV::Arr(items)) => if items.len() == 0 || !all_texts(items) {
            None
        } else {
            match env_map_of(obj, cfg.env_field, cfg.harness_kind, cfg.plain_env_values) {
                Some(env) => match timeout_of(obj, cfg.timeout_field, cfg.timeout_in_seconds) {
                    Some(timeout_ms) => Some(
                        StdioV {
                            command: text_of(items[0]),
                            args: texts_view(items.drop_first()),
                            env,
                            cwd: None,
                            enabled: enabled_of(obj, cfg.disabled_field),
                            timeout_ms,
                        },
                    ),
                    None => None,
                },
                None => None,
            }
        },
        _ => None,
    }
}

/// The reason the local-server builder reports when it fails,
/// following its parse order: command array, its elements, environment,
/// timeout.
pub open spec fn local_reason(obj: Seq<(Seq<char>, JsonV)>, cfg: CfgV) -> Seq<char> {
    match obj_find(obj, "command"@) {
        Some(JsonV::Arr(items)) => if items.len() == 0 {
            "Command array must not be empty"@
        } else if !(items[0] is Text) {
            "Command must be a string"@
        } else if !all_texts(items) {
            "Command arguments must be strings"@
        } else if env_map_of(obj, cfg.env_field, cfg.harness_kind, cfg.plain_env_values)
            is None {
            env_map_reason(obj, cfg.env_field)
        } else {
            timeout_reason(obj, cfg.timeout_field)
        },
        _ => "Missing or invalid 'command' field"@,
    }
}

/// Builds a stdio server descriptor from a `type: local` entry, whose
/// `command` array holds the command followed by its arguments.
pub fn parse_local_server(obj: &Vec<(String, JsonValue)>, config: &ParseConfig) -> (r: Result<
    McpServer,
    McpError,
>)
    ensures
        match local_of(obj_view(obj@), config@) {
            Some(sv) => r matches Ok(s) && s@ == McpV::Stdio(sv),
            None => r matches Err(e) && e.harness@ == config.harness_name@ && e.reason@
                == local_reason(obj_view(obj@), config@),
        },
{
    let items = match crate::json::obj_get(obj, "command") {
        Some(JsonValue::Array(items)) => items,
        _ => {
            let reason = String::from_str("Missing or invalid 'command' field");
            return Err(McpError::new(config.harness_name, reason));
        },
    };
    let ghost iv = arr_view(items@);
    proof {
        crate::json::lemma_arr_view_len(items@);
    }
    if items.len() == 0 {
        let reason = String::from_str("Command array must not be empty");
        return Err(McpError::new(config.harness_name, reason));
    }
    proof {
        crate::json::lemma_arr_view_index(items@, 0);
    }
    let command = match &items[0] {
        JsonValue::Text(s) => s.clone(),
        _ => {
            assert(!all_texts(iv));
            let reason = String::from_str("Command must be a string");
            return Err(McpError::new(config.harness_name, reason));
        },
    };
    let mut args: Vec<String> = Vec::new();
    let mut i: usize = 1;
    while i < items.len()
        invariant
            1 <= i <= items@.len(),
            iv == arr_view(items@),
            iv.len() == items@.len(),
            obj_find(obj_view(obj@), "command"@) == Some(JsonV::Arr(iv)),
            iv[0] is Text,
            args@.len() == i - 1,
            forall|k: int| 1 <= k < i ==> (#[trigger] iv[k]) is Text,
            forall|k: int| 0 <= k < i - 1 ==> args@[k]@ == text_of(iv[k + 1]),
        decreases items@.len() - i,
    {
        proof {
            crate::json::lemma_arr_view_index(items@, i as int);
        }
        match &items[i] {
            JsonValue::Text(s) => {
                args.push(s.clone());
            },
            _ => {
                assert(!all_texts(iv));
                let reason = String::from_str("Command arguments must be strings");
                return Err(McpError::new(config.harness_name, reason));
            },
        }
        i = i + 1;
    }
    proof {
        assert(all_texts(iv));
        assert forall|k: int|
            0 <= k < iv.len() - 1 implies args.deep_view()[k] == texts_view(
            iv.drop_first(),
        )[k] by {
            assert(iv.drop_first()[k] == iv[k + 1]);
        }
        assert(args.deep_view() =~= texts_view(iv.drop_first()));
    }
    let env = match crate::mcp_parse::parse_env_map(
        obj,
        config.env_field,
        config.harness_name,
        config.harness_kind,
        config.plain_env_values,
    ) {
        Ok(m) => m,
        Err(e) => {
            return Err(e);
        },
    };
    let enabled = crate::mcp_parse::parse_enabled(obj, config.disabled_field);
    let timeout_ms = match crate::mcp_parse::parse_timeout(
        obj,
        config.timeout_field,
        config.timeout_in_seconds,
        config.harness_name,
    ) {
        Ok(t) => t,
        Err(e) => {
            return Err(e);
        },
    };
    Ok(
        McpServer::Stdio(
            StdioMcpServer { command, args, env, cwd: None, enabled, timeout_ms },
        ),
    )
}

/// What the remote-server builder yields for `obj`: an HTTP descriptor
/// whose URL field must hold a string, with headers and an optional
/// OAuth block.
pub open spec fn remote_of(obj: Seq<(Seq<char>, JsonV)>, cfg: CfgV) -> Option<HttpV> {
    match obj_find(obj, cfg.url_field) {
        Some(JsonV::Text(url)) => match env_map_of(
            obj,
            "headers"@,
            cfg.harness_kind,
            cfg.plain_env_values,
        ) {
            Some(headers) => match oauth_of(obj, cfg.harness_kind) {
                Some(oauth) => match timeout_of(obj, cfg.timeout_field, cfg.timeout_in_seconds) {
                    Some(timeout_ms) => Some(
                        HttpV {
                            url,
                            headers,
                            oauth,
                            enabled: enabled_of(obj, cfg.disabled_field),
                            timeout_ms,
                        },
                    ),
                    None => None,
                },
                None => None,
            },
            None => None,
        },
        _ => None,
    }
}

/// The reason the remote-server builder reports when it fails,
/// following its parse order: URL, headers, OAuth block, timeout.
pub open spec fn remote_reason(obj: Seq<(Seq<char>, JsonV)>, cfg: CfgV) -> Seq<char> {
    match obj_find(obj, cfg.url_field) {
        Some(JsonV::Text(_)) => if env_map_of(
            obj,
            "headers"@,
            cfg.harness_kind,
            cfg.plain_env_values,
        ) is None {
            env_map_reason(obj, "headers"@)
        } else if oauth_of(obj, cfg.harness_kind) is None {
            oauth_reason(obj)
        } else {
            timeout_reason(obj, cfg.timeout_field)
        },
        _ => "Missing or invalid '"@ + cfg.url_field + "' field"@,
    }
}

/// Builds an HTTP server descriptor from a `type: remote` entry,
/// including its optional OAuth block.
pub fn parse_remote_server(obj: &Vec<(String, JsonValue)>, config: &ParseConfig) -> (r: Result<
    McpServer,
    McpError,
>)
    ensures
        match remote_of(obj_view(obj@), config@) {
            Some(sv) => r matches Ok(s) && s@ == McpV::Http(sv),
            None => r matches Err(e) && e.harness@ == config.harness_name@ && e.reason@
                == remote_reason(obj_view(obj@), config@),
        },
{
    let url = match crate::json::obj_get(obj, config.url_field) {
        Some(JsonValue::Text(s)) => s.clone(),
        _ => {
            let mut reason = String::from_str("Missing or invalid '");
            reason.append(config.url_field);
            reason.append("' field");
            return Err(McpError::new(config.harness_name, reason));
        },
    };
    let headers = match crate::mcp_parse::parse_env_map(
        obj,
        "headers",
        config.harness_name,
        config.harness_kind,
        config.plain_env_values,
    ) {
        Ok(m) => m,
        Err(e) => {
            return Err(e);
        },
    };
    let oauth = match crate::mcp_parse::parse_oauth(obj, config) {
        Ok(o) => o,
        Err(e) => {
            return Err(e);
        },
    };
    let enabled = crate::mcp_parse::parse_enabled(obj, config.disabled_field);
    let timeout_ms = match crate::mcp_parse::parse_timeout(
        obj,
        config.timeout_field,
        config.timeout_in_seconds,
        config.harness_name,
    ) {
        Ok(t) => t,
        Err(e) => {
            return Err(e);
        },
    };
    Ok(McpServer::Http(HttpMcpServer { url, headers, oauth, enabled, timeout_ms }))
}

/// Parses one MCP server from OpenCode's native shape.
pub fn parse_mcp_server(value: &JsonValue) -> (r: Result<McpServer, McpError>)
    ensures
        match crate::mcp_parse::server_of(
            value@,
            crate::mcp_parse::opencode_cfg(),
            DiscriminatorScheme::LocalRemote,
        ) {
            Some(sv) => r matches Ok(s) && s@ == sv,
            None => r matches Err(e) && e.harness@ == "OpenCode"@ && e.reason@
                == crate::mcp_parse::server_reason(
                value@,
                crate::mcp_parse::opencode_cfg(),
                DiscriminatorScheme::LocalRemote,
            ),
        },
{
    let config = ParseConfig::opencode();
    crate::mcp_parse::parse_mcp_server(value, &config, DiscriminatorScheme::LocalRemote)
}

/// Parses every MCP server under the `mcp` key of an OpenCode document.
pub fn parse_mcp_servers(config_doc: &JsonValue) -> (r: Result<
    Vec<(String, McpServer)>,
    McpError,
>)
    ensures
        match crate::mcp_parse::servers_of(
            config_doc@,
            "mcp"@,
            crate::mcp_parse::opencode_cfg(),
            DiscriminatorScheme::LocalRemote,
        ) {
            Some(ss) => r matches Ok(v) && v.deep_view() == ss,
            None => r matches Err(e) && e.harness@ == "OpenCode"@ && e.reason@
                == crate::mcp_parse::servers_reason(
                config_doc@,
                "mcp"@,
                crate::mcp_parse::opencode_cfg(),
                DiscriminatorScheme::LocalRemote,
            ),
        },
{
    let config = ParseConfig::opencode();
    crate::mcp_parse::parse_servers_from_key(
        config_doc,
        "mcp",
        &config,
        DiscriminatorScheme::LocalRemote,
    )
}

} // verus!
