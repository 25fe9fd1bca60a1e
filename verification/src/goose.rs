//! The Goose harness: configuration paths and native server parsing.
//!
//! Goose keeps its configuration under `goose/` in the user configuration
//! root, or `.goose/` in a project, and persists it as YAML. Its server
//! entries are discriminated by `type: stdio`, `type: sse` or
//! `type: streamable_http`; other extension types under the same root key
//! are not MCP servers.

use vstd::prelude::*;

use crate::error::McpError;
use crate::harness::{concat_str, Scope};
use crate::json::JsonValue;
use crate::mcp::McpServer;
use crate::mcp_parse::{DiscriminatorScheme, ParseConfig};

verus! {

/// The user-level Goose configuration directory under `config_root`.
pub fn global_config_dir(config_root: &str) -> (r: String)
    ensures
        r@ == config_root@ + "/goose"@,
{
    concat_str(config_root, "/goose")
}

/// The project-local Goose configuration directory.
pub fn project_config_dir(project_root: &str) -> (r: String)
    ensures
        r@ == project_root@ + "/.goose"@,
{
    concat_str(project_root, "/.goose")
}

/// The Goose configuration directory for a scope.
pub open spec fn config_dir_spec(scope: Scope) -> Seq<char> {
    match scope {
        Scope::Global(base) => base@ + "/goose"@,
        Scope::Project(root) => root@ + "/.goose"@,
        Scope::Custom(path) => path@,
    }
}

/// The base configuration directory for the given scope.
pub fn config_dir(scope: &Scope) -> (r: String)
    ensures
        r@ == config_dir_spec(*scope),
{
    match scope {
        Scope::Global(base) => global_config_dir(base.as_str()),
        Scope::Project(root) => project_config_dir(root.as_str()),
        Scope::Custom(path) => path.clone(),
    }
}

/// The commands directory for the given scope. Goose has no dedicated
/// commands directory, so this is the configuration directory itself.
pub fn commands_dir(scope: &Scope) -> (r: String)
    ensures
        r@ == config_dir_spec(*scope),
{
    config_dir(scope)
}

/// The MCP configuration directory for the given scope: Goose keeps MCP
/// configuration in the base configuration directory.
pub fn mcp_dir(scope: &Scope) -> (r: String)
    ensures
        r@ == config_dir_spec(*scope),
{
    config_dir(scope)
}

/// The skills directory for the given scope: `agents/skills/` under the
/// configuration root, or `.agents/skills/` in a project.
pub fn skills_dir(scope: &Scope) -> (r: Option<String>)
    ensures
        match scope {
            Scope::Global(base) => r matches Some(p) && p@ == base@ + "/agents/skills"@,
            Scope::Project(root) => r matches Some(p) && p@ == root@ + "/.agents/skills"@,
            Scope::Custom(path) => r matches Some(p) && p@ == path@ + "/skills"@,
        },
{
    match scope {
        Scope::Global(base) => Some(concat_str(base.as_str(), "/agents/skills")),
        Scope::Project(root) => Some(concat_str(root.as_str(), "/.agents/skills")),
        Scope::Custom(path) => Some(concat_str(path.as_str(), "/skills")),
    }
}

/// The rules directory for the given scope: Goose reads rules files from
/// its configuration directory, or from the project root.
pub fn rules_dir(scope: &Scope) -> (r: Option<String>)
    ensures
        match scope {
            Scope::Global(base) => r matches Some(p) && p@ == base@ + "/goose"@,
            Scope::Project(root) => r matches Some(p) && p@ == root@,
            Scope::Custom(path) => r matches Some(p) && p@ == path@,
        },
{
    match scope {
        Scope::Global(base) => Some(global_config_dir(base.as_str())),
        Scope::Project(root) => Some(root.clone()),
        Scope::Custom(path) => Some(path.clone()),
    }
}

/// Parses one MCP server from Goose's native shape.
pub fn parse_mcp_server(value: &JsonValue) -> (r: Result<McpServer, McpError>)
    ensures
        match crate::mcp_parse::server_of(
            value@,
            crate::mcp_parse::goose_cfg(),
            DiscriminatorScheme::StdioSseHttp,
        ) {
            Some(sv) => r matches Ok(s) && s@ == sv,
            None => r matches Err(e) && e.harness@ == "Goose"@ && e.reason@
                == crate::mcp_parse::server_reason(
                value@,
                crate::mcp_parse::goose_cfg(),
                DiscriminatorScheme::StdioSseHttp,
            ),
        },
{
    let config = ParseConfig::goose();
    crate::mcp_parse::parse_mcp_server(value, &config, DiscriminatorScheme::StdioSseHttp)
}

/// Parses every MCP server under the `extensions` key of a Goose document.
pub fn parse_mcp_servers(config_doc: &JsonValue) -> (r: Result<
    Vec<(String, McpServer)>,
    McpError,
>)
    ensures
        match crate::mcp_parse::servers_of(
            config_doc@,
            "extensions"@,
            crate::mcp_parse::goose_cfg(),
            DiscriminatorScheme::StdioSseHttp,
        ) {
            Some(ss) => r matches Ok(v) && v.deep_view() == ss,
            None => r matches Err(e) && e.harness@ == "Goose"@ && e.reason@
                == crate::mcp_parse::servers_reason(
                config_doc@,
                "extensions"@,
                crate::mcp_parse::goose_cfg(),
                DiscriminatorScheme::StdioSseHttp,
            ),
        },
{
    let config = ParseConfig::goose();
    crate::mcp_parse::parse_servers_from_key(
        config_doc,
        "extensions",
        &config,
        DiscriminatorScheme::StdioSseHttp,
    )
}

} // verus!
