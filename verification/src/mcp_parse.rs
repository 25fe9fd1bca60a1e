//! Generic, mapping-driven parsing of MCP server entries.
//!
//! A [`ParseConfig`] names, for one harness, the JSON fields that hold the
//! launch command, arguments, environment map, URL and timeout, together
//! with that harness's value conventions. The field parsers here are
//! written once against those names; per-harness behaviour enters only
//! through the descriptor and through the discriminator scheme.

use vstd::prelude::*;

use crate::envvalue::{resolve_native, resolve_value, EnvV, EnvValue};
use crate::error::McpError;
use crate::harness::HarnessKind;
use crate::json::{
    dec_repr, dec_val, is_dec_digits, obj_find, obj_view, JsonV, JsonValue,
};
use crate::mcp::{
    EnvMap, HttpMcpServer, HttpV, McpServer, McpV, OAuthConfig, OAuthV, SseMcpServer, SseV,
    StdioMcpServer, StdioV,
};

verus! {

/// The per-harness mapping descriptor: field names and value conventions
/// that drive the generic parsers.
#[derive(Debug, Clone, Copy)]
pub struct ParseConfig {
    /// Harness display name for error messages.
    pub harness_name: &'static str,
    /// Harness kind, for environment-value syntax lookup.
    pub harness_kind: HarnessKind,
    /// Field holding the argument array.
    pub args_field: &'static str,
    /// Field holding the environment-variable map.
    pub env_field: &'static str,
    /// Field holding the launch command.
    pub command_field: &'static str,
    /// Field holding the remote URL.
    pub url_field: &'static str,
    /// Whether environment and header values are always literal.
    pub plain_env_values: bool,
    /// Field holding an inverted "disabled" flag, where the harness uses one.
    pub disabled_field: Option<&'static str>,
    /// Field holding the timeout.
    pub timeout_field: &'static str,
    /// Whether the timeout is counted in seconds and must be scaled to
    /// milliseconds.
    pub timeout_in_seconds: bool,
}

/// The mathematical view of a [`ParseConfig`].
pub struct CfgV {
    pub harness_name: Seq<char>,
    pub harness_kind: HarnessKind,
    pub args_field: Seq<char>,
    pub env_field: Seq<char>,
    pub command_field: Seq<char>,
    pub url_field: Seq<char>,
    pub plain_env_values: bool,
    pub disabled_field: Option<Seq<char>>,
    pub timeout_field: Seq<char>,
    pub timeout_in_seconds: bool,
}

impl View for ParseConfig {
    type V = CfgV;

    open spec fn view(&self) -> CfgV {
        CfgV {
            harness_name: self.harness_name@,
            harness_kind: self.harness_kind,
            args_field: self.args_field@,
            env_field: self.env_field@,
            command_field: self.command_field@,
            url_field: self.url_field@,
            plain_env_values: self.plain_env_values,
            disabled_field: self.disabled_field.deep_view(),
            timeout_field: self.timeout_field@,
            timeout_in_seconds: self.timeout_in_seconds,
        }
    }
}

/// The ClaudeCode mapping.
pub open spec fn claude_code_cfg() -> CfgV {
    CfgV {
        harness_name: "ClaudeCode"@,
        harness_kind: HarnessKind::ClaudeCode,
        args_field: "args"@,
        env_field: "env"@,
        command_field: "command"@,
        url_field: "url"@,
        plain_env_values: false,
        disabled_field: None,
        timeout_field: "timeout"@,
        timeout_in_seconds: false,
    }
}

/// The OpenCode mapping.
pub open spec fn opencode_cfg() -> CfgV {
    CfgV {
        harness_name: "OpenCode"@,
        harness_kind: HarnessKind::OpenCode,
        args_field: "command"@,
        env_field: "environment"@,
        command_field: "command"@,
        url_field: "url"@,
        plain_env_values: false,
        disabled_field: None,
        timeout_field: "timeout"@,
        timeout_in_seconds: false,
    }
}

/// The Goose mapping.
pub open spec fn goose_cfg() -> CfgV {
    CfgV {
        harness_name: "Goose"@,
        harness_kind: HarnessKind::Goose,
        args_field: "args"@,
        env_field: "envs"@,
        command_field: "cmd"@,
        url_field: "uri"@,
        plain_env_values: true,
        disabled_field: None,
        timeout_field: "timeout"@,
        timeout_in_seconds: true,
    }
}

/// The Crush mapping.
pub open spec fn crush_cfg() -> CfgV {
    CfgV {
        harness_name: "Crush"@,
        harness_kind: HarnessKind::Crush,
        args_field: "args"@,
        env_field: "env"@,
        command_field: "command"@,
        url_field: "url"@,
        plain_env_values: true,
        disabled_field: Some("disabled"@),
        timeout_field: "timeout_ms"@,
        timeout_in_seconds: false,
    }
}

/// The Droid mapping.
pub open spec fn droid_cfg() -> CfgV {
    CfgV {
        harness_name: "Droid"@,
        harness_kind: HarnessKind::Droid,
        args_field: "args"@,
        env_field: "env"@,
        command_field: "command"@,
        url_field: "url"@,
        plain_env_values: false,
        disabled_field: Some("disabled"@),
        timeout_field: "timeout"@,
        timeout_in_seconds: false,
    }
}

/// The AMP Code mapping.
pub open spec fn amp_code_cfg() -> CfgV {
    CfgV {
        harness_name: "AMP Code"@,
        harness_kind: HarnessKind::AmpCode,
        args_field: "args"@,
        env_field: "env"@,
        command_field: "command"@,
        url_field: "url"@,
        plain_env_values: false,
        disabled_field: None,
        timeout_field: "timeout"@,
        timeout_in_seconds: false,
    }
}

/// The Copilot CLI mapping.
pub open spec fn copilot_cli_cfg() -> CfgV {
    CfgV {
        harness_name: "Copilot CLI"@,
        harness_kind: HarnessKind::CopilotCli,
        args_field: "args"@,
        env_field: "env"@,
        command_field: "command"@,
        url_field: "url"@,
        plain_env_values: false,
        disabled_field: None,
        timeout_field: "timeout"@,
        timeout_in_seconds: false,
    }
}

impl ParseConfig {
    /// The ClaudeCode mapping.
    pub fn claude_code() -> (c: ParseConfig)
        ensures
            c@ == claude_code_cfg(),
    {
        ParseConfig {
            harness_name: "ClaudeCode",
            harness_kind: HarnessKind::ClaudeCode,
            args_field: "args",
            env_field: "env",
            command_field: "command",
            url_field: "url",
            plain_env_values: false,
            disabled_field: None,
            timeout_field: "timeout",
            timeout_in_seconds: false,
        }
    }

    /// The OpenCode mapping. OpenCode encodes the command and its
    /// arguments as one array under `command`.
    pub fn opencode() -> (c: ParseConfig)
        ensures
            c@ == opencode_cfg(),
    {
        ParseConfig {
            harness_name: "OpenCode",
            harness_kind: HarnessKind::OpenCode,
            args_field: "command",
            env_field: "environment",
            command_field: "command",
            url_field: "url",
            plain_env_values: false,
            disabled_field: None,
            timeout_field: "timeout",
            timeout_in_seconds: false,
        }
    }

    /// The Goose mapping: `cmd`/`uri`/`envs` fields, plain environment
    /// values, and a timeout counted in seconds.
    pub fn goose() -> (c: ParseConfig)
        ensures
            c@ == goose_cfg(),
    {
        ParseConfig {
            harness_name: "Goose",
            harness_kind: HarnessKind::Goose,
            args_field: "args",
            env_field: "envs",
            command_field: "cmd",
            url_field: "uri",
            plain_env_values: true,
            disabled_field: None,
            timeout_field: "timeout",
            timeout_in_seconds: true,
        }
    }

    /// The Crush mapping: plain environment values, an inverted
    /// `disabled` flag, and a timeout already in milliseconds.
    pub fn crush() -> (c: ParseConfig)
        ensures
            c@ == crush_cfg(),
    {
        ParseConfig {
            harness_name: "Crush",
            harness_kind: HarnessKind::Crush,
            args_field: "args",
            env_field: "env",
            command_field: "command",
            url_field: "url",
            plain_env_values: true,
            disabled_field: Some("disabled"),
            timeout_field: "timeout_ms",
            timeout_in_seconds: false,
        }
    }

    /// The Droid mapping: an inverted `disabled` flag.
    pub fn droid() -> (c: ParseConfig)
        ensures
            c@ == droid_cfg(),
    {
        ParseConfig {
            harness_name: "Droid",
            harness_kind: HarnessKind::Droid,
            args_field: "args",
            env_field: "env",
            command_field: "command",
            url_field: "url",
            plain_env_values: false,
            disabled_field: Some("disabled"),
            timeout_field: "timeout",
            timeout_in_seconds: false,
        }
    }

    /// The AMP Code mapping.
    pub fn amp_code() -> (c: ParseConfig)
        ensures
            c@ == amp_code_cfg(),
    {
        ParseConfig {
            harness_name: "AMP Code",
            harness_kind: HarnessKind::AmpCode,
            args_field: "args",
            env_field: "env",
            command_field: "command",
            url_field: "url",
            plain_env_values: false,
            disabled_field: None,
            timeout_field: "timeout",
            timeout_in_seconds: false,
        }
    }

    /// The Copilot CLI mapping.
    pub fn copilot_cli() -> (c: ParseConfig)
        ensures
            c@ == copilot_cli_cfg(),
    {
        ParseConfig {
            harness_name: "Copilot CLI",
            harness_kind: HarnessKind::CopilotCli,
            args_field: "args",
            env_field: "env",
            command_field: "command",
            url_field: "url",
            plain_env_values: false,
            disabled_field: None,
            timeout_field: "timeout",
            timeout_in_seconds: false,
        }
    }
}

/// The text of a `Text` value; the empty sequence for any other value.
pub open spec fn text_of(v: JsonV) -> Seq<char>
    recommends
        v is Text,
{
    match v {
        JsonV::Text(s) => s,
        _ => Seq::empty(),
    }
}

/// Whether every element of `items` is a `Text` value.
pub open spec fn all_texts(items: Seq<JsonV>) -> bool {
    forall|i: int| 0 <= i < items.len() ==> (#[trigger] items[i]) is Text
}

/// The texts of a sequence of `Text` values, in order.
pub open spec fn texts_view(items: Seq<JsonV>) -> Seq<Seq<char>> {
    Seq::new(items.len(), |i: int| text_of(items[i]))
}

/// The first index whose element is not a string; the length when all
/// are.
pub open spec fn first_non_text(items: Seq<JsonV>) -> int
    decreases items.len(),
{
    if items.len() == 0 {
        0
    } else if !(items[0] is Text) {
        0
    } else {
        1 + first_non_text(items.drop_first())
    }
}

/// The index after a run of strings, ending at a non-string, is the
/// first non-string index.
proof fn lemma_first_non_text_at(items: Seq<JsonV>, i: int)
    requires
        0 <= i < items.len(),
        forall|k: int| 0 <= k < i ==> (#[trigger] items[k]) is Text,
        !(items[i] is Text),
    ensures
        first_non_text(items) == i,
    decreases i,
{
    if i > 0 {
        assert(items[0] is Text);
        assert forall|k: int|
            0 <= k < i - 1 implies (#[trigger] items.drop_first()[k]) is Text by {
            assert(items.drop_first()[k] == items[k + 1]);
        }
        assert(items.drop_first()[i - 1] == items[i]);
        lemma_first_non_text_at(items.drop_first(), i - 1);
    }
}

/// The reason the string-array parser reports when it fails on `field`.
pub open spec fn string_array_reason(obj: Seq<(Seq<char>, JsonV)>, field: Seq<char>) -> Seq<
    char,
>
    recommends
        string_array_of(obj, field) is None,
{
    match obj_find(obj, field) {
        Some(JsonV::Arr(items)) => field + "["@ + dec_repr(first_non_text(items) as nat)
            + "] must be a string"@,
        _ => "'"@ + field + "' must be an array"@,
    }
}

/// What the string-array parser yields for `field` of `obj`: an absent
/// field is an empty sequence; a non-array field or a non-string element
/// is an error (`None`).
pub open spec fn string_array_of(obj: Seq<(Seq<char>, JsonV)>, field: Seq<char>) -> Option<
    Seq<Seq<char>>,
> {
    match obj_find(obj, field) {
        None => Some(Seq::empty()),
        Some(JsonV::Arr(items)) => if all_texts(items) {
            Some(texts_view(items))
        } else {
            None
        },
        Some(_) => None,
    }
}

/// Parses an ordered string array from `field` of `obj`.
///
/// An absent field yields an empty vector; a present field must be an
/// array of strings, and the error names the first offending index.
pub fn parse_string_array(obj: &Vec<(String, JsonValue)>, field: &str, harness: &str) -> (r:
    Result<Vec<String>, McpError>)
    ensures
        match string_array_of(obj_view(obj@), field@) {
            Some(ss) => r matches Ok(v) && v.deep_view() == ss,
            None => r matches Err(e) && e.harness@ == harness@ && e.reason@
                == string_array_reason(obj_view(obj@), field@),
        },
{
    let found = crate::json::obj_get(obj, field);
    match found {
        None => {
            let r: Vec<String> = Vec::new();
            proof {
                assert(r.deep_view() =~= Seq::<Seq<char>>::empty());
            }
            Ok(r)
        },
        Some(JsonValue::Array(items)) => {
            let mut out: Vec<String> = Vec::new();
            let ghost iv = crate::json::arr_view(items@);
            proof {
                crate::json::lemma_arr_view_len(items@);
            }
            let mut i: usize = 0;
            while i < items.len()
                invariant
                    i <= items@.len(),
                    iv == crate::json::arr_view(items@),
                    iv.len() == items@.len(),
                    obj_find(obj_view(obj@), field@) == Some(JsonV::Arr(iv)),
                    out@.len() == i,
                    forall|k: int| 0 <= k < i ==> (#[trigger] iv[k]) is Text,
                    forall|k: int| 0 <= k < i ==> out@[k]@ == text_of(iv[k]),
                decreases items@.len() - i,
            {
                proof {
                    crate::json::lemma_arr_view_index(items@, i as int);
                }
                match &items[i] {
                    JsonValue::Text(s) => {
                        out.push(s.clone());
                    },
                    _ => {
                        proof {
                            assert(!all_texts(iv));
                            lemma_first_non_text_at(iv, i as int);
                        }
                        let mut reason = String::from_str(field);
                        reason.append("[");
                        let idx = crate::json::u64_to_dec(i as u64);
                        reason.append(idx.as_str());
                        reason.append("] must be a string");
                        assert(reason@ == string_array_reason(obj_view(obj@), field@));
                        return Err(McpError::new(harness, reason));
                    },
                }
                i = i + 1;
            }
            proof {
                assert(all_texts(iv));
                assert forall|k: int| 0 <= k < iv.len() implies out.deep_view()[k] == texts_view(
                    iv,
                )[k] by {}
                assert(out.deep_view() =~= texts_view(iv));
            }
            Ok(out)
        },
        Some(_) => {
            let mut reason = String::from_str("'");
            reason.append(field);
            reason.append("' must be an array");
            Err(McpError::new(harness, reason))
        },
    }
}

/// Whether every value of an object's entries is a `Text` value.
pub open spec fn all_text_values(entries: Seq<(Seq<char>, JsonV)>) -> bool {
    forall|i: int| 0 <= i < entries.len() ==> (#[trigger] entries[i]).1 is Text
}

/// An object's entries with each text value resolved to an [`EnvV`] under
/// the given harness's convention.
pub open spec fn resolved_entries(
    entries: Seq<(Seq<char>, JsonV)>,
    kind: HarnessKind,
    plain: bool,
) -> Seq<(Seq<char>, EnvV)> {
    Seq::new(entries.len(), |i: int| (entries[i].0, resolve_value(text_of(entries[i].1), kind, plain)))
}

/// The first index whose entry's value is not a string; the length
/// when all are.
pub open spec fn first_non_text_value(entries: Seq<(Seq<char>, JsonV)>) -> int
    decreases entries.len(),
{
    if entries.len() == 0 {
        0
    } else if !(entries[0].1 is Text) {
        0
    } else {
        1 + first_non_text_value(entries.drop_first())
    }
}

/// The index after a run of string values, ending at a non-string, is
/// the first non-string index.
proof fn lemma_first_non_text_value_at(entries: Seq<(Seq<char>, JsonV)>, i: int)
    requires
        0 <= i < entries.len(),
        forall|k: int| 0 <= k < i ==> (#[trigger] entries[k]).1 is Text,
        !(entries[i].1 is Text),
    ensures
        first_non_text_value(entries) == i,
    decreases i,
{
    if i > 0 {
        assert(entries[0].1 is Text);
        assert forall|k: int|
            0 <= k < i - 1 implies (#[trigger] entries.drop_first()[k]).1 is Text by {
            assert(entries.drop_first()[k] == entries[k + 1]);
        }
        assert(entries.drop_first()[i - 1] == entries[i]);
        lemma_first_non_text_value_at(entries.drop_first(), i - 1);
    }
}

/// The reason the string-map parser reports when it fails on `field`.
pub open spec fn env_map_reason(obj: Seq<(Seq<char>, JsonV)>, field: Seq<char>) -> Seq<char>
    recommends
        exists|kind: HarnessKind, plain: bool| env_map_of(obj, field, kind, plain) is None,
{
    match obj_find(obj, field) {
        Some(JsonV::Obj(entries)) => field + "."@ + entries[first_non_text_value(entries)].0
            + " must be a string"@,
        _ => "'"@ + field + "' must be an object"@,
    }
}

/// What the string-map parser yields for `field` of `obj`: an absent field
/// is an empty map; a non-object field or a non-string value is an error.
pub open spec fn env_map_of(
    obj: Seq<(Seq<char>, JsonV)>,
    field: Seq<char>,
    kind: HarnessKind,
    plain: bool,
) -> Option<Seq<(Seq<char>, EnvV)>> {
    match obj_find(obj, field) {
        None => Some(Seq::empty()),
        Some(JsonV::Obj(entries)) => if all_text_values(entries) {
            Some(resolved_entries(entries, kind, plain))
        } else {
            None
        },
        Some(_) => None,
    }
}

/// Parses an environment-variable or header map from `field` of `obj`,
/// resolving each value under the harness's plain or native convention.
pub fn parse_env_map(
    obj: &Vec<(String, JsonValue)>,
    field: &str,
    harness_name: &str,
    harness_kind: HarnessKind,
    plain_values: bool,
) -> (r: Result<EnvMap, McpError>)
    ensures
        match env_map_of(obj_view(obj@), field@, harness_kind, plain_values) {
            Some(m) => r matches Ok(em) && em@ == m,
            None => r matches Err(e) && e.harness@ == harness_name@ && e.reason@
                == env_map_reason(obj_view(obj@), field@),
        },
{
    let found = crate::json::obj_get(obj, field);
    match found {
        None => Ok(EnvMap::new()),
        Some(JsonValue::Object(entries)) => {
            let mut out = EnvMap::new();
            let ghost ev = obj_view(entries@);
            proof {
                crate::json::lemma_obj_view_len(entries@);
            }
            let mut i: usize = 0;
            while i < entries.len()
                invariant
                    i <= entries@.len(),
                    ev == obj_view(entries@),
                    ev.len() == entries@.len(),
                    obj_find(obj_view(obj@), field@) == Some(JsonV::Obj(ev)),
                    out@.len() == i,
                    forall|k: int| 0 <= k < i ==> (#[trigger] ev[k]).1 is Text,
                    forall|k: int|
                        0 <= k < i ==> out@[k] == (
                        ev[k].0,
                        resolve_value(text_of(ev[k].1), harness_kind, plain_values),
                        ),
                decreases entries@.len() - i,
            {
                proof {
                    crate::json::lemma_obj_view_index(entries@, i as int);
                }
                match &entries[i].1 {
                    JsonValue::Text(s) => {
                        let value = if plain_values {
                            EnvValue::plain(s.as_str())
                        } else {
                            EnvValue::from_native(s.as_str(), harness_kind)
                        };
                        out.push(entries[i].0.clone(), value);
                    },
                    _ => {
                        proof {
                            assert(!all_text_values(ev));
                            lemma_first_non_text_value_at(ev, i as int);
                        }
                        let mut reason = String::from_str(field);
                        reason.append(".");
                        reason.append(entries[i].0.as_str());
                        reason.append(" must be a string");
                        assert(reason@ == env_map_reason(obj_view(obj@), field@));
                        return Err(McpError::new(harness_name, reason));
                    },
                }
                i = i + 1;
            }
            proof {
                assert(all_text_values(ev));
                assert(out@ =~= resolved_entries(ev, harness_kind, plain_values));
            }
            Ok(out)
        },
        Some(_) => {
            let mut reason = String::from_str("'");
            reason.append(field);
            reason.append("' must be an object");
            Err(McpError::new(harness_name, reason))
        },
    }
}

/// The reason the timeout parser reports when it fails on `field`:
/// scaling a valid number out of range is reported as too large, any
/// other failing shape as not a number.
pub open spec fn timeout_reason(obj: Seq<(Seq<char>, JsonV)>, field: Seq<char>) -> Seq<char> {
    if (match obj_find(obj, field) {
        Some(JsonV::Num(t)) => is_dec_digits(t) && dec_val(t) <= u64::MAX,
        _ => false,
    }) {
        "timeout value too large"@
    } else {
        "'"@ + field + "' must be a number"@
    }
}

/// What the timeout parser yields for `field` of `obj`: an absent field is
/// `None`; a present field must be a non-negative integer, scaled from
/// seconds to milliseconds when the harness counts in seconds, and a
/// scaled value that does not fit a `u64` is an error.
pub open spec fn timeout_of(obj: Seq<(Seq<char>, JsonV)>, field: Seq<char>, in_seconds: bool) -> Option<
    Option<u64>,
> {
    match obj_find(obj, field) {
        None => Some(None),
        Some(JsonV::Num(s)) => if is_dec_digits(s) && dec_val(s) <= u64::MAX {
            if in_seconds {
                if dec_val(s) * 1000 <= u64::MAX {
                    Some(Some((dec_val(s) * 1000) as u64))
                } else {
                    None
                }
            } else {
                Some(Some(dec_val(s) as u64))
            }
        } else {
            None
        },
        Some(_) => None,
    }
}

/// Parses an optional timeout from `field` of `obj`, in milliseconds.
pub fn parse_timeout(obj: &Vec<(String, JsonValue)>, field: &str, in_seconds: bool, harness: &str) -> (r:
    Result<Option<u64>, McpError>)
    ensures
        match timeout_of(obj_view(obj@), field@, in_seconds) {
            Some(t) => r matches Ok(v) && v == t,
            None => r matches Err(e) && e.harness@ == harness@ && e.reason@ == timeout_reason(
                obj_view(obj@),
                field@,
            ),
        },
{
    let found = crate::json::obj_get(obj, field);
    match found {
        None => Ok(None),
        Some(JsonValue::Num(s)) => {
            match crate::json::parse_u64_digits(s.as_str()) {
                Some(raw) => {
                    if in_seconds {
                        match raw.checked_mul(1000) {
                            Some(ms) => Ok(Some(ms)),
                            None => {
                                let reason = String::from_str("timeout value too large");
                                Err(McpError::new(harness, reason))
                            },
                        }
                    } else {
                        Ok(Some(raw))
                    }
                },
                None => {
                    let mut reason = String::from_str("'");
                    reason.append(field);
                    reason.append("' must be a number");
                    Err(McpError::new(harness, reason))
                },
            }
        },
        Some(_) => {
            let mut reason = String::from_str("'");
            reason.append(field);
            reason.append("' must be a number");
            Err(McpError::new(harness, reason))
        },
    }
}

/// What the enabled parser yields: with a disabled-field convention, the
/// negation of that boolean field (absent or non-boolean counting as
/// false); otherwise the `enabled` field, absent or non-boolean counting
/// as true. Omission means "active".
pub open spec fn enabled_of(obj: Seq<(Seq<char>, JsonV)>, disabled_field: Option<Seq<char>>) -> bool {
    match disabled_field {
        Some(f) => !(match obj_find(obj, f) {
            Some(JsonV::Bool(b)) => b,
            _ => false,
        }),
        None => match obj_find(obj, "enabled"@) {
            Some(JsonV::Bool(b)) => b,
            _ => true,
        },
    }
}

/// Parses the enabled flag of a server entry.
pub fn parse_enabled(obj: &Vec<(String, JsonValue)>, disabled_field: Option<&str>) -> (r: bool)
    ensures
        r == enabled_of(obj_view(obj@), disabled_field.deep_view()),
{
    match disabled_field {
        Some(f) => {
            let found = crate::json::obj_get(obj, f);
            match found {
                Some(JsonValue::Bool(b)) => !*b,
                _ => true,
            }
        },
        None => {
            let found = crate::json::obj_get(obj, "enabled");
            match found {
                Some(JsonValue::Bool(b)) => *b,
                _ => true,
            }
        },
    }
}

/// The reason the OAuth parser reports when it fails: the first
/// recognized sub-field of the wrong type, in the order client_id,
/// client_secret, scope; or the block itself not being an object.
pub open spec fn oauth_reason(obj: Seq<(Seq<char>, JsonV)>) -> Seq<char> {
    match obj_find(obj, "oauth"@) {
        Some(JsonV::Obj(m)) => {
            let cid = obj_find(m, "client_id"@);
            let cs = obj_find(m, "client_secret"@);
            if cid is Some && !(cid->0 is Text) {
                "oauth.client_id must be a string"@
            } else if cs is Some && !(cs->0 is Text) {
                "oauth.client_secret must be a string"@
            } else {
                "oauth.scope must be a string"@
            }
        },
        _ => "'oauth' must be an object"@,
    }
}

/// What the OAuth parser yields for `obj`: an absent `oauth` field is
/// `None`; a present one must be an object, whose recognized sub-fields
/// (`client_id`, `client_secret`, `scope`) must each be strings when
/// present. `client_secret` is resolved under the harness's native
/// syntax; an `oauth` object with no recognized sub-field is a descriptor
/// with every field absent.
pub open spec fn oauth_of(obj: Seq<(Seq<char>, JsonV)>, kind: HarnessKind) -> Option<
    Option<OAuthV>,
> {
    match obj_find(obj, "oauth"@) {
        None => Some(None),
        Some(JsonV::Obj(m)) => {
            let cid = obj_find(m, "client_id"@);
            let cs = obj_find(m, "client_secret"@);
            let sc = obj_find(m, "scope"@);
            if (cid is Some && !(cid->0 is Text)) || (cs is Some && !(cs->0 is Text)) || (
            sc is Some && !(sc->0 is Text)) {
                None
            } else {
                Some(
                    Some(
                        OAuthV {
                            client_id: match cid {
                                Some(v) => Some(text_of(v)),
                                None => None,
                            },
                            client_secret: match cs {
                                Some(v) => Some(resolve_native(text_of(v), kind)),
                                None => None,
                            },
                            scope: match sc {
                                Some(v) => Some(text_of(v)),
                                None => None,
                            },
                        },
                    ),
                )
            }
        },
        Some(_) => None,
    }
}

/// Parses the optional `oauth` block of a server entry.
pub fn parse_oauth(obj: &Vec<(String, JsonValue)>, config: &ParseConfig) -> (r: Result<
    Option<OAuthConfig>,
    McpError,
>)
    ensures
        match oauth_of(obj_view(obj@), config.harness_kind) {
            Some(None) => r matches Ok(o) && o is None,
            Some(Some(ov)) => r matches Ok(o) && o matches Some(oc) && oc@ == ov,
            None => r matches Err(e) && e.harness@ == config.harness_name@ && e.reason@
                == oauth_reason(obj_view(obj@)),
        },
{
    let found = crate::json::obj_get(obj, "oauth");
    match found {
        None => Ok(None),
        Some(JsonValue::Object(entries)) => {
            let client_id = match crate::json::obj_get(entries, "client_id") {
                None => None,
                Some(JsonValue::Text(s)) => Some(s.clone()),
                Some(_) => {
                    let reason = String::from_str("oauth.client_id must be a string");
                    return Err(McpError::new(config.harness_name, reason));
                },
            };
            let client_secret = match crate::json::obj_get(entries, "client_secret") {
                None => None,
                Some(JsonValue::Text(s)) => Some(
                    EnvValue::from_native(s.as_str(), config.harness_kind),
                ),
                Some(_) => {
                    let reason = String::from_str("oauth.client_secret must be a string");
                    return Err(McpError::new(config.harness_name, reason));
                },
            };
            let scope = match crate::json::obj_get(entries, "scope") {
                None => None,
                Some(JsonValue::Text(s)) => Some(s.clone()),
                Some(_) => {
                    let reason = String::from_str("oauth.scope must be a string");
                    return Err(McpError::new(config.harness_name, reason));
                },
            };
            Ok(Some(OAuthConfig { client_id, client_secret, scope }))
        },
        Some(_) => {
            let reason = String::from_str("'oauth' must be an object");
            Err(McpError::new(config.harness_name, reason))
        },
    }
}

/// The reason the stdio builder reports when it fails, following its
/// parse order: command, arguments, environment, timeout.
pub open spec fn stdio_reason(obj: Seq<(Seq<char>, JsonV)>, cfg: CfgV) -> Seq<char> {
    match obj_find(obj, cfg.command_field) {
        Some(JsonV::Text(_)) => if string_array_of(obj, cfg.args_field) is None {
            string_array_reason(obj, cfg.args_field)
        } else if env_map_of(obj, cfg.env_field, cfg.harness_kind, cfg.plain_env_values)
            is None {
            env_map_reason(obj, cfg.env_field)
        } else {
            timeout_reason(obj, cfg.timeout_field)
        },
        _ => "Stdio server missing '"@ + cfg.command_field + "' field"@,
    }
}

/// What the stdio builder yields for `obj` under a mapping: the command
/// field must hold a string; arguments, environment, timeout and enabled
/// flag come from the generic field parsers; the working directory is
/// never taken from the document.
pub open spec fn stdio_of(obj: Seq<(Seq<char>, JsonV)>, cfg: CfgV) -> Option<StdioV> {
    match obj_find(obj, cfg.command_field) {
        Some(JsonV::Text(cmd)) => match string_array_of(obj, cfg.args_field) {
            Some(args) => match env_map_of(obj, cfg.env_field, cfg.harness_kind, cfg.plain_env_values) {
                Some(env) => match timeout_of(obj, cfg.timeout_field, cfg.timeout_in_seconds) {
                    Some(timeout_ms) => Some(
                        StdioV {
                            command: cmd,
                            args,
                            env,
                            cwd: None,
                            enabled: enabled_of(obj, cfg.disabled_field),
                            timeout_ms,
                        },
                    ),
                    None => None,
                },
                None => None,
            },
            None => None,
        },
        _ => None,
    }
}

/// Builds a stdio server descriptor from `obj` under the given mapping.
pub fn parse_stdio_server(obj: &Vec<(String, JsonValue)>, config: &ParseConfig) -> (r: Result<
    McpServer,
    McpError,
>)
    ensures
        match stdio_of(obj_view(obj@), config@) {
            Some(sv) => r matches Ok(s) && s@ == McpV::Stdio(sv),
            None => r matches Err(e) && e.harness@ == config.harness_name@ && e.reason@
                == stdio_reason(obj_view(obj@), config@),
        },
{
    let command = match crate::json::obj_get(obj, config.command_field) {
        Some(JsonValue::Text(s)) => s.clone(),
        _ => {
            let mut reason = String::from_str("Stdio server missing '");
            reason.append(config.command_field);
            reason.append("' field");
            return Err(McpError::new(config.harness_name, reason));
        },
    };
    let args = match parse_string_array(obj, config.args_field, config.harness_name) {
        Ok(a) => a,
        Err(e) => {
            return Err(e);
        },
    };
    let env = match parse_env_map(
        obj,
        config.env_field,
        config.harness_name,
        config.harness_kind,
        config.plain_env_values,
    ) {
        Ok(m) => m,
        Err(e) => {
            return Err(e);
        },
    };
    let timeout_ms = match parse_timeout(
        obj,
        config.timeout_field,
        config.timeout_in_seconds,
        config.harness_name,
    ) {
        Ok(t) => t,
        Err(e) => {
            return Err(e);
        },
    };
    let enabled = parse_enabled(obj, config.disabled_field);
    Ok(
        McpServer::Stdio(
            StdioMcpServer { command, args, env, cwd: None, enabled, timeout_ms },
        ),
    )
}

/// The reason the SSE builder reports when it fails, following its
/// parse order: URL, headers, timeout.
pub open spec fn sse_reason(obj: Seq<(Seq<char>, JsonV)>, cfg: CfgV) -> Seq<char> {
    match obj_find(obj, cfg.url_field) {
        Some(JsonV::Text(_)) => if env_map_of(
            obj,
            "headers"@,
            cfg.harness_kind,
            cfg.plain_env_values,
        ) is None {
            env_map_reason(obj, "headers"@)
        } else {
            timeout_reason(obj, cfg.timeout_field)
        },
        _ => "SSE server missing '"@ + cfg.url_field + "' field"@,
    }
}

/// What the SSE builder yields for `obj` under a mapping: the URL field
/// must hold a string; headers come from the fixed `headers` field.
pub open spec fn sse_of(obj: Seq<(Seq<char>, JsonV)>, cfg: CfgV) -> Option<SseV> {
    match obj_find(obj, cfg.url_field) {
        Some(JsonV::Text(url)) => match env_map_of(obj, "headers"@, cfg.harness_kind, cfg.plain_env_values) {
            Some(headers) => match timeout_of(obj, cfg.timeout_field, cfg.timeout_in_seconds) {
                Some(timeout_ms) => Some(
                    SseV {
                        url,
                        headers,
                        enabled: enabled_of(obj, cfg.disabled_field),
                        timeout_ms,
                    },
                ),
                None => None,
            },
            None => None,
        },
        _ => None,
    }
}

/// Builds an SSE server descriptor from `obj` under the given mapping.
pub fn parse_sse_server(obj: &Vec<(String, JsonValue)>, config: &ParseConfig) -> (r: Result<
    McpServer,
    McpError,
>)
    ensures
        match sse_of(obj_view(obj@), config@) {
            Some(sv) => r matches Ok(s) && s@ == McpV::Sse(sv),
            None => r matches Err(e) && e.harness@ == config.harness_name@ && e.reason@
                == sse_reason(obj_view(obj@), config@),
        },
{
    let url = match crate::json::obj_get(obj, config.url_field) {
        Some(JsonValue::Text(s)) => s.clone(),
        _ => {
            let mut reason = String::from_str("SSE server missing '");
            reason.append(config.url_field);
            reason.append("' field");
            return Err(McpError::new(config.harness_name, reason));
        },
    };
    let headers = match parse_env_map(
        obj,
        "headers",
        config.harness_name,
        config.harness_kind,
        config.plain_env_values,
    ) {
        Ok(m) => m,
        Err(e) => {
            return Err(e);
        },
    };
    let timeout_ms = match parse_timeout(
        obj,
        config.timeout_field,
        config.timeout_in_seconds,
        config.harness_name,
    ) {
        Ok(t) => t,
        Err(e) => {
            return Err(e);
        },
    };
    let enabled = parse_enabled(obj, config.disabled_field);
    Ok(McpServer::Sse(SseMcpServer { url, headers, enabled, timeout_ms }))
}

/// The reason the HTTP builder reports when it fails, following its
/// parse order: URL, headers, OAuth block, timeout.
pub open spec fn http_reason(obj: Seq<(Seq<char>, JsonV)>, cfg: CfgV) -> Seq<char> {
    match obj_find(obj, cfg.url_field) {
        Some(JsonV::Text(_)) => if env_map_of(
            obj,
            "headers"@,
            cfg.harness_kind,
            cfg.plain_env_values,
        ) is None {
            env_map_reason(obj, "headers"@)
        } else if oauth_of(obj, cfg.harness_kind) is None {
            oauth_reason(obj)
        } else {
            timeout_reason(obj, cfg.timeout_field)
        },
        _ => "HTTP server missing '"@ + cfg.url_field + "' field"@,
    }
}

/// What the generic HTTP builder yields for `obj` under a mapping: like
/// the SSE builder, with the OAuth parser's result attached.
pub open spec fn http_of(obj: Seq<(Seq<char>, JsonV)>, cfg: CfgV) -> Option<HttpV> {
    match obj_find(obj, cfg.url_field) {
        Some(JsonV::Text(url)) => match env_map_of(obj, "headers"@, cfg.harness_kind, cfg.plain_env_values) {
            Some(headers) => match oauth_of(obj, cfg.harness_kind) {
                Some(oauth) => match timeout_of(obj, cfg.timeout_field, cfg.timeout_in_seconds) {
                    Some(timeout_ms) => Some(
                        HttpV {
                            url,
                            headers,
                            oauth,
                            enabled: enabled_of(obj, cfg.disabled_field),
                            timeout_ms,
                        },
                    ),
                    None => None,
                },
                None => None,
            },
            None => None,
        },
        _ => None,
    }
}

/// Builds an HTTP server descriptor from `obj` under the given mapping.
pub fn parse_http_server(obj: &Vec<(String, JsonValue)>, config: &ParseConfig) -> (r: Result<
    McpServer,
    McpError,
>)
    ensures
        match http_of(obj_view(obj@), config@) {
            Some(sv) => r matches Ok(s) && s@ == McpV::Http(sv),
            None => r matches Err(e) && e.harness@ == config.harness_name@ && e.reason@
                == http_reason(obj_view(obj@), config@),
        },
{
    let url = match crate::json::obj_get(obj, config.url_field) {
        Some(JsonValue::Text(s)) => s.clone(),
        _ => {
            let mut reason = String::from_str("HTTP server missing '");
            reason.append(config.url_field);
            reason.append("' field");
            return Err(McpError::new(config.harness_name, reason));
        },
    };
    let headers = match parse_env_map(
        obj,
        "headers",
        config.harness_name,
        config.harness_kind,
        config.plain_env_values,
    ) {
        Ok(m) => m,
        Err(e) => {
            return Err(e);
        },
    };
    let oauth = match parse_oauth(obj, config) {
        Ok(o) => o,
        Err(e) => {
            return Err(e);
        },
    };
    let timeout_ms = match parse_timeout(
        obj,
        config.timeout_field,
        config.timeout_in_seconds,
        config.harness_name,
    ) {
        Ok(t) => t,
        Err(e) => {
            return Err(e);
        },
    };
    let enabled = parse_enabled(obj, config.disabled_field);
    Ok(McpServer::Http(HttpMcpServer { url, headers, oauth, enabled, timeout_ms }))
}

/// Which discriminator values a harness uses to select the transport.
#[derive(Debug, Clone, Copy, PartialEq, Eq, Structural)]
pub enum DiscriminatorScheme {
    /// `type` is one of `stdio`, `sse`, `streamable_http`.
    StdioSseHttp,
    /// `type` is `local` or `remote`.
    LocalRemote,
}

/// What the server parser yields for one raw value: the value must be an
/// object carrying a string `type` discriminator, whose value selects the
/// builder under the harness's scheme; anything else is an error.
pub open spec fn server_of(v: JsonV, cfg: CfgV, scheme: DiscriminatorScheme) -> Option<McpV> {
    match v {
        JsonV::Obj(m) => match obj_find(m, "type"@) {
            Some(JsonV::Text(t)) => match scheme {
                DiscriminatorScheme::StdioSseHttp => if t == "stdio"@ {
                    match stdio_of(m, cfg) {
                        Some(s) => Some(McpV::Stdio(s)),
                        None => None,
                    }
                } else if t == "sse"@ {
                    match sse_of(m, cfg) {
                        Some(s) => Some(McpV::Sse(s)),
                        None => None,
                    }
                } else if t == "streamable_http"@ {
                    match http_of(m, cfg) {
                        Some(s) => Some(McpV::Http(s)),
                        None => None,
                    }
                } else {
                    None
                },
                DiscriminatorScheme::LocalRemote => if t == "local"@ {
                    match crate::opencode::local_of(m, cfg) {
                        Some(s) => Some(McpV::Stdio(s)),
                        None => None,
                    }
                } else if t == "remote"@ {
                    match crate::opencode::remote_of(m, cfg) {
                        Some(s) => Some(McpV::Http(s)),
                        None => None,
                    }
                } else {
                    None
                },
            },
            _ => None,
        },
        _ => None,
    }
}

/// The reason the server parser reports when it fails: a non-object
/// value, a missing or non-string discriminator, an unrecognized
/// discriminator value (named), or the selected builder's reason.
pub open spec fn server_reason(v: JsonV, cfg: CfgV, scheme: DiscriminatorScheme) -> Seq<char> {
    match v {
        JsonV::Obj(m) => match obj_find(m, "type"@) {
            Some(JsonV::Text(t)) => match scheme {
                DiscriminatorScheme::StdioSseHttp => if t == "stdio"@ {
                    stdio_reason(m, cfg)
                } else if t == "sse"@ {
                    sse_reason(m, cfg)
                } else if t == "streamable_http"@ {
                    http_reason(m, cfg)
                } else {
                    "Unknown server type: "@ + t
                },
                DiscriminatorScheme::LocalRemote => if t == "local"@ {
                    crate::opencode::local_reason(m, cfg)
                } else if t == "remote"@ {
                    crate::opencode::remote_reason(m, cfg)
                } else {
                    "Unknown server type: "@ + t
                },
            },
            _ => "Missing 'type' field"@,
        },
        _ => "Server config must be an object"@,
    }
}

/// Parses one MCP server from one raw JSON value, dispatching on the
/// harness's transport discriminator.
pub fn parse_mcp_server(value: &JsonValue, config: &ParseConfig, scheme: DiscriminatorScheme) -> (r:
    Result<McpServer, McpError>)
    ensures
        match server_of(value@, config@, scheme) {
            Some(sv) => r matches Ok(s) && s@ == sv,
            None => r matches Err(e) && e.harness@ == config.harness_name@ && e.reason@
                == server_reason(value@, config@, scheme),
        },
{
    let entries = match value {
        JsonValue::Object(entries) => entries,
        _ => {
            let reason = String::from_str("Server config must be an object");
            return Err(McpError::new(config.harness_name, reason));
        },
    };
    let server_type = match crate::json::obj_get(entries, "type") {
        Some(JsonValue::Text(t)) => t,
        _ => {
            let reason = String::from_str("Missing 'type' field");
            return Err(McpError::new(config.harness_name, reason));
        },
    };
    match scheme {
        DiscriminatorScheme::StdioSseHttp => {
            if crate::json::str_eq(server_type.as_str(), "stdio") {
                parse_stdio_server(entries, config)
            } else if crate::json::str_eq(server_type.as_str(), "sse") {
                parse_sse_server(entries, config)
            } else if crate::json::str_eq(server_type.as_str(), "streamable_http") {
                parse_http_server(entries, config)
            } else {
                let mut reason = String::from_str("Unknown server type: ");
                reason.append(server_type.as_str());
                Err(McpError::new(config.harness_name, reason))
            }
        },
        DiscriminatorScheme::LocalRemote => {
            if crate::json::str_eq(server_type.as_str(), "local") {
                crate::opencode::parse_local_server(entries, config)
            } else if crate::json::str_eq(server_type.as_str(), "remote") {
                crate::opencode::parse_remote_server(entries, config)
            } else {
                let mut reason = String::from_str("Unknown server type: ");
                reason.append(server_type.as_str());
                Err(McpError::new(config.harness_name, reason))
            }
        },
    }
}

/// Whether every entry of a server collection parses under the mapping.
pub open spec fn all_entries_parse(
    entries: Seq<(Seq<char>, JsonV)>,
    cfg: CfgV,
    scheme: DiscriminatorScheme,
) -> bool {
    forall|i: int|
        0 <= i < entries.len() ==> server_of((#[trigger] entries[i]).1, cfg, scheme) is Some
}

/// The parsed servers of a collection, by name, in document order.
pub open spec fn parsed_entries(
    entries: Seq<(Seq<char>, JsonV)>,
    cfg: CfgV,
    scheme: DiscriminatorScheme,
) -> Seq<(Seq<char>, McpV)> {
    Seq::new(entries.len(), |i: int| (entries[i].0, server_of(entries[i].1, cfg, scheme)->0))
}

/// The first index whose entry does not parse under the mapping; the
/// collection's length when every entry parses.
pub open spec fn first_unparsed(
    entries: Seq<(Seq<char>, JsonV)>,
    cfg: CfgV,
    scheme: DiscriminatorScheme,
) -> int
    decreases entries.len(),
{
    if entries.len() == 0 {
        0
    } else if server_of(entries[0].1, cfg, scheme) is None {
        0
    } else {
        1 + first_unparsed(entries.drop_first(), cfg, scheme)
    }
}

/// The index after a run of parsing entries, ending at one that does
/// not parse, is the first unparsed index.
proof fn lemma_first_unparsed_at(
    entries: Seq<(Seq<char>, JsonV)>,
    cfg: CfgV,
    scheme: DiscriminatorScheme,
    i: int,
)
    requires
        0 <= i < entries.len(),
        forall|k: int| 0 <= k < i ==> server_of((#[trigger] entries[k]).1, cfg, scheme) is Some,
        server_of(entries[i].1, cfg, scheme) is None,
    ensures
        first_unparsed(entries, cfg, scheme) == i,
    decreases i,
{
    if i == 0 {
        assert(first_unparsed(entries, cfg, scheme) == 0);
    } else {
        assert(server_of(entries[0].1, cfg, scheme) is Some);
        assert forall|k: int|
            0 <= k < i - 1 implies server_of(
            (#[trigger] entries.drop_first()[k]).1,
            cfg,
            scheme,
        ) is Some by {
            assert(entries.drop_first()[k] == entries[k + 1]);
        }
        assert(entries.drop_first()[i - 1] == entries[i]);
        lemma_first_unparsed_at(entries.drop_first(), cfg, scheme, i - 1);
    }
}

/// The reason the collection parser reports when it fails: a missing
/// or non-object root key is named; a failing entry is named, with the
/// server parser's reason for it wrapped behind its name.
pub open spec fn servers_reason(
    doc: JsonV,
    root_key: Seq<char>,
    cfg: CfgV,
    scheme: DiscriminatorScheme,
) -> Seq<char> {
    match doc {
        JsonV::Obj(top) => match obj_find(top, root_key) {
            Some(JsonV::Obj(entries)) => {
                let i = first_unparsed(entries, cfg, scheme);
                "server '"@ + entries[i].0 + "': "@ + server_reason(entries[i].1, cfg, scheme)
            },
            _ => "Missing '"@ + root_key + "' key"@,
        },
        _ => "Missing '"@ + root_key + "' key"@,
    }
}

/// What parsing a whole document's server collection yields: the document
/// must be an object holding an object under `root_key` (a missing or
/// non-object root key is an error at this layer), and every entry must
/// parse; one invalid entry fails the whole collection.
pub open spec fn servers_of(
    doc: JsonV,
    root_key: Seq<char>,
    cfg: CfgV,
    scheme: DiscriminatorScheme,
) -> Option<Seq<(Seq<char>, McpV)>> {
    match doc {
        JsonV::Obj(top) => match obj_find(top, root_key) {
            Some(JsonV::Obj(entries)) => if all_entries_parse(entries, cfg, scheme) {
                Some(parsed_entries(entries, cfg, scheme))
            } else {
                None
            },
            _ => None,
        },
        _ => None,
    }
}

/// Parses every server under `root_key` of a full configuration
/// document. One invalid entry fails the whole call, naming that entry.
pub fn parse_servers_from_key(
    config_doc: &JsonValue,
    root_key: &str,
    parse_config: &ParseConfig,
    scheme: DiscriminatorScheme,
) -> (r: Result<Vec<(String, McpServer)>, McpError>)
    ensures
        match servers_of(config_doc@, root_key@, parse_config@, scheme) {
            Some(ss) => r matches Ok(v) && v.deep_view() == ss,
            None => r matches Err(e) && e.harness@ == parse_config.harness_name@ && e.reason@
                == servers_reason(config_doc@, root_key@, parse_config@, scheme),
        },
{
    let top = match config_doc {
        JsonValue::Object(top) => top,
        _ => {
            let mut reason = String::from_str("Missing '");
            reason.append(root_key);
            reason.append("' key");
            return Err(McpError::new(parse_config.harness_name, reason));
        },
    };
    let entries = match crate::json::obj_get(top, root_key) {
        Some(JsonValue::Object(entries)) => entries,
        _ => {
            let mut reason = String::from_str("Missing '");
            reason.append(root_key);
            reason.append("' key");
            return Err(McpError::new(parse_config.harness_name, reason));
        },
    };
    let ghost ev = obj_view(entries@);
    proof {
        crate::json::lemma_obj_view_len(entries@);
    }
    let mut out: Vec<(String, McpServer)> = Vec::new();
    let mut i: usize = 0;
    while i < entries.len()
        invariant
            i <= entries@.len(),
            ev == obj_view(entries@),
            ev.len() == entries@.len(),
            config_doc@ matches JsonV::Obj(top) && obj_find(top, root_key@) == Some(
                JsonV::Obj(ev),
            ),
            out@.len() == i,
            forall|k: int|
                0 <= k < i ==> server_of((#[trigger] ev[k]).1, parse_config@, scheme) is Some,
            forall|k: int|
                0 <= k < i ==> (#[trigger] out@[k]).0@ == ev[k].0 && out@[k].1@ == server_of(
                    ev[k].1,
                    parse_config@,
                    scheme,
                )->0,
        decreases entries@.len() - i,
    {
        proof {
            crate::json::lemma_obj_view_index(entries@, i as int);
        }
        let server = match parse_mcp_server(&entries[i].1, parse_config, scheme) {
            Ok(s) => s,
            Err(e) => {
                proof {
                    assert(!all_entries_parse(ev, parse_config@, scheme));
                    lemma_first_unparsed_at(ev, parse_config@, scheme, i as int);
                }
                let mut reason = String::from_str("server '");
                reason.append(entries[i].0.as_str());
                reason.append("': ");
                reason.append(e.reason.as_str());
                assert(reason@ == servers_reason(config_doc@, root_key@, parse_config@, scheme));
                return Err(McpError::new(parse_config.harness_name, reason));
            },
        };
        out.push((entries[i].0.clone(), server));
        i = i + 1;
    }
    proof {
        assert(all_entries_parse(ev, parse_config@, scheme));
        assert forall|k: int|
            0 <= k < ev.len() implies out.deep_view()[k] == parsed_entries(
            ev,
            parse_config@,
            scheme,
        )[k] by {}
        assert(out.deep_view() =~= parsed_entries(ev, parse_config@, scheme));
    }
    Ok(out)
}

/// A server object that omits the enabled field (or, under the inverted
/// convention, the disabled field) parses as enabled: omission means
/// "active", whatever the harness.
pub proof fn lemma_enabled_by_default(
    obj: Seq<(Seq<char>, JsonV)>,
    disabled_field: Option<Seq<char>>,
)
    requires
        match disabled_field {
            Some(f) => obj_find(obj, f) is None,
            None => obj_find(obj, "enabled"@) is None,
        },
    ensures
        enabled_of(obj, disabled_field),
{
}

/// For a harness whose timeout is counted in seconds, `timeout = N`
/// parses to `N * 1000` milliseconds; a value whose scaling would not
/// fit a `u64` is an error, never a wrapped-around number.
pub proof fn lemma_timeout_seconds_scaled(obj: Seq<(Seq<char>, JsonV)>, field: Seq<char>, s: Seq<char>)
    requires
        obj_find(obj, field) == Some(JsonV::Num(s)),
        is_dec_digits(s),
        dec_val(s) <= u64::MAX,
    ensures
        dec_val(s) * 1000 <= u64::MAX ==> timeout_of(obj, field, true) == Some(
            Some((dec_val(s) * 1000) as u64),
        ),
        dec_val(s) * 1000 > u64::MAX ==> timeout_of(obj, field, true) is None,
{
}

} // verus!
