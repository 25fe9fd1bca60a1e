//! Reading, merging and writing MCP server collections inside a
//! harness's full configuration document.
//!
//! The document text is parsed by serde into a [`JsonValue`] model (YAML
//! for Goose, JSON with `//` comments stripped for OpenCode, plain JSON
//! otherwise). Locating the server collection under the harness's root
//! key, filtering it to true MCP entries, and merging updates back are
//! verified on that model; only the text-to-value boundary is trusted.

use vstd::prelude::*;
use vstd::string::StringSliceAdditionalSpecFns;
use vstd::string::StrSliceExecFns;

use crate::error::{McpConfigError, McpConfigErrorV};
use crate::harness::HarnessKind;
use crate::json::{
    keys_unique, obj_find, obj_view, JsonV, JsonValue,
};

verus! {

/// The root key under which the given harness keeps its MCP servers.
pub open spec fn mcp_key(kind: HarnessKind) -> Seq<char> {
    match kind {
        HarnessKind::ClaudeCode => "mcpServers"@,
        HarnessKind::OpenCode => "mcp"@,
        HarnessKind::Goose => "extensions"@,
        HarnessKind::AmpCode => "amp.mcpServers"@,
        _ => "mcpServers"@,
    }
}

/// The root key under which the given harness keeps its MCP servers.
pub fn get_mcp_key(kind: HarnessKind) -> (r: &'static str)
    ensures
        r@ == mcp_key(kind),
{
    match kind {
        HarnessKind::ClaudeCode => "mcpServers",
        HarnessKind::OpenCode => "mcp",
        HarnessKind::Goose => "extensions",
        HarnessKind::AmpCode => "amp.mcpServers",
        _ => "mcpServers",
    }
}

/// A collection of raw server entries, by name, as found in one
/// document: values are kept untyped for a lossless round trip.
#[derive(Debug)]
pub struct RawServerCollection {
    entries: Vec<(String, JsonValue)>,
}

impl View for RawServerCollection {
    type V = Seq<(Seq<char>, JsonV)>;

    closed spec fn view(&self) -> Seq<(Seq<char>, JsonV)> {
        obj_view(self.entries@)
    }
}

/// `entries` with `(key, value)` upserted: the first entry under `key`
/// is replaced in place, or the entry is appended when the key is new.
pub open spec fn upsert(
    entries: Seq<(Seq<char>, JsonV)>,
    key: Seq<char>,
    value: JsonV,
) -> Seq<(Seq<char>, JsonV)>
    decreases entries.len(),
{
    if entries.len() == 0 {
        seq![(key, value)]
    } else if entries[0].0 == key {
        seq![(key, value)] + entries.drop_first()
    } else {
        seq![entries[0]] + upsert(entries.drop_first(), key, value)
    }
}

/// After an upsert, the upserted key holds the new value.
pub proof fn lemma_upsert_finds(
    entries: Seq<(Seq<char>, JsonV)>,
    key: Seq<char>,
    value: JsonV,
)
    ensures
        obj_find(upsert(entries, key, value), key) == Some(value),
    decreases entries.len(),
{
    if entries.len() == 0 {
        assert(upsert(entries, key, value) == seq![(key, value)]);
        assert(obj_find(seq![(key, value)], key) == Some(value));
    } else if entries[0].0 == key {
        let u = seq![(key, value)] + entries.drop_first();
        assert(upsert(entries, key, value) == u);
        assert(u[0] == (key, value));
        assert(obj_find(u, key) == Some(value));
    } else {
        let u = seq![entries[0]] + upsert(entries.drop_first(), key, value);
        assert(upsert(entries, key, value) == u);
        assert(u[0] == entries[0]);
        lemma_upsert_finds(entries.drop_first(), key, value);
        assert(u.drop_first() =~= upsert(entries.drop_first(), key, value));
        assert(obj_find(u, key) == obj_find(u.drop_first(), key));
    }
}

/// An upsert leaves every other key's binding unchanged.
pub proof fn lemma_upsert_other(
    entries: Seq<(Seq<char>, JsonV)>,
    key: Seq<char>,
    value: JsonV,
    other: Seq<char>,
)
    requires
        other != key,
    ensures
        obj_find(upsert(entries, key, value), other) == obj_find(entries, other),
    decreases entries.len(),
{
    if entries.len() == 0 {
        assert(upsert(entries, key, value) == seq![(key, value)]);
        assert(obj_find(seq![(key, value)], other) == obj_find(
            seq![(key, value)].drop_first(),
            other,
        ));
        assert(seq![(key, value)].drop_first() =~= Seq::<(Seq<char>, JsonV)>::empty());
    } else if entries[0].0 == key {
        let u = seq![(key, value)] + entries.drop_first();
        assert(upsert(entries, key, value) == u);
        assert(u[0] == (key, value));
        assert(u.drop_first() =~= entries.drop_first());
        assert(obj_find(u, other) == obj_find(entries.drop_first(), other));
        assert(obj_find(entries, other) == obj_find(entries.drop_first(), other));
    } else {
        let u = seq![entries[0]] + upsert(entries.drop_first(), key, value);
        assert(upsert(entries, key, value) == u);
        assert(u[0] == entries[0]);
        assert(u.drop_first() =~= upsert(entries.drop_first(), key, value));
        lemma_upsert_other(entries.drop_first(), key, value, other);
        if entries[0].0 == other {
            assert(obj_find(u, other) == Some(u[0].1));
            assert(obj_find(entries, other) == Some(entries[0].1));
        } else {
            assert(obj_find(u, other) == obj_find(u.drop_first(), other));
            assert(obj_find(entries, other) == obj_find(entries.drop_first(), other));
        }
    }
}

/// `section` with every entry of `servers` upserted, in order.
pub open spec fn merge_entries(
    section: Seq<(Seq<char>, JsonV)>,
    servers: Seq<(Seq<char>, JsonV)>,
) -> Seq<(Seq<char>, JsonV)>
    decreases servers.len(),
{
    if servers.len() == 0 {
        section
    } else {
        merge_entries(upsert(section, servers[0].0, servers[0].1), servers.drop_first())
    }
}

/// Whether a sequence of server names contains `name`.
pub open spec fn has_name(servers: Seq<(Seq<char>, JsonV)>, name: Seq<char>) -> bool {
    exists|i: int| 0 <= i < servers.len() && (#[trigger] servers[i]).0 == name
}

/// After a merge, a name not in `servers` keeps its old binding.
pub proof fn lemma_merge_other(
    section: Seq<(Seq<char>, JsonV)>,
    servers: Seq<(Seq<char>, JsonV)>,
    name: Seq<char>,
)
    requires
        !has_name(servers, name),
    ensures
        obj_find(merge_entries(section, servers), name) == obj_find(section, name),
    decreases servers.len(),
{
    if servers.len() > 0 {
        assert(merge_entries(section, servers) == merge_entries(
            upsert(section, servers[0].0, servers[0].1),
            servers.drop_first(),
        ));
        assert(servers[0].0 != name);
        lemma_upsert_other(section, servers[0].0, servers[0].1, name);
        assert(!has_name(servers.drop_first(), name)) by {
            assert forall|i: int|
                0 <= i < servers.drop_first().len() implies (#[trigger] servers.drop_first()[i]).0
                != name by {
                assert(servers.drop_first()[i] == servers[i + 1]);
            }
        }
        lemma_merge_other(upsert(section, servers[0].0, servers[0].1), servers.drop_first(), name);
    }
}

/// After a merge, each merged name holds its last value in `servers`.
pub proof fn lemma_merge_finds(
    section: Seq<(Seq<char>, JsonV)>,
    servers: Seq<(Seq<char>, JsonV)>,
    i: int,
)
    requires
        0 <= i < servers.len(),
        forall|j: int| i < j < servers.len() ==> (#[trigger] servers[j]).0 != servers[i].0,
    ensures
        obj_find(merge_entries(section, servers), servers[i].0) == Some(servers[i].1),
    decreases servers.len(),
{
    assert(merge_entries(section, servers) == merge_entries(
        upsert(section, servers[0].0, servers[0].1),
        servers.drop_first(),
    ));
    let section1 = upsert(section, servers[0].0, servers[0].1);
    if servers.len() == 1 {
        lemma_upsert_finds(section, servers[0].0, servers[0].1);
        assert(merge_entries(section1, servers.drop_first()) == section1);
    } else {
        if i == 0 {
            lemma_upsert_finds(section, servers[0].0, servers[0].1);
            assert(!has_name(servers.drop_first(), servers[0].0)) by {
                assert forall|k: int|
                    0 <= k < servers.drop_first().len() implies (#[trigger] servers.drop_first()[k]).0
                    != servers[0].0 by {
                    assert(servers.drop_first()[k] == servers[k + 1]);
                }
            }
            lemma_merge_other(section1, servers.drop_first(), servers[0].0);
        } else {
            assert(servers.drop_first()[i - 1] == servers[i]);
            assert forall|j: int|
                i - 1 < j < servers.drop_first().len() implies (#[trigger] servers.drop_first()[j]).0
                != servers.drop_first()[i - 1].0 by {
                assert(servers.drop_first()[j] == servers[j + 1]);
            }
            lemma_merge_finds(section1, servers.drop_first(), i - 1);
        }
    }
}

/// Whether a Goose extension entry is an MCP server: its `type` names
/// one of the known MCP transports. Built-in and unrecognized extensions
/// are not MCP servers.
pub open spec fn goose_is_mcp(v: JsonV) -> bool {
    match v {
        JsonV::Obj(m) => match obj_find(m, "type"@) {
            Some(JsonV::Text(t)) => t == "stdio"@ || t == "sse"@ || t == "http"@ || t
                == "streamable_http"@,
            _ => false,
        },
        _ => false,
    }
}

/// The entries whose value is an MCP server, in order.
pub open spec fn filter_mcp(entries: Seq<(Seq<char>, JsonV)>) -> Seq<(Seq<char>, JsonV)>
    decreases entries.len(),
{
    if entries.len() == 0 {
        Seq::empty()
    } else if goose_is_mcp(entries.last().1) {
        filter_mcp(entries.drop_last()).push(entries.last())
    } else {
        filter_mcp(entries.drop_last())
    }
}

/// What reading the server collection out of a parsed document yields:
/// the entries of the object under the harness's root key, filtered for
/// Goose to true MCP entries; an absent or non-object root key, or a
/// non-object document, yields an empty collection at this layer.
pub open spec fn extract_spec(kind: HarnessKind, doc: JsonV) -> Seq<(Seq<char>, JsonV)> {
    match doc {
        JsonV::Obj(top) => match obj_find(top, mcp_key(kind)) {
            Some(JsonV::Obj(entries)) => if kind == HarnessKind::Goose {
                filter_mcp(entries)
            } else {
                entries
            },
            _ => Seq::empty(),
        },
        _ => Seq::empty(),
    }
}

/// Whether a Goose extension entry is an MCP server.
fn is_goose_mcp_entry(v: &JsonValue) -> (r: bool)
    ensures
        r == goose_is_mcp(v@),
{
    match v {
        JsonValue::Object(m) => match crate::json::obj_get(m, "type") {
            Some(JsonValue::Text(t)) => crate::json::str_eq(t.as_str(), "stdio")
                || crate::json::str_eq(t.as_str(), "sse") || crate::json::str_eq(
                t.as_str(),
                "http",
            ) || crate::json::str_eq(t.as_str(), "streamable_http"),
            _ => false,
        },
        _ => false,
    }
}

impl RawServerCollection {
    /// An empty collection.
    pub fn new() -> (r: RawServerCollection)
        ensures
            r@ == Seq::<(Seq<char>, JsonV)>::empty(),
    {
        let r = RawServerCollection { entries: Vec::new() };
        proof {
            crate::json::lemma_obj_view_len(r.entries@);
            assert(r@ =~= Seq::<(Seq<char>, JsonV)>::empty());
        }
        r
    }

    /// The number of entries.
    pub fn len(&self) -> (r: usize)
        ensures
            r == self@.len(),
    {
        proof {
            crate::json::lemma_obj_view_len(self.entries@);
        }
        self.entries.len()
    }

    /// Whether the collection has no entries.
    pub fn is_empty(&self) -> (r: bool)
        ensures
            r == (self@.len() == 0),
    {
        proof {
            crate::json::lemma_obj_view_len(self.entries@);
        }
        self.entries.len() == 0
    }

    /// The value under `name`, if any.
    pub fn get<'a>(&'a self, name: &str) -> (r: Option<&'a JsonValue>)
        ensures
            match obj_find(self@, name@) {
                Some(v) => r is Some && r->0@ == v,
                None => r is None,
            },
    {
        crate::json::obj_get(&self.entries, name)
    }

    /// Whether an entry under `name` is present.
    pub fn contains_key(&self, name: &str) -> (r: bool)
        ensures
            r == (obj_find(self@, name@) is Some),
    {
        match self.get(name) {
            Some(_) => true,
            None => false,
        }
    }

    /// Inserts `value` under `name`, replacing any previous entry of
    /// that name in place.
    pub fn insert(&mut self, name: String, value: JsonValue)
        ensures
            final(self)@ == upsert(old(self)@, name@, value@),
    {
        upsert_entry(&mut self.entries, name, value);
    }
}

/// Upserts `(name, value)` into an entry list: the first entry under
/// `name` is replaced in place, or the entry is appended.
fn upsert_entry(entries: &mut Vec<(String, JsonValue)>, name: String, value: JsonValue)
    ensures
        obj_view(final(entries)@) == upsert(obj_view(old(entries)@), name@, value@),
{
    let ghost m0 = obj_view(entries@);
    let ghost nv = name@;
    let ghost vv = value@;
    proof {
        crate::json::lemma_obj_view_len(entries@);
    }
    let mut i: usize = 0;
    while i < entries.len()
        invariant
            i <= entries@.len(),
            m0 == obj_view(entries@),
            m0 == obj_view(old(entries)@),
            m0.len() == entries@.len(),
            nv == name@,
            vv == value@,
            forall|k: int| 0 <= k < i ==> (#[trigger] m0[k]).0 != nv,
        decreases entries@.len() - i,
    {
        proof {
            crate::json::lemma_obj_view_index(entries@, i as int);
        }
        if crate::json::str_eq(entries[i].0.as_str(), name.as_str()) {
            let ghost old_entries = entries@;
            entries.set(i, (name, value));
            proof {
                let m1 = obj_view(entries@);
                crate::json::lemma_obj_view_len(entries@);
                assert forall|k: int| 0 <= k < m0.len() && k != i implies m1[k] == m0[k] by {
                    crate::json::lemma_obj_view_index(entries@, k);
                    crate::json::lemma_obj_view_index(old_entries, k);
                }
                crate::json::lemma_obj_view_index(entries@, i as int);
                crate::json::lemma_obj_view_index(old_entries, i as int);
                assert(m1[i as int] == (nv, vv));
                assert(m0[i as int].0 == nv);
                lemma_upsert_at(m0, m1, i as int);
            }
            return ;
        }
        i = i + 1;
    }
    let ghost old_entries = entries@;
    entries.push((name, value));
    proof {
        let m1 = obj_view(entries@);
        crate::json::lemma_obj_view_len(entries@);
        assert forall|k: int| 0 <= k < m0.len() implies m1[k] == m0[k] by {
            crate::json::lemma_obj_view_index(entries@, k);
            crate::json::lemma_obj_view_index(old_entries, k);
        }
        crate::json::lemma_obj_view_index(entries@, m0.len() as int);
        assert(m1[m0.len() as int] == (nv, vv));
        lemma_upsert_append(m0, m1);
    }
}

/// An upsert that hits index `i` replaces exactly that entry.
proof fn lemma_upsert_at(m0: Seq<(Seq<char>, JsonV)>, m1: Seq<(Seq<char>, JsonV)>, i: int)
    requires
        0 <= i < m0.len(),
        m1.len() == m0.len(),
        forall|k: int| 0 <= k < m0.len() && k != i ==> m1[k] == m0[k],
        forall|k: int| 0 <= k < i ==> (#[trigger] m0[k]).0 != m1[i].0,
        m0[i].0 == m1[i].0,
    ensures
        m1 == upsert(m0, m1[i].0, m1[i].1),
    decreases i,
{
    if i == 0 {
        assert(upsert(m0, m1[0].0, m1[0].1) == seq![(m1[0].0, m1[0].1)] + m0.drop_first());
        assert(m1 =~= seq![(m1[0].0, m1[0].1)] + m0.drop_first());
    } else {
        assert(upsert(m0, m1[i].0, m1[i].1) == seq![m0[0]] + upsert(
            m0.drop_first(),
            m1[i].0,
            m1[i].1,
        ));
        assert(m1.drop_first()[i - 1] == m1[i]);
        assert forall|k: int| 0 <= k < i - 1 implies (#[trigger] m0.drop_first()[k]).0 != m1
            .drop_first()[i - 1].0 by {
            assert(m0.drop_first()[k] == m0[k + 1]);
        }
        assert forall|k: int|
            0 <= k < m0.drop_first().len() && k != i - 1 implies m1.drop_first()[k] == m0
            .drop_first()[k] by {
            assert(m0.drop_first()[k] == m0[k + 1]);
            assert(m1.drop_first()[k] == m1[k + 1]);
        }
        assert(m0.drop_first()[i - 1].0 == m1.drop_first()[i - 1].0);
        lemma_upsert_at(m0.drop_first(), m1.drop_first(), i - 1);
        assert(m1 =~= seq![m0[0]] + m1.drop_first());
    }
}

/// An upsert of a new name appends the entry.
proof fn lemma_upsert_append(m0: Seq<(Seq<char>, JsonV)>, m1: Seq<(Seq<char>, JsonV)>)
    requires
        m1.len() == m0.len() + 1,
        forall|k: int| 0 <= k < m0.len() ==> m1[k] == m0[k],
        forall|k: int| 0 <= k < m0.len() ==> (#[trigger] m0[k]).0 != m1[m0.len() as int].0,
    ensures
        m1 == upsert(m0, m1[m0.len() as int].0, m1[m0.len() as int].1),
    decreases m0.len(),
{
    let key = m1[m0.len() as int].0;
    let value = m1[m0.len() as int].1;
    if m0.len() == 0 {
        assert(upsert(m0, key, value) == seq![(key, value)]);
        assert(m1 =~= seq![(key, value)]);
    } else {
        assert(upsert(m0, key, value) == seq![m0[0]] + upsert(m0.drop_first(), key, value));
        assert(m1.drop_first()[m0.drop_first().len() as int] == m1[m0.len() as int]);
        assert forall|k: int| 0 <= k < m0.drop_first().len() implies m1.drop_first()[k] == m0
            .drop_first()[k] by {
            assert(m0.drop_first()[k] == m0[k + 1]);
            assert(m1.drop_first()[k] == m1[k + 1]);
        }
        assert forall|k: int|
            0 <= k < m0.drop_first().len() implies (#[trigger] m0.drop_first()[k]).0 != m1
            .drop_first()[m0.drop_first().len() as int].0 by {
            assert(m0.drop_first()[k] == m0[k + 1]);
        }
        lemma_upsert_append(m0.drop_first(), m1.drop_first());
        assert(m1 =~= seq![m0[0]] + m1.drop_first());
    }
}

/// What merging `servers` into a whole document yields: the document
/// root must be an object; the root key's section must be an object or
/// absent (created empty); each server entry is inserted or overwritten
/// by name, and everything else is untouched.
pub open spec fn merge_spec(
    doc: JsonV,
    kind: HarnessKind,
    servers: Seq<(Seq<char>, JsonV)>,
) -> Option<JsonV> {
    match doc {
        JsonV::Obj(top) => match obj_find(top, mcp_key(kind)) {
            Some(JsonV::Obj(section)) => Some(
                JsonV::Obj(upsert(top, mcp_key(kind), JsonV::Obj(merge_entries(section, servers)))),
            ),
            Some(_) => None,
            None => Some(
                JsonV::Obj(
                    upsert(top, mcp_key(kind), JsonV::Obj(merge_entries(Seq::empty(), servers))),
                ),
            ),
        },
        _ => None,
    }
}

/// Reads the server collection out of a parsed document: the object
/// under the harness's root key, filtered for Goose to entries whose
/// `type` is a known MCP transport. An absent or non-object root key
/// yields an empty collection.
pub fn extract_servers(kind: HarnessKind, doc: &JsonValue) -> (r: RawServerCollection)
    ensures
        r@ == extract_spec(kind, doc@),
{
    let top = match doc {
        JsonValue::Object(top) => top,
        _ => {
            return RawServerCollection::new();
        },
    };
    let m = match crate::json::obj_get(top, get_mcp_key(kind)) {
        Some(JsonValue::Object(m)) => m,
        _ => {
            return RawServerCollection::new();
        },
    };
    if matches!(kind, HarnessKind::Goose) {
        let ghost mv = obj_view(m@);
        proof {
            crate::json::lemma_obj_view_len(m@);
            assert(mv.subrange(0, 0) =~= Seq::<(Seq<char>, JsonV)>::empty());
            assert(filter_mcp(mv.subrange(0, 0)) == Seq::<(Seq<char>, JsonV)>::empty());
        }
        let mut out: Vec<(String, JsonValue)> = Vec::new();
        let mut i: usize = 0;
        while i < m.len()
            invariant
                i <= m@.len(),
                mv == obj_view(m@),
                mv.len() == m@.len(),
                obj_view(out@) == filter_mcp(mv.subrange(0, i as int)),
            decreases m@.len() - i,
        {
            let ghost out0 = obj_view(out@);
            proof {
                crate::json::lemma_obj_view_index(m@, i as int);
                assert(mv.subrange(0, i + 1).drop_last() =~= mv.subrange(0, i as int));
                assert(mv.subrange(0, i + 1).last() == mv[i as int]);
            }
            if is_goose_mcp_entry(&m[i].1) {
                let ghost old_out = out@;
                let name = m[i].0.clone();
                let val = m[i].1.deep_clone();
                out.push((name, val));
                proof {
                    let o1 = obj_view(out@);
                    crate::json::lemma_obj_view_len(out@);
                    crate::json::lemma_obj_view_len(old_out);
                    assert forall|k: int| 0 <= k < old_out.len() implies o1[k] == out0[k] by {
                        crate::json::lemma_obj_view_index(out@, k);
                        crate::json::lemma_obj_view_index(old_out, k);
                    }
                    crate::json::lemma_obj_view_index(out@, old_out.len() as int);
                    assert(o1 =~= out0.push(mv[i as int]));
                    assert(filter_mcp(mv.subrange(0, i + 1)) == filter_mcp(
                        mv.subrange(0, i as int),
                    ).push(mv.subrange(0, i + 1).last()));
                }
            } else {
                proof {
                    assert(filter_mcp(mv.subrange(0, i + 1)) == filter_mcp(
                        mv.subrange(0, i as int),
                    ));
                }
            }
            i = i + 1;
        }
        proof {
            assert(mv.subrange(0, i as int) =~= mv);
        }
        RawServerCollection { entries: out }
    } else {
        RawServerCollection { entries: crate::json::clone_entries(m) }
    }
}

/// The message a rejected merge reports: the document root, or the
/// harness's root-key section, is not an object.
pub open spec fn merge_reason(doc: JsonV, kind: HarnessKind) -> Seq<char>
    recommends
        merge_spec(doc, kind, Seq::empty()) is None,
{
    if doc is Obj {
        mcp_key(kind) + " section is not an object"@
    } else {
        "Config root is not an object"@
    }
}

/// Merges `servers` into a parsed document: the root must be an object;
/// the harness's root-key section must be an object or absent (created
/// empty); each given entry is inserted or overwritten by name, and
/// unrelated entries and top-level fields are left untouched.
pub fn merge_servers(doc: &JsonValue, kind: HarnessKind, servers: &RawServerCollection) -> (r:
    Result<JsonValue, McpConfigError>)
    ensures
        match merge_spec(doc@, kind, servers@) {
            Some(d) => r matches Ok(v) && v@ == d,
            None => r matches Err(e) && e@ == McpConfigErrorV::Write(merge_reason(doc@, kind)),
        },
{
    let key = get_mcp_key(kind);
    let top = match doc {
        JsonValue::Object(top) => top,
        _ => {
            return Err(
                McpConfigError::WriteError(String::from_str("Config root is not an object")),
            );
        },
    };
    let mut section: Vec<(String, JsonValue)> = match crate::json::obj_get(top, key) {
        None => Vec::new(),
        Some(JsonValue::Object(m)) => crate::json::clone_entries(m),
        Some(_) => {
            let mut reason = String::from_str(key);
            reason.append(" section is not an object");
            return Err(McpConfigError::WriteError(reason));
        },
    };
    let ghost sec0 = obj_view(section@);
    let ghost sv = servers@;
    proof {
        crate::json::lemma_obj_view_len(servers.entries@);
        assert(sv.skip(0) =~= sv);
    }
    let mut j: usize = 0;
    while j < servers.entries.len()
        invariant
            j <= servers.entries@.len(),
            sv == servers@,
            sv.len() == servers.entries@.len(),
            merge_entries(sec0, sv) == merge_entries(obj_view(section@), sv.skip(j as int)),
        decreases servers.entries@.len() - j,
    {
        proof {
            crate::json::lemma_obj_view_index(servers.entries@, j as int);
            assert(sv.skip(j as int)[0] == sv[j as int]);
            assert(sv.skip(j as int).drop_first() =~= sv.skip(j + 1));
            assert(merge_entries(obj_view(section@), sv.skip(j as int)) == merge_entries(
                upsert(obj_view(section@), sv[j as int].0, sv[j as int].1),
                sv.skip(j + 1),
            ));
        }
        let name = servers.entries[j].0.clone();
        let value = servers.entries[j].1.deep_clone();
        upsert_entry(&mut section, name, value);
        j = j + 1;
    }
    proof {
        assert(sv.skip(j as int).len() == 0);
        assert(merge_entries(obj_view(section@), sv.skip(j as int)) == obj_view(section@));
    }
    let mut new_top = crate::json::clone_entries(top);
    upsert_entry(&mut new_top, String::from_str(key), JsonValue::Object(section));
    Ok(JsonValue::Object(new_top))
}

/// Declares serde_json's document value type, held only across the
/// trusted parse/serialize boundary.
#[verifier::external_type_specification]
#[verifier::external_body]
pub struct ExJsonDocument(serde_json::Value);

/// Declares serde_yaml's document value type, held only across the
/// trusted parse/serialize boundary.
#[verifier::external_type_specification]
#[verifier::external_body]
pub struct ExYamlDocument(serde_yaml::Value);

/// What parsing bytes as one JSON document yields: the crate's model of
/// the document, or nothing when the bytes are not JSON. The result is a
/// function of the bytes alone.
pub uninterp spec fn json_doc_of(bytes: Seq<u8>) -> Option<JsonV>;

/// Relies on serde_json::from_slice, with the conversion below, to parse
/// JSON bytes into the crate's model. serde_json parses deterministically
/// from the bytes alone; malformed bytes are an error carrying the
/// parser's message. A parsed document is well-formed, because a
/// serde_json object is a map, whose keys are unique.
#[verifier::external_body]
fn parse_json_document(bytes: &[u8]) -> (r: Result<JsonValue, McpConfigError>)
    ensures
        match json_doc_of(bytes@) {
            Some(d) => r matches Ok(v) && v@ == d && crate::json::jv_wf(d),
            None => r matches Err(e) && e@ is JsonParse,
        },
{
    match serde_json::from_slice::<serde_json::Value>(bytes) {
        Ok(v) => Ok(value_to_model(&v)),
        Err(e) => Err(McpConfigError::JsonParseError(e.to_string())),
    }
}

/// What parsing text as one YAML document yields, carried through the
/// JSON value space: the crate's model of the document, or nothing when
/// the text is not YAML or holds YAML content JSON cannot carry (such as
/// a non-string mapping key). The result is a function of the text alone.
pub uninterp spec fn yaml_doc_of(text: Seq<char>) -> Option<JsonV>;

/// Relies on serde_yaml::from_str and serde_json::to_value, with the
/// conversion below, to parse YAML text into the crate's model. Both
/// parse deterministically from the text alone; a YAML syntax error
/// carries the YAML parser's message, content JSON cannot carry the
/// converter's. A parsed document is well-formed, as above.
#[verifier::external_body]
fn parse_yaml_document(text: &str) -> (r: Result<JsonValue, McpConfigError>)
    ensures
        match yaml_doc_of(text@) {
            Some(d) => r matches Ok(v) && v@ == d && crate::json::jv_wf(d),
            None => (r matches Err(e) && (e@ is YamlParse || e@ is JsonParse)),
        },
{
    let yaml: serde_yaml::Value = match serde_yaml::from_str(text) {
        Ok(y) => y,
        Err(e) => return Err(McpConfigError::YamlParseError(e.to_string())),
    };
    match serde_json::to_value(yaml) {
        Ok(v) => Ok(value_to_model(&v)),
        Err(e) => Err(McpConfigError::JsonParseError(e.to_string())),
    }
}

/// What rendering a document model as pretty-printed JSON yields. The
/// result is a function of the model alone.
pub uninterp spec fn json_text_of(doc: JsonV) -> Option<Seq<char>>;

/// Relies on serde_json::to_string_pretty, with the conversion below, to
/// render a document model as pretty-printed JSON text. The rendering
/// depends on the model alone and cannot fail: a document value
/// serializes infallibly (its map keys are strings, and writing into a
/// string buffer reports no error).
#[verifier::external_body]
fn render_json_document(doc: &JsonValue) -> (r: Result<String, McpConfigError>)
    ensures
        r is Ok,
        r matches Ok(s) ==> json_text_of(doc@) == Some(s@),
{
    match serde_json::to_string_pretty(&model_to_value(doc)) {
        Ok(s) => Ok(s),
        Err(e) => Err(McpConfigError::JsonParseError(e.to_string())),
    }
}

/// What rendering a document model as YAML yields. The result is a
/// function of the model alone.
pub uninterp spec fn yaml_text_of(doc: JsonV) -> Option<Seq<char>>;

/// Relies on serde_json::from_value and serde_yaml::to_string, with the
/// conversion below, to render a document model as YAML text. The
/// rendering depends on the model alone.
#[verifier::external_body]
fn render_yaml_document(doc: &JsonValue) -> (r: Result<String, McpConfigError>)
    ensures
        match yaml_text_of(doc@) {
            Some(t) => r matches Ok(s) && s@ == t,
            None => (r matches Err(e) && (e@ is JsonParse || e@ is YamlParse)),
        },
{
    let yaml: serde_yaml::Value = match serde_json::from_value(model_to_value(doc)) {
        Ok(y) => y,
        Err(e) => return Err(McpConfigError::JsonParseError(e.to_string())),
    };
    match serde_yaml::to_string(&yaml) {
        Ok(s) => Ok(s),
        Err(e) => Err(McpConfigError::YamlParseError(e.to_string())),
    }
}

/// Relies on serde_json::Value's accessors to mirror a document value
/// into the crate's own model, one variant arm each: a number becomes
/// its decimal text, and an object's entries keep serde_json's order.
/// Called only from the parse wrappers above, whose contracts carry its
/// claims; the result is well-formed because a serde_json object is a
/// map, whose keys are unique.
#[verifier::external_body]
fn value_to_model(v: &serde_json::Value) -> (r: JsonValue)
    ensures
        crate::json::jv_wf(r@),
{
    match v {
        serde_json::Value::Null => JsonValue::Null,
        serde_json::Value::Bool(b) => JsonValue::Bool(*b),
        serde_json::Value::Number(n) => JsonValue::Num(n.to_string()),
        serde_json::Value::String(s) => JsonValue::Text(s.clone()),
        serde_json::Value::Array(a) => JsonValue::Array(a.iter().map(value_to_model).collect()),
        serde_json::Value::Object(m) => JsonValue::Object(
            m.iter().map(|(k, x)| (k.clone(), value_to_model(x))).collect(),
        ),
    }
}

/// Relies on serde_json::Value's constructors and on
/// serde_json::Number's text parsing to rebuild a document value from
/// the crate's own model, one variant arm each. Called only from the
/// render wrappers above. Numeric text that serde_json cannot read back
/// (never produced by this crate's own parsing) becomes null.
#[verifier::external_body]
fn model_to_value(v: &JsonValue) -> (r: serde_json::Value) {
    match v {
        JsonValue::Null => serde_json::Value::Null,
        JsonValue::Bool(b) => serde_json::Value::Bool(*b),
        JsonValue::Num(t) => match t.parse::<serde_json::Number>() {
            Ok(n) => serde_json::Value::Number(n),
            Err(_) => serde_json::Value::Null,
        },
        JsonValue::Text(s) => serde_json::Value::String(s.clone()),
        JsonValue::Array(a) => serde_json::Value::Array(a.iter().map(model_to_value).collect()),
        JsonValue::Object(m) => serde_json::Value::Object(
            m.iter().map(|(k, x)| (k.clone(), model_to_value(x))).collect(),
        ),
    }
}

/// Whether `c` is a Unicode whitespace character, as `str::trim`
/// understands whitespace.
pub open spec fn is_ws_char(c: char) -> bool {
    ||| c as int == 0x09
    ||| c as int == 0x0a
    ||| c as int == 0x0b
    ||| c as int == 0x0c
    ||| c as int == 0x0d
    ||| c as int == 0x20
    ||| c as int == 0x85
    ||| c as int == 0xa0
    ||| c as int == 0x1680
    ||| (0x2000 <= c as int && c as int <= 0x200a)
    ||| c as int == 0x2028
    ||| c as int == 0x2029
    ||| c as int == 0x202f
    ||| c as int == 0x205f
    ||| c as int == 0x3000
}

/// Whether the text consists of whitespace alone.
pub open spec fn all_ws(s: Seq<char>) -> bool {
    forall|i: int| 0 <= i < s.len() ==> is_ws_char(#[trigger] s[i])
}

/// Whether `content` is empty or whitespace alone.
fn is_blank(content: &str) -> (r: bool)
    ensures
        r == all_ws(content@),
{
    let n = content.unicode_len();
    let mut i: usize = 0;
    while i < n
        invariant
            i <= n,
            n == content@.len(),
            forall|k: int| 0 <= k < i ==> is_ws_char(#[trigger] content@[k]),
        decreases n - i,
    {
        let cv = content.get_char(i) as u32;
        if !(cv == 0x09 || cv == 0x0a || cv == 0x0b || cv == 0x0c || cv == 0x0d || cv == 0x20
            || cv == 0x85 || cv == 0xa0 || cv == 0x1680 || (0x2000 <= cv && cv <= 0x200a)
            || cv == 0x2028 || cv == 0x2029 || cv == 0x202f || cv == 0x205f || cv == 0x3000) {
            assert(!is_ws_char(content@[i as int]));
            return false;
        }
        i = i + 1;
    }
    true
}

/// The parsed model of a document's text in the given harness's native
/// format: YAML for Goose, JSON with `//` comments stripped for
/// OpenCode, plain JSON otherwise; nothing when the text does not parse.
pub open spec fn document_of(kind: HarnessKind, content: &str) -> Option<JsonV> {
    if kind == HarnessKind::Goose {
        yaml_doc_of(content@)
    } else if kind == HarnessKind::OpenCode {
        json_doc_of(crate::jsonc::strip_jsonc(content.spec_bytes()))
    } else {
        json_doc_of(content.spec_bytes())
    }
}

/// Parses `content` in the given harness's native document format into
/// the crate's model; a returned document is well-formed, and
/// unparsable text is a parse error, never a write error.
fn parse_document(kind: HarnessKind, content: &str) -> (r: Result<JsonValue, McpConfigError>)
    ensures
        match document_of(kind, content) {
            Some(d) => r matches Ok(doc) && doc@ == d && crate::json::jv_wf(d),
            None => r matches Err(e) && !(e@ is Write),
        },
{
    match kind {
        HarnessKind::Goose => parse_yaml_document(content),
        HarnessKind::OpenCode => {
            let stripped = crate::jsonc::strip_jsonc_comments(content);
            parse_json_document(stripped.as_slice())
        },
        _ => parse_json_document(content.as_bytes()),
    }
}

/// The text a document model is stored as, in the given harness's
/// native format: YAML for Goose, pretty-printed JSON otherwise.
pub open spec fn rendered_text_of(kind: HarnessKind, doc: JsonV) -> Option<Seq<char>> {
    if kind == HarnessKind::Goose {
        yaml_text_of(doc)
    } else {
        json_text_of(doc)
    }
}

/// Serializes a merged document in the given harness's native format;
/// for the JSON formats this cannot fail.
fn serialize_document(kind: HarnessKind, doc: &JsonValue) -> (r: Result<String, McpConfigError>)
    ensures
        match rendered_text_of(kind, doc@) {
            Some(t) => r matches Ok(s) && s@ == t,
            None => r matches Err(e) && !(e@ is Write),
        },
        kind != HarnessKind::Goose ==> (r matches Ok(s) && rendered_text_of(kind, doc@)
            == Some(s@)),
{
    match kind {
        HarnessKind::Goose => render_yaml_document(doc),
        _ => render_json_document(doc),
    }
}

/// Reads the MCP server collection from a harness configuration
/// document's text. Empty or whitespace-only text (including the text
/// handed over for a missing file) yields an empty collection; the
/// collection of a parsed document is its extracted, filtered server
/// section, with names unique; unparsable text is a parse error.
pub fn read_mcp_config(kind: HarnessKind, content: &str) -> (r: Result<
    RawServerCollection,
    McpConfigError,
>)
    ensures
        all_ws(content@) ==> (r matches Ok(c) && c@.len() == 0),
        !all_ws(content@) ==> match document_of(kind, content) {
            Some(d) => r matches Ok(c) && c@ == extract_spec(kind, d),
            None => r matches Err(e) && !(e@ is Write),
        },
        r matches Ok(c) ==> keys_unique(c@),
{
    if is_blank(content) {
        return Ok(RawServerCollection::new());
    }
    let doc = match parse_document(kind, content) {
        Ok(d) => d,
        Err(e) => {
            return Err(e);
        },
    };
    let servers = extract_servers(kind, &doc);
    proof {
        lemma_extract_unique(kind, doc@);
    }
    Ok(servers)
}

/// The extracted server collection of a well-formed document has
/// unique names.
proof fn lemma_extract_unique(kind: HarnessKind, doc: JsonV)
    requires
        crate::json::jv_wf(doc),
    ensures
        keys_unique(extract_spec(kind, doc)),
{
    match doc {
        JsonV::Obj(top) => {
            lemma_find_wf(top, mcp_key(kind));
            match obj_find(top, mcp_key(kind)) {
                Some(JsonV::Obj(entries)) => {
                    if kind == HarnessKind::Goose {
                        lemma_filter_mcp_unique(entries);
                    }
                },
                _ => {},
            }
        },
        _ => {},
    }
}

/// A value found in a well-formed object is itself well-formed.
proof fn lemma_find_wf(entries: Seq<(Seq<char>, JsonV)>, key: Seq<char>)
    requires
        keys_unique(entries),
        forall|i: int| 0 <= i < entries.len() ==> crate::json::jv_wf((#[trigger] entries[i]).1),
    ensures
        match obj_find(entries, key) {
            Some(v) => crate::json::jv_wf(v),
            None => true,
        },
    decreases entries.len(),
{
    if entries.len() > 0 && entries[0].0 != key {
        assert forall|i: int|
            0 <= i < entries.drop_first().len() implies crate::json::jv_wf(
            (#[trigger] entries.drop_first()[i]).1,
        ) by {
            assert(entries.drop_first()[i] == entries[i + 1]);
        }
        lemma_find_wf(entries.drop_first(), key);
    }
}

/// Filtering keeps a subsequence, so unique names stay unique.
proof fn lemma_filter_mcp_unique(entries: Seq<(Seq<char>, JsonV)>)
    requires
        keys_unique(entries),
    ensures
        keys_unique(filter_mcp(entries)),
        forall|i: int|
            0 <= i < filter_mcp(entries).len() ==> has_name(
                entries,
                (#[trigger] filter_mcp(entries)[i]).0,
            ),
    decreases entries.len(),
{
    if entries.len() > 0 {
        let pre = entries.drop_last();
        assert(keys_unique(pre));
        lemma_filter_mcp_unique(pre);
        assert forall|i: int|
            0 <= i < filter_mcp(pre).len() implies has_name(
            entries,
            (#[trigger] filter_mcp(pre)[i]).0,
        ) by {
            let w = choose|j: int| 0 <= j < pre.len() && (#[trigger] pre[j]).0 == filter_mcp(pre)[i].0;
            assert(entries[w] == pre[w]);
        }
        if goose_is_mcp(entries.last().1) {
            let f = filter_mcp(entries);
            assert(f == filter_mcp(pre).push(entries.last()));
            assert forall|i: int, j: int| 0 <= i < j < f.len() implies f[i].0 != f[j].0 by {
                if j < f.len() - 1 {
                    assert(f[i] == filter_mcp(pre)[i]);
                    assert(f[j] == filter_mcp(pre)[j]);
                } else {
                    assert(f[j] == entries.last());
                    assert(f[i] == filter_mcp(pre)[i]);
                    let w = choose|k: int|
                        0 <= k < pre.len() && (#[trigger] pre[k]).0 == filter_mcp(pre)[i].0;
                    assert(entries[w] == pre[w]);
                    assert(entries[w].0 != entries[entries.len() - 1].0);
                }
            }
        }
    }
}

/// The document a write starts from: empty or whitespace-only text
/// stands for an empty document; anything else is parsed in the
/// harness's native format.
pub open spec fn stored_document_of(kind: HarnessKind, content: &str) -> Option<JsonV> {
    if all_ws(content@) {
        Some(JsonV::Obj(Seq::empty()))
    } else {
        document_of(kind, content)
    }
}

/// Merges `servers` into a harness configuration document's text and
/// re-serializes the whole document in the harness's native format:
/// YAML for Goose, pretty-printed JSON otherwise (JSONC comments are
/// stripped on read, not preserved on write). Unparsable text is a
/// parse error; a document whose root, or whose root-key section, is
/// not an object is a write error, and nothing else is.
pub fn write_mcp_config(kind: HarnessKind, content: &str, servers: &RawServerCollection) -> (r:
    Result<String, McpConfigError>)
    ensures
        match stored_document_of(kind, content) {
            None => r matches Err(e) && !(e@ is Write),
            Some(d) => match merge_spec(d, kind, servers@) {
                None => r matches Err(e) && e@ == McpConfigErrorV::Write(merge_reason(d, kind)),
                Some(m) => match rendered_text_of(kind, m) {
                    Some(t) => r matches Ok(s) && s@ == t,
                    None => r matches Err(e) && !(e@ is Write),
                },
            },
        },
        kind != HarnessKind::Goose ==> match stored_document_of(kind, content) {
            Some(d) => match merge_spec(d, kind, servers@) {
                Some(m) => r matches Ok(s) && rendered_text_of(kind, m) == Some(s@),
                None => true,
            },
            None => true,
        },
{
    let doc = if is_blank(content) {
        JsonValue::Object(Vec::new())
    } else {
        match parse_document(kind, content) {
            Ok(d) => d,
            Err(e) => {
                return Err(e);
            },
        }
    };
    let merged = match merge_servers(&doc, kind, servers) {
        Ok(m) => m,
        Err(e) => {
            return Err(e);
        },
    };
    serialize_document(kind, &merged)
}

/// Whether a server of the given name is present in the filtered read
/// result for this harness's document text.
pub fn mcp_exists(kind: HarnessKind, content: &str, name: &str) -> (r: Result<
    bool,
    McpConfigError,
>)
    ensures
        all_ws(content@) ==> (r matches Ok(b) && !b),
        !all_ws(content@) ==> match document_of(kind, content) {
            Some(d) => r matches Ok(b) && b == (obj_find(extract_spec(kind, d), name@) is Some),
            None => r matches Err(e) && !(e@ is Write),
        },
{
    let servers = match read_mcp_config(kind, content) {
        Ok(s) => s,
        Err(e) => {
            return Err(e);
        },
    };
    Ok(servers.contains_key(name))
}

/// The server section of a document's top-level entries: the object
/// under the harness's root key, or empty when that key is absent.
pub open spec fn section_of(top: Seq<(Seq<char>, JsonV)>, kind: HarnessKind) -> Seq<
    (Seq<char>, JsonV),
> {
    match obj_find(top, mcp_key(kind)) {
        Some(JsonV::Obj(section)) => section,
        _ => Seq::empty(),
    }
}

/// What a successful merge leaves in the document: the root key now
/// holds the old section with every given entry upserted, and every
/// unrelated top-level field is exactly as it was.
pub proof fn lemma_merge_document_shape(
    top: Seq<(Seq<char>, JsonV)>,
    kind: HarnessKind,
    servers: Seq<(Seq<char>, JsonV)>,
    merged: JsonV,
)
    requires
        merge_spec(JsonV::Obj(top), kind, servers) == Some(merged),
    ensures
        merged matches JsonV::Obj(mt) && obj_find(mt, mcp_key(kind)) == Some(
            JsonV::Obj(merge_entries(section_of(top, kind), servers)),
        ) && (forall|f: Seq<char>|
            f != mcp_key(kind) ==> obj_find(mt, f) == obj_find(top, f)),
{
    let section = section_of(top, kind);
    let mt = upsert(top, mcp_key(kind), JsonV::Obj(merge_entries(section, servers)));
    assert(merged == JsonV::Obj(mt));
    lemma_upsert_finds(top, mcp_key(kind), JsonV::Obj(merge_entries(section, servers)));
    assert forall|f: Seq<char>| f != mcp_key(kind) implies obj_find(mt, f) == obj_find(
        top,
        f,
    ) by {
        lemma_upsert_other(top, mcp_key(kind), JsonV::Obj(merge_entries(section, servers)), f);
    }
}

/// The round trip, for a harness whose root key holds MCP servers
/// alone: after merging `servers` into a document, reading the merged
/// document back yields the old section with every given entry
/// upserted. With `lemma_merge_finds` and `lemma_merge_other`, each
/// written name reads back as its written value, and every unrelated
/// entry under the root key reads back unchanged.
pub proof fn lemma_write_then_read(
    top: Seq<(Seq<char>, JsonV)>,
    kind: HarnessKind,
    servers: Seq<(Seq<char>, JsonV)>,
    merged: JsonV,
)
    requires
        merge_spec(JsonV::Obj(top), kind, servers) == Some(merged),
        kind != HarnessKind::Goose,
    ensures
        extract_spec(kind, merged) == merge_entries(section_of(top, kind), servers),
{
    lemma_merge_document_shape(top, kind, servers, merged);
}

} // verus!
