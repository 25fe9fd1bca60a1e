//! The canonical, harness-independent model of one MCP server.

use vstd::prelude::*;

use crate::envvalue::{EnvV, EnvValue};

verus! {

impl DeepView for EnvValue {
    type V = EnvV;

    open spec fn deep_view(&self) -> EnvV {
        self@
    }
}

/// An ordered name-to-value map for environment variables or headers.
#[derive(Debug)]
pub struct EnvMap {
    entries: Vec<(String, EnvValue)>,
}

/// The value at `key` in a name/value list: the first match, if any.
pub open spec fn env_find(entries: Seq<(Seq<char>, EnvV)>, key: Seq<char>) -> Option<EnvV>
    decreases entries.len(),
{
    if entries.len() == 0 {
        None
    } else if entries[0].0 == key {
        Some(entries[0].1)
    } else {
        env_find(entries.drop_first(), key)
    }
}

impl View for EnvMap {
    type V = Seq<(Seq<char>, EnvV)>;

    closed spec fn view(&self) -> Seq<(Seq<char>, EnvV)> {
        self.entries.deep_view()
    }
}

impl EnvMap {
    /// An empty map.
    pub fn new() -> (r: EnvMap)
        ensures
            r@ == Seq::<(Seq<char>, EnvV)>::empty(),
    {
        let r = EnvMap { entries: Vec::new() };
        proof {
            assert(r@ =~= Seq::<(Seq<char>, EnvV)>::empty());
        }
        r
    }

    /// Appends an entry.
    pub fn push(&mut self, key: String, value: EnvValue)
        ensures
            final(self)@ == old(self)@.push((key@, value@)),
    {
        let ghost k = key@;
        let ghost v = value@;
        self.entries.push((key, value));
        proof {
            assert(self@ =~= old(self)@.push((k, v)));
        }
    }

    /// The number of entries.
    pub fn len(&self) -> (r: usize)
        ensures
            r == self@.len(),
    {
        self.entries.len()
    }

    /// Whether the map has no entries.
    pub fn is_empty(&self) -> (r: bool)
        ensures
            r == (self@.len() == 0),
    {
        self.entries.len() == 0
    }

    /// The value under `key`, if any.
    pub fn get<'a>(&'a self, key: &str) -> (r: Option<&'a EnvValue>)
        ensures
            match env_find(self@, key@) {
                Some(v) => r is Some && r->0@ == v,
                None => r is None,
            },
    {
        let ghost m = self@;
        proof {
            assert(m.skip(0) =~= m);
        }
        let mut i: usize = 0;
        while i < self.entries.len()
            invariant
                i <= self.entries@.len(),
                m == self@,
                m.len() == self.entries@.len(),
                env_find(m, key@) == env_find(m.skip(i as int), key@),
            decreases self.entries@.len() - i,
        {
            assert(m.skip(i as int)[0] == m[i as int]);
            assert(m[i as int] == (self.entries@[i as int].0@, self.entries@[i as int].1@));
            if crate::json::str_eq(self.entries[i].0.as_str(), key) {
                return Some(&self.entries[i].1);
            }
            proof {
                assert(m.skip(i as int).drop_first() =~= m.skip(i + 1));
            }
            i = i + 1;
        }
        assert(m.skip(i as int).len() == 0);
        None
    }
}

/// OAuth client settings attached to an HTTP server, each field optional.
#[derive(Debug)]
pub struct OAuthConfig {
    pub client_id: Option<String>,
    pub client_secret: Option<EnvValue>,
    pub scope: Option<String>,
}

/// The mathematical view of an [`OAuthConfig`].
pub struct OAuthV {
    pub client_id: Option<Seq<char>>,
    pub client_secret: Option<EnvV>,
    pub scope: Option<Seq<char>>,
}

impl View for OAuthConfig {
    type V = OAuthV;

    open spec fn view(&self) -> OAuthV {
        OAuthV {
            client_id: self.client_id.deep_view(),
            client_secret: self.client_secret.deep_view(),
            scope: self.scope.deep_view(),
        }
    }
}

/// A server launched as a local process and spoken to over stdio.
#[derive(Debug)]
pub struct StdioMcpServer {
    pub command: String,
    pub args: Vec<String>,
    pub env: EnvMap,
    pub cwd: Option<String>,
    pub enabled: bool,
    pub timeout_ms: Option<u64>,
}

/// The mathematical view of a [`StdioMcpServer`].
pub struct StdioV {
    pub command: Seq<char>,
    pub args: Seq<Seq<char>>,
    pub env: Seq<(Seq<char>, EnvV)>,
    pub cwd: Option<Seq<char>>,
    pub enabled: bool,
    pub timeout_ms: Option<u64>,
}

impl View for StdioMcpServer {
    type V = StdioV;

    open spec fn view(&self) -> StdioV {
        StdioV {
            command: self.command@,
            args: self.args.deep_view(),
            env: self.env@,
            cwd: self.cwd.deep_view(),
            enabled: self.enabled,
            timeout_ms: self.timeout_ms,
        }
    }
}

/// A server reached over a Server-Sent-Events endpoint.
#[derive(Debug)]
pub struct SseMcpServer {
    pub url: String,
    pub headers: EnvMap,
    pub enabled: bool,
    pub timeout_ms: Option<u64>,
}

/// The mathematical view of an [`SseMcpServer`].
pub struct SseV {
    pub url: Seq<char>,
    pub headers: Seq<(Seq<char>, EnvV)>,
    pub enabled: bool,
    pub timeout_ms: Option<u64>,
}

impl View for SseMcpServer {
    type V = SseV;

    open spec fn view(&self) -> SseV {
        SseV {
            url: self.url@,
            headers: self.headers@,
            enabled: self.enabled,
            timeout_ms: self.timeout_ms,
        }
    }
}

/// A server reached over a streamable HTTP endpoint.
#[derive(Debug)]
pub struct HttpMcpServer {
    pub url: String,
    pub headers: EnvMap,
    pub oauth: Option<OAuthConfig>,
    pub enabled: bool,
    pub timeout_ms: Option<u64>,
}

/// The mathematical view of an [`HttpMcpServer`].
pub struct HttpV {
    pub url: Seq<char>,
    pub headers: Seq<(Seq<char>, EnvV)>,
    pub oauth: Option<OAuthV>,
    pub enabled: bool,
    pub timeout_ms: Option<u64>,
}

impl View for HttpMcpServer {
    type V = HttpV;

    open spec fn view(&self) -> HttpV {
        HttpV {
            url: self.url@,
            headers: self.headers@,
            oauth: match &self.oauth {
                Some(o) => Some(o@),
                None => None,
            },
            enabled: self.enabled,
            timeout_ms: self.timeout_ms,
        }
    }
}

/// One canonical server descriptor: exactly one transport variant.
#[derive(Debug)]
pub enum McpServer {
    Stdio(StdioMcpServer),
    Sse(SseMcpServer),
    Http(HttpMcpServer),
}

/// The mathematical view of an [`McpServer`].
pub enum McpV {
    Stdio(StdioV),
    Sse(SseV),
    Http(HttpV),
}

impl View for McpServer {
    type V = McpV;

    open spec fn view(&self) -> McpV {
        match self {
            McpServer::Stdio(s) => McpV::Stdio(s@),
            McpServer::Sse(s) => McpV::Sse(s@),
            McpServer::Http(s) => McpV::Http(s@),
        }
    }
}

impl DeepView for McpServer {
    type V = McpV;

    open spec fn deep_view(&self) -> McpV {
        self@
    }
}

} // verus!
