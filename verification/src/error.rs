//! Error values carried out of parsing and document merging.

use vstd::prelude::*;

verus! {

/// A server entry that does not fit the expected shape for its harness:
/// the harness's display name and a field-level reason.
#[derive(Debug)]
pub struct McpError {
    pub harness: String,
    pub reason: String,
}

/// The mathematical view of an [`McpError`].
pub struct McpErrorV {
    pub harness: Seq<char>,
    pub reason: Seq<char>,
}

impl View for McpError {
    type V = McpErrorV;

    open spec fn view(&self) -> McpErrorV {
        McpErrorV { harness: self.harness@, reason: self.reason@ }
    }
}

impl McpError {
    /// An error for the given harness, with a human-readable reason.
    pub fn new(harness: &str, reason: String) -> (r: McpError)
        ensures
            r.harness@ == harness@,
            r.reason@ == reason@,
    {
        McpError { harness: String::from_str(harness), reason }
    }

    /// The error as one human-readable line.
    pub fn message(&self) -> (r: String)
        ensures
            r@ == self.harness@ + ": "@ + self.reason@,
    {
        let mut m = String::new();
        m.append(self.harness.as_str());
        m.append(": ");
        m.append(self.reason.as_str());
        m
    }
}

/// A failure while reading or writing a whole configuration document.
#[derive(Debug)]
pub enum McpConfigError {
    /// The document's bytes do not parse as JSON; the parser's message.
    JsonParseError(String),
    /// The document's bytes do not parse as YAML; the parser's message.
    YamlParseError(String),
    /// The document root, or the value at the harness's root key, is not
    /// an object where one is required.
    WriteError(String),
}

/// The mathematical view of an [`McpConfigError`].
pub enum McpConfigErrorV {
    JsonParse(Seq<char>),
    YamlParse(Seq<char>),
    Write(Seq<char>),
}

impl View for McpConfigError {
    type V = McpConfigErrorV;

    open spec fn view(&self) -> McpConfigErrorV {
        match self {
            McpConfigError::JsonParseError(s) => McpConfigErrorV::JsonParse(s@),
            McpConfigError::YamlParseError(s) => McpConfigErrorV::YamlParse(s@),
            McpConfigError::WriteError(s) => McpConfigErrorV::Write(s@),
        }
    }
}

} // verus!
