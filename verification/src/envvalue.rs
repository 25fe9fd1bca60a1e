//! Classification of raw configuration strings as literals or
//! environment-variable references.
//!
//! Each harness has its own placeholder syntax (`${NAME}` or `{env:NAME}`).
//! A string is a reference only when it matches that syntax as a whole;
//! anything else, including partial or malformed placeholders, stays a
//! literal, unchanged. Nothing here reads actual process environment
//! variables: this is pure syntax classification.

use vstd::prelude::*;

use crate::harness::HarnessKind;

verus! {

/// A configuration value: either a literal string or a reference to the
/// named environment variable.
#[derive(Debug, Clone, PartialEq, Eq)]
pub enum EnvValue {
    Literal(String),
    EnvRef(String),
}

/// The mathematical view of an [`EnvValue`].
pub enum EnvV {
    Lit(Seq<char>),
    Var(Seq<char>),
}

impl View for EnvValue {
    type V = EnvV;

    open spec fn view(&self) -> EnvV {
        match self {
            EnvValue::Literal(s) => EnvV::Lit(s@),
            EnvValue::EnvRef(s) => EnvV::Var(s@),
        }
    }
}

/// The opening of the given harness's environment-variable placeholder;
/// every syntax closes with `}`.
pub open spec fn ref_prefix(kind: HarnessKind) -> Seq<char> {
    if kind == HarnessKind::OpenCode {
        "{env:"@
    } else {
        "${"@
    }
}

/// Whether `s` as a whole is an environment-variable placeholder opened by
/// `prefix`: the prefix, a non-empty name without `}`, and a closing `}`.
pub open spec fn is_env_ref(s: Seq<char>, prefix: Seq<char>) -> bool {
    &&& s.len() > prefix.len() + 1
    &&& s.subrange(0, prefix.len() as int) == prefix
    &&& s[s.len() - 1] == '}'
    &&& forall|i: int| prefix.len() <= i < s.len() - 1 ==> s[i] != '}'
}

/// The variable name inside a placeholder.
pub open spec fn env_ref_name(s: Seq<char>, prefix: Seq<char>) -> Seq<char> {
    s.subrange(prefix.len() as int, s.len() - 1)
}

/// How a raw string resolves under the given harness's native syntax.
pub open spec fn resolve_native(s: Seq<char>, kind: HarnessKind) -> EnvV {
    if is_env_ref(s, ref_prefix(kind)) {
        EnvV::Var(env_ref_name(s, ref_prefix(kind)))
    } else {
        EnvV::Lit(s)
    }
}

/// How a raw string resolves for a harness flagged plain, or under the
/// given harness's native syntax otherwise.
pub open spec fn resolve_value(s: Seq<char>, kind: HarnessKind, plain: bool) -> EnvV {
    if plain {
        EnvV::Lit(s)
    } else {
        resolve_native(s, kind)
    }
}

/// The opening of the given harness's placeholder syntax.
fn ref_prefix_str(kind: HarnessKind) -> (r: &'static str)
    ensures
        r@ == ref_prefix(kind),
{
    match kind {
        HarnessKind::OpenCode => "{env:",
        _ => "${",
    }
}

impl EnvValue {
    /// A literal value, verbatim.
    pub fn plain(value: &str) -> (r: EnvValue)
        ensures
            r@ == EnvV::Lit(value@),
    {
        EnvValue::Literal(String::from_str(value))
    }

    /// A reference to the named environment variable.
    pub fn env(name: &str) -> (r: EnvValue)
        ensures
            r@ == EnvV::Var(name@),
    {
        EnvValue::EnvRef(String::from_str(name))
    }

    /// Classifies `value` under the given harness's native placeholder
    /// syntax: a whole-string placeholder becomes a reference, anything
    /// else stays a literal, unchanged.
    pub fn from_native(value: &str, kind: HarnessKind) -> (r: EnvValue)
        ensures
            r@ == resolve_native(value@, kind),
    {
        let prefix = ref_prefix_str(kind);
        let n = value.unicode_len();
        let plen = prefix.unicode_len();
        if n < 2 || n - 2 < plen {
            assert(!is_env_ref(value@, ref_prefix(kind)));
            return EnvValue::Literal(String::from_str(value));
        }
        if value.get_char(n - 1) != '}' {
            assert(!is_env_ref(value@, ref_prefix(kind)));
            return EnvValue::Literal(String::from_str(value));
        }
        let mut i: usize = 0;
        while i < plen
            invariant
                i <= plen,
                plen == prefix@.len(),
                n == value@.len(),
                n >= plen + 2,
                prefix@ == ref_prefix(kind),
                forall|k: int| 0 <= k < i ==> value@[k] == prefix@[k],
            decreases plen - i,
        {
            if value.get_char(i) != prefix.get_char(i) {
                proof {
                    assert(value@.subrange(0, plen as int)[i as int] == value@[i as int]);
                    assert(value@.subrange(0, plen as int) != prefix@);
                }
                return EnvValue::Literal(String::from_str(value));
            }
            i = i + 1;
        }
        proof {
            assert(value@.subrange(0, plen as int) =~= prefix@);
        }
        let mut j: usize = plen;
        while j < n - 1
            invariant
                plen <= j <= n - 1,
                plen == prefix@.len(),
                n == value@.len(),
                n >= plen + 2,
                prefix@ == ref_prefix(kind),
                forall|k: int| plen <= k < j ==> value@[k] != '}',
            decreases n - j,
        {
            if value.get_char(j) == '}' {
                assert(!is_env_ref(value@, ref_prefix(kind)));
                return EnvValue::Literal(String::from_str(value));
            }
            j = j + 1;
        }
        assert(is_env_ref(value@, ref_prefix(kind)));
        let name = value.substring_char(plen, n - 1);
        EnvValue::EnvRef(String::from_str(name))
    }
}

/// How one environment or header value is classified, for every harness
/// and string: a plain-flagged harness always keeps the literal; under
/// native resolution a string matching the harness's placeholder syntax
/// as a whole becomes a reference to the enclosed name, and any other
/// string, including one that only partially resembles the syntax,
/// stays a literal, unchanged.
pub proof fn lemma_value_classification(s: Seq<char>, kind: HarnessKind, plain: bool)
    ensures
        plain ==> resolve_value(s, kind, plain) == EnvV::Lit(s),
        !plain && is_env_ref(s, ref_prefix(kind)) ==> resolve_value(s, kind, plain) == EnvV::Var(
            env_ref_name(s, ref_prefix(kind)),
        ),
        !plain && !is_env_ref(s, ref_prefix(kind)) ==> resolve_value(s, kind, plain) == EnvV::Lit(
            s,
        ),
{
}

} // verus!
