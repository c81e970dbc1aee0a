//! Secret lookup by environment-variable name.
//!
//! A secret name such as `github.api_token` is looked up in the variable
//! `GITHUB_API_TOKEN`, or `<PREFIX>_GITHUB_API_TOKEN` when the provider has
//! a prefix.

use vstd::prelude::*;
use crate::error::SwarmError;
use crate::text::owned;

verus! {

/// What `str::to_uppercase` makes of a text (the full Unicode uppercase
/// mapping).
pub uninterp spec fn unicode_upper(s: Seq<char>) -> Seq<char>;

/// `str::to_uppercase`: the Unicode uppercase of a text.
#[verifier::external_body]
fn to_uppercase(s: &str) -> (r: String)
    ensures
        r@ == unicode_upper(s@),
{
    s.to_uppercase()
}

/// `s` with every `.` and `-` replaced by `_`.
pub open spec fn underscored(s: Seq<char>) -> Seq<char> {
    Seq::new(s.len(), |i: int| if s[i] == '.' || s[i] == '-' { '_' } else { s[i] })
}

fn underscore(s: &str) -> (r: String)
    ensures
        r@ == underscored(s@),
{
    let cs = crate::text::chars_of(s);
    let mut out: Vec<char> = Vec::new();
    let mut i: usize = 0;
    while i < cs.len()
        invariant
            i <= cs@.len(),
            cs@ == s@,
            out@ == underscored(s@).take(i as int),
        decreases cs@.len() - i,
    {
        let c = cs[i];
        out.push(if c == '.' || c == '-' { '_' } else { c });
        i = i + 1;
        assert(out@ =~= underscored(s@).take(i as int));
    }
    assert(underscored(s@).take(i as int) =~= underscored(s@));
    crate::text::string_from_chars(out.as_slice())
}

/// The variable a secret is read from: the name uppercased with `.` and `-`
/// turned into `_`, behind `<PREFIX>_` (the prefix uppercased) when there is
/// a prefix.
pub open spec fn env_var_spec(prefix: Option<Seq<char>>, name: Seq<char>) -> Seq<char> {
    let normalized = underscored(unicode_upper(name));
    match prefix {
        Some(p) => unicode_upper(p) + "_"@ + normalized,
        None => normalized,
    }
}

/// Reads secrets from environment variables.
#[derive(Debug, Clone)]
pub struct EnvSecretsProvider {
    /// Prefix prepended (uppercased, with `_`) to every variable name.
    pub prefix: Option<String>,
}

impl EnvSecretsProvider {
    /// A provider without a prefix.
    pub fn new() -> (r: Self)
        ensures
            r.prefix is None,
    {
        EnvSecretsProvider { prefix: None }
    }

    /// A provider with a prefix.
    pub fn with_prefix(prefix: &str) -> (r: Self)
        ensures
            r.prefix matches Some(p) && p@ == prefix@,
    {
        EnvSecretsProvider { prefix: Some(owned(prefix)) }
    }

    /// The environment variable a secret is read from.
    pub fn env_var_name(&self, name: &str) -> (r: String)
        ensures
            r@ == env_var_spec(crate::text::opt_view(self.prefix), name@),
    {
        let upper = to_uppercase(name);
        let normalized = underscore(upper.as_str());
        match &self.prefix {
            Some(p) => {
                let mut out = to_uppercase(p.as_str());
                out.append("_");
                out.append(normalized.as_str());
                proof {
                    reveal_strlit("_");
                }
                out
            },
            None => normalized,
        }
    }

    /// The error for a secret whose variable is not set: `ConfigMissing`
    /// naming the variable.
    pub fn missing_secret(&self, name: &str) -> (r: SwarmError)
        ensures
            r matches SwarmError::ConfigMissing { key } && key@ == env_var_spec(
                crate::text::opt_view(self.prefix),
                name@,
            ),
    {
        SwarmError::ConfigMissing { key: self.env_var_name(name) }
    }
}

impl Default for EnvSecretsProvider {
    fn default() -> (r: Self)
        ensures
            r.prefix is None,
    {
        Self::new()
    }
}

} // verus!
