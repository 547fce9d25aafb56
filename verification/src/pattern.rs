//! Glob-style path matching, provided by the `glob` crate.
//!
//! Compiling a pattern and matching it against a path are both functions of
//! the texts alone, so each gets an uninterpreted name that the trusted
//! wrappers below tie to the crate's calls. Everything the engine concludes
//! about a decision is phrased over these names.

use vstd::prelude::*;

verus! {

/// Whether the glob dialect accepts `pattern` as a syntactically valid
/// pattern, i.e. whether `glob::Pattern::new` returns `Ok` on it.
pub uninterp spec fn glob_ok(pattern: Seq<char>) -> bool;

/// Whether the (syntactically valid) pattern matches the path under the
/// options fixed below: case-sensitive, with wildcards stopping at path
/// separators, so that `*` spans one path segment only.
pub uninterp spec fn glob_match(pattern: Seq<char>, path: Seq<char>) -> bool;

/// Relies on `glob::Pattern::new`: it compiles a pattern, deciding on the
/// pattern text alone, and its `Err` carries the syntax diagnostic.
#[verifier::external_body]
pub(crate) fn glob_compile_error(pattern: &str) -> (r: Option<String>)
    ensures
        r is None <==> glob_ok(pattern@),
{
    glob::Pattern::new(pattern).err().map(|e| e.to_string())
}

/// Relies on `glob::Pattern::new` and `glob::Pattern::matches_with`: on a
/// pattern that compiles, the match outcome is a function of the pattern
/// text, the path text and the (fixed) options alone. The options demand a
/// literal path separator, so a wildcard never crosses one.
#[verifier::external_body]
pub(crate) fn glob_matches(pattern: &str, path: &str) -> (r: bool)
    requires
        glob_ok(pattern@),
    ensures
        r == glob_match(pattern@, path@),
{
    let options = glob::MatchOptions {
        case_sensitive: true,
        require_literal_separator: true,
        require_literal_leading_dot: false,
    };
    glob::Pattern::new(pattern).map(|p| p.matches_with(path, options)).unwrap_or(false)
}

} // verus!
