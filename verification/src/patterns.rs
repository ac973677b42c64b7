//! Shell-style glob patterns and regular expressions, compiled once and
//! matched against application ids and request paths.
use vstd::prelude::*;

verus! {

#[verifier::external_type_specification]
#[verifier::external_body]
pub struct ExGlobPattern(glob::Pattern);

#[verifier::external_type_specification]
#[verifier::external_body]
pub struct ExRegex(regex::Regex);

/// Whether `glob::Pattern::new` accepts the pattern text.
pub uninterp spec fn glob_compiles(pattern: Seq<char>) -> bool;

/// Whether `glob::Pattern::matches` (default options) finds that `text`
/// matches the pattern compiled from `pattern`.
pub uninterp spec fn glob_matches(pattern: Seq<char>, text: Seq<char>) -> bool;

/// Whether `regex::Regex::new` accepts the expression text.
pub uninterp spec fn regex_compiles(pattern: Seq<char>) -> bool;

/// Whether `regex::Regex::is_match` finds a match for the expression compiled
/// from `pattern` anywhere in `text`.
pub uninterp spec fn regex_matches(pattern: Seq<char>, text: Seq<char>) -> bool;

/// Calls `glob::Pattern::new`. Claims it succeeds exactly when
/// `glob_compiles(pattern@)`.
#[verifier::external_body]
fn glob_new(pattern: &str) -> (r: Option<glob::Pattern>)
    ensures
        r is Some <==> glob_compiles(pattern@),
{
    glob::Pattern::new(pattern).ok()
}

/// Calls `regex::Regex::new`. Claims it succeeds exactly when
/// `regex_compiles(pattern@)`.
#[verifier::external_body]
fn regex_new(pattern: &str) -> (r: Option<regex::Regex>)
    ensures
        r is Some <==> regex_compiles(pattern@),
{
    regex::Regex::new(pattern).ok()
}

/// A glob pattern, kept with the text it was compiled from.
#[derive(Debug)]
pub struct GlobPattern {
    source: String,
    compiled: glob::Pattern,
}

/// A regular expression, kept with the text it was compiled from.
#[derive(Debug)]
pub struct RegexPattern {
    source: String,
    compiled: regex::Regex,
}

impl View for GlobPattern {
    type V = Seq<char>;

    closed spec fn view(&self) -> Seq<char> {
        self.source@
    }
}

impl View for RegexPattern {
    type V = Seq<char>;

    closed spec fn view(&self) -> Seq<char> {
        self.source@
    }
}

/// Calls `glob::Pattern::matches` on the pattern that `GlobPattern::new`
/// compiled from `p`'s text (only that constructor makes a `GlobPattern`).
/// Claims the answer is `glob_matches` of that text and `text`.
#[verifier::external_body]
fn glob_pattern_matches(p: &GlobPattern, text: &str) -> (r: bool)
    ensures
        r == glob_matches(p@, text@),
{
    p.compiled.matches(text)
}

/// Calls `regex::Regex::is_match` on the expression that `RegexPattern::new`
/// compiled from `p`'s text (only that constructor makes a `RegexPattern`).
/// Claims the answer is `regex_matches` of that text and `text`.
#[verifier::external_body]
fn regex_is_match(p: &RegexPattern, text: &str) -> (r: bool)
    ensures
        r == regex_matches(p@, text@),
{
    p.compiled.is_match(text)
}

impl GlobPattern {
    #[verifier::type_invariant]
    spec fn inv(self) -> bool {
        glob_compiles(self.source@)
    }

    /// Compiles a glob pattern; `None` where `glob` refuses it.
    pub fn new(pattern: &str) -> (r: Option<GlobPattern>)
        ensures
            r is Some <==> glob_compiles(pattern@),
            r matches Some(g) ==> g@ == pattern@,
    {
        match glob_new(pattern) {
            Some(compiled) => Some(GlobPattern { source: pattern.to_owned(), compiled }),
            None => None,
        }
    }

    /// Whether `text` matches the pattern.
    pub fn matches(&self, text: &str) -> (r: bool)
        ensures
            r == glob_matches(self@, text@),
    {
        glob_pattern_matches(self, text)
    }

    /// The text the pattern was compiled from.
    pub fn as_str(&self) -> (r: &str)
        ensures
            r@ == self@,
            glob_compiles(r@),
    {
        proof {
            use_type_invariant(self);
        }
        self.source.as_str()
    }
}

impl RegexPattern {
    #[verifier::type_invariant]
    spec fn inv(self) -> bool {
        regex_compiles(self.source@)
    }

    /// Compiles a regular expression; `None` where `regex` refuses it.
    pub fn new(pattern: &str) -> (r: Option<RegexPattern>)
        ensures
            r is Some <==> regex_compiles(pattern@),
            r matches Some(g) ==> g@ == pattern@,
    {
        match regex_new(pattern) {
            Some(compiled) => Some(RegexPattern { source: pattern.to_owned(), compiled }),
            None => None,
        }
    }

    /// Whether the expression matches anywhere in `text`.
    pub fn is_match(&self, text: &str) -> (r: bool)
        ensures
            r == regex_matches(self@, text@),
    {
        regex_is_match(self, text)
    }

    /// The text the expression was compiled from.
    pub fn as_str(&self) -> (r: &str)
        ensures
            r@ == self@,
            regex_compiles(r@),
    {
        proof {
            use_type_invariant(self);
        }
        self.source.as_str()
    }
}

} // verus!
