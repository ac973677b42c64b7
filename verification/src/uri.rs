//! Authorities and the parts of a URI, as the relay reads and rewrites them.
use vstd::prelude::*;
use crate::text::{eq_ignore_ascii_case, opt_str, opt_string, str_eq_ignore_ascii_case};

verus! {

/// Whether `hyper::http::uri::Authority::from_str` accepts `s`.
pub uninterp spec fn authority_parses(s: Seq<char>) -> bool;

/// Calls `hyper::http::uri::Authority::from_str` (the `http` crate's
/// validation of a `host[:port]` authority). Claims: it accepts `s` exactly
/// when `authority_parses(s@)`, and it never accepts the empty string (the
/// source rejects it with `ErrorKind::Empty`). On success the authority keeps
/// `s` as its text, which is why only the verdict is handed back.
#[verifier::external_body]
fn authority_from_str(s: &str) -> (ok: bool)
    ensures
        ok == authority_parses(s@),
        ok ==> s@.len() > 0,
{
    s.parse::<hyper::http::uri::Authority>().is_ok()
}

/// The authority component of a URI (`host[:port]`), compared without regard
/// to ASCII case as `http` compares authorities.
#[derive(Debug)]
pub struct Authority {
    text: String,
}

impl View for Authority {
    type V = Seq<char>;

    closed spec fn view(&self) -> Seq<char> {
        self.text@
    }
}

impl Authority {
    #[verifier::type_invariant]
    spec fn inv(self) -> bool {
        authority_parses(self.text@)
    }

    /// Parses an authority; `None` where `http` refuses the text.
    pub fn parse(s: &str) -> (r: Option<Authority>)
        ensures
            r is Some <==> authority_parses(s@),
            r matches Some(a) ==> a@ == s@,
    {
        if authority_from_str(s) {
            Some(Authority { text: s.to_owned() })
        } else {
            None
        }
    }

    pub fn as_str(&self) -> (r: &str)
        ensures
            r@ == self@,
            authority_parses(r@),
    {
        proof {
            use_type_invariant(self);
        }
        self.text.as_str()
    }

    /// Equality of authorities, ignoring ASCII case.
    pub fn same_as(&self, other: &Authority) -> (r: bool)
        ensures
            r == eq_ignore_ascii_case(self@, other@),
    {
        str_eq_ignore_ascii_case(self.text.as_str(), other.text.as_str())
    }

    /// Equality with a string, ignoring ASCII case.
    pub fn matches_str(&self, other: &str) -> (r: bool)
        ensures
            r == eq_ignore_ascii_case(self@, other@),
    {
        str_eq_ignore_ascii_case(self.text.as_str(), other)
    }
}

impl Clone for Authority {
    fn clone(&self) -> (r: Self)
        ensures
            r@ == self@,
    {
        proof {
            use_type_invariant(self);
        }
        Authority { text: self.text.clone() }
    }
}

/// What `hyper::Uri::from_parts` makes of the given scheme, authority and
/// path-and-query, each parsed by `http` on its own, written out with
/// `Uri::to_string`; `None` where a part or the combination is refused.
pub uninterp spec fn uri_from_parts(
    scheme: Option<Seq<char>>,
    authority: Option<Seq<char>>,
    path_and_query: Option<Seq<char>>,
) -> Option<Seq<char>>;

/// Calls `http`'s `Scheme::from_str`, `Authority::from_str`,
/// `PathAndQuery::from_str`, then `Uri::from_parts` and `Uri::to_string`.
/// Claims that the outcome is `uri_from_parts` of the three optional parts,
/// a function of them alone.
#[verifier::external_body]
pub(crate) fn build_uri(scheme: Option<&str>, authority: Option<&str>, path_and_query: Option<&str>) -> (r:
    Option<String>)
    ensures
        opt_string(r) == uri_from_parts(opt_str(scheme), opt_str(authority), opt_str(path_and_query)),
{
    let mut parts = hyper::http::uri::Parts::default();
    parts.scheme = scheme.map(str::parse).transpose().ok()?;
    parts.authority = authority.map(str::parse).transpose().ok()?;
    parts.path_and_query = path_and_query.map(str::parse).transpose().ok()?;
    hyper::Uri::from_parts(parts).ok().map(|u| u.to_string())
}

/// What `http`'s `uri::Builder` makes of a scheme, a path-and-query and an
/// authority, set in that order, then `build`: the URI as `Uri::to_string`
/// writes it, or the text of the first error (`Error::to_string`).
pub uninterp spec fn uri_built(scheme: Seq<char>, authority: Seq<char>, path_and_query: Seq<char>) -> Result<
    Seq<char>,
    Seq<char>,
>;

/// What `http`'s `uri::Builder` makes of an authority alone, then `build`:
/// the URI as `Uri::to_string` writes it, or the text of the error.
pub uninterp spec fn authority_uri_built(authority: Seq<char>) -> Result<Seq<char>, Seq<char>>;

pub open spec fn result_text(r: Result<String, String>) -> Result<Seq<char>, Seq<char>> {
    match r {
        Ok(u) => Ok(u@),
        Err(e) => Err(e@),
    }
}

/// Calls `Uri::builder().scheme(..).path_and_query(..).authority(..)
/// .build()` and writes out the URI or the error. Claims the outcome is
/// `uri_built` of the three texts, a function of them alone.
#[verifier::external_body]
pub(crate) fn build_with_builder(scheme: &str, authority: &str, path_and_query: &str) -> (r: Result<
    String,
    String,
>)
    ensures
        result_text(r) == uri_built(scheme@, authority@, path_and_query@),
{
    hyper::Uri::builder().scheme(scheme).path_and_query(path_and_query).authority(authority).build().map(
        |u| u.to_string(),
    ).map_err(|e| e.to_string())
}

/// Calls `Uri::builder().authority(..).build()` and writes out the URI or
/// the error. Claims the outcome is `authority_uri_built` of the text, a
/// function of it alone.
#[verifier::external_body]
pub(crate) fn build_authority_only(authority: &str) -> (r: Result<String, String>)
    ensures
        result_text(r) == authority_uri_built(authority@),
{
    hyper::Uri::builder().authority(authority).build().map(|u| u.to_string()).map_err(|e| e.to_string())
}

/// The parts of a request URI that the relay reads: what `Uri::scheme_str`,
/// `Uri::authority`, `Uri::path` and the path-and-query of `Uri::into_parts`
/// (by `PathAndQuery::as_str`) give.
#[derive(Debug)]
pub struct UriParts {
    pub scheme: Option<String>,
    pub authority: Option<Authority>,
    pub path: String,
    pub path_and_query: Option<String>,
}

/// The abstract form of [`UriParts`].
pub struct UriView {
    pub scheme: Option<Seq<char>>,
    pub authority: Option<Seq<char>>,
    pub path: Seq<char>,
    pub path_and_query: Option<Seq<char>>,
}

pub open spec fn opt_authority(a: Option<Authority>) -> Option<Seq<char>> {
    match a {
        Some(x) => Some(x@),
        None => None,
    }
}

impl View for UriParts {
    type V = UriView;

    open spec fn view(&self) -> UriView {
        UriView {
            scheme: opt_string(self.scheme),
            authority: opt_authority(self.authority),
            path: self.path@,
            path_and_query: opt_string(self.path_and_query),
        }
    }
}

/// How `PathAndQuery` displays itself given the text of `as_str`: a leading
/// `/` is added unless the text begins with `/` or `*`.
pub open spec fn path_and_query_display(s: Seq<char>) -> Seq<char> {
    if s.len() > 0 && (s[0] == '/' || s[0] == '*') {
        s
    } else {
        seq!['/'] + s
    }
}

} // verus!
