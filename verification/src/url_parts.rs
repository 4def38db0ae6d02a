//! A parsed URL as plain strings, and the resolving of a link against a base.
//!
//! Parsing itself is the `url` crate's. This module holds what the crawler
//! reads of a parsed URL and the rule by which a link found on a page becomes
//! an absolute URL.
use vstd::prelude::*;
use vstd::utf8::is_ascii_chars;

verus! {

broadcast use vstd::string::group_string_axioms;

/// Why a text is no absolute URL.
#[derive(Debug, Clone, Copy, PartialEq, Eq, Structural)]
pub enum UrlError {
    /// The text has no scheme: it is a reference that needs a base.
    RelativeWithoutBase,
    /// Any other defect.
    Malformed,
}

/// What the crawler reads of a parsed URL.
#[derive(Debug)]
pub struct UrlParts {
    /// The whole URL in its normal form.
    pub text: String,
    /// The scheme, in lower case, without the colon.
    pub scheme: String,
    /// The host, where the URL has one.
    pub host: Option<String>,
    /// The path, percent-encoded.
    pub path: String,
    /// All of `text` that stands before the path: scheme and authority.
    pub origin: String,
}

/// The mathematical value of a [`UrlParts`].
pub struct UrlPartsView {
    pub text: Seq<char>,
    pub scheme: Seq<char>,
    pub host: Option<Seq<char>>,
    pub path: Seq<char>,
    pub origin: Seq<char>,
}

impl View for UrlParts {
    type V = UrlPartsView;

    open spec fn view(&self) -> UrlPartsView {
        UrlPartsView {
            text: self.text@,
            scheme: self.scheme@,
            host: match self.host {
                Some(h) => Some(h@),
                None => None,
            },
            path: self.path@,
            origin: self.origin@,
        }
    }
}

/// The view of a parser's answer.
pub open spec fn answer_view(r: Result<UrlParts, UrlError>) -> Result<UrlPartsView, UrlError> {
    match r {
        Ok(u) => Ok(u@),
        Err(e) => Err(e),
    }
}

/// What `url::Url::parse` makes of a text.
pub uninterp spec fn parsed_url(text: Seq<char>) -> Result<UrlPartsView, UrlError>;

/// What `url::Url::join` makes of a reference, against the URL parsed from
/// `base`.
pub uninterp spec fn joined_url(base: Seq<char>, reference: Seq<char>) -> Result<
    UrlPartsView,
    UrlError,
>;

/// Calls `url::Url::parse` and copies out the parts of the URL it returns.
///
/// Trusted: the answer is a function of the text alone, named `parsed_url`,
/// and the path of a parsed URL is an ASCII string, as the documentation of
/// `Url::path` says.
#[verifier::external_body]
pub(crate) fn parse_url(text: &str) -> (r: Result<UrlParts, UrlError>)
    ensures
        answer_view(r) == parsed_url(text@),
        r matches Ok(u) ==> is_ascii_chars(u.path@),
{
    match url::Url::parse(text) {
        Ok(u) => Ok(UrlParts {
            text: u.as_str().to_string(),
            scheme: u.scheme().to_string(),
            host: u.host_str().map(|h| h.to_string()),
            path: u.path().to_string(),
            origin: u[..url::Position::BeforePath].to_string(),
        }),
        Err(url::ParseError::RelativeUrlWithoutBase) => Err(UrlError::RelativeWithoutBase),
        Err(_) => Err(UrlError::Malformed),
    }
}

/// Calls `url::Url::join` on the URL parsed from `base` and copies out the
/// parts of the URL it returns. A base that does not parse gives its own
/// error.
///
/// Trusted: the answer is a function of the two texts alone, named
/// `joined_url`, and the path of the URL is an ASCII string.
#[verifier::external_body]
fn join_url(base: &str, reference: &str) -> (r: Result<UrlParts, UrlError>)
    ensures
        answer_view(r) == joined_url(base@, reference@),
        r matches Ok(u) ==> is_ascii_chars(u.path@),
{
    match url::Url::parse(base).and_then(|b| b.join(reference)) {
        Ok(u) => Ok(UrlParts {
            text: u.as_str().to_string(),
            scheme: u.scheme().to_string(),
            host: u.host_str().map(|h| h.to_string()),
            path: u.path().to_string(),
            origin: u[..url::Position::BeforePath].to_string(),
        }),
        Err(url::ParseError::RelativeUrlWithoutBase) => Err(UrlError::RelativeWithoutBase),
        Err(_) => Err(UrlError::Malformed),
    }
}

/// The absolute URL that a link found on a page stands for: the link itself
/// where it parses; where it only lacks a scheme, the link joined to the base;
/// nothing otherwise.
pub open spec fn resolved(base: Seq<char>, link: Seq<char>) -> Option<UrlPartsView> {
    match parsed_url(link) {
        Ok(u) => Some(u),
        Err(UrlError::RelativeWithoutBase) => match joined_url(base, link) {
            Ok(u) => Some(u),
            Err(_) => None,
        },
        Err(UrlError::Malformed) => None,
    }
}

/// Whether a scheme is one that the crawler follows.
pub open spec fn is_web_scheme(scheme: Seq<char>) -> bool {
    scheme == "http"@ || scheme == "https"@
}

impl UrlParts {
    /// Resolves a link found on a page whose base URL is `base`.
    pub fn resolve(base: &str, link: &str) -> (r: Option<UrlParts>)
        ensures
            match r {
                Some(u) => resolved(base@, link@) == Some(u@),
                None => resolved(base@, link@) is None,
            },
            r matches Some(u) ==> is_ascii_chars(u.path@),
    {
        match parse_url(link) {
            Ok(u) => Some(u),
            Err(UrlError::RelativeWithoutBase) => match join_url(base, link) {
                Ok(u) => Some(u),
                Err(_) => None,
            },
            Err(UrlError::Malformed) => None,
        }
    }

    /// Whether the scheme is `http` or `https`.
    pub fn has_web_scheme(&self) -> (web: bool)
        ensures
            web == is_web_scheme(self@.scheme),
    {
        self.scheme == "http".to_string() || self.scheme == "https".to_string()
    }
}

} // verus!
