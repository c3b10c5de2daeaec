//! URL parsing through the `url` crate, reduced to the parts the wallet reads.

use vstd::prelude::*;

verus! {

/// The parts of a parsed URL that the wallet uses.
#[derive(Clone, Debug, PartialEq, Eq)]
pub struct ParsedUrl {
    /// Lower-cased scheme, without `:`.
    pub scheme: String,
    /// Host as written in the serialization, if the URL has one.
    pub host: Option<String>,
    /// Explicit port, or the scheme's default port.
    pub port: Option<u16>,
    /// Full serialization of the URL.
    pub serialized: String,
}

/// Mathematical view of [`ParsedUrl`].
pub struct ParsedUrlView {
    pub scheme: Seq<char>,
    pub host: Option<Seq<char>>,
    pub port: Option<u16>,
    pub serialized: Seq<char>,
}

impl View for ParsedUrl {
    type V = ParsedUrlView;

    open spec fn view(&self) -> ParsedUrlView {
        ParsedUrlView {
            scheme: self.scheme@,
            host: match self.host {
                Some(h) => Some(h@),
                None => None,
            },
            port: self.port,
            serialized: self.serialized@,
        }
    }
}

/// View of a parse outcome: the parts, or the parse error's message.
pub open spec fn parse_outcome_view(r: Result<ParsedUrl, String>) -> Result<ParsedUrlView, Seq<char>> {
    match r {
        Ok(p) => Ok(p@),
        Err(e) => Err(e@),
    }
}

/// What `url::Url::parse` gives for `input` (WHATWG URL parsing), read through
/// `scheme`, `host_str`, `port_or_known_default` and its `Display` serialization,
/// or the `Display` text of its error.
pub uninterp spec fn url_parse_result(input: Seq<char>) -> Result<ParsedUrlView, Seq<char>>;

/// Parses `input` with `url::Url::parse`.
///
/// Trusted: the result is the named value `url_parse_result(input@)`; nothing else
/// about URL parsing is claimed.
#[verifier::external_body]
pub(crate) fn parse_url(input: &str) -> (r: Result<ParsedUrl, String>)
    ensures
        parse_outcome_view(r) == url_parse_result(input@),
{
    match url::Url::parse(input) {
        Ok(u) => Ok(
            ParsedUrl {
                scheme: u.scheme().to_string(),
                host: u.host_str().map(|h| h.to_string()),
                port: u.port_or_known_default(),
                serialized: u.to_string(),
            },
        ),
        Err(e) => Err(e.to_string()),
    }
}

} // verus!
