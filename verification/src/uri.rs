//! The component fields of one parsed URI, and the trusted parser behind
//! them.
//!
//! The URI grammar itself is the `url` crate's business; the library only
//! reads the components. A parse failure is reported as `None` and treated
//! as a malformed node by the callers.
use vstd::prelude::*;
use crate::strutil::{opt_view, pairs_view};

verus! {

/// The component fields of one URI, as plain values.
///
/// Query pairs come percent-decoded, in order of appearance; the fragment is
/// kept raw (the decoders percent-decode it themselves).
pub struct UriParts {
    pub scheme: String,
    pub username: String,
    pub password: Option<String>,
    pub host: Option<String>,
    pub port: Option<u16>,
    pub query: Vec<(String, String)>,
    pub fragment: Option<String>,
}

/// View of `UriParts` over character sequences.
pub struct UriPartsV {
    pub scheme: Seq<char>,
    pub username: Seq<char>,
    pub password: Option<Seq<char>>,
    pub host: Option<Seq<char>>,
    pub port: Option<u16>,
    pub query: Seq<(Seq<char>, Seq<char>)>,
    pub fragment: Option<Seq<char>>,
}

impl View for UriParts {
    type V = UriPartsV;

    open spec fn view(&self) -> UriPartsV {
        UriPartsV {
            scheme: self.scheme@,
            username: self.username@,
            password: opt_view(self.password),
            host: opt_view(self.host),
            port: self.port,
            query: pairs_view(self.query@),
            fragment: opt_view(self.fragment),
        }
    }
}

/// The component fields a string parses to, or `None` when it is not a
/// valid URI: URI parsing depends on the input characters alone.
pub uninterp spec fn uri_of(s: Seq<char>) -> Option<UriPartsV>;

/// View of a parse result.
pub open spec fn opt_uri_view(r: Option<UriParts>) -> Option<UriPartsV> {
    match r {
        Option::Some(u) => Option::Some(u@),
        Option::None => Option::None,
    }
}

/// Relies on `url::Url::parse` and the component accessors `scheme`,
/// `username`, `password`, `host_str`, `port`, `query_pairs` and `fragment`:
/// the parts of the URI are handed over as plain values, `None` on a parse
/// failure, and both depend on the input characters alone.
#[verifier::external_body]
pub(crate) fn parse_uri(s: &str) -> (r: Option<UriParts>)
    ensures
        opt_uri_view(r) == uri_of(s@),
{
    match url::Url::parse(s) {
        Err(_) => None,
        Ok(u) => Some(
            UriParts {
                scheme: u.scheme().to_string(),
                username: u.username().to_string(),
                password: u.password().map(|p| p.to_string()),
                host: u.host_str().map(|h| h.to_string()),
                port: u.port(),
                query: u.query_pairs().map(|(k, v)| (k.into_owned(), v.into_owned())).collect(),
                fragment: u.fragment().map(|f| f.to_string()),
            },
        ),
    }
}

} // verus!
