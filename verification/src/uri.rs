//! The generic URI syntax, as the `url` crate reads it.

use vstd::prelude::*;

verus! {

/// The reasons for which the `url` crate rejects a string.
#[verifier::external_type_specification]
#[verifier::external_body]
pub struct ExParseError(url::ParseError);

/// The components of a URI that an address is made from.
pub struct UriParts {
    /// The scheme, without the `:` that ends it.
    pub scheme: String,
    /// The host, where the URI has one.
    pub host: Option<String>,
    /// The port, where the URI states one.
    pub port: Option<u16>,
    /// The path, as the URI spells it.
    pub path: String,
}

pub ghost struct UriPartsView {
    pub scheme: Seq<char>,
    pub host: Option<Seq<char>>,
    pub port: Option<u16>,
    pub path: Seq<char>,
}

impl View for UriParts {
    type V = UriPartsView;

    open spec fn view(&self) -> UriPartsView {
        UriPartsView {
            scheme: self.scheme@,
            host: match self.host {
                Some(host) => Some(host@),
                None => None,
            },
            port: self.port,
            path: self.path@,
        }
    }
}

/// What `url::Url::parse` makes of `uri`: the scheme, host, port and path of
/// the URL it returns, or the error it returns.
pub uninterp spec fn uri_components(uri: Seq<char>) -> Result<UriPartsView, url::ParseError>;

/// Calls `url::Url::parse` and copies out of the URL what `Url::scheme`,
/// `Url::host_str`, `Url::port` and `Url::path` give. The contract only names
/// the outcome: it is a function of the text of `uri`.
#[verifier::external_body]
pub(crate) fn split_uri(uri: &str) -> (parsed: Result<UriParts, url::ParseError>)
    ensures
        match parsed {
            Ok(parts) => uri_components(uri@) == Ok::<UriPartsView, url::ParseError>(parts@),
            Err(error) => uri_components(uri@) == Err::<UriPartsView, url::ParseError>(error),
        },
{
    match url::Url::parse(uri) {
        Ok(parsed) => Ok(
            UriParts {
                scheme: parsed.scheme().to_string(),
                host: parsed.host_str().map(str::to_string),
                port: parsed.port(),
                path: parsed.path().to_string(),
            },
        ),
        Err(error) => Err(error),
    }
}

} // verus!
