//! From the text of a URL to the host and port to connect to.

use crate::error::{fetch_view, FetchError, FetchErrorView};
use url::{ParseError, Url};
use vstd::prelude::*;
use webpki::DNSNameRef;

verus! {

/// The port of a Gemini server where the URL names none.
pub const DEFAULT_PORT: u16 = 1965;

/// The parts of a parsed URL that the choice of a target reads.
#[derive(Debug, PartialEq)]
pub struct UrlParts {
    /// The scheme, in lower case and without its colon.
    pub scheme: String,
    /// The host, where the URL has one.
    pub host: Option<String>,
    /// The port, where the URL gives one.
    pub port: Option<u16>,
}

/// What [`UrlParts`] hold.
pub struct UrlPartsView {
    pub scheme: Seq<char>,
    pub host: Option<Seq<char>>,
    pub port: Option<u16>,
}

/// Where to connect to.
#[derive(Debug, PartialEq)]
pub struct Target {
    pub host: String,
    pub port: u16,
}

/// What a [`Target`] holds.
pub struct TargetView {
    pub host: Seq<char>,
    pub port: u16,
}

impl View for UrlParts {
    type V = UrlPartsView;

    open spec fn view(&self) -> UrlPartsView {
        UrlPartsView {
            scheme: self.scheme@,
            host: match self.host {
                Some(host) => Some(host@),
                None => None,
            },
            port: self.port,
        }
    }
}

impl View for Target {
    type V = TargetView;

    open spec fn view(&self) -> TargetView {
        TargetView { host: self.host@, port: self.port }
    }
}

/// The error type of `url::Url::parse`, carried through unopened.
#[verifier::external_type_specification]
#[verifier::external_body]
pub struct ExParseError(ParseError);

/// What `url::Url::parse` makes of a text: the scheme, host and port of the
/// URL it parsed, or its error.
pub uninterp spec fn parsed_url(text: Seq<char>) -> Result<UrlPartsView, ParseError>;

/// Whether `webpki::DNSNameRef::try_from_ascii_str` accepts a host.
pub uninterp spec fn dns_name_syntax(host: Seq<char>) -> bool;

/// The view of a parse: the view of the parts, or the error as it is.
pub open spec fn parse_view(outcome: Result<UrlParts, ParseError>) -> Result<
    UrlPartsView,
    ParseError,
> {
    match outcome {
        Ok(parts) => Ok(parts@),
        Err(error) => Err(error),
    }
}

/// Parses `text` with `url::Url::parse` and copies out the scheme
/// (`Url::scheme`), the host (`Url::host_str`) and the port (`Url::port`) of
/// the URL. The outcome is the one that [`parsed_url`] names for the text.
#[verifier::external_body]
fn parse_url(text: &str) -> (r: Result<UrlParts, ParseError>)
    ensures
        parse_view(r) == parsed_url(text@),
{
    match Url::parse(text) {
        Ok(url) => Ok(
            UrlParts {
                scheme: url.scheme().to_owned(),
                host: url.host_str().map(str::to_owned),
                port: url.port(),
            },
        ),
        Err(error) => Err(error),
    }
}

/// Asks `webpki::DNSNameRef::try_from_ascii_str` whether `host` is a DNS name
/// in its syntax. The answer is the one that [`dns_name_syntax`] names.
#[verifier::external_body]
fn is_dns_name(host: &str) -> (r: bool)
    ensures
        r == dns_name_syntax(host@),
{
    DNSNameRef::try_from_ascii_str(host).is_ok()
}

/// The target that the parts of a URL lead to. The scheme must be `gemini`
/// or empty and a host must be there; the port falls back to
/// [`DEFAULT_PORT`].
pub open spec fn target_of_spec(parts: UrlPartsView) -> Result<TargetView, FetchErrorView> {
    if parts.scheme != "gemini"@ && parts.scheme.len() != 0 {
        Err(FetchErrorView::UnknownScheme(parts.scheme))
    } else {
        match parts.host {
            None => Err(FetchErrorView::InvalidHost),
            Some(host) => Ok(
                TargetView {
                    host,
                    port: match parts.port {
                        Some(port) => port,
                        None => DEFAULT_PORT,
                    },
                },
            ),
        }
    }
}

/// The target that a URL leads to: the text must parse as a URL, its parts
/// must lead to a target, and that target's host must be a DNS name.
pub open spec fn resolve_spec(url: Seq<char>) -> Result<TargetView, FetchErrorView> {
    match parsed_url(url) {
        Err(error) => Err(FetchErrorView::InvalidUrl(error)),
        Ok(parts) => match target_of_spec(parts) {
            Err(error) => Err(error),
            Ok(target) => if dns_name_syntax(target.host) {
                Ok(target)
            } else {
                Err(FetchErrorView::InvalidDnsName)
            },
        },
    }
}

/// Chooses the target from the parts of a parsed URL.
pub fn target_of(parts: UrlParts) -> (r: Result<Target, FetchError>)
    ensures
        fetch_view(r) == target_of_spec(parts@),
{
    let gemini = "gemini".to_owned();
    if parts.scheme != gemini && !parts.scheme.as_str().is_empty() {
        return Err(FetchError::UnknownScheme(parts.scheme));
    }
    let host = match parts.host {
        Some(host) => host,
        None => {
            return Err(FetchError::InvalidHost);
        },
    };
    let port: u16 = match parts.port {
        Some(port) => port,
        None => DEFAULT_PORT,
    };
    Ok(Target { host, port })
}

/// Finds the host and port that `url` asks to be fetched from.
pub fn resolve(url: &str) -> (r: Result<Target, FetchError>)
    ensures
        fetch_view(r) == resolve_spec(url@),
{
    let parts = match parse_url(url) {
        Ok(parts) => parts,
        Err(error) => {
            return Err(FetchError::InvalidUrl(error));
        },
    };
    let target = match target_of(parts) {
        Ok(target) => target,
        Err(error) => {
            return Err(error);
        },
    };
    if is_dns_name(target.host.as_str()) {
        Ok(target)
    } else {
        Err(FetchError::InvalidDnsName)
    }
}

} // verus!
