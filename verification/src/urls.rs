use vstd::prelude::*;

verus! {

/// The ways `url::Url::parse` and `url::Url::join` can fail.
#[derive(Clone, Copy, Debug, PartialEq, Eq)]
pub enum UrlError {
    EmptyHost,
    IdnaError,
    InvalidPort,
    InvalidIpv4Address,
    InvalidIpv6Address,
    InvalidDomainCharacter,
    RelativeUrlWithoutBase,
    RelativeUrlWithCannotBeABaseBase,
    SetHostOnCannotBeABaseUrl,
    Overflow,
    Other,
}

/// The parts of a parsed URL that the crawler reads: its serialization
/// (`href`), scheme, host and path.
#[derive(Clone, Debug, PartialEq, Eq)]
pub struct UrlParts {
    pub href: String,
    pub scheme: String,
    pub host: Option<String>,
    pub path: String,
}

pub struct UrlPartsView {
    pub href: Seq<char>,
    pub scheme: Seq<char>,
    pub host: Option<Seq<char>>,
    pub path: Seq<char>,
}

impl View for UrlParts {
    type V = UrlPartsView;

    open spec fn view(&self) -> UrlPartsView {
        UrlPartsView {
            href: self.href@,
            scheme: self.scheme@,
            host: match self.host {
                Some(h) => Some(h@),
                None => None,
            },
            path: self.path@,
        }
    }
}

/// What `url::Url::parse(input)` gives (the WHATWG URL parser): the parsed
/// URL read as `UrlParts`, or the variant of the `url::ParseError` it fails
/// with.
pub uninterp spec fn url_parse(input: Seq<char>) -> Result<UrlPartsView, UrlError>;

/// What `url::Url::parse(base)` followed by `Url::join(input)` on the parsed
/// base gives: the resolved URL read as `UrlParts`, or the variant of the
/// `url::ParseError` that the first failing call returns.
pub uninterp spec fn url_join(base: Seq<char>, input: Seq<char>) -> Result<UrlPartsView, UrlError>;

#[verifier::external_type_specification]
#[verifier::external_body]
pub struct ExUrlParseError(url::ParseError);

/// The library's name for the variant of a `url::ParseError`, one arm per
/// variant of the outside enum (which is `#[non_exhaustive]`: a variant
/// added later reads as `Other`). It converts the errors inside the two
/// wrappers below, whose contracts state the result.
#[verifier::external_body]
fn url_error_kind(e: &url::ParseError) -> UrlError {
    match e {
        url::ParseError::EmptyHost => UrlError::EmptyHost,
        url::ParseError::IdnaError => UrlError::IdnaError,
        url::ParseError::InvalidPort => UrlError::InvalidPort,
        url::ParseError::InvalidIpv4Address => UrlError::InvalidIpv4Address,
        url::ParseError::InvalidIpv6Address => UrlError::InvalidIpv6Address,
        url::ParseError::InvalidDomainCharacter => UrlError::InvalidDomainCharacter,
        url::ParseError::RelativeUrlWithoutBase => UrlError::RelativeUrlWithoutBase,
        url::ParseError::RelativeUrlWithCannotBeABaseBase => UrlError::RelativeUrlWithCannotBeABaseBase,
        url::ParseError::SetHostOnCannotBeABaseUrl => UrlError::SetHostOnCannotBeABaseUrl,
        url::ParseError::Overflow => UrlError::Overflow,
        _ => UrlError::Other,
    }
}

/// `url::Url::parse(input)`, the parsed URL read into `UrlParts` (its
/// `as_str`, `scheme`, `host_str` and `path`) and the error into `UrlError`.
/// The contract says that this is `url_parse(input)`.
#[verifier::external_body]
fn parse_url_raw(input: &str) -> (r: Result<UrlParts, UrlError>)
    ensures
        match r {
            Ok(u) => url_parse(input@) == Ok::<UrlPartsView, UrlError>(u@),
            Err(e) => url_parse(input@) == Err::<UrlPartsView, UrlError>(e),
        },
{
    url::Url::parse(input).map(|u| UrlParts {
        href: u.as_str().to_string(),
        scheme: u.scheme().to_string(),
        host: u.host_str().map(|h| h.to_string()),
        path: u.path().to_string(),
    }).map_err(|e| url_error_kind(&e))
}

/// `url::Url::parse(base)` and then `Url::join(input)` on the result, read
/// into `UrlParts`, the error into `UrlError`. The contract says that this
/// is `url_join(base, input)`.
#[verifier::external_body]
fn join_url_raw(base: &str, input: &str) -> (r: Result<UrlParts, UrlError>)
    ensures
        match r {
            Ok(u) => url_join(base@, input@) == Ok::<UrlPartsView, UrlError>(u@),
            Err(e) => url_join(base@, input@) == Err::<UrlPartsView, UrlError>(e),
        },
{
    url::Url::parse(base).and_then(|b| b.join(input)).map(|u| UrlParts {
        href: u.as_str().to_string(),
        scheme: u.scheme().to_string(),
        host: u.host_str().map(|h| h.to_string()),
        path: u.path().to_string(),
    }).map_err(|e| url_error_kind(&e))
}

/// `Ok` with the parts of `r`, or its error: how a result of `url_parse` or
/// `url_join` reads once the parts are taken by their view.
pub open spec fn parts_result(r: Result<UrlParts, UrlError>) -> Result<UrlPartsView, UrlError> {
    match r {
        Ok(u) => Ok(u@),
        Err(e) => Err(e),
    }
}

/// Parses `input` as an absolute URL: `url_parse(input)`.
pub fn parse_url(input: &str) -> (r: Result<UrlParts, UrlError>)
    ensures
        parts_result(r) == url_parse(input@),
{
    parse_url_raw(input)
}

/// Resolves `input` against the absolute URL `base`: `url_join(base, input)`.
pub fn join_url(base: &str, input: &str) -> (r: Result<UrlParts, UrlError>)
    ensures
        parts_result(r) == url_join(base@, input@),
{
    join_url_raw(base, input)
}

/// The host that `extract_domain` gives for `url`: the parsed URL's host,
/// or `url` itself when it does not parse or has no host.
pub open spec fn domain_of(url: Seq<char>) -> Seq<char> {
    match url_parse(url) {
        Ok(u) => match u.host {
            Some(h) => h,
            None => url,
        },
        Err(_) => url,
    }
}

/// The domain of a URL that parses with a host is exactly that host, as
/// the URL parser gives it (no part of it is dropped).
pub proof fn law_domain_is_host(url: Seq<char>, u: UrlPartsView, h: Seq<char>)
    requires
        url_parse(url) == Ok::<UrlPartsView, UrlError>(u),
        u.host == Some(h),
    ensures
        domain_of(url) == h,
{
}

/// A URL that does not parse, or has no host, is its own domain.
pub proof fn law_domain_without_host(url: Seq<char>)
    requires
        match url_parse(url) {
            Ok(u) => u.host is None,
            Err(_) => true,
        },
    ensures
        domain_of(url) == url,
{
}

/// The host of `url`, or `url` itself when it has none.
pub fn extract_domain(url: &str) -> (r: String)
    ensures
        r@ == domain_of(url@),
{
    match parse_url(url) {
        Ok(u) => match u.host {
            Some(h) => h,
            None => url.to_string(),
        },
        Err(_) => url.to_string(),
    }
}

/// The path that robots rules are matched against: the parsed URL's path,
/// or the empty string when `url` does not parse.
pub open spec fn path_of(url: Seq<char>) -> Seq<char> {
    match url_parse(url) {
        Ok(u) => u.path,
        Err(_) => seq![],
    }
}

/// The path of a URL that parses is the path the URL parser gives; a URL
/// that does not parse has the empty path.
pub proof fn law_path_is_parsed_path(url: Seq<char>)
    ensures
        match url_parse(url) {
            Ok(u) => path_of(url) == u.path,
            Err(_) => path_of(url).len() == 0,
        },
{
}

/// `path_of(url)`.
pub fn url_path(url: &str) -> (r: String)
    ensures
        r@ == path_of(url@),
{
    match parse_url(url) {
        Ok(u) => u.path,
        Err(_) => String::new(),
    }
}

} // verus!
