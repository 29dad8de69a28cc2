//! The proxy's errors, their messages, and the HTTP responses that report them.

use vstd::prelude::*;
use vstd::std_specs::convert::FromSpecImpl;
use crate::text::{decimal, push_decimal};

verus! {

/// An error of the proxy.
#[derive(Debug, Clone)]
pub enum ProxyError {
    UpstreamError { provider: String, message: String },
    Timeout { provider: String },
    CircuitOpen { provider: String },
    RateLimitExceeded { limit: u32, window: String, retry_after: u32 },
    InvalidRequest { field: String, message: String },
    ConfigError(String),
    Internal(String),
}

/// An error, with its texts taken by their views.
pub enum ErrorView {
    UpstreamError { provider: Seq<char>, message: Seq<char> },
    Timeout { provider: Seq<char> },
    CircuitOpen { provider: Seq<char> },
    RateLimitExceeded { limit: u32, window: Seq<char>, retry_after: u32 },
    InvalidRequest { field: Seq<char>, message: Seq<char> },
    ConfigError(Seq<char>),
    Internal(Seq<char>),
}

impl View for ProxyError {
    type V = ErrorView;

    open spec fn view(&self) -> ErrorView {
        match self {
            ProxyError::UpstreamError { provider, message } => ErrorView::UpstreamError { provider: provider@, message: message@ },
            ProxyError::Timeout { provider } => ErrorView::Timeout { provider: provider@ },
            ProxyError::CircuitOpen { provider } => ErrorView::CircuitOpen { provider: provider@ },
            ProxyError::RateLimitExceeded { limit, window, retry_after } =>
                ErrorView::RateLimitExceeded { limit: *limit, window: window@, retry_after: *retry_after },
            ProxyError::InvalidRequest { field, message } => ErrorView::InvalidRequest { field: field@, message: message@ },
            ProxyError::ConfigError(m) => ErrorView::ConfigError(m@),
            ProxyError::Internal(m) => ErrorView::Internal(m@),
        }
    }
}

/// A value in the details of an error response.
#[derive(Debug, Clone)]
pub enum DetailValue {
    Text(String),
    Number(u32),
}

/// A named value in the details of an error response.
#[derive(Debug, Clone)]
pub struct DetailField {
    pub key: String,
    pub value: DetailValue,
}

/// What an error response carries: the HTTP status, the error type, the
/// message, the details (empty for none) and the seconds to wait, if any.
#[derive(Debug, Clone)]
pub struct ErrorParts {
    pub status: u16,
    pub error_type: String,
    pub message: String,
    pub details: Vec<DetailField>,
    pub retry_after: Option<u32>,
}

/// A detail value, abstractly.
pub enum DetailSpec {
    Text(Seq<char>),
    Number(u32),
}

/// The abstract value of a detail.
pub open spec fn detail_spec(d: DetailField) -> (Seq<char>, DetailSpec) {
    (d.key@, match d.value { DetailValue::Text(t) => DetailSpec::Text(t@), DetailValue::Number(n) => DetailSpec::Number(n) })
}

impl ProxyError {
    /// The message of the error.
    pub open spec fn display_text(&self) -> Seq<char> {
        match self {
            ProxyError::UpstreamError { provider, message } => "upstream error: "@ + provider@ + " - "@ + message@,
            ProxyError::Timeout { provider } => "request timeout: "@ + provider@,
            ProxyError::CircuitOpen { provider } => "circuit breaker open: "@ + provider@,
            ProxyError::RateLimitExceeded { limit, window, .. } =>
                "rate limit exceeded: "@ + decimal(*limit as nat) + " per "@ + window@,
            ProxyError::InvalidRequest { field, message } => "invalid request: "@ + field@ + " - "@ + message@,
            ProxyError::ConfigError(m) => "configuration error: "@ + m@,
            ProxyError::Internal(m) => "internal error: "@ + m@,
        }
    }

    /// The HTTP status that reports the error.
    pub open spec fn status_spec(&self) -> u16 {
        match self {
            ProxyError::UpstreamError { .. } => 502,
            ProxyError::Timeout { .. } => 504,
            ProxyError::CircuitOpen { .. } => 503,
            ProxyError::RateLimitExceeded { .. } => 429,
            ProxyError::InvalidRequest { .. } => 400,
            ProxyError::ConfigError(_) => 500,
            ProxyError::Internal(_) => 500,
        }
    }

    /// The error type that a response names.
    pub open spec fn error_type_spec(&self) -> Seq<char> {
        match self {
            ProxyError::UpstreamError { .. } => "upstream_error"@,
            ProxyError::Timeout { .. } => "timeout"@,
            ProxyError::CircuitOpen { .. } => "circuit_breaker_open"@,
            ProxyError::RateLimitExceeded { .. } => "rate_limit_exceeded"@,
            ProxyError::InvalidRequest { .. } => "invalid_request"@,
            ProxyError::ConfigError(_) => "internal_error"@,
            ProxyError::Internal(_) => "internal_error"@,
        }
    }

    /// The details that a response carries.
    pub open spec fn details_spec(&self) -> Seq<(Seq<char>, DetailSpec)> {
        match self {
            ProxyError::UpstreamError { provider, message } =>
                seq![("provider"@, DetailSpec::Text(provider@)), ("message"@, DetailSpec::Text(message@))],
            ProxyError::Timeout { provider } => seq![("provider"@, DetailSpec::Text(provider@))],
            ProxyError::CircuitOpen { provider } => seq![("provider"@, DetailSpec::Text(provider@))],
            ProxyError::RateLimitExceeded { limit, window, retry_after } => seq![
                ("limit"@, DetailSpec::Number(*limit)),
                ("window"@, DetailSpec::Text(window@)),
                ("retry_after"@, DetailSpec::Number(*retry_after)),
            ],
            ProxyError::InvalidRequest { field, message } =>
                seq![("field"@, DetailSpec::Text(field@)), ("message"@, DetailSpec::Text(message@))],
            ProxyError::ConfigError(m) => seq![("message"@, DetailSpec::Text(m@))],
            ProxyError::Internal(m) => seq![("message"@, DetailSpec::Text(m@))],
        }
    }

    /// The seconds to wait that a response carries.
    pub open spec fn retry_after_spec(&self) -> Option<u32> {
        match self {
            ProxyError::RateLimitExceeded { retry_after, .. } => Some(*retry_after),
            _ => None,
        }
    }

    /// The message of the error.
    pub fn to_string(&self) -> (s: String)
        ensures
            s@ == self.display_text(),
    {
        match self {
            ProxyError::UpstreamError { provider, message } => {
                let mut s = "upstream error: ".to_owned();
                s.append(provider.as_str());
                s.append(" - ");
                s.append(message.as_str());
                s
            },
            ProxyError::Timeout { provider } => {
                let mut s = "request timeout: ".to_owned();
                s.append(provider.as_str());
                s
            },
            ProxyError::CircuitOpen { provider } => {
                let mut s = "circuit breaker open: ".to_owned();
                s.append(provider.as_str());
                s
            },
            ProxyError::RateLimitExceeded { limit, window, .. } => {
                let mut s = "rate limit exceeded: ".to_owned();
                push_decimal(&mut s, *limit as u64);
                s.append(" per ");
                s.append(window.as_str());
                s
            },
            ProxyError::InvalidRequest { field, message } => {
                let mut s = "invalid request: ".to_owned();
                s.append(field.as_str());
                s.append(" - ");
                s.append(message.as_str());
                s
            },
            ProxyError::ConfigError(m) => {
                let mut s = "configuration error: ".to_owned();
                s.append(m.as_str());
                s
            },
            ProxyError::Internal(m) => {
                let mut s = "internal error: ".to_owned();
                s.append(m.as_str());
                s
            },
        }
    }

    /// The HTTP status that reports the error.
    pub fn status_code(&self) -> (code: u16)
        ensures
            code == self.status_spec(),
    {
        match self {
            ProxyError::UpstreamError { .. } => 502,
            ProxyError::Timeout { .. } => 504,
            ProxyError::CircuitOpen { .. } => 503,
            ProxyError::RateLimitExceeded { .. } => 429,
            ProxyError::InvalidRequest { .. } => 400,
            ProxyError::ConfigError(_) => 500,
            ProxyError::Internal(_) => 500,
        }
    }

    /// The error type that a response names.
    pub fn error_type(&self) -> (t: String)
        ensures
            t@ == self.error_type_spec(),
    {
        match self {
            ProxyError::UpstreamError { .. } => "upstream_error".to_owned(),
            ProxyError::Timeout { .. } => "timeout".to_owned(),
            ProxyError::CircuitOpen { .. } => "circuit_breaker_open".to_owned(),
            ProxyError::RateLimitExceeded { .. } => "rate_limit_exceeded".to_owned(),
            ProxyError::InvalidRequest { .. } => "invalid_request".to_owned(),
            ProxyError::ConfigError(_) => "internal_error".to_owned(),
            ProxyError::Internal(_) => "internal_error".to_owned(),
        }
    }

    /// Everything the response reporting the error carries.
    pub fn response_parts(&self) -> (p: ErrorParts)
        ensures
            p.status == self.status_spec(),
            p.error_type@ == self.error_type_spec(),
            p.message@ == self.display_text(),
            p.details@.map_values(|d: DetailField| detail_spec(d)) == self.details_spec(),
            p.retry_after == self.retry_after_spec(),
    {
        let mut details: Vec<DetailField> = Vec::new();
        let mut retry_after: Option<u32> = None;
        match self {
            ProxyError::UpstreamError { provider, message } => {
                details.push(text_detail("provider", provider));
                details.push(text_detail("message", message));
            },
            ProxyError::Timeout { provider } => {
                details.push(text_detail("provider", provider));
            },
            ProxyError::CircuitOpen { provider } => {
                details.push(text_detail("provider", provider));
            },
            ProxyError::RateLimitExceeded { limit, window, retry_after: wait } => {
                details.push(DetailField { key: "limit".to_owned(), value: DetailValue::Number(*limit) });
                details.push(text_detail("window", window));
                details.push(DetailField { key: "retry_after".to_owned(), value: DetailValue::Number(*wait) });
                retry_after = Some(*wait);
            },
            ProxyError::InvalidRequest { field, message } => {
                details.push(text_detail("field", field));
                details.push(text_detail("message", message));
            },
            ProxyError::ConfigError(m) => {
                details.push(text_detail("message", m));
            },
            ProxyError::Internal(m) => {
                details.push(text_detail("message", m));
            },
        }
        let p = ErrorParts {
            status: self.status_code(),
            error_type: self.error_type(),
            message: self.to_string(),
            details,
            retry_after,
        };
        proof {
            assert(p.details@.map_values(|d: DetailField| detail_spec(d)) =~= self.details_spec());
        }
        p
    }
}

fn text_detail(key: &str, value: &String) -> (d: DetailField)
    ensures
        detail_spec(d) == (key@, DetailSpec::Text(value@)),
{
    DetailField { key: key.to_owned(), value: DetailValue::Text(value.clone()) }
}

/// The error type that names an HTTP status.
pub open spec fn status_error_type(status: u16) -> Seq<char> {
    if status == 502 {
        "upstream_error"@
    } else if status == 504 {
        "timeout"@
    } else if status == 503 {
        "circuit_breaker_open"@
    } else if status == 429 {
        "rate_limit_exceeded"@
    } else {
        "internal_error"@
    }
}

impl ErrorParts {
    /// The response that replaces a server error (a status from 500 to 599):
    /// typed by its status and with the message `HTTP <status>`; none for any
    /// other status.
    pub fn for_server_status(status: u16) -> (p: Option<ErrorParts>)
        ensures
            p is Some <==> 500 <= status <= 599,
            p matches Some(q) ==> {
                &&& q.status == status
                &&& q.error_type@ == status_error_type(status)
                &&& q.message@ == "HTTP "@ + decimal(status as nat)
                &&& q.details@.len() == 0
                &&& q.retry_after is None
            },
    {
        if status < 500 || status > 599 {
            return None;
        }
        let error_type = if status == 502 {
            "upstream_error".to_owned()
        } else if status == 504 {
            "timeout".to_owned()
        } else if status == 503 {
            "circuit_breaker_open".to_owned()
        } else if status == 429 {
            "rate_limit_exceeded".to_owned()
        } else {
            "internal_error".to_owned()
        };
        let mut message = "HTTP ".to_owned();
        push_decimal(&mut message, status as u64);
        Some(ErrorParts { status, error_type, message, details: Vec::new(), retry_after: None })
    }
}

#[verifier::external_type_specification]
#[verifier::external_body]
pub struct ExParseError(url::ParseError);

#[verifier::external_type_specification]
#[verifier::external_body]
pub struct ExReqwestError(reqwest::Error);

/// The texts that the `Display` impl of `url::ParseError` writes, one per
/// variant.
pub open spec fn is_url_error_text(m: Seq<char>) -> bool {
    ||| m == "empty host"@
    ||| m == "invalid international domain name"@
    ||| m == "invalid port number"@
    ||| m == "invalid IPv4 address"@
    ||| m == "invalid IPv6 address"@
    ||| m == "invalid domain character"@
    ||| m == "relative URL without a base"@
    ||| m == "relative URL with a cannot-be-a-base base"@
    ||| m == "a cannot-be-a-base URL doesn\u{2019}t have a host to set"@
    ||| m == "URLs more than 4 GB are not supported"@
}

/// The message of a `url::ParseError`, by its `Display` impl. The error is
/// opaque here, so which variant it is stays unsaid; claimed: the text is the
/// description of one of the variants.
#[verifier::external_body]
fn parse_error_text(e: &url::ParseError) -> (t: String)
    ensures
        is_url_error_text(t@),
{
    e.to_string()
}

/// `reqwest::Error::is_timeout`: whether the request failed by timing out.
/// The error is opaque here, so nothing is claimed of the answer.
#[verifier::external_body]
fn timed_out(e: &reqwest::Error) -> bool {
    e.is_timeout()
}

/// The message of a `reqwest::Error`, by its `Display` impl. The error is
/// opaque here, so nothing is claimed of the text.
#[verifier::external_body]
fn transport_error_text(e: &reqwest::Error) -> String {
    e.to_string()
}

/// The prefix of the message of an error made from a URL that did not parse.
pub open spec fn url_error_prefix() -> Seq<char> {
    "URL parse error: "@
}

impl ProxyError {
    /// The error for a URL that did not parse with message `message`.
    pub fn from_url_error(message: &str) -> (e: ProxyError)
        ensures
            e@ == ErrorView::ConfigError(url_error_prefix() + message@),
    {
        let mut m = "URL parse error: ".to_owned();
        m.append(message);
        ProxyError::ConfigError(m)
    }

    /// The error for an upstream request that failed with `message`, timing
    /// out when `timed_out`; the provider is not known here.
    pub fn from_transport_error(timed_out: bool, message: String) -> (e: ProxyError)
        ensures
            timed_out ==> e@ == (ErrorView::Timeout { provider: "unknown"@ }),
            !timed_out ==> e@ == (ErrorView::UpstreamError { provider: "unknown"@, message: message@ }),
    {
        if timed_out {
            ProxyError::Timeout { provider: "unknown".to_owned() }
        } else {
            ProxyError::UpstreamError { provider: "unknown".to_owned(), message }
        }
    }
}

impl From<url::ParseError> for ProxyError {
    /// A configuration error with the parse error's message, the description
    /// of its variant.
    fn from(err: url::ParseError) -> (e: ProxyError)
        ensures
            (exists|m: Seq<char>| is_url_error_text(m) && e@ == ErrorView::ConfigError(url_error_prefix() + m)),
    {
        let text = parse_error_text(&err);
        ProxyError::from_url_error(text.as_str())
    }
}

impl FromSpecImpl<url::ParseError> for ProxyError {
    /// The message comes from the parse error's `Display`, which is not
    /// modelled: no value is promised beyond `from`'s own clause.
    open spec fn obeys_from_spec() -> bool {
        false
    }

    open spec fn from_spec(v: url::ParseError) -> ProxyError {
        vstd::pervasive::arbitrary()
    }
}

impl From<reqwest::Error> for ProxyError {
    /// A timeout when the request timed out, else an upstream error with the
    /// error's message; the provider is not known here.
    fn from(err: reqwest::Error) -> (e: ProxyError)
        ensures
            e@ == (ErrorView::Timeout { provider: "unknown"@ })
                || (exists|m: Seq<char>| e@ == (ErrorView::UpstreamError { provider: "unknown"@, message: m })),
    {
        let t = timed_out(&err);
        let message = transport_error_text(&err);
        ProxyError::from_transport_error(t, message)
    }
}

impl FromSpecImpl<reqwest::Error> for ProxyError {
    /// Whether the request timed out and the error's message come from
    /// `reqwest`, which is not modelled: no value is promised beyond `from`'s
    /// own clause.
    open spec fn obeys_from_spec() -> bool {
        false
    }

    open spec fn from_spec(v: reqwest::Error) -> ProxyError {
        vstd::pervasive::arbitrary()
    }
}

} // verus!
