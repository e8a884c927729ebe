//! Errors of the data sources.

use vstd::prelude::*;
use crate::text::{decimal, push_decimal, push_str};

verus! {

broadcast use vstd::string::group_string_axioms;

/// Error type for data source operations.
#[derive(Debug, Clone)]
pub enum DataError {
    NetworkError(String),
    ParseError(String),
    AuthError(String),
    NotFound(String),
}

/// The text of an error: its kind, a colon, and its detail.
pub open spec fn data_error_text(e: DataError) -> Seq<char> {
    match e {
        DataError::NetworkError(m) => "Network error: "@ + m@,
        DataError::ParseError(m) => "Parse error: "@ + m@,
        DataError::AuthError(m) => "Auth error: "@ + m@,
        DataError::NotFound(m) => "Not found: "@ + m@,
    }
}

impl DataError {
    /// The text shown for this error.
    pub fn message(&self) -> (r: String)
        ensures
            r@ == data_error_text(*self),
    {
        let mut r = String::new();
        match self {
            DataError::NetworkError(m) => {
                push_str(&mut r, "Network error: ");
                push_str(&mut r, m.as_str());
            },
            DataError::ParseError(m) => {
                push_str(&mut r, "Parse error: ");
                push_str(&mut r, m.as_str());
            },
            DataError::AuthError(m) => {
                push_str(&mut r, "Auth error: ");
                push_str(&mut r, m.as_str());
            },
            DataError::NotFound(m) => {
                push_str(&mut r, "Not found: ");
                push_str(&mut r, m.as_str());
            },
        }
        r
    }
}

/// `r` is a network error with detail `m`.
pub open spec fn is_network_error(r: Option<DataError>, m: Seq<char>) -> bool {
    match r {
        Some(DataError::NetworkError(x)) => x@ == m,
        _ => false,
    }
}

/// `r` is an authentication error with detail `m`.
pub open spec fn is_auth_error(r: Option<DataError>, m: Seq<char>) -> bool {
    match r {
        Some(DataError::AuthError(x)) => x@ == m,
        _ => false,
    }
}

/// `r` is a parse error with detail `m`.
pub open spec fn is_parse_error(r: Option<DataError>, m: Seq<char>) -> bool {
    match r {
        Some(DataError::ParseError(x)) => x@ == m,
        _ => false,
    }
}

/// Whether an HTTP status code means success (200 to 299).
pub open spec fn is_success_status(code: u16) -> bool {
    200 <= code <= 299
}

/// The error an HTTP response status gives for a plain data source: `None` on success
/// (200 to 299), else a network error with `failure_prefix` and the status text.
pub fn http_status_error(code: u16, status_text: &str, failure_prefix: &str) -> (r: Option<
    DataError,
>)
    ensures
        is_success_status(code) ==> r is None,
        !is_success_status(code) ==> is_network_error(r, failure_prefix@ + status_text@),
{
    if 200 <= code && code <= 299 {
        None
    } else {
        let mut m = String::new();
        push_str(&mut m, failure_prefix);
        push_str(&mut m, status_text);
        Some(DataError::NetworkError(m))
    }
}

/// The error a Grafana response status gives: 401 and 403 are authentication failures
/// (`Grafana authentication failed (HTTP <code>)`); other statuses are as for
/// `http_status_error`.
pub fn grafana_status_error(code: u16, status_text: &str, failure_prefix: &str) -> (r: Option<
    DataError,
>)
    ensures
        (code == 401 || code == 403) ==> is_auth_error(
            r,
            "Grafana authentication failed (HTTP "@ + decimal(code as nat) + ")"@,
        ),
        !(code == 401 || code == 403) && is_success_status(code) ==> r is None,
        !(code == 401 || code == 403) && !is_success_status(code) ==> is_network_error(
            r,
            failure_prefix@ + status_text@,
        ),
{
    if code == 401 || code == 403 {
        let mut m = String::new();
        push_str(&mut m, "Grafana authentication failed (HTTP ");
        push_decimal(&mut m, code as u128);
        push_str(&mut m, ")");
        Some(DataError::AuthError(m))
    } else {
        http_status_error(code, status_text, failure_prefix)
    }
}

} // verus!
