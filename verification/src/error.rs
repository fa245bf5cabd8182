//! The errors of a sync run, and how the retry policy reads them.

use vstd::prelude::*;
use crate::text::{decimal, format_u64};

verus! {

/// What can go wrong while syncing. Every failure is handled or passed on;
/// none is swallowed.
#[derive(Debug, Clone)]
pub enum Error {
    /// Configuration that cannot be used.
    Config(String),
    /// Upstream answered with a status that is not a success.
    ResponseCode { status: u16, method: String, url: String, body: String },
    /// The HTTP request itself failed; `status` is the response's, when there was one.
    Request { http_status: Option<u16>, message: String },
    Mongo(String),
    Bson(String),
    Redis(String),
    Json(String),
    Io(String),
}

pub type Result<T> = std::result::Result<T, Error>;

pub open spec fn status_spec(e: Error) -> Option<u16> {
    match e {
        Error::ResponseCode { status, .. } => Some(status),
        Error::Request { http_status, .. } => http_status,
        _ => None,
    }
}

/// 429 and every 5xx are worth another try; a request that failed without a
/// status (a connection error, a timeout) too; nothing else.
pub open spec fn retryable_spec(e: Error) -> bool {
    match status_spec(e) {
        Some(s) => s == 429 || s >= 500,
        None => e is Request,
    }
}

pub open spec fn message_spec(e: Error) -> Seq<char> {
    match e {
        Error::Config(m) => "config: "@ + m@,
        Error::ResponseCode { status, method, url, body } =>
            "["@ + method@ + "] "@ + decimal(status as nat) + " "@ + url@ + " "@ + body@,
        Error::Request { message, .. } => message@,
        Error::Mongo(m) => m@,
        Error::Bson(m) => m@,
        Error::Redis(m) => m@,
        Error::Json(m) => m@,
        Error::Io(m) => m@,
    }
}

impl Error {
    /// The HTTP status that upstream answered with.
    pub fn status(&self) -> (r: Option<u16>)
        ensures
            r == status_spec(*self),
    {
        match self {
            Error::ResponseCode { status, .. } => Some(*status),
            Error::Request { http_status, .. } => *http_status,
            _ => None,
        }
    }

    /// The resource does not exist: callers skip it rather than retry.
    pub fn is_not_found(&self) -> (r: bool)
        ensures
            r == (status_spec(*self) == Some(404u16)),
    {
        match self.status() {
            Some(s) => s == 404,
            None => false,
        }
    }

    /// Whether another attempt is worth making.
    pub fn is_retryable(&self) -> (r: bool)
        ensures
            r == retryable_spec(*self),
    {
        match self.status() {
            Some(s) => s == 429 || s >= 500,
            None => match self {
                Error::Request { .. } => true,
                _ => false,
            },
        }
    }

    /// The error as the logs and the task history show it.
    pub fn message(&self) -> (m: String)
        ensures
            m@ == message_spec(*self),
    {
        match self {
            Error::Config(m) => {
                let s = String::from_str("config: ");
                s.concat(m.as_str())
            },
            Error::ResponseCode { status, method, url, body } => {
                let s = String::from_str("[");
                let s = s.concat(method.as_str());
                let s = s.concat("] ");
                let code = format_u64(*status as u64);
                let s = s.concat(code.as_str());
                let s = s.concat(" ");
                let s = s.concat(url.as_str());
                let s = s.concat(" ");
                s.concat(body.as_str())
            },
            Error::Request { message, .. } => message.clone(),
            Error::Mongo(m) => m.clone(),
            Error::Bson(m) => m.clone(),
            Error::Redis(m) => m.clone(),
            Error::Json(m) => m.clone(),
            Error::Io(m) => m.clone(),
        }
    }
}

} // verus!
