//! The library's error type.

use vstd::prelude::*;

use crate::text::cat;

verus! {

/// Errors the commands report. Each maps to a process exit class in the
/// application shell (transient, config/auth, bad input, rate limit).
#[derive(Debug, Clone)]
pub enum AppError {
    /// The API answered with a non-success status.
    Api { status: u16, message: String },
    /// The API rejected the key.
    AuthFailed(String),
    /// The API asked us to slow down.
    RateLimited(String),
    /// The request or its response could not be handled.
    Http(String),
    /// A retryable failure (network, 5xx).
    Transient(String),
    /// The user's input is wrong; `suggestion` says how to fix it.
    InvalidInput { msg: String, suggestion: Option<String> },
    /// The configuration could not be read or written.
    Config(String),
    /// A local file operation failed.
    Io(String),
}

impl AppError {
    /// Bad input without a suggestion.
    pub fn bad_input(msg: String) -> (r: AppError)
        ensures
            r == (AppError::InvalidInput { msg, suggestion: None }),
    {
        AppError::InvalidInput { msg, suggestion: None }
    }

    /// Bad input with a suggestion.
    pub fn bad_input_with(msg: String, suggestion: String) -> (r: AppError)
        ensures
            r == (AppError::InvalidInput { msg, suggestion: Some(suggestion) }),
    {
        AppError::InvalidInput { msg, suggestion: Some(suggestion) }
    }
}

/// The error's class (which variant it is).
pub open spec fn error_kind(e: AppError) -> int {
    match e {
        AppError::Api { .. } => 0,
        AppError::AuthFailed(_) => 1,
        AppError::RateLimited(_) => 2,
        AppError::Http(_) => 3,
        AppError::Transient(_) => 4,
        AppError::InvalidInput { .. } => 5,
        AppError::Config(_) => 6,
        AppError::Io(_) => 7,
    }
}

/// `r` is `err` with `hint` appended to its message; variants that carry no
/// free-form message pass through unchanged.
pub open spec fn appended(err: AppError, r: AppError, hint: Seq<char>) -> bool {
    match err {
        AppError::Api { status, message } => r matches AppError::Api { status: s2, message: m2 }
            && s2 == status && m2@ == message@ + hint,
        AppError::AuthFailed(m) => r matches AppError::AuthFailed(m2) && m2@ == m@ + hint,
        AppError::RateLimited(m) => r matches AppError::RateLimited(m2) && m2@ == m@ + hint,
        AppError::Http(m) => r matches AppError::Http(m2) && m2@ == m@ + hint,
        AppError::Transient(m) => r matches AppError::Transient(m2) && m2@ == m@ + hint,
        AppError::InvalidInput { msg, suggestion } => r matches AppError::InvalidInput {
            msg: m2,
            suggestion: s2,
        } && m2@ == msg@ + hint && s2 == suggestion,
        _ => r == err,
    }
}

/// Appending a hint keeps the error's class and an API error's status.
pub proof fn lemma_hint_keeps_class(err: AppError, r: AppError, hint: Seq<char>)
    requires
        appended(err, r, hint),
    ensures
        error_kind(r) == error_kind(err),
        err matches AppError::Api { status, .. } ==> (r matches AppError::Api { status: s2, .. } && s2 == status),
{
}

/// Appends `hint` to the message of `err` (see [`appended`]).
pub fn append_to_message(err: AppError, hint: &str) -> (r: AppError)
    ensures
        appended(err, r, hint@),
{
    match err {
        AppError::Api { status, message } => AppError::Api {
            status,
            message: cat(message.as_str(), hint),
        },
        AppError::AuthFailed(m) => AppError::AuthFailed(cat(m.as_str(), hint)),
        AppError::RateLimited(m) => AppError::RateLimited(cat(m.as_str(), hint)),
        AppError::Http(m) => AppError::Http(cat(m.as_str(), hint)),
        AppError::Transient(m) => AppError::Transient(cat(m.as_str(), hint)),
        AppError::InvalidInput { msg, suggestion } => AppError::InvalidInput {
            msg: cat(msg.as_str(), hint),
            suggestion,
        },
        other => other,
    }
}

/// The error for a non-success HTTP answer: 401 and 403 reject the key,
/// 429 asks to slow down, 5xx is worth retrying, anything else is reported
/// with its status.
pub fn error_for_status(status: u16, message: String) -> (r: AppError)
    ensures
        r == (if status == 401 || status == 403 {
            AppError::AuthFailed(message)
        } else if status == 429 {
            AppError::RateLimited(message)
        } else if status >= 500 {
            AppError::Transient(message)
        } else {
            AppError::Api { status, message }
        }),
{
    if status == 401 || status == 403 {
        AppError::AuthFailed(message)
    } else if status == 429 {
        AppError::RateLimited(message)
    } else if status >= 500 {
        AppError::Transient(message)
    } else {
        AppError::Api { status, message }
    }
}

} // verus!
