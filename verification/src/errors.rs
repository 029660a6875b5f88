//! The closed error taxonomy of the OAuth flow, with its mapping to
//! transport status codes and to the JSON error body sent to the client.

use vstd::prelude::*;
use vstd::string::StringExecFns;

verus! {

/// Everything that can go wrong while handling a callback or a gated
/// request. Provider failures are kept indistinguishable to the client
/// (both surface as 500), and so are the two "no session" cases (both
/// 401), to avoid leaking session-store internals.
#[derive(Debug, Clone, Copy, PartialEq, Eq, Structural)]
pub enum AuthError {
    FetchTokenFailed,
    FetchProfileFailed,
    NoSessionFromCookie,
    NoSessionInStore,
    CsrfTokenMismatch,
}

/// The HTTP status code each error is surfaced with.
pub open spec fn spec_status_code(e: AuthError) -> u16 {
    match e {
        AuthError::FetchTokenFailed => 500,
        AuthError::FetchProfileFailed => 500,
        AuthError::NoSessionFromCookie => 401,
        AuthError::NoSessionInStore => 401,
        AuthError::CsrfTokenMismatch => 403,
    }
}

/// The human-readable message for each error.
pub open spec fn spec_message(e: AuthError) -> Seq<char> {
    match e {
        AuthError::FetchTokenFailed => "failed to fetch token"@,
        AuthError::FetchProfileFailed => "failed to fetch profile"@,
        AuthError::NoSessionFromCookie => "no session retrieved from cookie"@,
        AuthError::NoSessionInStore => "no session found in store"@,
        AuthError::CsrfTokenMismatch => "csrf token mismatch"@,
    }
}

/// The JSON body sent with a failed callback: an object with a single
/// `error` field holding the message.
pub open spec fn spec_error_body(e: AuthError) -> Seq<char> {
    "{\"error\":\""@ + spec_message(e) + "\"}"@
}

impl AuthError {
    /// The HTTP status code this error is surfaced with: 500 for
    /// provider failures, 401 for a missing session, 403 for a CSRF
    /// violation.
    pub fn status_code(&self) -> (r: u16)
        ensures
            r == spec_status_code(*self),
    {
        match self {
            AuthError::FetchTokenFailed => 500,
            AuthError::FetchProfileFailed => 500,
            AuthError::NoSessionFromCookie => 401,
            AuthError::NoSessionInStore => 401,
            AuthError::CsrfTokenMismatch => 403,
        }
    }

    /// The error message shown to the client.
    pub fn message(&self) -> (r: String)
        ensures
            r@ == spec_message(*self),
    {
        match self {
            AuthError::FetchTokenFailed => "failed to fetch token".to_owned(),
            AuthError::FetchProfileFailed => "failed to fetch profile".to_owned(),
            AuthError::NoSessionFromCookie => "no session retrieved from cookie".to_owned(),
            AuthError::NoSessionInStore => "no session found in store".to_owned(),
            AuthError::CsrfTokenMismatch => "csrf token mismatch".to_owned(),
        }
    }

    /// The JSON error body, `{"error":"<message>"}`. The messages hold
    /// no character that JSON requires to be escaped, so plain
    /// concatenation yields a well-formed object.
    pub fn error_body(&self) -> (r: String)
        ensures
            r@ == spec_error_body(*self),
    {
        let mut body = "{\"error\":\"".to_owned();
        body.append(self.message().as_str());
        body.append("\"}");
        body
    }
}

} // verus!
