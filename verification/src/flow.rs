//! The decision logic of the OAuth flow: validating a callback, attaching
//! the fetched profile, gating protected resources, and logging out. The
//! network steps (token exchange, profile fetch) happen between these
//! calls, outside the library; each function here is a pure decision over
//! the store and the request's plain values.

use vstd::prelude::*;

use crate::errors::AuthError;
use crate::models::{Profile, ProfileView, SessionView};
use crate::store::SessionStore;

verus! {

/// The query parameters the provider sends to the callback endpoint.
pub struct Oauth2CallbackRequest {
    pub code: String,
    pub state: String,
}

/// Mathematical shape of the data released for a token exchange.
pub ghost struct TokenExchangeView {
    pub session_id: Seq<char>,
    pub code: Seq<char>,
    pub pkce_code_verifier: Seq<char>,
}

/// What a validated callback releases: everything the token exchange
/// needs, and nothing is released on any validation failure.
pub struct TokenExchange {
    pub session_id: String,
    pub code: String,
    pub pkce_code_verifier: String,
}

impl View for TokenExchange {
    type V = TokenExchangeView;

    open spec fn view(&self) -> TokenExchangeView {
        TokenExchangeView {
            session_id: self.session_id@,
            code: self.code@,
            pkce_code_verifier: self.pkce_code_verifier@,
        }
    }
}

/// Rejection of a gated request: an opaque redirect into the login flow,
/// deliberately identical for every failure cause.
pub struct AuthRedirect;

impl AuthRedirect {
    /// Where the rejected user agent is sent: the login initiator.
    pub fn location(&self) -> (r: String)
        ensures
            r@ == "/oauth2/line/login"@,
    {
        "/oauth2/line/login".to_owned()
    }
}

/// The authenticated profile a gated handler receives.
pub struct ProfileExtractor(pub Profile);

/// The view of an optional cookie value.
pub open spec fn spec_cookie(cookie: Option<&String>) -> Option<Seq<char>> {
    match cookie {
        Some(s) => Some(s@),
        None => None,
    }
}

/// The view of a validation result.
pub open spec fn exchange_result_view(r: Result<TokenExchange, AuthError>) -> Result<
    TokenExchangeView,
    AuthError,
> {
    match r {
        Ok(t) => Ok(t@),
        Err(e) => Err(e),
    }
}

/// What callback validation decides: reject a missing cookie, an unknown
/// session, or a `state` differing from the stored CSRF token — in that
/// order, so no exchange data ever leaves on a CSRF violation — and
/// otherwise release the code and the stored PKCE verifier.
pub open spec fn spec_callback_validate(
    m: Map<Seq<char>, SessionView>,
    cookie: Option<Seq<char>>,
    code: Seq<char>,
    state: Seq<char>,
) -> Result<TokenExchangeView, AuthError> {
    match cookie {
        None => Err(AuthError::NoSessionFromCookie),
        Some(sid) => if !m.contains_key(sid) {
            Err(AuthError::NoSessionInStore)
        } else if m[sid].csrf_token != state {
            Err(AuthError::CsrfTokenMismatch)
        } else {
            Ok(
                TokenExchangeView {
                    session_id: sid,
                    code: code,
                    pkce_code_verifier: m[sid].pkce_code_verifier,
                },
            )
        },
    }
}

/// What attaching the profile does to the store: the one mutation of a
/// session, a no-op when the session has vanished meanwhile.
pub open spec fn spec_complete_map(
    m: Map<Seq<char>, SessionView>,
    sid: Seq<char>,
    p: ProfileView,
) -> Map<Seq<char>, SessionView> {
    if m.contains_key(sid) {
        m.insert(sid, SessionView { profile: Some(p), ..m[sid] })
    } else {
        m
    }
}

/// Result of a lookup through the cookie: `Some` only when the map
/// holds the identifier and a profile was attached under it.
pub open spec fn spec_gate(m: Map<Seq<char>, SessionView>, cookie: Option<Seq<char>>) -> Option<
    ProfileView,
> {
    match cookie {
        None => None,
        Some(sid) => if m.contains_key(sid) {
            m[sid].profile
        } else {
            None
        },
    }
}

/// What logout does to the store.
pub open spec fn spec_logout(
    m: Map<Seq<char>, SessionView>,
    cookie: Option<Seq<char>>,
) -> Map<Seq<char>, SessionView> {
    match cookie {
        None => m,
        Some(sid) => m.remove(sid),
    }
}

/// Validates a callback before any token exchange: cookie present,
/// session known, `state` equal to the stored CSRF token. Only a fully
/// validated callback releases the exchange data.
pub fn callback_validate(
    store: &SessionStore,
    cookie: Option<&String>,
    request: &Oauth2CallbackRequest,
) -> (r: Result<TokenExchange, AuthError>)
    requires
        store.wf(),
    ensures
        exchange_result_view(r) == spec_callback_validate(
            store@,
            spec_cookie(cookie),
            request.code@,
            request.state@,
        ),
{
    let session_id = match cookie {
        None => {
            return Err(AuthError::NoSessionFromCookie);
        },
        Some(s) => s,
    };
    let session = match store.get(session_id) {
        None => {
            return Err(AuthError::NoSessionInStore);
        },
        Some(st) => st,
    };
    if *session.csrf_token() == request.state {
        Ok(
            TokenExchange {
                session_id: session_id.clone(),
                code: request.code.clone(),
                pkce_code_verifier: session.pkce_code_verifier().clone(),
            },
        )
    } else {
        Err(AuthError::CsrfTokenMismatch)
    }
}

/// Attaches the fetched profile to the session, after a validated
/// callback's token exchange and profile fetch have succeeded. Fails
/// only when the session has been removed in the meantime.
pub fn callback_complete(store: &mut SessionStore, session_id: &String, profile: Profile) -> (r:
    Result<(), AuthError>)
    requires
        old(store).wf(),
    ensures
        final(store).wf(),
        final(store)@ == spec_complete_map(old(store)@, session_id@, profile@),
        r is Ok <==> old(store)@.contains_key(session_id@),
        r is Err ==> r == Err::<(), AuthError>(AuthError::NoSessionInStore),
{
    if store.set_profile(session_id, profile) {
        Ok(())
    } else {
        Err(AuthError::NoSessionInStore)
    }
}

/// The authenticated-access gate: resolves the session cookie into the
/// profile, or rejects with a uniform redirect that never reveals which
/// step failed.
pub fn gate(store: &SessionStore, cookie: Option<&String>) -> (r: Result<
    ProfileExtractor,
    AuthRedirect,
>)
    requires
        store.wf(),
    ensures
        match r {
            Ok(pe) => spec_gate(store@, spec_cookie(cookie)) == Some(pe.0@),
            Err(_) => spec_gate(store@, spec_cookie(cookie)) is None,
        },
{
    let session_id = match cookie {
        None => {
            return Err(AuthRedirect);
        },
        Some(s) => s,
    };
    let session = match store.get(session_id) {
        None => {
            return Err(AuthRedirect);
        },
        Some(st) => st,
    };
    match session.profile() {
        Some(p) => Ok(ProfileExtractor(p.clone())),
        None => Err(AuthRedirect),
    }
}

/// Logout: removes the session the cookie names; a no-op without a
/// cookie or a matching entry. The browser's cookie itself is left
/// alone.
pub fn logout(store: &mut SessionStore, cookie: Option<&String>)
    requires
        old(store).wf(),
    ensures
        final(store).wf(),
        final(store)@ == spec_logout(old(store)@, spec_cookie(cookie)),
{
    match cookie {
        Some(session_id) => store.remove(session_id),
        None => (),
    }
}

/// A callback whose `state` differs from the session's stored CSRF token
/// always yields `CsrfTokenMismatch` — never a successful validation —
/// whatever code the caller supplied.
pub proof fn lemma_csrf_mismatch_rejected(
    m: Map<Seq<char>, SessionView>,
    sid: Seq<char>,
    code: Seq<char>,
    state: Seq<char>,
)
    requires
        m.contains_key(sid),
        m[sid].csrf_token != state,
    ensures
        spec_callback_validate(m, Some(sid), code, state) == Err::<
            TokenExchangeView,
            AuthError,
        >(AuthError::CsrfTokenMismatch),
{
}

/// A callback without a cookie, or with a cookie naming no stored
/// session, never validates, so no token exchange data is ever released
/// for it.
pub proof fn lemma_no_session_rejected(
    m: Map<Seq<char>, SessionView>,
    cookie: Option<Seq<char>>,
    code: Seq<char>,
    state: Seq<char>,
)
    requires
        match cookie {
            None => true,
            Some(sid) => !m.contains_key(sid),
        },
    ensures
        spec_callback_validate(m, cookie, code, state) == Err::<TokenExchangeView, AuthError>(
            match cookie {
                None => AuthError::NoSessionFromCookie,
                Some(_) => AuthError::NoSessionInStore,
            },
        ),
{
}

/// After a successful callback completion, a gate check over the same
/// session cookie returns exactly the profile that was attached.
pub proof fn lemma_complete_then_gate(
    m: Map<Seq<char>, SessionView>,
    sid: Seq<char>,
    p: ProfileView,
)
    requires
        m.contains_key(sid),
    ensures
        spec_gate(spec_complete_map(m, sid, p), Some(sid)) == Some(p),
{
}

/// Logout followed by a gate check with the same (still cookie-held)
/// session id rejects: the entry is gone from the store.
pub proof fn lemma_logout_then_gate(m: Map<Seq<char>, SessionView>, sid: Seq<char>)
    ensures
        spec_gate(spec_logout(m, Some(sid)), Some(sid)) is None,
{
}

/// While `profile` is `None` for an identifier, `spec_gate` yields
/// `None` for it too.
pub proof fn lemma_pending_rejected(m: Map<Seq<char>, SessionView>, sid: Seq<char>)
    requires
        m.contains_key(sid),
        m[sid].profile is None,
    ensures
        spec_gate(m, Some(sid)) is None,
{
}

/// Two logins with distinct fresh identifiers both sit in the store;
/// the browser's cookie, holding the later identifier, reaches exactly
/// the later session, while the earlier one remains stored.
pub proof fn lemma_two_logins(
    m: Map<Seq<char>, SessionView>,
    sid1: Seq<char>,
    sid2: Seq<char>,
    s1: SessionView,
    s2: SessionView,
)
    requires
        sid1 != sid2,
    ensures
        m.insert(sid1, s1).insert(sid2, s2).contains_key(sid1),
        m.insert(sid1, s1).insert(sid2, s2).contains_key(sid2),
        m.insert(sid1, s1).insert(sid2, s2)[sid2] == s2,
        m.insert(sid1, s1).insert(sid2, s2)[sid1] == s1,
        spec_gate(m.insert(sid1, s1).insert(sid2, s2), Some(sid2)) == s2.profile,
{
}

} // verus!
