//! The provider-facing side of the flow: the client configuration, the
//! random material a login needs (session identifier, CSRF token, PKCE
//! pair), and the authorization URL. The pieces an outside crate
//! computes stand behind trusted wrappers; the login initiator itself is
//! verified against their contracts.

use vstd::prelude::*;
use vstd::string::StrSliceExecFns;
use vstd::string::string_is_ascii;
use vstd::utf8::is_ascii_chars;

use crate::models::AuthState;
use crate::store::SessionStore;

verus! {

/// Whether a string is an absolute URL in the sense of url::Url::parse,
/// the check every oauth2 endpoint newtype applies.
pub uninterp spec fn is_url(s: Seq<char>) -> bool;

/// The S256 PKCE challenge of a verifier: its SHA-256 digest,
/// base64url-encoded without padding (RFC 7636).
pub uninterp spec fn pkce_challenge_of(verifier: Seq<char>) -> Seq<char>;

/// The authorization URL oauth2 renders for an endpoint, client id,
/// redirect URL, scope list, CSRF state and PKCE challenge.
pub uninterp spec fn authorize_url_of(
    auth_url: Seq<char>,
    client_id: Seq<char>,
    redirect_url: Seq<char>,
    scopes: Seq<Seq<char>>,
    state: Seq<char>,
    challenge: Seq<char>,
) -> Seq<char>;

/// Relies on uuid's Uuid::new_v4 and its hyphenated rendering: a fresh
/// random 128-bit session identifier as a string. Nothing can be
/// promised of a random value.
#[verifier::external_body]
fn ext_new_session_id() -> String {
    uuid::Uuid::new_v4().to_string()
}

/// Relies on oauth2's PkceCodeChallenge::new_random_sha256: the verifier
/// is the base64url rendering of 32 random bytes, hence 43 ASCII
/// characters, within the 43..=128 bound RFC 7636 demands.
#[verifier::external_body]
fn ext_new_pkce_verifier() -> (r: String)
    ensures
        43 <= r@.len() <= 128,
        string_is_ascii(&r),
{
    let (_challenge, verifier) = oauth2::PkceCodeChallenge::new_random_sha256();
    verifier.into_secret()
}

/// Relies on oauth2's PkceCodeChallenge::from_code_verifier_sha256: the
/// challenge is a pure function of the verifier (SHA-256, base64url,
/// RFC 7636 S256). The length and ASCII bounds keep the byte length
/// inside 43..=128, so the call's own length assertion cannot fire.
#[verifier::external_body]
fn ext_derive_challenge(verifier: &String) -> (r: String)
    requires
        43 <= verifier@.len() <= 128,
        string_is_ascii(verifier),
    ensures
        r@ == pkce_challenge_of(verifier@),
{
    let v = oauth2::PkceCodeVerifier::new(verifier.clone());
    oauth2::PkceCodeChallenge::from_code_verifier_sha256(&v).as_str().to_owned()
}

/// Relies on oauth2's AuthUrl::new, which accepts exactly the strings
/// url::Url::parse accepts.
#[verifier::external_body]
fn ext_check_url(s: &String) -> (r: bool)
    ensures
        r == is_url(s@),
{
    oauth2::AuthUrl::new(s.clone()).is_ok()
}

/// Relies on oauth2's Client::authorize_url and
/// AuthorizationRequest::url: with endpoints that parse (AuthUrl::new,
/// RedirectUrl::new, both url::Url::parse), the authorization URL is a
/// deterministic rendering of the auth endpoint, client id, redirect
/// URL, scopes, the fresh random CSRF state returned alongside, and the
/// S256 challenge of the verifier
/// (PkceCodeChallenge::from_code_verifier_sha256).
#[verifier::external_body]
fn ext_authorize_url(
    client_id: &String,
    auth_url: &String,
    redirect_url: &String,
    scopes: &Vec<String>,
    verifier: &String,
) -> (r: Option<(String, String)>)
    requires
        43 <= verifier@.len() <= 128,
        string_is_ascii(verifier),
    ensures
        (r is Some) == (is_url(auth_url@) && is_url(redirect_url@)),
        (match r {
            Some(p) => p.0@ == authorize_url_of(
                auth_url@,
                client_id@,
                redirect_url@,
                scopes@.map_values(|s: String| s@),
                p.1@,
                pkce_challenge_of(verifier@),
            ),
            None => true,
        }),
{
    let auth = oauth2::AuthUrl::new(auth_url.clone()).ok()?;
    let redirect = oauth2::RedirectUrl::new(redirect_url.clone()).ok()?;
    let client = oauth2::basic::BasicClient::new(oauth2::ClientId::new(client_id.clone()))
        .set_auth_uri(auth)
        .set_redirect_uri(redirect);
    let mut request = client.authorize_url(oauth2::CsrfToken::new_random);
    for scope in scopes {
        request = request.add_scope(oauth2::Scope::new(scope.clone()));
    }
    let pv = oauth2::PkceCodeVerifier::new(verifier.clone());
    let challenge = oauth2::PkceCodeChallenge::from_code_verifier_sha256(&pv);
    let (url, csrf) = request.set_pkce_challenge(challenge).url();
    Some((url.to_string(), csrf.secret().clone()))
}

/// Re-derives the PKCE challenge from a stored verifier, `None` when the
/// verifier is not one RFC 7636 admits (wrong length, or not ASCII).
/// Re-deriving from the verifier a login stored reproduces the challenge
/// embedded in that login's authorization URL.
pub fn derive_pkce_challenge(verifier: &String) -> (r: Option<String>)
    ensures
        (r is Some) == (43 <= verifier@.len() <= 128 && string_is_ascii(verifier)),
        r matches Some(c) ==> c@ == pkce_challenge_of(verifier@),
{
    let n = verifier.as_str().unicode_len();
    if 43 <= n && n <= 128 && verifier.as_str().is_ascii() {
        Some(ext_derive_challenge(verifier))
    } else {
        None
    }
}

/// Mathematical shape of the client configuration.
pub ghost struct OAuthConfigView {
    pub client_id: Seq<char>,
    pub client_secret: Seq<char>,
    pub auth_url: Seq<char>,
    pub token_url: Seq<char>,
    pub redirect_url: Seq<char>,
}

/// The provider endpoint descriptor: client credentials and the three
/// endpoint URLs, all validated at construction. Building it is a
/// startup-time step; a rejected configuration means the OAuth routes
/// cannot be served at all.
pub struct OAuthConfig {
    client_id: String,
    client_secret: String,
    auth_url: String,
    token_url: String,
    redirect_url: String,
}

impl View for OAuthConfig {
    type V = OAuthConfigView;

    closed spec fn view(&self) -> OAuthConfigView {
        OAuthConfigView {
            client_id: self.client_id@,
            client_secret: self.client_secret@,
            auth_url: self.auth_url@,
            token_url: self.token_url@,
            redirect_url: self.redirect_url@,
        }
    }
}

impl OAuthConfig {
    /// All three endpoint values must parse as URLs.
    pub open spec fn spec_valid(v: OAuthConfigView) -> bool {
        is_url(v.auth_url) && is_url(v.token_url) && is_url(v.redirect_url)
    }

    /// Assembles and validates the configuration; `None` exactly when an
    /// endpoint value is not a URL.
    pub fn new(
        client_id: String,
        client_secret: String,
        auth_url: String,
        token_url: String,
        redirect_url: String,
    ) -> (r: Option<OAuthConfig>)
        ensures
            (r is Some) == Self::spec_valid(
                OAuthConfigView {
                    client_id: client_id@,
                    client_secret: client_secret@,
                    auth_url: auth_url@,
                    token_url: token_url@,
                    redirect_url: redirect_url@,
                },
            ),
            r matches Some(c) ==> c@ == (OAuthConfigView {
                client_id: client_id@,
                client_secret: client_secret@,
                auth_url: auth_url@,
                token_url: token_url@,
                redirect_url: redirect_url@,
            }),
    {
        if ext_check_url(&auth_url) && ext_check_url(&token_url) && ext_check_url(&redirect_url) {
            Some(OAuthConfig { client_id, client_secret, auth_url, token_url, redirect_url })
        } else {
            None
        }
    }

    pub fn client_id(&self) -> (r: &String)
        ensures
            r@ == self@.client_id,
    {
        &self.client_id
    }

    pub fn client_secret(&self) -> (r: &String)
        ensures
            r@ == self@.client_secret,
    {
        &self.client_secret
    }

    pub fn auth_url(&self) -> (r: &String)
        ensures
            r@ == self@.auth_url,
    {
        &self.auth_url
    }

    pub fn token_url(&self) -> (r: &String)
        ensures
            r@ == self@.token_url,
    {
        &self.token_url
    }

    pub fn redirect_url(&self) -> (r: &String)
        ensures
            r@ == self@.redirect_url,
    {
        &self.redirect_url
    }
}

/// The scopes every login requests.
pub open spec fn login_scopes() -> Seq<Seq<char>> {
    seq!["profile"@, "openid"@]
}

fn make_login_scopes() -> (r: Vec<String>)
    ensures
        r@.map_values(|s: String| s@) == login_scopes(),
{
    let mut v: Vec<String> = Vec::new();
    v.push("profile".to_owned());
    v.push("openid".to_owned());
    proof {
        assert(v@.map_values(|s: String| s@) =~= login_scopes());
    }
    v
}

/// What the login initiator hands back: the fresh session identifier to
/// set as the cookie, and the authorization URL to redirect to.
pub struct LoginResponse {
    pub session_id: String,
    pub redirect_url: String,
}

/// Starts a login: generates a fresh session identifier, CSRF token and
/// PKCE verifier, stores the pending session, and returns the
/// authorization URL, whose embedded challenge is exactly the S256
/// digest of the stored verifier. `None` only when the configured
/// endpoint URLs do not parse; then the store is untouched.
pub fn login(store: &mut SessionStore, config: &OAuthConfig) -> (r: Option<LoginResponse>)
    requires
        old(store).wf(),
    ensures
        final(store).wf(),
        (r is Some) == (is_url(config@.auth_url) && is_url(config@.redirect_url)),
        r is None ==> final(store)@ == old(store)@,
        r matches Some(lr) ==> {
            &&& final(store)@.contains_key(lr.session_id@)
            &&& final(store)@ == old(store)@.insert(
                lr.session_id@,
                final(store)@[lr.session_id@],
            )
            &&& final(store)@[lr.session_id@].profile is None
            &&& 43 <= final(store)@[lr.session_id@].pkce_code_verifier.len() <= 128
            &&& is_ascii_chars(final(store)@[lr.session_id@].pkce_code_verifier)
            &&& lr.redirect_url@ == authorize_url_of(
                config@.auth_url,
                config@.client_id,
                config@.redirect_url,
                login_scopes(),
                final(store)@[lr.session_id@].csrf_token,
                pkce_challenge_of(final(store)@[lr.session_id@].pkce_code_verifier),
            )
        },
{
    let session_id = ext_new_session_id();
    let verifier = ext_new_pkce_verifier();
    let scopes = make_login_scopes();
    match ext_authorize_url(
        &config.client_id,
        &config.auth_url,
        &config.redirect_url,
        &scopes,
        &verifier,
    ) {
        None => None,
        Some((url, csrf_token)) => {
            store.create(session_id.clone(), AuthState::new_pending(csrf_token, verifier));
            Some(LoginResponse { session_id, redirect_url: url })
        },
    }
}

} // verus!
