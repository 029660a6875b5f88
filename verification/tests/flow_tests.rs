use line_oauth::errors::AuthError;
use line_oauth::models::{AuthState, Profile};
use line_oauth::flow::{callback_complete, callback_validate, gate, logout, Oauth2CallbackRequest};

use line_oauth::provider::{derive_pkce_challenge, login, OAuthConfig};
use line_oauth::store::SessionStore;

fn test_config() -> OAuthConfig {
    OAuthConfig::new(
        "client-id".to_string(),
        "client-secret".to_string(),
        "https://provider.example/authorize".to_string(),
        "https://provider.example/token".to_string(),
        "https://app.example/oauth2/line/callback".to_string(),
    )
    .unwrap()
}

fn sample_profile() -> Profile {
    Profile::new(
        "U1".to_string(),
        "Alice".to_string(),
        "http://x/p.png".to_string(),
        "hi".to_string(),
    )
}

#[test]
fn config_rejects_bad_urls() {
    let bad = OAuthConfig::new(
        "id".to_string(),
        "secret".to_string(),
        "not a url".to_string(),
        "https://provider.example/token".to_string(),
        "https://app.example/cb".to_string(),
    );
    assert!(bad.is_none());
    let good = test_config();
    assert_eq!(good.client_id(), "client-id");
    assert_eq!(good.token_url(), "https://provider.example/token");
}

#[test]
fn login_creates_pending_session() {
    let mut store = SessionStore::new();
    let cfg = test_config();
    let lr = login(&mut store, &cfg).unwrap();
    let session = store.get(&lr.session_id).unwrap();
    assert!(session.profile().is_none());
    assert!(session.pkce_code_verifier().len() >= 43);
    assert!(session.pkce_code_verifier().len() <= 128);
    assert!(lr.redirect_url.starts_with("https://provider.example/authorize?"));
    assert!(lr.redirect_url.contains("response_type=code"));
    assert!(lr.redirect_url.contains("client_id=client-id"));
    assert!(lr.redirect_url.contains("scope=profile+openid"));
    assert!(lr.redirect_url.contains(&format!(
        "state={}",
        session.csrf_token()
    )));
}

#[test]
fn login_material_is_distinct_across_initiations() {
    let mut store = SessionStore::new();
    let cfg = test_config();
    let lr1 = login(&mut store, &cfg).unwrap();
    let lr2 = login(&mut store, &cfg).unwrap();
    assert_ne!(lr1.session_id, lr2.session_id);
    let s1 = store.get(&lr1.session_id).unwrap();
    let s2 = store.get(&lr2.session_id).unwrap();
    assert_ne!(s1.csrf_token(), s2.csrf_token());
    assert_ne!(s1.pkce_code_verifier(), s2.pkce_code_verifier());
    assert_ne!(s1.csrf_token(), s1.pkce_code_verifier());
    assert_ne!(&lr1.session_id, s1.csrf_token());
}

#[test]
fn challenge_in_url_rederives_from_stored_verifier() {
    let mut store = SessionStore::new();
    let cfg = test_config();
    let lr = login(&mut store, &cfg).unwrap();
    let session = store.get(&lr.session_id).unwrap();
    let verifier = session.pkce_code_verifier().clone();
    let challenge = derive_pkce_challenge(&verifier).unwrap();
    assert_ne!(challenge, verifier);
    assert!(lr.redirect_url.contains(&format!("code_challenge={}", challenge)));
    assert!(lr.redirect_url.contains("code_challenge_method=S256"));
}

#[test]
fn derive_challenge_rejects_out_of_range_verifier() {
    assert!(derive_pkce_challenge(&"short".to_string()).is_none());
    let long = "x".repeat(129);
    assert!(derive_pkce_challenge(&long).is_none());
    let ok = "a".repeat(43);
    assert!(derive_pkce_challenge(&ok).is_some());
}

#[test]
fn callback_with_wrong_state_is_csrf_mismatch() {
    let mut store = SessionStore::new();
    let cfg = test_config();
    let lr = login(&mut store, &cfg).unwrap();
    let request = Oauth2CallbackRequest {
        code: "valid-code".to_string(),
        state: "wrong".to_string(),
    };
    let r = callback_validate(&store, Some(&lr.session_id), &request);
    let err = r.err().unwrap();
    assert!(matches!(err, AuthError::CsrfTokenMismatch));
    assert_eq!(err.status_code(), 403);
    assert_eq!(err.error_body(), "{\"error\":\"csrf token mismatch\"}");
    // afterwards: no profile under this id, no access
    assert!(store.get(&lr.session_id).unwrap().profile().is_none());
    assert!(gate(&store, Some(&lr.session_id)).is_err());
}

#[test]
fn callback_without_cookie_releases_nothing() {
    let mut store = SessionStore::new();
    let cfg = test_config();
    let _ = login(&mut store, &cfg).unwrap();
    let request = Oauth2CallbackRequest {
        code: "valid-code".to_string(),
        state: "anything".to_string(),
    };
    let r = callback_validate(&store, None, &request);
    let err = r.err().unwrap();
    assert!(matches!(err, AuthError::NoSessionFromCookie));
    assert_eq!(err.status_code(), 401);
    assert_eq!(err.error_body(), "{\"error\":\"no session retrieved from cookie\"}");
}

#[test]
fn callback_with_forged_cookie_releases_nothing() {
    let mut store = SessionStore::new();
    let cfg = test_config();
    let _ = login(&mut store, &cfg).unwrap();
    let request = Oauth2CallbackRequest {
        code: "valid-code".to_string(),
        state: "anything".to_string(),
    };
    let forged = "no-such-session".to_string();
    let r = callback_validate(&store, Some(&forged), &request);
    let err = r.err().unwrap();
    assert!(matches!(err, AuthError::NoSessionInStore));
    assert_eq!(err.status_code(), 401);
    assert_eq!(err.error_body(), "{\"error\":\"no session found in store\"}");
}

#[test]
fn full_flow_stores_and_serves_profile() {
    let mut store = SessionStore::new();
    let cfg = test_config();
    let lr = login(&mut store, &cfg).unwrap();
    let csrf = store.get(&lr.session_id).unwrap().csrf_token().clone();
    let verifier = store.get(&lr.session_id).unwrap().pkce_code_verifier().clone();
    let request = Oauth2CallbackRequest {
        code: "auth-code".to_string(),
        state: csrf,
    };
    let tx = callback_validate(&store, Some(&lr.session_id), &request).unwrap();
    assert_eq!(tx.session_id, lr.session_id);
    assert_eq!(tx.code, "auth-code");
    assert_eq!(tx.pkce_code_verifier, verifier);
    // token exchange and profile fetch happen here, outside the library
    callback_complete(&mut store, &tx.session_id, sample_profile()).unwrap();
    let extracted = gate(&store, Some(&lr.session_id)).ok().unwrap();
    assert_eq!(extracted.0.user_id(), "U1");
    assert_eq!(extracted.0.display_name(), "Alice");
    assert_eq!(extracted.0.picture_url(), "http://x/p.png");
    assert_eq!(extracted.0.status_message(), "hi");
}

#[test]
fn complete_fails_when_session_vanished() {
    let mut store = SessionStore::new();
    let gone = "gone".to_string();
    let r = callback_complete(&mut store, &gone, sample_profile());
    assert!(matches!(r.err().unwrap(), AuthError::NoSessionInStore));
}

#[test]
fn gate_rejects_pending_missing_and_cookieless() {
    let mut store = SessionStore::new();
    let cfg = test_config();
    let lr = login(&mut store, &cfg).unwrap();
    // pending session: rejected
    let rejected = gate(&store, Some(&lr.session_id)).err().unwrap();
    assert_eq!(rejected.location(), "/oauth2/line/login");
    // no cookie: rejected
    assert!(gate(&store, None).is_err());
    // unknown session: rejected
    let unknown = "unknown".to_string();
    assert!(gate(&store, Some(&unknown)).is_err());
}

#[test]
fn logout_then_gate_rejects_despite_cookie() {
    let mut store = SessionStore::new();
    let cfg = test_config();
    let lr = login(&mut store, &cfg).unwrap();
    let csrf = store.get(&lr.session_id).unwrap().csrf_token().clone();
    let request = Oauth2CallbackRequest {
        code: "auth-code".to_string(),
        state: csrf,
    };
    let tx = callback_validate(&store, Some(&lr.session_id), &request).unwrap();
    callback_complete(&mut store, &tx.session_id, sample_profile()).unwrap();
    assert!(gate(&store, Some(&lr.session_id)).is_ok());
    logout(&mut store, Some(&lr.session_id));
    // the browser still holds the cookie, but the entry is gone
    assert!(gate(&store, Some(&lr.session_id)).is_err());
    assert!(store.get(&lr.session_id).is_none());
    // logging out again, or without a cookie, is a no-op
    logout(&mut store, Some(&lr.session_id));
    logout(&mut store, None);
}

#[test]
fn two_concurrent_logins_keep_both_sessions() {
    let mut store = SessionStore::new();
    let cfg = test_config();
    let lr1 = login(&mut store, &cfg).unwrap();
    let lr2 = login(&mut store, &cfg).unwrap();
    assert_ne!(lr1.session_id, lr2.session_id);
    assert!(store.get(&lr1.session_id).is_some());
    assert!(store.get(&lr2.session_id).is_some());
    // the browser's cookie now holds the later id; completing that login
    // makes the later session usable while the earlier one stays stored
    let csrf2 = store.get(&lr2.session_id).unwrap().csrf_token().clone();
    let request = Oauth2CallbackRequest {
        code: "code-2".to_string(),
        state: csrf2,
    };
    let tx = callback_validate(&store, Some(&lr2.session_id), &request).unwrap();
    callback_complete(&mut store, &tx.session_id, sample_profile()).unwrap();
    assert!(gate(&store, Some(&lr2.session_id)).is_ok());
    assert!(gate(&store, Some(&lr1.session_id)).is_err());
    assert!(store.get(&lr1.session_id).is_some());
}

#[test]
fn store_overwrites_colliding_id() {
    let mut store = SessionStore::new();
    let id = "same-id".to_string();
    store.create(id.clone(), AuthState::new_pending("c1".to_string(), "v1".to_string()));
    store.create(id.clone(), AuthState::new_pending("c2".to_string(), "v2".to_string()));
    let session = store.get(&id).unwrap();
    assert_eq!(session.csrf_token(), "c2");
    assert_eq!(session.pkce_code_verifier(), "v2");
}

#[test]
fn provider_failure_errors_map_to_500() {
    assert_eq!(AuthError::FetchTokenFailed.status_code(), 500);
    assert_eq!(AuthError::FetchTokenFailed.error_body(), "{\"error\":\"failed to fetch token\"}");
    assert_eq!(AuthError::FetchProfileFailed.status_code(), 500);
    assert_eq!(
        AuthError::FetchProfileFailed.error_body(),
        "{\"error\":\"failed to fetch profile\"}"
    );
}
