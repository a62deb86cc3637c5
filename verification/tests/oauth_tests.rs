use random_album::errors::AuthError;
use random_album::oauth::{authorize_url, begin_oauth, urlencode, ClientConfig, TokenStore, UserState};
use random_album::oauth_token::{OAuthToken, TokenResponseData};

fn config() -> ClientConfig {
    ClientConfig {
        client_id: "my client+id".to_string(),
        client_secret: "SECRET-REDACTED".to_string(),
        redirect_url: "https://example.invalid/callback".to_string(),
        auth_url: "https://accounts.spotify.com/authorize".to_string(),
        token_url: "https://accounts.spotify.com/api/token".to_string(),
        scope: "user-library-read".to_string(),
    }
}

fn valid_response(access: &str) -> TokenResponseData {
    TokenResponseData {
        access_token: access.to_string(),
        expires_in: Some(3600),
        refresh_token: Some("refresh-1".to_string()),
    }
}

#[test]
fn urlencode_passes_unreserved_through() {
    assert_eq!(urlencode("AZaz09-._~"), "AZaz09-._~");
}

#[test]
fn urlencode_escapes_reserved() {
    assert_eq!(urlencode("a b+c/d"), "a%20b%2Bc%2Fd");
}

#[test]
fn urlencode_escapes_non_ascii_as_utf8_bytes() {
    assert_eq!(urlencode("caf\u{00E9}"), "caf%C3%A9");
    assert_eq!(urlencode("\u{2117}"), "%E2%84%97");
    assert_eq!(urlencode("\u{1F600}"), "%F0%9F%98%80");
}

#[test]
fn authorize_url_is_exact() {
    let url = authorize_url(&config(), "STATE123");
    assert_eq!(
        url,
        "https://accounts.spotify.com/authorize?response_type=code&client_id=my%20client%2Bid\
         &scope=user-library-read&redirect_uri=https%3A%2F%2Fexample.invalid%2Fcallback\
         &state=STATE123"
    );
}

#[test]
fn begin_oauth_binds_fresh_key() {
    let mut store = TokenStore::new();
    let (url, key) = begin_oauth(&mut store, config());
    assert_eq!(key.chars().count(), 16);
    assert!(key.chars().all(|c| c.is_ascii_hexdigit()));
    assert!(url.ends_with(&format!("&state={}", key)));
    assert!(store.contains(&key));
}

#[test]
fn complete_session_transitions_once() {
    let mut store = TokenStore::new();
    store.put("k".to_string(), UserState::NeedsUserAuth(config()));
    let res = store.complete_session("k", 1000, Some(valid_response("access-1")));
    assert_eq!(res, Ok(()));
    let token = store.token_checked("k", 1000, None);
    assert_eq!(token, Ok("access-1".to_string()));
}

#[test]
fn complete_session_failure_removes_entry() {
    let mut store = TokenStore::new();
    store.put("k".to_string(), UserState::NeedsUserAuth(config()));
    let res = store.complete_session("k", 1000, None);
    assert_eq!(res, Err(AuthError::ExchangeFailed));
    assert!(!store.contains("k"));
    let token = store.token_checked("k", 1000, None);
    assert_eq!(token, Err(AuthError::AuthRequired));
}

#[test]
fn complete_session_invalid_response_removes_entry() {
    let mut store = TokenStore::new();
    store.put("k".to_string(), UserState::NeedsUserAuth(config()));
    let bad = TokenResponseData {
        access_token: "access-1".to_string(),
        expires_in: Some(3600),
        refresh_token: None,
    };
    let res = store.complete_session("k", 1000, Some(bad));
    assert_eq!(res, Err(AuthError::ExchangeFailed));
    assert!(!store.contains("k"));
}

#[test]
fn complete_session_missing_key_requires_auth() {
    let mut store = TokenStore::new();
    let res = store.complete_session("k", 1000, Some(valid_response("access-1")));
    assert_eq!(res, Err(AuthError::AuthRequired));
}

#[test]
fn complete_session_keeps_finished_entry() {
    let mut store = TokenStore::new();
    store.put("k".to_string(), UserState::NeedsUserAuth(config()));
    assert_eq!(store.complete_session("k", 1000, Some(valid_response("access-1"))), Ok(()));
    let res = store.complete_session("k", 1001, Some(valid_response("access-2")));
    assert_eq!(res, Err(AuthError::ExchangeFailed));
    let token = store.token_checked("k", 1001, None);
    assert_eq!(token, Ok("access-1".to_string()));
}

#[test]
fn pending_session_requires_auth() {
    let mut store = TokenStore::new();
    store.put("k".to_string(), UserState::NeedsUserAuth(config()));
    let token = store.token_checked("k", 1000, None);
    assert_eq!(token, Err(AuthError::AuthRequired));
}

#[test]
fn cached_token_served_until_expiry() {
    let mut token = OAuthToken {
        token: "access-1".to_string(),
        expiration: 2000,
        refresh_token: "refresh-1".to_string(),
    };
    assert_eq!(token.token_checked(1999, None), Ok("access-1".to_string()));
    assert!(token.needs_refresh(2000));
    assert!(!token.needs_refresh(1999));
}

#[test]
fn failed_refresh_leaves_token_unchanged() {
    let mut token = OAuthToken {
        token: "access-1".to_string(),
        expiration: 2000,
        refresh_token: "refresh-1".to_string(),
    };
    assert_eq!(token.token_checked(2000, None), Err(AuthError::RefreshFailed));
    assert_eq!(token.token, "access-1");
    assert_eq!(token.expiration, 2000);
    assert_eq!(token.refresh_token, "refresh-1");
}

#[test]
fn refresh_replaces_all_fields_together() {
    let mut token = OAuthToken {
        token: "access-1".to_string(),
        expiration: 2000,
        refresh_token: "refresh-1".to_string(),
    };
    let fresh = TokenResponseData {
        access_token: "access-2".to_string(),
        expires_in: Some(100),
        refresh_token: Some("refresh-2".to_string()),
    };
    assert_eq!(token.token_checked(2500, Some(fresh)), Ok("access-2".to_string()));
    assert_eq!(token.token, "access-2");
    assert_eq!(token.expiration, 2600);
    assert_eq!(token.refresh_token, "refresh-2");
}

#[test]
fn refresh_with_zero_expiry_fails() {
    let mut token = OAuthToken {
        token: "access-1".to_string(),
        expiration: 2000,
        refresh_token: "refresh-1".to_string(),
    };
    let zero_expiry = TokenResponseData {
        access_token: "access-2".to_string(),
        expires_in: Some(0),
        refresh_token: Some("refresh-2".to_string()),
    };
    assert_eq!(token.token_checked(2500, Some(zero_expiry)), Err(AuthError::RefreshFailed));
    assert_eq!(token.token, "access-1");
    assert_eq!(token.expiration, 2000);
}

#[test]
fn refresh_with_invalid_response_fails() {
    let mut token = OAuthToken {
        token: "access-1".to_string(),
        expiration: 2000,
        refresh_token: "refresh-1".to_string(),
    };
    let missing_expiry = TokenResponseData {
        access_token: "access-2".to_string(),
        expires_in: None,
        refresh_token: Some("refresh-2".to_string()),
    };
    assert_eq!(token.token_checked(2500, Some(missing_expiry)), Err(AuthError::RefreshFailed));
    assert_eq!(token.token, "access-1");
}

#[test]
fn construction_rejects_missing_fields() {
    let missing_refresh = TokenResponseData {
        access_token: "access-1".to_string(),
        expires_in: Some(3600),
        refresh_token: None,
    };
    assert!(OAuthToken::try_from_response(0, &missing_refresh).is_err());
    let empty_refresh = TokenResponseData {
        access_token: "access-1".to_string(),
        expires_in: Some(3600),
        refresh_token: Some("".to_string()),
    };
    assert!(OAuthToken::try_from_response(0, &empty_refresh).is_err());
    let zero_expiry = TokenResponseData {
        access_token: "access-1".to_string(),
        expires_in: Some(0),
        refresh_token: Some("refresh-1".to_string()),
    };
    assert!(OAuthToken::try_from_response(0, &zero_expiry).is_err());
    let ok = OAuthToken::try_from_response(1000, &valid_response("access-1")).expect("valid");
    assert_eq!(ok.token, "access-1");
    assert_eq!(ok.expiration, 4600);
    assert_eq!(ok.refresh_token, "refresh-1");
}

#[test]
fn store_remove_forgets_session() {
    let mut store = TokenStore::new();
    store.put("k".to_string(), UserState::NeedsUserAuth(config()));
    store.remove("k");
    assert!(!store.contains("k"));
}
