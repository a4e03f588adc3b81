use erniebot_rs::credentials::{Credential, CredentialStore, TokenAction, TOKEN_TTL_SECS};
use erniebot_rs::errors::CredentialError;
use erniebot_rs::response::Response;

fn configured() -> CredentialStore {
    CredentialStore::new(Some("ak".to_string()), Some("sk".to_string()))
}

fn with_token(token: &str, issued_at: u64) -> CredentialStore {
    CredentialStore::with_cached(
        Some("ak".to_string()),
        Some("sk".to_string()),
        Some(Credential {
            token: token.to_string(),
            issued_at,
        }),
    )
}

#[test]
fn fresh_cache_returns_cached_token() {
    let s = with_token("tok", 1000);
    match s.token_action(1000 + TOKEN_TTL_SECS).unwrap() {
        TokenAction::UseCached(t) => assert_eq!(t, "tok"),
        TokenAction::Refresh { .. } => panic!("a fresh cache must not refresh"),
    }
}

#[test]
fn stale_cache_demands_refresh() {
    let s = with_token("tok", 1000);
    match s.token_action(1000 + TOKEN_TTL_SECS + 1).unwrap() {
        TokenAction::Refresh {
            client_id,
            client_secret,
        } => {
            assert_eq!(client_id, "ak");
            assert_eq!(client_secret, "sk");
        }
        TokenAction::UseCached(_) => panic!("a stale cache must refresh"),
    }
}

#[test]
fn absent_cache_demands_refresh() {
    let s = configured();
    assert!(matches!(
        s.token_action(0).unwrap(),
        TokenAction::Refresh { .. }
    ));
}

#[test]
fn missing_config_fails_without_refresh() {
    let s = CredentialStore::new(None, Some("sk".to_string()));
    assert!(matches!(
        s.token_action(0),
        Err(CredentialError::MissingConfig)
    ));
    let s2 = CredentialStore::new(Some("ak".to_string()), None);
    assert!(matches!(
        s2.token_action(0),
        Err(CredentialError::MissingConfig)
    ));
}

#[test]
fn refresh_once_then_cached() {
    let mut s = configured();
    assert!(matches!(
        s.token_action(500).unwrap(),
        TokenAction::Refresh { .. }
    ));
    let reply =
        Response::from_json_text("{\"access_token\":\"newtok\",\"expires_in\":2592000}").unwrap();
    let t = s.absorb_auth_reply(&reply, 500).unwrap();
    assert_eq!(t, "newtok");
    // an immediate second round hands the same token back, refreshing nothing
    match s.token_action(500).unwrap() {
        TokenAction::UseCached(t2) => assert_eq!(t2, "newtok"),
        TokenAction::Refresh { .. } => panic!("the stored token must be used"),
    }
    // and it stays cached for the whole validity window
    match s.token_action(500 + TOKEN_TTL_SECS).unwrap() {
        TokenAction::UseCached(t3) => assert_eq!(t3, "newtok"),
        TokenAction::Refresh { .. } => panic!("the token is still within its window"),
    }
}

#[test]
fn rejected_refresh_is_surfaced_and_stores_nothing() {
    let mut s = configured();
    let reply = Response::from_json_text(
        "{\"error\":\"invalid_client\",\"error_description\":\"unknown client id\"}",
    )
    .unwrap();
    match s.absorb_auth_reply(&reply, 7) {
        Err(CredentialError::RemoteRejected { code, description }) => {
            assert_eq!(code, "invalid_client");
            assert_eq!(description, "unknown client id");
        }
        _ => panic!("an error reply must be surfaced as a rejection"),
    }
    assert!(matches!(
        s.token_action(7).unwrap(),
        TokenAction::Refresh { .. }
    ));
}

#[test]
fn tokenless_auth_reply_is_a_transport_error() {
    let mut s = configured();
    let reply = Response::from_json_text("{\"expires_in\":30}").unwrap();
    assert!(matches!(
        s.absorb_auth_reply(&reply, 7),
        Err(CredentialError::Transport(_))
    ));
}
