use catalog_mirror::brightcove::AccessTokenResponse;
use catalog_mirror::credential::{Credential, CredentialManager};
use catalog_mirror::error::AuthError;

fn answer(token: &str, expires_in: i64) -> AccessTokenResponse {
    AccessTokenResponse {
        access_token: token.to_string(),
        token_type: "Bearer".to_string(),
        expires_in,
    }
}

fn credential(token: &str, issued_at: u64, expires_in: i64) -> Credential {
    Credential { token: token.to_string(), issued_at, expires_in }
}

#[test]
fn first_exchange_that_fails_is_handed_back() {
    assert_eq!(CredentialManager::boot(Err(AuthError::Transport), 10).err(), Some(AuthError::Transport));
    assert_eq!(
        CredentialManager::boot(Err(AuthError::MalformedResponse), 10).err(),
        Some(AuthError::MalformedResponse)
    );
}

#[test]
fn first_exchange_gives_the_first_credential() {
    let manager = CredentialManager::boot(Ok(answer("t0", 300)), 1000).ok().unwrap();
    assert_eq!(manager.current(), credential("t0", 1000, 300));
}

#[test]
fn failed_refresh_leaves_the_prior_credential() {
    let mut manager = CredentialManager::boot(Ok(answer("t0", 300)), 1000).ok().unwrap();
    assert_eq!(manager.refresh(Ok(answer("t1", 300)), 1200), Ok(credential("t1", 1200, 300)));
    assert_eq!(manager.refresh(Err(AuthError::Transport), 1400), Err(AuthError::Transport));
    assert_eq!(manager.current(), credential("t1", 1200, 300));
    assert_eq!(
        manager.refresh(Err(AuthError::MalformedResponse), 1600),
        Err(AuthError::MalformedResponse)
    );
    assert_eq!(manager.current(), credential("t1", 1200, 300));
    assert!(manager.current().is_expired(1600));
}

#[test]
fn refresh_replaces_the_whole_credential() {
    let mut manager = CredentialManager::boot(Ok(answer("t0", 300)), 1000).ok().unwrap();
    assert_eq!(manager.refresh(Ok(answer("t1", 60)), 1250), Ok(credential("t1", 1250, 60)));
    assert_eq!(manager.current(), credential("t1", 1250, 60));
}

#[test]
fn credential_expires_at_the_end_of_its_window() {
    let held = credential("t0", 1000, 300);
    assert!(!held.is_expired(1000));
    assert!(!held.is_expired(1299));
    assert!(held.is_expired(1300));
    assert!(held.is_expired(u64::MAX));
    assert!(credential("t0", 1000, 0).is_expired(1000));
    assert!(credential("t0", 1000, -1).is_expired(999));
    assert!(!credential("t0", u64::MAX, i64::MAX).is_expired(u64::MAX));
    assert!(credential("t0", 0, i64::MIN).is_expired(0));
}
