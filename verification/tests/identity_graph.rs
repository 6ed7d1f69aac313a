use zk_identity::auth::AuthService;
use zk_identity::errors::AuthError;
use zk_identity::store::{CredentialStore, EmailIdentity, Identity};

fn service() -> AuthService {
    AuthService::new(CredentialStore::new(), "test secret".to_string())
}

#[test]
fn resolve_creates_identity_and_wallet_once() {
    let mut auth = service();
    let w1 = auth.wallet_auth("0xAB").unwrap();
    assert_eq!(w1.wallet_address, "0xAB");
    assert_eq!(auth.store.identities.len(), 1);
    assert_eq!(auth.store.wallets.len(), 1);
    assert!(w1.identity_id.is_some());

    let w2 = auth.wallet_auth("0xAB").unwrap();
    assert_eq!(w1.id, w2.id);
    assert_eq!(w1.nonce, w2.nonce);
    assert_eq!(auth.store.identities.len(), 1);
    assert_eq!(auth.store.wallets.len(), 1);
}

#[test]
fn resolve_distinct_addresses_creates_distinct_identities() {
    let mut auth = service();
    let w1 = auth.wallet_auth("0x1").unwrap();
    let w2 = auth.wallet_auth("0x2").unwrap();
    assert_ne!(w1.wallet_address, w2.wallet_address);
    assert_eq!(auth.store.identities.len(), 2);
    assert_eq!(auth.store.wallets.len(), 2);
}

#[test]
fn repeated_resolves_yield_one_identity() {
    let mut auth = service();
    let first = auth.wallet_auth("0xRACE").unwrap();
    let mut seen_existing = 0;
    for _ in 0..7 {
        let w = auth.wallet_auth("0xRACE").unwrap();
        if w.id == first.id {
            seen_existing += 1;
        }
    }
    assert_eq!(seen_existing, 7);
    assert_eq!(auth.store.identities.len(), 1);
}

#[test]
fn duplicate_create_is_a_conflict() {
    let mut auth = service();
    auth.wallet_auth("0xDUP").unwrap();
    let r = auth.store.create_identity_with_wallet("i2", "w2", "0xDUP", 0);
    assert_eq!(r.unwrap_err(), AuthError::Conflict);
    assert_eq!(auth.store.identities.len(), 1);
    assert_eq!(auth.store.wallets.len(), 1);
}

#[test]
fn link_wallet_requires_existing_email() {
    let mut auth = service();
    let r = auth.link_wallet_to_email("a@b.com", "0xAB");
    assert_eq!(r.unwrap_err(), AuthError::NotFound);
}

#[test]
fn link_email_requires_existing_wallet() {
    let mut auth = service();
    let r = auth.link_email_to_wallet("0xAB", "a@b.com", "hash");
    assert_eq!(r.unwrap_err(), AuthError::NotFound);
}

#[test]
fn link_email_then_wallet_shares_identity() {
    let mut auth = service();
    let w = auth.wallet_auth("0xW").unwrap();
    let wallet_identity = w.identity_id.clone().unwrap();
    let e = auth.link_email_to_wallet("0xW", "a@b.com", "hash").unwrap();
    assert_eq!(e.email, "a@b.com");
    assert_eq!(e.identity_id.clone().unwrap(), wallet_identity);
    assert_eq!(e.password_hash.clone().unwrap(), "hash");
    assert_eq!(auth.store.identities.len(), 1);
}

#[test]
fn link_email_conflicts_on_taken_email() {
    let mut auth = service();
    auth.wallet_auth("0xW1").unwrap();
    auth.wallet_auth("0xW2").unwrap();
    auth.link_email_to_wallet("0xW1", "a@b.com", "h1").unwrap();
    let r = auth.link_email_to_wallet("0xW2", "a@b.com", "h2");
    assert_eq!(r.unwrap_err(), AuthError::Conflict);
}

#[test]
fn link_wallet_conflicts_on_taken_address() {
    let mut auth = service();
    auth.wallet_auth("0xW").unwrap();
    auth.link_email_to_wallet("0xW", "a@b.com", "h").unwrap();
    let r = auth.link_wallet_to_email("a@b.com", "0xW");
    assert_eq!(r.unwrap_err(), AuthError::Conflict);
}

#[test]
fn linking_preserves_identity() {
    // An identity owning only an email credential, as after an email-first
    // registration; the linked wallet is then its first wallet credential.
    let store = CredentialStore::from_rows(
        vec![Identity { id: "ident-1".to_string(), created_at: 0, updated_at: 0 }],
        vec![],
        vec![EmailIdentity {
            id: "email-1".to_string(),
            identity_id: Some("ident-1".to_string()),
            email: "a@b.com".to_string(),
            email_verified: Some(false),
            password_hash: Some("h".to_string()),
            created_at: 0,
        }],
        0,
    );
    let mut auth = AuthService::new(store, "test secret".to_string());
    let w = auth.link_wallet_to_email("a@b.com", "0xAB").unwrap();
    assert_eq!(w.wallet_address, "0xAB");
    assert_eq!(w.identity_id.clone().unwrap(), "ident-1");

    let (email, wallet) = auth.get_user_identities("ident-1").unwrap();
    assert_eq!(email.unwrap().email, "a@b.com");
    assert_eq!(wallet.unwrap().wallet_address, "0xAB");
}

#[test]
fn get_identities_on_unknown_id_is_empty() {
    let auth = service();
    let (email, wallet) = auth.get_user_identities("nobody").unwrap();
    assert!(email.is_none());
    assert!(wallet.is_none());
}
