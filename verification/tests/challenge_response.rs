use zk_identity::auth::AuthService;
use zk_identity::errors::AuthError;
use zk_identity::store::CredentialStore;

fn service() -> AuthService {
    AuthService::new(CredentialStore::new(), "test secret".to_string())
}

/// A string in the chain's signature wire format: base58 of 64 bytes.
fn well_formed_signature() -> String {
    bs58::encode([7u8; 64]).into_string()
}

#[test]
fn challenge_response_cycle_rotates_nonce_and_refuses_replay() {
    let mut auth = service();
    let n1 = auth.wallet_auth("0x1").unwrap().nonce;
    let sig = well_formed_signature();

    let n2 = auth.signature_auth("0x1", &sig, &n1, true).unwrap();
    assert_ne!(n2, n1);
    let stored = auth.store.find_wallet("0x1").unwrap().nonce;
    assert_eq!(stored, n2);

    // Replaying the consumed nonce is refused and changes nothing.
    let replay = auth.signature_auth("0x1", &sig, &n1, true);
    assert_eq!(replay.unwrap_err(), AuthError::InvalidSignature);
    assert_eq!(auth.store.find_wallet("0x1").unwrap().nonce, n2);

    // A fresh cycle with the new challenge succeeds again.
    let n3 = auth.signature_auth("0x1", &sig, &n2, true).unwrap();
    assert_ne!(n3, n2);
}

#[test]
fn failed_attempt_leaves_nonce_unchanged() {
    let mut auth = service();
    let n1 = auth.wallet_auth("0x2").unwrap().nonce;

    // Not base58 at all.
    let r = auth.signature_auth("0x2", "!!!", &n1, true);
    assert_eq!(r.unwrap_err(), AuthError::InvalidSignature);
    assert_eq!(auth.store.find_wallet("0x2").unwrap().nonce, n1);

    // Base58, but not 64 bytes of signature.
    let short = bs58::encode([7u8; 32]).into_string();
    let r = auth.signature_auth("0x2", &short, &n1, true);
    assert_eq!(r.unwrap_err(), AuthError::InvalidSignature);
    assert_eq!(auth.store.find_wallet("0x2").unwrap().nonce, n1);
}

#[test]
fn unknown_wallet_is_refused() {
    let mut auth = service();
    let sig = well_formed_signature();
    let r = auth.signature_auth("0xNOBODY", &sig, "anything", true);
    assert_eq!(r.unwrap_err(), AuthError::UnknownWallet);
    let r = auth.update_nonce("0xNOBODY");
    assert_eq!(r.unwrap_err(), AuthError::UnknownWallet);
}

#[test]
fn verify_signature_is_pure_and_exact() {
    let mut auth = service();
    let n1 = auth.wallet_auth("0x3").unwrap().nonce;
    let sig = well_formed_signature();

    assert!(auth.verify_signature("0x3", &sig, &n1, true));
    // The predicate alone has no side effect: the stored nonce is untouched.
    assert_eq!(auth.store.find_wallet("0x3").unwrap().nonce, n1);

    assert!(!auth.verify_signature("0x3", &sig, "wrong nonce", true));
    assert!(!auth.verify_signature("0x3", "!!!", &n1, true));
    assert!(!auth.verify_signature("0xNOBODY", &sig, &n1, true));
}

#[test]
fn negative_chain_verdict_is_refused() {
    let mut auth = service();
    let n1 = auth.wallet_auth("0x5").unwrap().nonce;
    let sig = well_formed_signature();

    // Matching nonce and well-formed signature, but the chain collaborator
    // says the cryptographic check failed: refused, nothing changes.
    assert!(!auth.verify_signature("0x5", &sig, &n1, false));
    let r = auth.signature_auth("0x5", &sig, &n1, false);
    assert_eq!(r.unwrap_err(), AuthError::InvalidSignature);
    assert_eq!(auth.store.find_wallet("0x5").unwrap().nonce, n1);
}

#[test]
fn rotated_nonces_never_repeat() {
    let mut auth = service();
    let mut seen = vec![auth.wallet_auth("0x6").unwrap().nonce];
    for _ in 0..40 {
        let next = auth.update_nonce("0x6").unwrap();
        assert!(!seen.contains(&next), "a nonce regressed to an earlier value");
        seen.push(next);
    }
}

#[test]
fn challenge_message_is_canonical() {
    assert_eq!(
        zk_identity::auth::challenge_message("abc"),
        "Sign this message to authenticate: abc"
    );
    assert_eq!(
        zk_identity::auth::challenge_message(""),
        "Sign this message to authenticate: "
    );
}

#[test]
fn update_nonce_always_changes_the_stored_value() {
    let mut auth = service();
    let n1 = auth.wallet_auth("0x4").unwrap().nonce;
    let n2 = auth.update_nonce("0x4").unwrap();
    assert_ne!(n1, n2);
    assert_eq!(auth.store.find_wallet("0x4").unwrap().nonce, n2);
    let n3 = auth.update_nonce("0x4").unwrap();
    assert_ne!(n2, n3);
}
