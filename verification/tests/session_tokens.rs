use zk_identity::auth::AuthService;
use zk_identity::errors::AuthError;
use zk_identity::flows::ErrorResponse;
use zk_identity::store::CredentialStore;

fn service(secret: &str) -> AuthService {
    AuthService::new(CredentialStore::new(), secret.to_string())
}

fn decode_claims(token: &str, secret: &str) -> serde_json::Value {
    let mut validation = jsonwebtoken::Validation::new(jsonwebtoken::Algorithm::HS256);
    validation.set_required_spec_claims(&["exp"]);
    let data = jsonwebtoken::decode::<serde_json::Value>(
        token,
        &jsonwebtoken::DecodingKey::from_secret(secret.as_bytes()),
        &validation,
    )
    .expect("token decodes under the issuing secret");
    data.claims
}

#[test]
fn issued_token_carries_subject_identity_and_expiry() {
    let auth = service("top secret");
    let before = chrono::Utc::now().timestamp();
    let (token, user_id) = auth.create_auth_token("alice@example.com", "ident-1").unwrap();
    let after = chrono::Utc::now().timestamp();

    assert_eq!(user_id, "ident-1");
    let claims = decode_claims(&token, "top secret");
    assert_eq!(claims.get("sub").unwrap().as_str().unwrap(), "alice@example.com");
    assert_eq!(claims.get("user_id").unwrap().as_str().unwrap(), "ident-1");
    let exp = claims.get("exp").unwrap().as_i64().unwrap();
    assert!(exp >= before + 86400);
    assert!(exp <= after + 86400);
}

#[test]
fn token_is_bound_to_the_signing_secret() {
    let auth = service("secret one");
    let (token, _) = auth.create_auth_token("sub", "ident").unwrap();
    let mut validation = jsonwebtoken::Validation::new(jsonwebtoken::Algorithm::HS256);
    validation.set_required_spec_claims(&["exp"]);
    let r = jsonwebtoken::decode::<serde_json::Value>(
        &token,
        &jsonwebtoken::DecodingKey::from_secret(b"another secret"),
        &validation,
    );
    assert!(r.is_err());
}

#[test]
fn token_issuance_at_a_fixed_clock_is_deterministic() {
    let auth = service("fixed");
    let (t1, u1) = auth.create_auth_token_at("sub", "ident", 1_000_000).unwrap();
    let (t2, u2) = auth.create_auth_token_at("sub", "ident", 1_000_000).unwrap();
    assert_eq!(t1, t2);
    assert_eq!(u1, u2);
    let (t3, _) = auth.create_auth_token_at("sub", "ident", 2_000_000).unwrap();
    assert_ne!(t1, t3);
}

#[test]
fn error_labels_are_stable() {
    assert_eq!(ErrorResponse::from_error(&AuthError::NotFound).error, "not found");
    assert_eq!(ErrorResponse::from_error(&AuthError::Conflict).error, "conflict");
    assert_eq!(
        ErrorResponse::from_error(&AuthError::InvalidSignature).error,
        "invalid signature"
    );
    assert_eq!(
        ErrorResponse::from_error(&AuthError::ProofVerificationFailed).error,
        "proof verification failed"
    );
    assert_eq!(ErrorResponse::from_error(&AuthError::UnknownWallet).error, "unknown wallet");
    assert_eq!(ErrorResponse::from_error(&AuthError::KeyUnavailable).error, "key unavailable");
    assert_eq!(
        ErrorResponse::from_error(&AuthError::StoreUnavailable).error,
        "store unavailable"
    );
    assert_eq!(
        ErrorResponse::from_error(&AuthError::MalformedProofEncoding).error,
        "malformed proof encoding"
    );
    assert_eq!(
        ErrorResponse::from_error(&AuthError::KeySetupFailure).error,
        "key setup failure"
    );
    assert_eq!(
        ErrorResponse::from_error(&AuthError::SigningFailure).error,
        "signing failure"
    );
}

#[test]
fn login_rejections_share_one_generic_label() {
    // Whichever sub-check refused the login, the wire label is the same, so
    // error shape cannot probe credential existence.
    let refused = [
        AuthError::NotFound,
        AuthError::UnknownWallet,
        AuthError::InvalidSignature,
        AuthError::ProofVerificationFailed,
        AuthError::MalformedProofEncoding,
    ];
    for e in refused {
        assert_eq!(ErrorResponse::rejection(&e).error, "unauthorized");
    }
    // Operational failures keep their own labels.
    assert_eq!(ErrorResponse::rejection(&AuthError::KeyUnavailable).error, "key unavailable");
    assert_eq!(
        ErrorResponse::rejection(&AuthError::StoreUnavailable).error,
        "store unavailable"
    );
}
