use ark_bn254::{Bn254, Fr};
use ark_relations::r1cs::{
    ConstraintSynthesizer, ConstraintSystemRef, SynthesisError, Variable,
};
use ark_serialize::CanonicalSerialize;
use ark_snark::SNARK;
use base64::Engine;

use zk_identity::auth::AuthService;
use zk_identity::errors::AuthError;
use zk_identity::flows;
use zk_identity::store::CredentialStore;
use zk_identity::zk::mock::MockZKVerifier;
use zk_identity::zk::real_verifier::RealZKVerifier;
use zk_identity::zk::{ZKProver, ZKVerifier};

/// The fixed equality relation: the prover knows a private value equal to
/// the committed public input. This is the same topology the library's
/// proving path synthesizes; the trusted setup for it happens here.
struct EqualityCircuit {
    x: Option<Fr>,
}

impl ConstraintSynthesizer<Fr> for EqualityCircuit {
    fn generate_constraints(self, cs: ConstraintSystemRef<Fr>) -> Result<(), SynthesisError> {
        let input = cs.new_input_variable(|| self.x.ok_or(SynthesisError::AssignmentMissing))?;
        let witness = cs.new_witness_variable(|| self.x.ok_or(SynthesisError::AssignmentMissing))?;
        cs.enforce_constraint(input.into(), Variable::One.into(), witness.into())?;
        Ok(())
    }
}

fn setup_prover() -> ZKProver {
    let mut rng = rand::thread_rng();
    let circuit = EqualityCircuit { x: Some(Fr::from(1u64)) };
    let (pk, _vk) = ark_groth16::Groth16::<Bn254>::circuit_specific_setup(circuit, &mut rng)
        .expect("trusted setup");
    let mut pk_bytes = Vec::new();
    pk.serialize_compressed(&mut pk_bytes).expect("serialize proving key");
    ZKProver::new(pk_bytes).expect("key material usable")
}

fn setup_verifier() -> RealZKVerifier {
    RealZKVerifier::new(setup_prover())
}

#[test]
fn proof_round_trips_for_wallet_credentials() {
    let real = setup_verifier();
    let proof = real.create_wallet_proof("0xABCDEF").unwrap();
    assert!(real.check_wallet("0xABCDEF", &proof));
    assert!(real.verify_wallet("0xABCDEF", &proof));
}

#[test]
fn proof_round_trips_for_email_credentials() {
    let real = setup_verifier();
    let proof = real.create_email_proof("a@b.com").unwrap();
    assert!(real.check_email("a@b.com", &proof));
    assert!(real.verify_email("a@b.com", &proof));
}

#[test]
fn proof_round_trips_for_empty_credential() {
    let real = setup_verifier();
    let proof = real.create_wallet_proof("").unwrap();
    assert!(real.check_wallet("", &proof));
}

#[test]
fn proof_is_bound_to_its_credential() {
    let real = setup_verifier();
    let proof = real.create_wallet_proof("0xAAA").unwrap();
    assert!(!real.check_wallet("0xBBB", &proof));
    // Both credential kinds run the same hash-to-field binding, so the same
    // string is accepted either way.
    assert_eq!(real.check_email("0xAAA", &proof), real.check_wallet("0xAAA", &proof));
}

#[test]
fn tampered_proofs_are_refused_without_crashing() {
    let real = setup_verifier();
    let proof = real.create_wallet_proof("0xTAMPER").unwrap();
    let bytes = base64::engine::general_purpose::STANDARD
        .decode(&proof)
        .expect("proof is base64");
    for i in 0..bytes.len() {
        let mut flipped = bytes.clone();
        flipped[i] ^= 0x01;
        let flipped_text = base64::engine::general_purpose::STANDARD.encode(&flipped);
        assert!(!real.check_wallet("0xTAMPER", &flipped_text), "byte {} accepted", i);
    }
}

#[test]
fn malformed_proof_encodings_are_refused() {
    let real = setup_verifier();
    assert!(!real.check_wallet("0xABC", "***not base64***"));
    assert!(!real.check_wallet("0xABC", ""));
    assert!(!real.check_wallet("0xABC", "AAAA"));
}

#[test]
fn unusable_key_material_is_refused() {
    let r = ZKProver::new(vec![1u8, 2, 3]);
    assert_eq!(r.unwrap_err(), AuthError::KeyUnavailable);
}

#[test]
fn hash_to_field_is_deterministic_and_binding() {
    let a1 = RealZKVerifier::hash_to_field("a");
    let a2 = RealZKVerifier::hash_to_field("a");
    let b = RealZKVerifier::hash_to_field("b");
    assert_eq!(a1, a2);
    assert_ne!(a1, b);
    assert_eq!(a1.len(), 32);
    // The mapping is a real digest, not the identity or a fixed value.
    assert_ne!(a1, RealZKVerifier::hash_to_field(""));
    assert_ne!(a1[..1], *"a".as_bytes());
}

#[test]
fn verifying_key_is_derived_from_the_proving_key() {
    let mut rng = rand::thread_rng();
    let circuit = EqualityCircuit { x: Some(Fr::from(1u64)) };
    let (pk, vk) = ark_groth16::Groth16::<Bn254>::circuit_specific_setup(circuit, &mut rng)
        .expect("trusted setup");
    let mut pk_bytes = Vec::new();
    pk.serialize_compressed(&mut pk_bytes).expect("serialize proving key");
    let mut vk_bytes = Vec::new();
    vk.serialize_compressed(&mut vk_bytes).expect("serialize verifying key");

    let prover = ZKProver::new(pk_bytes.clone()).expect("key material usable");
    let derived = prover.verifying_key_bytes();
    // The derived key is the embedded verifying key, not the input handed back.
    assert_eq!(derived, vk_bytes);
    assert_ne!(derived, pk_bytes);
    assert!(derived.len() < pk_bytes.len());
}

#[test]
fn create_proof_flow_and_zk_auth_flow_succeed_together() {
    let real = setup_verifier();
    let mut auth = AuthService::new(CredentialStore::new(), "secret".to_string());

    let created = flows::create_wallet_proof(
        &real,
        &flows::CreateProofRequest { wallet_address: "0xFLOW".to_string() },
    )
    .unwrap();
    assert!(created.public_inputs.is_empty());

    let resp = flows::wallet_zk_auth(
        &mut auth,
        &real,
        &flows::WalletZKAuthRequest {
            wallet_address: "0xFLOW".to_string(),
            zk_proof: flows::ZKProofRequest {
                proof: created.proof.clone(),
                public_inputs: vec![],
            },
        },
    )
    .unwrap();
    let stored = auth.store.find_wallet("0xFLOW").unwrap();
    assert_eq!(Some(resp.user_id.clone()), stored.identity_id);
    assert!(!resp.token.is_empty());

    // Authenticating again binds the token to the same identity.
    let again = flows::wallet_zk_auth(
        &mut auth,
        &real,
        &flows::WalletZKAuthRequest {
            wallet_address: "0xFLOW".to_string(),
            zk_proof: flows::ZKProofRequest {
                proof: created.proof.clone(),
                public_inputs: vec![],
            },
        },
    )
    .unwrap();
    assert_eq!(again.user_id, resp.user_id);
    assert_eq!(auth.store.identities.len(), 1);

    // A proof for one address does not authenticate another.
    let r = flows::wallet_zk_auth(
        &mut auth,
        &real,
        &flows::WalletZKAuthRequest {
            wallet_address: "0xOTHER".to_string(),
            zk_proof: flows::ZKProofRequest { proof: created.proof, public_inputs: vec![] },
        },
    );
    assert_eq!(r.unwrap_err(), AuthError::ProofVerificationFailed);
}

#[test]
fn email_zk_auth_flow_requires_linked_email() {
    let real = setup_verifier();
    let mut auth = AuthService::new(CredentialStore::new(), "secret".to_string());
    let created = flows::create_email_proof(
        &real,
        &flows::CreateEmailProofRequest { email: "a@b.com".to_string() },
    )
    .unwrap();

    // Proof verifies, but no email credential exists yet.
    let r = flows::email_zk_auth(
        &auth,
        &real,
        &flows::EmailZKAuthRequest {
            email: "a@b.com".to_string(),
            zk_proof: flows::ZKProofRequest {
                proof: created.proof.clone(),
                public_inputs: vec![],
            },
        },
    );
    assert_eq!(r.unwrap_err(), AuthError::NotFound);

    auth.wallet_auth("0xW").unwrap();
    auth.link_email_to_wallet("0xW", "a@b.com", "h").unwrap();
    let resp = flows::email_zk_auth(
        &auth,
        &real,
        &flows::EmailZKAuthRequest {
            email: "a@b.com".to_string(),
            zk_proof: flows::ZKProofRequest { proof: created.proof, public_inputs: vec![] },
        },
    )
    .unwrap();
    let stored_email = auth.store.find_email("a@b.com").unwrap();
    assert_eq!(Some(resp.user_id), stored_email.identity_id);
}

#[test]
fn mock_verifier_accepts_everything() {
    let mock = MockZKVerifier::new();
    assert!(mock.verify_wallet("any", "thing"));
    assert!(mock.verify_email("any", "thing"));
}
