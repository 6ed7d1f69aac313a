//! The production proof checker: binds credentials to field elements via the
//! hash-to-field mapping and runs the Groth16 pipeline on them.

use vstd::prelude::*;

use crate::codec::{b64_decoded, base64_decode, base64_encode};
use crate::zk::{
    field_element_bytes, groth16_verifies, keccak256_digest, spec_public_input, ZKProver,
    ZKVerifier,
};

verus! {

/// Whether a base64 proof string authenticates a credential string under
/// the given verifying key: the string must decode, and the decoded proof
/// must verify for the credential's public input.
pub open spec fn spec_verify_credential(
    verifying_key: Seq<u8>,
    credential: Seq<char>,
    proof_text: Seq<char>,
) -> bool {
    match b64_decoded(proof_text) {
        Some(p) => groth16_verifies(verifying_key, p, spec_public_input(credential)),
        None => false,
    }
}

/// The proof checker backed by the real proof system.
pub struct RealZKVerifier {
    prover: ZKProver,
}

impl RealZKVerifier {
    /// The verifying key this checker verifies against, in serialized form.
    pub closed spec fn spec_verifying_key(self) -> Seq<u8> {
        self.prover.spec_verifying_key()
    }

    /// Whether the wrapped key material came from the equality circuit's
    /// trusted setup; proof creation promises success-side completeness only
    /// under this hypothesis.
    pub closed spec fn spec_from_trusted_setup(self) -> bool {
        self.prover.spec_from_trusted_setup()
    }

    /// Wrap a prover built from persisted key material.
    pub fn new(prover: ZKProver) -> (r: RealZKVerifier)
        ensures
            r.spec_verifying_key() == prover.spec_verifying_key(),
            r.spec_from_trusted_setup() == prover.spec_from_trusted_setup(),
    {
        RealZKVerifier { prover }
    }

    /// The public input binding a credential string to a proof: the
    /// credential's bytes are hashed and the digest reduced to a field
    /// element. Deterministic and unique per digest, never a fixed value.
    pub fn hash_to_field(input: &str) -> (r: Vec<u8>)
        ensures
            r@ == spec_public_input(input@),
    {
        let digest = keccak256_digest(input);
        field_element_bytes(&digest)
    }

    /// Create a base64 proof that the caller knows `wallet`. Under key
    /// material from the trusted setup this succeeds, and the string decodes
    /// to a proof that this checker accepts for exactly this wallet address.
    pub fn create_wallet_proof(&self, wallet: &str) -> (r: Option<String>)
        ensures
            self.spec_from_trusted_setup() ==> r is Some,
            r matches Some(s) ==> (self.spec_from_trusted_setup() ==> exists|p: Seq<u8>|
                #[trigger] groth16_verifies(
                    self.spec_verifying_key(),
                    p,
                    spec_public_input(wallet@),
                ) && b64_decoded(s@) == Some(p)),
    {
        let input = Self::hash_to_field(wallet);
        match self.prover.create_proof(&input) {
            Ok(p) => {
                let encoded = base64_encode(&p);
                proof {
                    if self.spec_from_trusted_setup() {
                        assert(groth16_verifies(
                            self.spec_verifying_key(),
                            p@,
                            spec_public_input(wallet@),
                        ));
                    }
                }
                Some(encoded)
            },
            Err(_) => None,
        }
    }

    /// Create a base64 proof that the caller knows `email`. Under key
    /// material from the trusted setup this succeeds, and the string decodes
    /// to a proof that this checker accepts for exactly this email.
    pub fn create_email_proof(&self, email: &str) -> (r: Option<String>)
        ensures
            self.spec_from_trusted_setup() ==> r is Some,
            r matches Some(s) ==> (self.spec_from_trusted_setup() ==> exists|p: Seq<u8>|
                #[trigger] groth16_verifies(
                    self.spec_verifying_key(),
                    p,
                    spec_public_input(email@),
                ) && b64_decoded(s@) == Some(p)),
    {
        let input = Self::hash_to_field(email);
        match self.prover.create_proof(&input) {
            Ok(p) => {
                let encoded = base64_encode(&p);
                proof {
                    if self.spec_from_trusted_setup() {
                        assert(groth16_verifies(
                            self.spec_verifying_key(),
                            p@,
                            spec_public_input(email@),
                        ));
                    }
                }
                Some(encoded)
            },
            Err(_) => None,
        }
    }

    /// Check a base64 proof string against a wallet address. Total: any
    /// malformed encoding gives `false`, never a fault.
    pub fn check_wallet(&self, wallet: &str, proof: &str) -> (r: bool)
        ensures
            r == spec_verify_credential(self.spec_verifying_key(), wallet@, proof@),
    {
        let input = Self::hash_to_field(wallet);
        match base64_decode(proof) {
            Some(p) => self.prover.verify_proof(p.as_slice(), &input),
            None => false,
        }
    }

    /// Check a base64 proof string against an email. Total: any malformed
    /// encoding gives `false`, never a fault.
    pub fn check_email(&self, email: &str, proof: &str) -> (r: bool)
        ensures
            r == spec_verify_credential(self.spec_verifying_key(), email@, proof@),
    {
        let input = Self::hash_to_field(email);
        match base64_decode(proof) {
            Some(p) => self.prover.verify_proof(p.as_slice(), &input),
            None => false,
        }
    }
}

impl ZKVerifier for RealZKVerifier {
    /// A wallet pair is accepted exactly when the decoded proof verifies for
    /// the wallet's public input under this checker's key.
    open spec fn wallet_accepts(&self, wallet: Seq<char>, proof: Seq<char>) -> bool {
        spec_verify_credential(self.spec_verifying_key(), wallet, proof)
    }

    /// An email pair is accepted by the same predicate as a wallet pair:
    /// both credential kinds run one hash-to-field binding and one verifier.
    open spec fn email_accepts(&self, email: Seq<char>, proof: Seq<char>) -> bool {
        spec_verify_credential(self.spec_verifying_key(), email, proof)
    }

    fn verify_wallet(&self, wallet: &str, proof: &str) -> (r: bool) {
        self.check_wallet(wallet, proof)
    }

    fn verify_email(&self, email: &str, proof: &str) -> (r: bool) {
        self.check_email(email, proof)
    }
}

/// Round trip: a proof string created for a credential verifies for that
/// same credential. The premises are exactly what `create_wallet_proof` and
/// `create_email_proof` guarantee of a string they hand back under key
/// material from the trusted setup; the conclusion is exactly what
/// `check_wallet` and `check_email` return for that string presented with
/// the same credential under the same key. The checker's decode recovers the
/// proof the creator encoded, the hash-to-field binding recomputes the same
/// public input, and the verifier accepts. The trusted-setup hypothesis is
/// the key lifecycle itself: exactly one setup-produced pair is ever
/// persisted per store location, so a prover and checker sharing key
/// material share that provenance; a usable but foreign proving key would
/// yield proofs its embedded verifying key refuses, and no contract can
/// promise otherwise.
pub proof fn lemma_proof_round_trip(
    verifying_key: Seq<u8>,
    credential: Seq<char>,
    proof_text: Seq<char>,
    proof: Seq<u8>,
)
    requires
        b64_decoded(proof_text) == Some(proof),
        groth16_verifies(verifying_key, proof, spec_public_input(credential)),
    ensures
        spec_verify_credential(verifying_key, credential, proof_text) == true,
{
}

} // verus!
