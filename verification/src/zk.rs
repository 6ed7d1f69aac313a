//! The zero-knowledge proof pipeline: hash-to-field binding of a credential
//! string to a public input, Groth16 proof creation against a proving key,
//! and proof verification against the embedded verifying key.
//!
//! The circuit is the fixed equality relation "the prover knows a private
//! value equal to the committed public input"; its constraint system is
//! synthesized inside the trusted proving wrapper, and the one-time trusted
//! setup for the same topology is the surrounding application's concern (it
//! needs an implementation of the proving library's circuit trait, which
//! cannot be stated to the verifier). This module receives key material as
//! bytes and pins everything downstream of it.

pub mod mock;
pub mod real_verifier;

use vstd::prelude::*;

use ark_bn254::{Bn254, Fr};
use ark_ff::{BigInteger, PrimeField};
use ark_groth16::{Groth16, Proof, ProvingKey, VerifyingKey};
use ark_relations::r1cs::ConstraintMatrices;
use ark_serialize::{CanonicalDeserialize, CanonicalSerialize};
use ark_snark::SNARK;
use ark_std::One;
use sha3::Digest;

use crate::errors::AuthError;

verus! {

/// What Keccak-256 digests the UTF-8 encoding of a character string to. The
/// encoding is a function of the characters alone, so the digest is too.
pub uninterp spec fn keccak256_utf8(text: Seq<char>) -> Seq<u8>;

/// The canonical little-endian bytes of the BN254 scalar obtained by reducing
/// a little-endian byte string modulo the field's prime order.
pub uninterp spec fn field_repr(data: Seq<u8>) -> Seq<u8>;

/// The serialized verifying key embedded in a serialized proving key.
pub uninterp spec fn verifying_key_of(proving_key: Seq<u8>) -> Seq<u8>;

/// Whether proving-key bytes are usable: they deserialize to a proving key
/// whose query vectors are non-empty (the shape the prover indexes into) and
/// whose embedded verifying key serializes. `load_verifying_key` decides it.
pub uninterp spec fn pk_usable(proving_key: Seq<u8>) -> bool;

/// Whether these bytes serialize a proving key that the one-time randomized
/// trusted setup for the equality circuit produced. Nothing in this library
/// establishes it — key material arrives from the outside — so it stands as
/// a hypothesis: completeness of proving is promised only under it.
pub uninterp spec fn from_trusted_setup(proving_key: Seq<u8>) -> bool;

/// Whether the Groth16 verification algorithm accepts the proof for the
/// given verifying key and public input, all in serialized form. Malformed
/// key, proof or input bytes are always refused.
pub uninterp spec fn groth16_verifies(
    verifying_key: Seq<u8>,
    proof: Seq<u8>,
    public_input: Seq<u8>,
) -> bool;

/// The public input that binds a proof to a credential string: the
/// credential is hashed and the digest reduced to a field element.
pub open spec fn spec_public_input(credential: Seq<char>) -> Seq<u8> {
    field_repr(keccak256_utf8(credential))
}

/// Relies on sha3's Keccak-256 over the string's UTF-8 bytes: the digest is
/// a function of the characters alone and is 32 bytes long.
#[verifier::external_body]
pub(crate) fn keccak256_digest(text: &str) -> (r: Vec<u8>)
    ensures
        r@ == keccak256_utf8(text@),
        r@.len() == 32,
{
    sha3::Keccak256::digest(text.as_bytes()).to_vec()
}

/// Relies on ark_ff's `from_le_bytes_mod_order`: the reduced field element is
/// a function of the input bytes alone; its little-endian representation is
/// 32 bytes for BN254's scalar field.
#[verifier::external_body]
pub(crate) fn field_element_bytes(data: &Vec<u8>) -> (r: Vec<u8>)
    ensures
        r@ == field_repr(data@),
        r@.len() == 32,
{
    Fr::from_le_bytes_mod_order(&data[..]).into_bigint().to_bytes_le()
}

/// Relies on ark_groth16's key layout: a proving key embeds the verifying
/// key for the same circuit, so the latter is a function of the former. The
/// emptiness checks are the bound the prover's `calculate_coeff` indexes
/// into; refusing keys that fail them is what keeps proving panic-free. A
/// key produced by the trusted setup passes every check: the generator
/// fills each query vector and its keys round-trip through serialization.
#[verifier::external_body]
fn load_verifying_key(proving_key: &Vec<u8>) -> (r: Option<Vec<u8>>)
    ensures
        r is Some <==> pk_usable(proving_key@),
        r matches Some(vk) ==> vk@ == verifying_key_of(proving_key@),
        from_trusted_setup(proving_key@) ==> r is Some,
{
    let pk = ProvingKey::<Bn254>::deserialize_compressed(&proving_key[..]).ok()?;
    if pk.a_query.is_empty() || pk.b_g1_query.is_empty() || pk.b_g2_query.is_empty() {
        return None;
    }
    let mut out = Vec::new();
    pk.vk.serialize_compressed(&mut out).ok()?;
    Some(out)
}

/// Relies on rand's thread-local generator: 64 bytes of entropy for one
/// zero-knowledge randomizer. Random; nothing is promised of the value, and
/// the proving contract below holds for every value.
#[verifier::external_body]
fn random_seed() -> (r: Vec<u8>) {
    let mut bytes = vec![0u8; 64];
    rand::Rng::fill(&mut rand::thread_rng(), &mut bytes[..]);
    bytes
}

/// Relies on ark_groth16's prover and its completeness: for a proving key
/// from the equality circuit's trusted setup, a proof produced here (public
/// input = private witness, both set to the given field element, a relation
/// every field element satisfies) verifies under the verifying key embedded
/// in the proving key, whatever the randomizer seeds were. The constraint
/// matrices are the equality circuit's: one constraint, input * one =
/// witness, over the variables one (0), input (1) and witness (2) — the same
/// matrices the circuit synthesis for the trusted setup produces for this
/// topology. Of key bytes from any other source nothing is promised beyond
/// termination: usable keys (the precondition) deserialize and carry
/// non-empty query vectors, which is exactly what the prover indexes, so no
/// input this function admits can make it panic. A setup-produced key always
/// yields a proof.
#[verifier::external_body]
fn groth16_prove(
    proving_key: &Vec<u8>,
    public_input: &Vec<u8>,
    r_seed: &Vec<u8>,
    s_seed: &Vec<u8>,
) -> (r: Option<Vec<u8>>)
    requires
        pk_usable(proving_key@),
    ensures
        from_trusted_setup(proving_key@) ==> r is Some,
        r matches Some(p) ==> (from_trusted_setup(proving_key@) ==> groth16_verifies(
            verifying_key_of(proving_key@),
            p@,
            public_input@,
        )),
{
    let one = Fr::one();
    let m = ConstraintMatrices {
        num_instance_variables: 2, num_witness_variables: 1, num_constraints: 1,
        a_num_non_zero: 1, b_num_non_zero: 1, c_num_non_zero: 1,
        a: vec![vec![(one, 1)]], b: vec![vec![(one, 0)]], c: vec![vec![(one, 2)]],
    };
    let x = Fr::from_le_bytes_mod_order(public_input);
    let mut out = vec![];
    Groth16::<Bn254>::create_proof_with_reduction_and_matrices(
        &ProvingKey::deserialize_compressed(proving_key.as_slice()).ok()?,
        Fr::from_le_bytes_mod_order(r_seed),
        Fr::from_le_bytes_mod_order(s_seed),
        &m, 2, 1, &[one, x, x],
    ).ok()?.serialize_compressed(&mut out).ok()?;
    Some(out)
}

/// Relies on ark_groth16's verifier: verification is a pure function of the
/// verifying key, the proof bytes and the public input; any bytes that do not
/// deserialize, and any verification error, give `false` rather than a fault.
#[verifier::external_body]
fn groth16_verify(verifying_key: &Vec<u8>, proof: &[u8], public_input: &Vec<u8>) -> (r: bool)
    ensures
        r == groth16_verifies(verifying_key@, proof@, public_input@),
{
    let vk = match VerifyingKey::<Bn254>::deserialize_compressed(&verifying_key[..]) {
        Ok(vk) => vk,
        Err(_) => return false,
    };
    let proof = match Proof::<Bn254>::deserialize_compressed(proof) {
        Ok(p) => p,
        Err(_) => return false,
    };
    let x = Fr::from_le_bytes_mod_order(&public_input[..]);
    Groth16::<Bn254>::verify(&vk, &[x], &proof).unwrap_or(false)
}

/// The proof-system handle: serialized key material, loaded once and treated
/// as immutable for the process's lifetime. The verifying key always is the
/// one embedded in the proving key.
#[derive(Debug)]
pub struct ZKProver {
    proving_key: Vec<u8>,
    verifying_key: Vec<u8>,
}

impl ZKProver {
    /// The verifying key this prover verifies against, in serialized form.
    pub closed spec fn spec_verifying_key(self) -> Seq<u8> {
        self.verifying_key@
    }

    /// The proving key this prover proves with, in serialized form.
    pub closed spec fn spec_proving_key(self) -> Seq<u8> {
        self.proving_key@
    }

    /// Whether this prover's key material came from the equality circuit's
    /// trusted setup. The completeness of `create_proof` is conditional on
    /// it; nothing here can establish it, since key bytes arrive from the
    /// key-store collaborator.
    pub open spec fn spec_from_trusted_setup(self) -> bool {
        from_trusted_setup(self.spec_proving_key())
    }

    #[verifier::type_invariant]
    spec fn keys_consistent(self) -> bool {
        &&& self.verifying_key@ == verifying_key_of(self.proving_key@)
        &&& pk_usable(self.proving_key@)
    }

    /// Build a prover from persisted proving-key bytes, deriving the matching
    /// verifying key. Succeeds exactly on usable key material — bytes that
    /// deserialize to a fully shaped proving key, which every setup-produced
    /// key is — and refuses the rest with `KeyUnavailable`.
    pub fn new(proving_key: Vec<u8>) -> (r: Result<ZKProver, AuthError>)
        ensures
            r is Ok <==> pk_usable(proving_key@),
            match r {
                Ok(p) => p.spec_proving_key() == proving_key@ && p.spec_verifying_key()
                    == verifying_key_of(proving_key@),
                Err(e) => e == AuthError::KeyUnavailable,
            },
    {
        match load_verifying_key(&proving_key) {
            Some(vk) => Ok(ZKProver { proving_key, verifying_key: vk }),
            None => Err(AuthError::KeyUnavailable),
        }
    }

    /// A copy of the serialized verifying key, for persistence by the caller.
    pub fn verifying_key_bytes(&self) -> (r: Vec<u8>)
        ensures
            r@ == self.spec_verifying_key(),
    {
        let mut out: Vec<u8> = Vec::new();
        let n = self.verifying_key.len();
        let mut i: usize = 0;
        while i < n
            invariant
                i <= n,
                n == self.verifying_key@.len(),
                out@ =~= self.verifying_key@.subrange(0, i as int),
            decreases n - i,
        {
            out.push(self.verifying_key[i]);
            proof {
                assert(out@ =~= self.verifying_key@.subrange(0, i + 1));
            }
            i = i + 1;
        }
        proof {
            assert(self.verifying_key@.subrange(0, n as int) =~= self.verifying_key@);
        }
        out
    }

    /// Create a proof for the given public input (the 32-byte field-element
    /// form produced by `hash_to_field`). Under key material from the
    /// trusted setup this succeeds, and the proof that comes back is one the
    /// matching verifying key accepts for exactly this input; failures
    /// surface as `KeyUnavailable` and never retry setup.
    pub fn create_proof(&self, public_input: &Vec<u8>) -> (r: Result<Vec<u8>, AuthError>)
        ensures
            self.spec_from_trusted_setup() ==> r is Ok,
            match r {
                Ok(p) => self.spec_from_trusted_setup() ==> groth16_verifies(
                    self.spec_verifying_key(),
                    p@,
                    public_input@,
                ),
                Err(e) => e == AuthError::KeyUnavailable,
            },
    {
        proof {
            use_type_invariant(self);
        }
        let r_seed = random_seed();
        let s_seed = random_seed();
        match groth16_prove(&self.proving_key, public_input, &r_seed, &s_seed) {
            Some(p) => Ok(p),
            None => Err(AuthError::KeyUnavailable),
        }
    }

    /// Verify a serialized proof against this prover's verifying key and the
    /// given public input. Total: malformed bytes give `false`, never a
    /// fault, and the result is a pure function of key, proof and input.
    pub fn verify_proof(&self, proof_bytes: &[u8], public_input: &Vec<u8>) -> (r: bool)
        ensures
            r == groth16_verifies(self.spec_verifying_key(), proof_bytes@, public_input@),
    {
        groth16_verify(&self.verifying_key, proof_bytes, public_input)
    }
}

/// A proof checker over some credential kind: accepts or refuses a base64
/// proof string presented for a wallet address or an email. Each
/// implementation fixes, as a spec function, exactly which pairs it accepts,
/// and the methods return exactly that — a caller through the trait loses
/// nothing over one that names the implementation.
pub trait ZKVerifier {
    /// Which (wallet, proof) pairs this checker accepts.
    spec fn wallet_accepts(&self, wallet: Seq<char>, proof: Seq<char>) -> bool;

    /// Which (email, proof) pairs this checker accepts.
    spec fn email_accepts(&self, email: Seq<char>, proof: Seq<char>) -> bool;

    /// Whether `proof` authenticates the wallet credential `wallet`.
    fn verify_wallet(&self, wallet: &str, proof: &str) -> (r: bool)
        ensures
            r == self.wallet_accepts(wallet@, proof@),
    ;

    /// Whether `proof` authenticates the email credential `email`.
    fn verify_email(&self, email: &str, proof: &str) -> (r: bool)
        ensures
            r == self.email_accepts(email@, proof@),
    ;
}

} // verus!
