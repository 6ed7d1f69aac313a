//! The error taxonomy of the core: every failure a core operation can
//! surface is one of these kinds. Persistence and cryptographic failures are
//! converted to them at the component boundary; nothing escapes as an
//! unhandled fault.

use vstd::prelude::*;

verus! {

/// Why a core operation was refused.
#[derive(Debug, Clone, Copy, PartialEq, Eq, Structural)]
pub enum AuthError {
    /// A lookup key (email, wallet address, identity id) was required and absent.
    NotFound,
    /// A uniqueness constraint (wallet address or email) would be violated.
    Conflict,
    /// The persistence collaborator failed; the caller may retry with backoff.
    StoreUnavailable,
    /// No wallet credential row exists for the presented address.
    UnknownWallet,
    /// The challenge-response check rejected the presented signature or nonce.
    InvalidSignature,
    /// A presented proof did not verify against the expected public input.
    ProofVerificationFailed,
    /// Proof bytes could not be decoded; treated exactly like a failed proof.
    MalformedProofEncoding,
    /// Trusted setup failed; the proof subsystem cannot start.
    KeySetupFailure,
    /// Key material is absent or unusable; proof operations must not retry setup.
    KeyUnavailable,
    /// The session-signing secret was unavailable or signing failed.
    SigningFailure,
}

impl AuthError {
    /// A short stable label for logs and wire payloads.
    pub fn message(&self) -> (r: &'static str)
        ensures
            r@ =~= self.spec_message(),
    {
        match self {
            AuthError::NotFound => "not found",
            AuthError::Conflict => "conflict",
            AuthError::StoreUnavailable => "store unavailable",
            AuthError::UnknownWallet => "unknown wallet",
            AuthError::InvalidSignature => "invalid signature",
            AuthError::ProofVerificationFailed => "proof verification failed",
            AuthError::MalformedProofEncoding => "malformed proof encoding",
            AuthError::KeySetupFailure => "key setup failure",
            AuthError::KeyUnavailable => "key unavailable",
            AuthError::SigningFailure => "signing failure",
        }
    }

    /// Whether this kind is an authentication rejection (a lookup miss, a
    /// refused signature or proof, a malformed proof) as opposed to an
    /// operational failure. Rejections must be indistinguishable on the
    /// wire, so error shape cannot probe credential existence.
    pub open spec fn spec_is_authentication_failure(self) -> bool {
        match self {
            AuthError::NotFound => true,
            AuthError::UnknownWallet => true,
            AuthError::InvalidSignature => true,
            AuthError::ProofVerificationFailed => true,
            AuthError::MalformedProofEncoding => true,
            _ => false,
        }
    }

    /// Whether this kind is an authentication rejection.
    pub fn is_authentication_failure(&self) -> (r: bool)
        ensures
            r == self.spec_is_authentication_failure(),
    {
        match self {
            AuthError::NotFound => true,
            AuthError::UnknownWallet => true,
            AuthError::InvalidSignature => true,
            AuthError::ProofVerificationFailed => true,
            AuthError::MalformedProofEncoding => true,
            _ => false,
        }
    }

    /// What `message` returns for each kind.
    pub open spec fn spec_message(self) -> Seq<char> {
        match self {
            AuthError::NotFound => "not found"@,
            AuthError::Conflict => "conflict"@,
            AuthError::StoreUnavailable => "store unavailable"@,
            AuthError::UnknownWallet => "unknown wallet"@,
            AuthError::InvalidSignature => "invalid signature"@,
            AuthError::ProofVerificationFailed => "proof verification failed"@,
            AuthError::MalformedProofEncoding => "malformed proof encoding"@,
            AuthError::KeySetupFailure => "key setup failure"@,
            AuthError::KeyUnavailable => "key unavailable"@,
            AuthError::SigningFailure => "signing failure"@,
        }
    }
}

} // verus!
