//! The request-level flows: the payload shapes the core accepts and
//! produces, and the endpoint logic that strings the components together.
//! Wire framing itself (HTTP, JSON) is the surrounding application's; these
//! functions receive already-parsed payloads and hand back plain values.

use vstd::pervasive::unreached;
use vstd::prelude::*;
use vstd::string::StringExecFns;

use crate::auth::AuthService;
use crate::codec::b64_decoded;
use crate::errors::AuthError;
use crate::session::signed_token;
use crate::store::{spec_find_email, spec_find_wallet, WalletIdentity};
use crate::zk::real_verifier::{spec_verify_credential, RealZKVerifier};
use crate::zk::{groth16_verifies, spec_public_input};

verus! {

/// A wallet login request: the address whose challenge nonce is wanted.
#[derive(Debug)]
pub struct WalletAuthRequest {
    pub wallet_address: String,
}

/// A proof payload: the base64 proof and its public inputs (the inputs are
/// recomputed from the credential on the verifying side, so the list rides
/// along empty).
#[derive(Debug)]
pub struct ZKProofRequest {
    pub proof: String,
    pub public_inputs: Vec<String>,
}

/// A proof-based wallet authentication request.
#[derive(Debug)]
pub struct WalletZKAuthRequest {
    pub wallet_address: String,
    pub zk_proof: ZKProofRequest,
}

/// A proof-based email authentication request.
#[derive(Debug)]
pub struct EmailZKAuthRequest {
    pub email: String,
    pub zk_proof: ZKProofRequest,
}

/// A successful authentication: the signed session token and the identity it
/// is bound to.
#[derive(Debug)]
pub struct AuthResponse {
    pub token: String,
    pub user_id: String,
}

/// A failure payload carrying a generic error label.
#[derive(Debug)]
pub struct ErrorResponse {
    pub error: String,
}

/// A request to create a proof of possession of a wallet credential.
#[derive(Debug)]
pub struct CreateProofRequest {
    pub wallet_address: String,
}

/// A request to create a proof of possession of an email credential.
#[derive(Debug)]
pub struct CreateEmailProofRequest {
    pub email: String,
}

impl ErrorResponse {
    /// The wire form of an error: its stable label. For operational errors
    /// only; a login rejection goes through `rejection` instead.
    pub fn from_error(e: &AuthError) -> (r: ErrorResponse)
        ensures
            r.error@ == e.spec_message(),
    {
        ErrorResponse { error: String::from_str(e.message()) }
    }

    /// The wire form of a login failure: every authentication rejection maps
    /// to the one generic label, whichever sub-check (lookup, signature,
    /// proof, encoding) refused it, so the error shape cannot probe
    /// credential existence. Operational kinds keep their labels.
    pub fn rejection(e: &AuthError) -> (r: ErrorResponse)
        ensures
            r.error@ == if e.spec_is_authentication_failure() {
                "unauthorized"@
            } else {
                e.spec_message()
            },
    {
        if e.is_authentication_failure() {
            ErrorResponse { error: String::from_str("unauthorized") }
        } else {
            ErrorResponse { error: String::from_str(e.message()) }
        }
    }
}

/// The wallet login flow: resolve or create the credential for the address
/// and hand it back; its nonce is the challenge for the next step.
pub fn wallet_auth(auth: &mut AuthService, req: &WalletAuthRequest) -> (r: Result<
    WalletIdentity,
    AuthError,
>)
    requires
        old(auth).store.wf(),
        old(auth).store.nonce_counter < u64::MAX,
    ensures
        final(auth).store.wf(),
        final(auth).jwt_secret == old(auth).jwt_secret,
        old(auth).store.nonce_counter <= final(auth).store.nonce_counter <= old(
            auth,
        ).store.nonce_counter + 1,
        match r {
            Ok(w) => spec_find_wallet(final(auth).store.wallets@, req.wallet_address@) == Some(w)
                && w.wallet_address@ == req.wallet_address@,
            Err(_) => false,
        },
{
    auth.wallet_auth(req.wallet_address.as_str())
}

/// The proof-based wallet authentication flow: check the proof against the
/// address, resolve or create the identity behind the address, and mint a
/// session token bound to it. A verifying proof is owed a token, unless the
/// address resolves to a pre-existing credential row that carries no
/// identity back-reference; any failure leaves the store untouched, and a
/// proof that does not verify is refused as `ProofVerificationFailed`.
pub fn wallet_zk_auth(
    auth: &mut AuthService,
    zk: &RealZKVerifier,
    req: &WalletZKAuthRequest,
) -> (r: Result<AuthResponse, AuthError>)
    requires
        old(auth).store.wf(),
        old(auth).store.nonce_counter < u64::MAX,
    ensures
        final(auth).store.wf(),
        final(auth).jwt_secret == old(auth).jwt_secret,
        old(auth).store.nonce_counter <= final(auth).store.nonce_counter <= old(
            auth,
        ).store.nonce_counter + 1,
        r is Ok <==> (spec_verify_credential(
            zk.spec_verifying_key(),
            req.wallet_address@,
            req.zk_proof.proof@,
        ) && !(spec_find_wallet(old(auth).store.wallets@, req.wallet_address@) matches Some(w0)
            && w0.identity_id is None)),
        (r matches Err(e) && e == AuthError::ProofVerificationFailed) <==> !spec_verify_credential(
            zk.spec_verifying_key(),
            req.wallet_address@,
            req.zk_proof.proof@,
        ),
        r is Err ==> *final(auth) == *old(auth),
        match r {
            Ok(resp) => {
                &&& spec_find_wallet(
                    final(auth).store.wallets@,
                    req.wallet_address@,
                ) matches Some(w) && w.identity_id matches Some(id) && resp.user_id@ == id@ && (
                exists|exp: i64|
                    resp.token@ == #[trigger] signed_token(
                        req.wallet_address@,
                        id@,
                        exp,
                        old(auth).jwt_secret@,
                    ))
            },
            Err(e) => e == AuthError::ProofVerificationFailed || e == AuthError::NotFound,
        },
{
    if !zk.check_wallet(req.wallet_address.as_str(), req.zk_proof.proof.as_str()) {
        return Err(AuthError::ProofVerificationFailed);
    }
    let w = match auth.wallet_auth(req.wallet_address.as_str()) {
        Ok(w) => w,
        Err(_) => unreached(),
    };
    let identity_id = match &w.identity_id {
        Some(id) => id.clone(),
        None => {
            return Err(AuthError::NotFound);
        },
    };
    match auth.create_auth_token(req.wallet_address.as_str(), identity_id.as_str()) {
        Ok((token, user_id)) => Ok(AuthResponse { token, user_id }),
        Err(_) => unreached(),
    }
}

/// The proof-based email authentication flow: check the proof against the
/// email, look the credential up (an email credential only comes into being
/// through an explicit link), and mint a session token bound to its
/// identity. A verifying proof for a linked email is owed a token; nothing
/// in the store ever changes.
pub fn email_zk_auth(auth: &AuthService, zk: &RealZKVerifier, req: &EmailZKAuthRequest) -> (r:
    Result<AuthResponse, AuthError>)
    ensures
        r is Ok <==> (spec_verify_credential(
            zk.spec_verifying_key(),
            req.email@,
            req.zk_proof.proof@,
        ) && (spec_find_email(auth.store.emails@, req.email@) matches Some(em)
            && em.identity_id is Some)),
        (r matches Err(e) && e == AuthError::ProofVerificationFailed) <==> !spec_verify_credential(
            zk.spec_verifying_key(),
            req.email@,
            req.zk_proof.proof@,
        ),
        match r {
            Ok(resp) => {
                &&& spec_find_email(auth.store.emails@, req.email@) matches Some(em)
                    && em.identity_id matches Some(id) && resp.user_id@ == id@ && (exists|exp: i64|
                    resp.token@ == #[trigger] signed_token(
                        req.email@,
                        id@,
                        exp,
                        auth.jwt_secret@,
                    ))
            },
            Err(e) => e == AuthError::ProofVerificationFailed || e == AuthError::NotFound,
        },
{
    if !zk.check_email(req.email.as_str(), req.zk_proof.proof.as_str()) {
        return Err(AuthError::ProofVerificationFailed);
    }
    let em = match auth.store.find_email(req.email.as_str()) {
        Some(em) => em,
        None => {
            return Err(AuthError::NotFound);
        },
    };
    let identity_id = match &em.identity_id {
        Some(id) => id.clone(),
        None => {
            return Err(AuthError::NotFound);
        },
    };
    match auth.create_auth_token(req.email.as_str(), identity_id.as_str()) {
        Ok((token, user_id)) => Ok(AuthResponse { token, user_id }),
        Err(_) => unreached(),
    }
}

/// The proof-creation flow for a wallet credential: under key material from
/// the trusted setup, a payload that comes back holds a base64 proof that
/// the checker accepts for this address.
pub fn create_wallet_proof(zk: &RealZKVerifier, req: &CreateProofRequest) -> (r: Result<
    ZKProofRequest,
    AuthError,
>)
    ensures
        zk.spec_from_trusted_setup() ==> r is Ok,
        match r {
            Ok(resp) => {
                &&& zk.spec_from_trusted_setup() ==> exists|p: Seq<u8>|
                    #[trigger] groth16_verifies(
                        zk.spec_verifying_key(),
                        p,
                        spec_public_input(req.wallet_address@),
                    ) && b64_decoded(resp.proof@) == Some(p)
                &&& resp.public_inputs@.len() == 0
            },
            Err(e) => e == AuthError::KeyUnavailable,
        },
{
    match zk.create_wallet_proof(req.wallet_address.as_str()) {
        Some(proof) => Ok(ZKProofRequest { proof, public_inputs: Vec::new() }),
        None => Err(AuthError::KeyUnavailable),
    }
}

/// The proof-creation flow for an email credential: under key material from
/// the trusted setup, a payload that comes back holds a base64 proof that
/// the checker accepts for this email.
pub fn create_email_proof(zk: &RealZKVerifier, req: &CreateEmailProofRequest) -> (r: Result<
    ZKProofRequest,
    AuthError,
>)
    ensures
        zk.spec_from_trusted_setup() ==> r is Ok,
        match r {
            Ok(resp) => {
                &&& zk.spec_from_trusted_setup() ==> exists|p: Seq<u8>|
                    #[trigger] groth16_verifies(
                        zk.spec_verifying_key(),
                        p,
                        spec_public_input(req.email@),
                    ) && b64_decoded(resp.proof@) == Some(p)
                &&& resp.public_inputs@.len() == 0
            },
            Err(e) => e == AuthError::KeyUnavailable,
        },
{
    match zk.create_email_proof(req.email.as_str()) {
        Some(proof) => Ok(ZKProofRequest { proof, public_inputs: Vec::new() }),
        None => Err(AuthError::KeyUnavailable),
    }
}

} // verus!
