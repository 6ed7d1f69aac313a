//! The identity graph manager, the challenge-response verifier and the
//! session issuer, bound together as the authentication service.
//!
//! A caller presents a credential; the graph resolves or creates the
//! identity; the challenge-response check or the proof system authenticates
//! the presented secret; a signed session token binds the result to the
//! identity. Linking operations mutate the graph directly and bypass the
//! challenge and proof steps: they are trusted internal operations, not
//! public-facing logins.

use vstd::pervasive::unreached;
use vstd::prelude::*;
use vstd::string::StringExecFns;

use crate::codec::{base58_decode, base58_decoded};
use crate::errors::AuthError;
use crate::session::{fresh_uuid, now_unix, sign_claims, signed_token, TOKEN_LIFETIME_SECONDS};
use crate::store::{
    lemma_spec_find_email_push, lemma_spec_find_email_some_means_match,
    lemma_spec_find_wallet_push, lemma_spec_find_wallet_some_means_match, spec_find_email,
    spec_find_email_of_identity, spec_find_wallet, spec_find_wallet_of_identity,
    spec_has_identity, CredentialStore, EmailIdentity, WalletIdentity,
};

verus! {

/// What a wallet signs to answer a challenge: the canonical message derived
/// from the nonce.
pub open spec fn spec_challenge_message(nonce: Seq<char>) -> Seq<char> {
    "Sign this message to authenticate: "@ + nonce
}

/// The canonical challenge message for a nonce. The chain collaborator
/// verifies the presented signature over exactly this string; both sides
/// recompute it from the nonce rather than trusting a caller-supplied
/// message.
pub fn challenge_message(nonce: &str) -> (r: String)
    ensures
        r@ == spec_challenge_message(nonce@),
{
    let mut message = String::from_str("Sign this message to authenticate: ");
    message.append(nonce);
    message
}

/// Whether a presented signature has the chain's wire format: a base58
/// string that decodes to the 64 bytes of a signature. The cryptographic
/// check of the signature over the challenge message against the address's
/// key is the chain collaborator's, outside this core, which holds only the
/// format-level part of the predicate.
pub open spec fn spec_signature_well_formed(signature: Seq<char>) -> bool {
    base58_decoded(signature) matches Some(b) && b.len() == 64
}

/// The challenge-response predicate: the wallet is known, the presented
/// nonce is exactly the stored one (a replayed nonce fails here), the
/// signature is well formed, and the chain collaborator's cryptographic
/// verdict over the challenge message is positive. Pure: no observable
/// effect beyond the boolean.
pub open spec fn spec_verify_signature(
    store: CredentialStore,
    wallet_address: Seq<char>,
    signature: Seq<char>,
    nonce: Seq<char>,
    chain_verdict: bool,
) -> bool {
    &&& spec_find_wallet(store.wallets@, wallet_address) matches Some(w) && w.nonce@ == nonce
    &&& spec_signature_well_formed(signature)
    &&& chain_verdict
}

/// How one store follows from another by rotating the nonce of the wallet
/// row with the given address to `nonce`: that row's nonce changes to a
/// freshly minted value — one the store never issued before, to this or any
/// credential, so in particular different from the one it replaces — the
/// history records it, and nothing else changes.
pub open spec fn spec_nonce_rotated(
    s0: CredentialStore,
    s1: CredentialStore,
    wallet_address: Seq<char>,
    nonce: Seq<char>,
) -> bool {
    match (
        spec_find_wallet(s0.wallets@, wallet_address),
        spec_find_wallet(s1.wallets@, wallet_address),
    ) {
        (Some(prev), Some(cur)) => {
            &&& nonce != prev.nonce@
            &&& !s0.issued_nonces@.contains(nonce)
            &&& cur.nonce@ == nonce
            &&& cur == WalletIdentity { nonce: cur.nonce, ..prev }
            &&& exists|i: int|
                0 <= i < s0.wallets@.len() && s0.wallets@[i].wallet_address@ == wallet_address
                    && s1.wallets@ == s0.wallets@.update(i, cur)
            &&& s1.issued_nonces@ == s0.issued_nonces@.insert(nonce)
            &&& s1.nonce_counter == s0.nonce_counter + 1
            &&& s1.identities@ == s0.identities@
            &&& s1.emails@ == s0.emails@
        },
        _ => false,
    }
}

/// The authentication service: the credential store and the session-signing
/// secret from the configuration collaborator.
pub struct AuthService {
    pub store: CredentialStore,
    pub jwt_secret: String,
}

impl AuthService {
    /// Wire the service to a store and a signing secret.
    pub fn new(store: CredentialStore, jwt_secret: String) -> (s: AuthService)
        ensures
            s.store == store,
            s.jwt_secret == jwt_secret,
    {
        AuthService { store, jwt_secret }
    }

    /// Resolve the wallet credential for an address, creating the identity
    /// and the credential together if the address was never seen: exactly one
    /// identity and one wallet row come into being, atomically, with a fresh
    /// nonce. A repeated call for the same address returns the stored
    /// credential unchanged and creates nothing. Concurrent creators race on
    /// the unique address constraint: the loser's create is refused and it
    /// resolves to the winner's row by this same lookup-first path.
    pub fn wallet_auth(&mut self, wallet_address: &str) -> (r: Result<WalletIdentity, AuthError>)
        requires
            old(self).store.wf(),
            old(self).store.nonce_counter < u64::MAX,
        ensures
            final(self).store.wf(),
            final(self).jwt_secret == old(self).jwt_secret,
            match r {
                Ok(w) => {
                    &&& spec_find_wallet(final(self).store.wallets@, wallet_address@) == Some(w)
                    &&& w.wallet_address@ == wallet_address@
                    &&& match spec_find_wallet(old(self).store.wallets@, wallet_address@) {
                        Some(prev) => w == prev && *final(self) == *old(self),
                        None => {
                        &&& final(self).store.wallets@ == old(self).store.wallets@.push(w)
                        &&& final(self).store.identities@ == old(self).store.identities@.push(
                            final(self).store.identities@.last(),
                        )
                        &&& final(self).store.identities@.len() == old(
                            self,
                        ).store.identities@.len() + 1
                        &&& final(self).store.emails@ == old(self).store.emails@
                        &&& w.identity_id matches Some(id)
                            && final(self).store.identities@.last().id@ == id@
                            && spec_has_identity(final(self).store.identities@, id@)
                        &&& !old(self).store.issued_nonces@.contains(w.nonce@)
                        &&& final(self).store.issued_nonces@ == old(
                            self,
                        ).store.issued_nonces@.insert(w.nonce@)
                        &&& final(self).store.nonce_counter == old(self).store.nonce_counter + 1
                        },
                    }
                },
                Err(_) => false,
            },
    {
        match self.store.find_wallet(wallet_address) {
            Some(w) => {
                proof {
                    lemma_spec_find_wallet_some_means_match(self.store.wallets@, wallet_address@);
                }
                Ok(w)
            },
            None => {
                let identity_id = fresh_uuid();
                let wallet_id = fresh_uuid();
                let now = now_unix();
                match self.store.create_identity_with_wallet(
                    identity_id.as_str(),
                    wallet_id.as_str(),
                    wallet_address,
                    now,
                ) {
                    Ok(w) => {
                        proof {
                            lemma_spec_find_wallet_push(
                                old(self).store.wallets@,
                                wallet_address@,
                                w,
                            );
                            let ghost ids = self.store.identities@;
                            assert(ids[ids.len() - 1] == ids.last());
                            assert(ids.last().id@ == identity_id@);
                            assert(spec_has_identity(ids, identity_id@));
                        }
                        Ok(w)
                    },
                    Err(_) => unreached(),
                }
            },
        }
    }

    /// The pure challenge-response predicate over the stored state: known
    /// wallet, matching nonce, well-formed signature, positive chain verdict.
    /// `chain_verdict` is the chain collaborator's answer to "is `signature`
    /// a valid signature by `wallet_address`'s key over the challenge message
    /// recomputed from the stored nonce?" — cryptography this core cannot
    /// compute (the scheme's parameters live with the configuration
    /// collaborator), so the verdict arrives as an input and is conjoined.
    /// Rotation is not done here; it is a separate step taken only after a
    /// `true` result.
    pub fn verify_signature(
        &self,
        wallet_address: &str,
        signature: &str,
        nonce: &str,
        chain_verdict: bool,
    ) -> (r: bool)
        ensures
            r == spec_verify_signature(
                self.store,
                wallet_address@,
                signature@,
                nonce@,
                chain_verdict,
            ),
    {
        if !chain_verdict {
            return false;
        }
        match self.store.find_wallet(wallet_address) {
            None => false,
            Some(w) => {
                let presented = String::from_str(nonce);
                if presented == w.nonce {
                    match base58_decode(signature) {
                        Some(b) => b.len() == 64,
                        None => false,
                    }
                } else {
                    false
                }
            },
        }
    }

    /// Rotate the stored nonce of a known wallet to a freshly minted one and
    /// hand the new value back as the next challenge. The new nonce differs
    /// from every nonce the store ever issued — to this or any credential —
    /// not merely from the one it replaces: freshness never regresses, and
    /// the window for replaying a signature over any old challenge closes.
    pub fn update_nonce(&mut self, wallet_address: &str) -> (r: Result<String, AuthError>)
        requires
            old(self).store.wf(),
            old(self).store.nonce_counter < u64::MAX,
        ensures
            final(self).store.wf(),
            final(self).jwt_secret == old(self).jwt_secret,
            r is Ok <==> spec_find_wallet(old(self).store.wallets@, wallet_address@) is Some,
            match r {
                Ok(n) => spec_nonce_rotated(
                    old(self).store,
                    final(self).store,
                    wallet_address@,
                    n@,
                ),
                Err(e) => e == AuthError::UnknownWallet && *final(self) == *old(self),
            },
    {
        match self.store.rotate_wallet_nonce(wallet_address) {
            Ok(w) => Ok(w.nonce),
            Err(e) => Err(e),
        }
    }

    /// The signature-verification call of the challenge-response protocol:
    /// check the presented `(wallet_address, signature, nonce)` against the
    /// stored state; on success rotate the stored nonce and return the new
    /// one as the next challenge. On any failure the stored nonce is
    /// unchanged, and the caller must request a fresh challenge rather than
    /// retry: a replay of an old nonce is refused as `InvalidSignature`.
    pub fn signature_auth(
        &mut self,
        wallet_address: &str,
        signature: &str,
        nonce: &str,
        chain_verdict: bool,
    ) -> (r: Result<String, AuthError>)
        requires
            old(self).store.wf(),
            old(self).store.nonce_counter < u64::MAX,
        ensures
            final(self).store.wf(),
            final(self).jwt_secret == old(self).jwt_secret,
            r is Ok <==> spec_verify_signature(
                old(self).store,
                wallet_address@,
                signature@,
                nonce@,
                chain_verdict,
            ),
            match r {
                Ok(n) => spec_nonce_rotated(
                    old(self).store,
                    final(self).store,
                    wallet_address@,
                    n@,
                ),
                Err(e) => {
                    &&& *final(self) == *old(self)
                    &&& (e == AuthError::UnknownWallet <==> spec_find_wallet(
                        old(self).store.wallets@,
                        wallet_address@,
                    ) is None)
                    &&& (e == AuthError::UnknownWallet || e == AuthError::InvalidSignature)
                },
            },
    {
        if let None = self.store.find_wallet(wallet_address) {
            return Err(AuthError::UnknownWallet);
        }
        if !self.verify_signature(wallet_address, signature, nonce, chain_verdict) {
            return Err(AuthError::InvalidSignature);
        }
        match self.update_nonce(wallet_address) {
            Ok(n) => Ok(n),
            Err(_) => unreached(),
        }
    }

    /// Link a new wallet credential to the identity that owns an existing
    /// email credential. Fails with `NotFound` if no email row (or no owning
    /// identity) exists, and with `Conflict` if the wallet address is taken.
    /// The email row is not touched.
    pub fn link_wallet_to_email(&mut self, email: &str, wallet_address: &str) -> (r: Result<
        WalletIdentity,
        AuthError,
    >)
        requires
            old(self).store.wf(),
            old(self).store.nonce_counter < u64::MAX,
        ensures
            final(self).store.wf(),
            final(self).jwt_secret == old(self).jwt_secret,
            final(self).store.identities@ == old(self).store.identities@,
            final(self).store.emails@ == old(self).store.emails@,
            r is Ok <==> ((spec_find_email(old(self).store.emails@, email@) matches Some(em)
                && em.identity_id is Some) && spec_find_wallet(
                old(self).store.wallets@,
                wallet_address@,
            ) is None),
            match r {
                Ok(w) => {
                    &&& spec_find_email(old(self).store.emails@, email@) matches Some(e)
                        && e.identity_id matches Some(eid) && w.identity_id matches Some(wid)
                        && wid@ == eid@
                    &&& spec_find_wallet(old(self).store.wallets@, wallet_address@) is None
                    &&& w.wallet_address@ == wallet_address@
                    &&& !old(self).store.issued_nonces@.contains(w.nonce@)
                    &&& final(self).store.issued_nonces@ == old(
                        self,
                    ).store.issued_nonces@.insert(w.nonce@)
                    &&& final(self).store.nonce_counter == old(self).store.nonce_counter + 1
                    &&& final(self).store.wallets@ == old(self).store.wallets@.push(w)
                    &&& spec_find_wallet(final(self).store.wallets@, wallet_address@) == Some(w)
                },
                Err(e) => {
                    &&& *final(self) == *old(self)
                    &&& (e == AuthError::NotFound <==> !(spec_find_email(
                        old(self).store.emails@,
                        email@,
                    ) matches Some(em) && em.identity_id is Some))
                    &&& (e == AuthError::NotFound || e == AuthError::Conflict)
                },
            },
    {
        let em = match self.store.find_email(email) {
            None => {
                return Err(AuthError::NotFound);
            },
            Some(em) => em,
        };
        let identity_id = match &em.identity_id {
            None => {
                return Err(AuthError::NotFound);
            },
            Some(id) => id.clone(),
        };
        proof {
            lemma_spec_find_email_some_means_match(self.store.emails@, email@);
        }
        let wallet_id = fresh_uuid();
        let now = now_unix();
        match self.store.insert_wallet(
            wallet_id.as_str(),
            identity_id.as_str(),
            wallet_address,
            now,
        ) {
            Ok(w) => {
                proof {
                    lemma_spec_find_wallet_push(old(self).store.wallets@, wallet_address@, w);
                }
                Ok(w)
            },
            Err(e) => Err(e),
        }
    }

    /// Link a new email credential to the identity that owns an existing
    /// wallet credential. Fails with `NotFound` if no wallet row (or no
    /// owning identity) exists, and with `Conflict` if the email is taken.
    /// The wallet row is not touched.
    pub fn link_email_to_wallet(
        &mut self,
        wallet_address: &str,
        email: &str,
        password_hash: &str,
    ) -> (r: Result<EmailIdentity, AuthError>)
        requires
            old(self).store.wf(),
        ensures
            final(self).store.wf(),
            final(self).jwt_secret == old(self).jwt_secret,
            final(self).store.identities@ == old(self).store.identities@,
            final(self).store.wallets@ == old(self).store.wallets@,
            final(self).store.nonce_counter == old(self).store.nonce_counter,
            final(self).store.issued_nonces == old(self).store.issued_nonces,
            r is Ok <==> ((spec_find_wallet(old(self).store.wallets@, wallet_address@) matches Some(
                w,
            ) && w.identity_id is Some) && spec_find_email(
                old(self).store.emails@,
                email@,
            ) is None),
            match r {
                Ok(e) => {
                    &&& spec_find_wallet(old(self).store.wallets@, wallet_address@) matches Some(w)
                        && w.identity_id matches Some(wid) && e.identity_id matches Some(eid)
                        && eid@ == wid@
                    &&& spec_find_email(old(self).store.emails@, email@) is None
                    &&& e.email@ == email@
                    &&& e.password_hash matches Some(p) && p@ == password_hash@
                    &&& final(self).store.emails@ == old(self).store.emails@.push(e)
                    &&& spec_find_email(final(self).store.emails@, email@) == Some(e)
                },
                Err(e) => {
                    &&& *final(self) == *old(self)
                    &&& (e == AuthError::NotFound <==> !(spec_find_wallet(
                        old(self).store.wallets@,
                        wallet_address@,
                    ) matches Some(w) && w.identity_id is Some))
                    &&& (e == AuthError::NotFound || e == AuthError::Conflict)
                },
            },
    {
        let w = match self.store.find_wallet(wallet_address) {
            None => {
                return Err(AuthError::NotFound);
            },
            Some(w) => w,
        };
        let identity_id = match &w.identity_id {
            None => {
                return Err(AuthError::NotFound);
            },
            Some(id) => id.clone(),
        };
        proof {
            lemma_spec_find_wallet_some_means_match(self.store.wallets@, wallet_address@);
        }
        let email_id = fresh_uuid();
        let now = now_unix();
        match self.store.insert_email(
            email_id.as_str(),
            identity_id.as_str(),
            email,
            password_hash,
            now,
        ) {
            Ok(e) => {
                proof {
                    lemma_spec_find_email_push(old(self).store.emails@, email@, e);
                }
                Ok(e)
            },
            Err(e) => Err(e),
        }
    }

    /// The first email and wallet credentials of an identity, in that order.
    pub fn get_user_identities(&self, user_id: &str) -> (r: Result<
        (Option<EmailIdentity>, Option<WalletIdentity>),
        AuthError,
    >)
        ensures
            r matches Ok(t) && t.0 == spec_find_email_of_identity(self.store.emails@, user_id@)
                && t.1 == spec_find_wallet_of_identity(self.store.wallets@, user_id@),
    {
        Ok(self.store.get_identities(user_id))
    }

    /// Issue a signed session token for an authenticated credential at a
    /// given clock reading: claims are the subject credential, the identity
    /// id, and an expiry one lifetime from `now`. Issuance always succeeds:
    /// the signing path cannot fail for an HMAC secret. (`SigningFailure`
    /// remains the kind a failing signer collaborator would surface.)
    pub fn create_auth_token_at(&self, identity: &str, identity_id: &str, now: i64) -> (r: Result<
        (String, String),
        AuthError,
    >)
        requires
            -9_000_000_000_000 <= now <= 9_000_000_000_000,
        ensures
            r is Ok,
            match r {
                Ok((token, user_id)) => {
                    &&& token@ == signed_token(
                        identity@,
                        identity_id@,
                        (now + TOKEN_LIFETIME_SECONDS) as i64,
                        self.jwt_secret@,
                    )
                    &&& user_id@ == identity_id@
                },
                Err(e) => e == AuthError::SigningFailure,
            },
    {
        let exp = now + TOKEN_LIFETIME_SECONDS;
        match sign_claims(identity, identity_id, exp, self.jwt_secret.as_str()) {
            Some(token) => Ok((token, String::from_str(identity_id))),
            None => unreached(),
        }
    }

    /// Issue a signed session token expiring one lifetime from the present
    /// clock reading. Always succeeds.
    pub fn create_auth_token(&self, identity: &str, identity_id: &str) -> (r: Result<
        (String, String),
        AuthError,
    >)
        ensures
            r is Ok,
            match r {
                Ok((token, user_id)) => {
                    &&& user_id@ == identity_id@
                    &&& exists|exp: i64| token@ == #[trigger] signed_token(
                        identity@,
                        identity_id@,
                        exp,
                        self.jwt_secret@,
                    )
                },
                Err(e) => e == AuthError::SigningFailure,
            },
    {
        let now = now_unix();
        self.create_auth_token_at(identity, identity_id, now)
    }
}

} // verus!
