//! The cross-operation laws of the identity graph, stated over the store
//! transitions that the operations' own contracts describe.

use vstd::prelude::*;

use crate::auth::{spec_nonce_rotated, spec_verify_signature};
use crate::store::{
    lemma_spec_find_wallet_of_identity_push, lemma_spec_find_wallet_push,
    spec_find_email_of_identity, spec_find_wallet, spec_find_wallet_of_identity, CredentialStore,
    WalletIdentity,
};

verus! {

/// Resolving a wallet address is idempotent. When `wallet_auth` first sees
/// an address, its contract says the store grew by exactly one wallet row
/// `w` carrying that address (and one identity row). This law says the next
/// call for the same address finds exactly `w`, so by `wallet_auth`'s
/// contract it returns the same credential, with the same id, and creates
/// nothing: at most one identity ever comes into being per address.
pub proof fn lemma_resolve_or_create_idempotent(
    s0: CredentialStore,
    s1: CredentialStore,
    w: WalletIdentity,
    wallet_address: Seq<char>,
)
    requires
        spec_find_wallet(s0.wallets@, wallet_address) is None,
        w.wallet_address@ == wallet_address,
        s1.wallets@ == s0.wallets@.push(w),
    ensures
        spec_find_wallet(s1.wallets@, wallet_address) == Some(w),
{
    lemma_spec_find_wallet_push(s0.wallets@, wallet_address, w);
}

/// Linking preserves identity. When `link_wallet_to_email` succeeds, its
/// contract says the store grew by exactly one wallet row `w` carrying the
/// identity id found through the email credential, and the email rows did
/// not change. This law says that, for an identity that had no wallet
/// credential yet, `get_identities` afterwards surfaces both the identity's
/// original email credential (unchanged) and the new wallet credential.
pub proof fn lemma_link_preserves_identity(
    s0: CredentialStore,
    s1: CredentialStore,
    w: WalletIdentity,
    identity_id: Seq<char>,
)
    requires
        spec_find_wallet_of_identity(s0.wallets@, identity_id) is None,
        w.identity_id matches Some(x) && x@ == identity_id,
        s1.wallets@ == s0.wallets@.push(w),
        s1.emails@ == s0.emails@,
    ensures
        spec_find_wallet_of_identity(s1.wallets@, identity_id) == Some(w),
        spec_find_email_of_identity(s1.emails@, identity_id) == spec_find_email_of_identity(
            s0.emails@,
            identity_id,
        ),
{
    lemma_spec_find_wallet_of_identity_push(s0.wallets@, identity_id, w);
}

/// Nonces never regress. The nonce a rotation installs is recorded as absent
/// from the whole issued history, and the store invariant keeps every nonce a
/// stored credential holds inside that history, so the fresh challenge
/// differs from every value the store ever issued — to this credential or any
/// other — not merely from the one it replaces.
pub proof fn lemma_nonce_never_regresses(
    s0: CredentialStore,
    s1: CredentialStore,
    wallet_address: Seq<char>,
    nonce: Seq<char>,
    previously_issued: Seq<char>,
)
    requires
        spec_nonce_rotated(s0, s1, wallet_address, nonce),
        s0.issued_nonces@.contains(previously_issued),
    ensures
        nonce != previously_issued,
{
}

/// Rotation touches nothing but the nonce. A credential row's identity
/// binding, id, address and creation time are immutable once set: the only
/// row-updating transition in the graph is the nonce rotation that
/// `update_nonce` and `signature_auth` describe with `spec_nonce_rotated`,
/// and it carries every other field over unchanged.
pub proof fn lemma_rotation_preserves_identity_binding(
    s0: CredentialStore,
    s1: CredentialStore,
    wallet_address: Seq<char>,
    new_nonce: Seq<char>,
)
    requires
        spec_nonce_rotated(s0, s1, wallet_address, new_nonce),
    ensures
        spec_find_wallet(s1.wallets@, wallet_address) matches Some(cur) && spec_find_wallet(
            s0.wallets@,
            wallet_address,
        ) matches Some(prev) && cur.identity_id == prev.identity_id && cur.id == prev.id
            && cur.wallet_address == prev.wallet_address && cur.created_at == prev.created_at,
        s1.identities@ == s0.identities@,
        s1.emails@ == s0.emails@,
{
}

/// Rotation closes the replay window. When `signature_auth` succeeds, its
/// contract says the store rotated the wallet's nonce (`spec_nonce_rotated`).
/// This law says that afterwards no signature and no chain verdict pass the
/// challenge-response predicate with the consumed nonce: a replay of the old
/// challenge is refused as `InvalidSignature` by `signature_auth`'s contract,
/// and only the freshly issued challenge can authenticate.
pub proof fn lemma_rotation_closes_replay_window(
    s0: CredentialStore,
    s1: CredentialStore,
    wallet_address: Seq<char>,
    new_nonce: Seq<char>,
    signature: Seq<char>,
    chain_verdict: bool,
)
    requires
        spec_nonce_rotated(s0, s1, wallet_address, new_nonce),
        spec_find_wallet(s0.wallets@, wallet_address) matches Some(prev),
    ensures
        !spec_verify_signature(
            s1,
            wallet_address,
            signature,
            spec_find_wallet(s0.wallets@, wallet_address)->0.nonce@,
            chain_verdict,
        ),
{
}

} // verus!
