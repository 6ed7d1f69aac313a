//! The relational model of the credential store: identity rows, wallet
//! credential rows and email credential rows, with the store-wide invariants
//! (unique wallet addresses, unique emails, credential back-references that
//! resolve to an existing identity).
//!
//! The store is the in-memory image of the persistence collaborator: every
//! operation here is a single atomic transition, so a multi-row mutation
//! (identity plus first credential) is never partially visible.

use vstd::prelude::*;
use vstd::string::StringExecFns;

use crate::errors::AuthError;
use crate::nonce::{
    lemma_issued_bound_insert, lemma_minted_nonce_not_issued, nonce_string, spec_counter_below,
    spec_has_counter, spec_issued_bounded, spec_nonce_string,
};
use crate::session::fresh_uuid;

verus! {

/// The anchor record for one principal; carries no credential data itself.
#[derive(Debug)]
pub struct Identity {
    pub id: String,
    pub created_at: i64,
    pub updated_at: i64,
}

/// A wallet credential row. `wallet_address` is the natural external key;
/// `identity_id` is a weak back-reference to the owning identity.
#[derive(Debug)]
pub struct WalletIdentity {
    pub id: String,
    pub identity_id: Option<String>,
    pub wallet_address: String,
    pub nonce: String,
    pub created_at: i64,
}

/// An email credential row, keyed by the unique `email`.
#[derive(Debug)]
pub struct EmailIdentity {
    pub id: String,
    pub identity_id: Option<String>,
    pub email: String,
    pub email_verified: Option<bool>,
    pub password_hash: Option<String>,
    pub created_at: i64,
}

impl Identity {
    /// An owned copy that is equal, field for field, to `self`.
    pub fn duplicate(&self) -> (r: Identity)
        ensures
            r == *self,
    {
        Identity { id: self.id.clone(), created_at: self.created_at, updated_at: self.updated_at }
    }
}

/// An owned copy of an optional string, equal to the original.
fn duplicate_opt_string(s: &Option<String>) -> (r: Option<String>)
    ensures
        r == *s,
{
    match s {
        Some(v) => Some(v.clone()),
        None => None,
    }
}

impl WalletIdentity {
    /// An owned copy that is equal, field for field, to `self`.
    pub fn duplicate(&self) -> (r: WalletIdentity)
        ensures
            r == *self,
    {
        WalletIdentity {
            id: self.id.clone(),
            identity_id: duplicate_opt_string(&self.identity_id),
            wallet_address: self.wallet_address.clone(),
            nonce: self.nonce.clone(),
            created_at: self.created_at,
        }
    }
}

impl EmailIdentity {
    /// An owned copy that is equal, field for field, to `self`.
    pub fn duplicate(&self) -> (r: EmailIdentity)
        ensures
            r == *self,
    {
        EmailIdentity {
            id: self.id.clone(),
            identity_id: duplicate_opt_string(&self.identity_id),
            email: self.email.clone(),
            email_verified: if let Some(b) = self.email_verified { Some(b) } else { None },
            password_hash: duplicate_opt_string(&self.password_hash),
            created_at: self.created_at,
        }
    }
}

/// The first wallet row whose address reads `addr`, if any.
pub open spec fn spec_find_wallet(ws: Seq<WalletIdentity>, addr: Seq<char>) -> Option<
    WalletIdentity,
>
    decreases ws.len(),
{
    if ws.len() == 0 {
        None
    } else if ws[0].wallet_address@ == addr {
        Some(ws[0])
    } else {
        spec_find_wallet(ws.drop_first(), addr)
    }
}

/// The first email row whose email reads `email`, if any.
pub open spec fn spec_find_email(es: Seq<EmailIdentity>, email: Seq<char>) -> Option<EmailIdentity>
    decreases es.len(),
{
    if es.len() == 0 {
        None
    } else if es[0].email@ == email {
        Some(es[0])
    } else {
        spec_find_email(es.drop_first(), email)
    }
}

/// The first wallet row back-referencing identity `id`, if any.
pub open spec fn spec_find_wallet_of_identity(ws: Seq<WalletIdentity>, id: Seq<char>) -> Option<
    WalletIdentity,
>
    decreases ws.len(),
{
    if ws.len() == 0 {
        None
    } else if ws[0].identity_id matches Some(i) && i@ == id {
        Some(ws[0])
    } else {
        spec_find_wallet_of_identity(ws.drop_first(), id)
    }
}

/// The first email row back-referencing identity `id`, if any.
pub open spec fn spec_find_email_of_identity(es: Seq<EmailIdentity>, id: Seq<char>) -> Option<
    EmailIdentity,
>
    decreases es.len(),
{
    if es.len() == 0 {
        None
    } else if es[0].identity_id matches Some(i) && i@ == id {
        Some(es[0])
    } else {
        spec_find_email_of_identity(es.drop_first(), id)
    }
}

/// Whether some identity row carries id `id`.
pub open spec fn spec_has_identity(ids: Seq<Identity>, id: Seq<char>) -> bool {
    exists|k: int| 0 <= k < ids.len() && ids[k].id@ == id
}

/// The nonces the given wallet rows currently hold.
pub open spec fn spec_stored_nonces(ws: Seq<WalletIdentity>) -> Set<Seq<char>> {
    Set::new(|n: Seq<char>| exists|k: int| 0 <= k < ws.len() && ws[k].nonce@ == n)
}

/// No two wallet rows share an address.
pub open spec fn spec_wallet_addresses_unique(ws: Seq<WalletIdentity>) -> bool {
    forall|i: int, j: int|
        0 <= i < j < ws.len() ==> #[trigger] ws[i].wallet_address@ != #[trigger] ws[
            j
        ].wallet_address@
}

/// No two email rows share an email.
pub open spec fn spec_emails_unique(es: Seq<EmailIdentity>) -> bool {
    forall|i: int, j: int|
        0 <= i < j < es.len() ==> #[trigger] es[i].email@ != #[trigger] es[j].email@
}

/// Every wallet back-reference resolves to an existing identity row.
pub open spec fn spec_wallets_linked(ws: Seq<WalletIdentity>, ids: Seq<Identity>) -> bool {
    forall|k: int|
        0 <= k < ws.len() ==> (#[trigger] ws[k].identity_id matches Some(i) ==> spec_has_identity(
            ids,
            i@,
        ))
}

/// Every email back-reference resolves to an existing identity row.
pub open spec fn spec_emails_linked(es: Seq<EmailIdentity>, ids: Seq<Identity>) -> bool {
    forall|k: int|
        0 <= k < es.len() ==> (#[trigger] es[k].identity_id matches Some(i) ==> spec_has_identity(
            ids,
            i@,
        ))
}

/// The in-memory image of the relational store. Beside the rows it carries
/// the nonce-minting state: the next sequence number and the (ghost) history
/// of every nonce ever issued, against which freshness is stated.
pub struct CredentialStore {
    pub identities: Vec<Identity>,
    pub wallets: Vec<WalletIdentity>,
    pub emails: Vec<EmailIdentity>,
    pub nonce_counter: u64,
    pub issued_nonces: Ghost<Set<Seq<char>>>,
}

impl CredentialStore {
    /// The store-wide invariants: wallet addresses unique, emails unique,
    /// every credential's back-reference resolves to an existing identity,
    /// every issued nonce embeds a sequence number below the next one, and
    /// every stored nonce is among the issued: so a nonce minted at the
    /// current sequence number equals no nonce ever issued before.
    pub open spec fn wf(self) -> bool {
        &&& spec_wallet_addresses_unique(self.wallets@)
        &&& spec_emails_unique(self.emails@)
        &&& spec_wallets_linked(self.wallets@, self.identities@)
        &&& spec_emails_linked(self.emails@, self.identities@)
        &&& spec_issued_bounded(self.issued_nonces@, self.nonce_counter as nat)
        &&& forall|k: int|
            0 <= k < self.wallets@.len() ==> self.issued_nonces@.contains(
                #[trigger] self.wallets@[k].nonce@,
            )
    }

    /// An empty store; trivially well formed.
    pub fn new() -> (s: CredentialStore)
        ensures
            s.wf(),
            s.identities@ =~= Seq::<Identity>::empty(),
            s.wallets@ =~= Seq::<WalletIdentity>::empty(),
            s.emails@ =~= Seq::<EmailIdentity>::empty(),
            s.nonce_counter == 0,
            s.issued_nonces@ =~= Set::<Seq<char>>::empty(),
    {
        CredentialStore {
            identities: Vec::new(),
            wallets: Vec::new(),
            emails: Vec::new(),
            nonce_counter: 0,
            issued_nonces: Ghost(Set::empty()),
        }
    }

    /// Hydrate a store from rows persisted by the collaborator, resuming the
    /// nonce sequence at the persisted number. The preconditions are exactly
    /// the row-level invariants this library maintains when it writes rows:
    /// the collaborator that persisted them is trusted to hand them back
    /// unchanged, and a hydrated store is then well formed, with the
    /// issued-nonce history restarted at the nonces the rows currently hold.
    pub fn from_rows(
        identities: Vec<Identity>,
        wallets: Vec<WalletIdentity>,
        emails: Vec<EmailIdentity>,
        nonce_counter: u64,
    ) -> (s: CredentialStore)
        requires
            spec_wallet_addresses_unique(wallets@),
            spec_emails_unique(emails@),
            spec_wallets_linked(wallets@, identities@),
            spec_emails_linked(emails@, identities@),
            forall|k: int|
                0 <= k < wallets@.len() ==> spec_counter_below(
                    #[trigger] wallets@[k].nonce@,
                    nonce_counter as nat,
                ),
        ensures
            s.wf(),
            s.identities == identities,
            s.wallets == wallets,
            s.emails == emails,
            s.nonce_counter == nonce_counter,
            s.issued_nonces@ == spec_stored_nonces(wallets@),
    {
        let issued: Ghost<Set<Seq<char>>> = Ghost(spec_stored_nonces(wallets@));
        proof {
            assert forall|n: Seq<char>| #[trigger]
                spec_stored_nonces(wallets@).contains(n) implies spec_counter_below(
                n,
                nonce_counter as nat,
            ) by {
                let k = choose|k: int| 0 <= k < wallets@.len() && wallets@[k].nonce@ == n;
                assert(spec_counter_below(wallets@[k].nonce@, nonce_counter as nat));
            }
            assert forall|k: int|
                0 <= k < wallets@.len() implies spec_stored_nonces(wallets@).contains(
                #[trigger] wallets@[k].nonce@,
            ) by {
                assert(exists|j: int| 0 <= j < wallets@.len() && wallets@[j].nonce@ == wallets@[
                    k
                ].nonce@);
            }
        }
        CredentialStore { identities, wallets, emails, nonce_counter, issued_nonces: issued }
    }

    /// Mint a nonce no previous mint ever produced: the next sequence number
    /// ahead of a random suffix. The sequence number advances, the history
    /// records the nonce, and nothing else changes.
    fn mint_nonce(&mut self) -> (r: String)
        requires
            old(self).wf(),
            old(self).nonce_counter < u64::MAX,
        ensures
            final(self).wf(),
            final(self).identities@ == old(self).identities@,
            final(self).wallets@ == old(self).wallets@,
            final(self).emails@ == old(self).emails@,
            final(self).nonce_counter == old(self).nonce_counter + 1,
            final(self).issued_nonces@ == old(self).issued_nonces@.insert(r@),
            !old(self).issued_nonces@.contains(r@),
            spec_has_counter(r@, old(self).nonce_counter as nat),
    {
        let suffix = fresh_uuid();
        let nonce = nonce_string(self.nonce_counter, suffix.as_str());
        proof {
            assert(nonce@ == spec_nonce_string(self.nonce_counter as nat, suffix@));
            assert(spec_has_counter(nonce@, self.nonce_counter as nat));
            lemma_minted_nonce_not_issued(
                self.issued_nonces@,
                self.nonce_counter as nat,
                nonce@,
            );
            lemma_issued_bound_insert(self.issued_nonces@, self.nonce_counter as nat, nonce@);
        }
        self.issued_nonces = Ghost(self.issued_nonces@.insert(nonce@));
        self.nonce_counter = self.nonce_counter + 1;
        nonce
    }

    /// Look up the wallet credential with the given address.
    pub fn find_wallet(&self, address: &str) -> (r: Option<WalletIdentity>)
        ensures
            r == spec_find_wallet(self.wallets@, address@),
    {
        let needle = String::from_str(address);
        let n = self.wallets.len();
        let mut i: usize = 0;
        while i < n
            invariant
                i <= n,
                n == self.wallets@.len(),
                needle@ == address@,
                forall|k: int|
                    0 <= k < i ==> #[trigger] self.wallets@[k].wallet_address@ != address@,
            decreases n - i,
        {
            if self.wallets[i].wallet_address == needle {
                let found = self.wallets[i].duplicate();
                proof {
                    lemma_spec_find_wallet_at(self.wallets@, address@, i as int);
                }
                return Some(found);
            }
            i = i + 1;
        }
        proof {
            lemma_spec_find_wallet_none(self.wallets@, address@);
        }
        None
    }

    /// Look up the email credential with the given email.
    pub fn find_email(&self, email: &str) -> (r: Option<EmailIdentity>)
        ensures
            r == spec_find_email(self.emails@, email@),
    {
        let needle = String::from_str(email);
        let n = self.emails.len();
        let mut i: usize = 0;
        while i < n
            invariant
                i <= n,
                n == self.emails@.len(),
                needle@ == email@,
                forall|k: int| 0 <= k < i ==> #[trigger] self.emails@[k].email@ != email@,
            decreases n - i,
        {
            if self.emails[i].email == needle {
                let found = self.emails[i].duplicate();
                proof {
                    lemma_spec_find_email_at(self.emails@, email@, i as int);
                }
                return Some(found);
            }
            i = i + 1;
        }
        proof {
            lemma_spec_find_email_none(self.emails@, email@);
        }
        None
    }

    /// The first email credential back-referencing the identity, if any.
    pub fn find_email_of_identity(&self, identity_id: &str) -> (r: Option<EmailIdentity>)
        ensures
            r == spec_find_email_of_identity(self.emails@, identity_id@),
    {
        let needle = String::from_str(identity_id);
        let n = self.emails.len();
        let mut i: usize = 0;
        while i < n
            invariant
                i <= n,
                n == self.emails@.len(),
                needle@ == identity_id@,
                forall|k: int|
                    0 <= k < i ==> !(#[trigger] self.emails@[k].identity_id matches Some(x) && x@
                        == identity_id@),
            decreases n - i,
        {
            let row_matches = match &self.emails[i].identity_id {
                Some(x) => *x == needle,
                None => false,
            };
            if row_matches {
                let found = self.emails[i].duplicate();
                proof {
                    lemma_spec_find_email_of_identity_at(self.emails@, identity_id@, i as int);
                }
                return Some(found);
            }
            i = i + 1;
        }
        proof {
            lemma_spec_find_email_of_identity_none(self.emails@, identity_id@);
        }
        None
    }

    /// The first wallet credential back-referencing the identity, if any.
    pub fn find_wallet_of_identity(&self, identity_id: &str) -> (r: Option<WalletIdentity>)
        ensures
            r == spec_find_wallet_of_identity(self.wallets@, identity_id@),
    {
        let needle = String::from_str(identity_id);
        let n = self.wallets.len();
        let mut i: usize = 0;
        while i < n
            invariant
                i <= n,
                n == self.wallets@.len(),
                needle@ == identity_id@,
                forall|k: int|
                    0 <= k < i ==> !(#[trigger] self.wallets@[k].identity_id matches Some(x) && x@
                        == identity_id@),
            decreases n - i,
        {
            let row_matches = match &self.wallets[i].identity_id {
                Some(x) => *x == needle,
                None => false,
            };
            if row_matches {
                let found = self.wallets[i].duplicate();
                proof {
                    lemma_spec_find_wallet_of_identity_at(self.wallets@, identity_id@, i as int);
                }
                return Some(found);
            }
            i = i + 1;
        }
        proof {
            lemma_spec_find_wallet_of_identity_none(self.wallets@, identity_id@);
        }
        None
    }

    /// The first email and wallet credentials back-referencing the identity,
    /// in that order. The graph may hold more than one credential per kind;
    /// only the first of each is surfaced.
    pub fn get_identities(&self, identity_id: &str) -> (r: (
        Option<EmailIdentity>,
        Option<WalletIdentity>,
    ))
        ensures
            r.0 == spec_find_email_of_identity(self.emails@, identity_id@),
            r.1 == spec_find_wallet_of_identity(self.wallets@, identity_id@),
    {
        (self.find_email_of_identity(identity_id), self.find_wallet_of_identity(identity_id))
    }

    /// Create an identity and its first wallet credential in one transition,
    /// or refuse with `Conflict` if the address is already taken. This is the
    /// atomic create-pair of the identity graph: no orphaned identity can be
    /// observed on failure, and the unique address constraint is the source
    /// of truth for races between concurrent creators.
    pub fn create_identity_with_wallet(
        &mut self,
        identity_id: &str,
        wallet_id: &str,
        address: &str,
        now: i64,
    ) -> (r: Result<WalletIdentity, AuthError>)
        requires
            old(self).wf(),
            old(self).nonce_counter < u64::MAX,
        ensures
            final(self).wf(),
            r is Ok <==> spec_find_wallet(old(self).wallets@, address@) is None,
            match r {
                Ok(w) => {
                    &&& w.id@ == wallet_id@
                    &&& w.identity_id matches Some(i) && i@ == identity_id@
                    &&& w.wallet_address@ == address@
                    &&& w.created_at == now
                    &&& !old(self).issued_nonces@.contains(w.nonce@)
                    &&& final(self).issued_nonces@ == old(self).issued_nonces@.insert(w.nonce@)
                    &&& final(self).nonce_counter == old(self).nonce_counter + 1
                    &&& final(self).wallets@ == old(self).wallets@.push(w)
                    &&& final(self).identities@.len() == old(self).identities@.len() + 1
                    &&& final(self).identities@.last().id@ == identity_id@
                    &&& final(self).identities@ == old(self).identities@.push(
                        final(self).identities@.last(),
                    )
                    &&& final(self).emails@ == old(self).emails@
                },
                Err(e) => {
                    &&& e == AuthError::Conflict
                    &&& *final(self) == *old(self)
                },
            },
    {
        if let Some(_existing) = self.find_wallet(address) {
            return Err(AuthError::Conflict);
        }
        let nonce = self.mint_nonce();
        let ident = Identity { id: String::from_str(identity_id), created_at: now, updated_at: now };
        let wallet = WalletIdentity {
            id: String::from_str(wallet_id),
            identity_id: Some(String::from_str(identity_id)),
            wallet_address: String::from_str(address),
            nonce,
            created_at: now,
        };
        let result = wallet.duplicate();
        proof {
            lemma_spec_find_wallet_none_means_no_match(self.wallets@, address@);
            lemma_wallet_addresses_unique_push(self.wallets@, wallet);
            lemma_wallets_linked_extend(self.wallets@, self.identities@, ident);
            lemma_emails_linked_extend(self.emails@, self.identities@, ident);
            assert(self.identities@.push(ident)[self.identities@.len() as int] == ident);
            lemma_wallets_linked_push(self.wallets@, self.identities@.push(ident), wallet);
        }
        self.identities.push(ident);
        self.wallets.push(wallet);
        proof {
            assert forall|k: int| 0 <= k < self.wallets@.len() implies self.issued_nonces@.contains(
                #[trigger] self.wallets@[k].nonce@,
            ) by {
                if k < old(self).wallets@.len() {
                    assert(self.wallets@[k] == old(self).wallets@[k]);
                } else {
                    assert(self.wallets@[k] == wallet);
                }
            }
        }
        Ok(result)
    }

    /// Add a wallet credential bound to an existing identity, or refuse with
    /// `Conflict` if the address is already taken.
    pub fn insert_wallet(
        &mut self,
        wallet_id: &str,
        identity_id: &str,
        address: &str,
        now: i64,
    ) -> (r: Result<WalletIdentity, AuthError>)
        requires
            old(self).wf(),
            old(self).nonce_counter < u64::MAX,
            spec_has_identity(old(self).identities@, identity_id@),
        ensures
            final(self).wf(),
            final(self).identities@ == old(self).identities@,
            final(self).emails@ == old(self).emails@,
            r is Ok <==> spec_find_wallet(old(self).wallets@, address@) is None,
            match r {
                Ok(w) => {
                    &&& w.id@ == wallet_id@
                    &&& w.identity_id matches Some(i) && i@ == identity_id@
                    &&& w.wallet_address@ == address@
                    &&& w.created_at == now
                    &&& !old(self).issued_nonces@.contains(w.nonce@)
                    &&& final(self).issued_nonces@ == old(self).issued_nonces@.insert(w.nonce@)
                    &&& final(self).nonce_counter == old(self).nonce_counter + 1
                    &&& final(self).wallets@ == old(self).wallets@.push(w)
                },
                Err(e) => {
                    &&& e == AuthError::Conflict
                    &&& *final(self) == *old(self)
                },
            },
    {
        if let Some(_existing) = self.find_wallet(address) {
            return Err(AuthError::Conflict);
        }
        let nonce = self.mint_nonce();
        let wallet = WalletIdentity {
            id: String::from_str(wallet_id),
            identity_id: Some(String::from_str(identity_id)),
            wallet_address: String::from_str(address),
            nonce,
            created_at: now,
        };
        let result = wallet.duplicate();
        proof {
            lemma_spec_find_wallet_none_means_no_match(self.wallets@, address@);
            lemma_wallet_addresses_unique_push(self.wallets@, wallet);
            lemma_wallets_linked_push(self.wallets@, self.identities@, wallet);
        }
        self.wallets.push(wallet);
        proof {
            assert forall|k: int| 0 <= k < self.wallets@.len() implies self.issued_nonces@.contains(
                #[trigger] self.wallets@[k].nonce@,
            ) by {
                if k < old(self).wallets@.len() {
                    assert(self.wallets@[k] == old(self).wallets@[k]);
                } else {
                    assert(self.wallets@[k] == wallet);
                }
            }
        }
        Ok(result)
    }

    /// Add an email credential bound to an existing identity, or refuse with
    /// `Conflict` if the email is already taken.
    pub fn insert_email(
        &mut self,
        email_id: &str,
        identity_id: &str,
        email: &str,
        password_hash: &str,
        now: i64,
    ) -> (r: Result<EmailIdentity, AuthError>)
        requires
            old(self).wf(),
            spec_has_identity(old(self).identities@, identity_id@),
        ensures
            final(self).wf(),
            final(self).identities@ == old(self).identities@,
            final(self).wallets@ == old(self).wallets@,
            final(self).nonce_counter == old(self).nonce_counter,
            final(self).issued_nonces == old(self).issued_nonces,
            r is Ok <==> spec_find_email(old(self).emails@, email@) is None,
            match r {
                Ok(e) => {
                    &&& e.id@ == email_id@
                    &&& e.identity_id matches Some(i) && i@ == identity_id@
                    &&& e.email@ == email@
                    &&& e.password_hash matches Some(p) && p@ == password_hash@
                    &&& e.created_at == now
                    &&& final(self).emails@ == old(self).emails@.push(e)
                },
                Err(err) => {
                    &&& err == AuthError::Conflict
                    &&& spec_find_email(old(self).emails@, email@) is Some
                    &&& *final(self) == *old(self)
                },
            },
    {
        if let Some(_existing) = self.find_email(email) {
            return Err(AuthError::Conflict);
        }
        let row = EmailIdentity {
            id: String::from_str(email_id),
            identity_id: Some(String::from_str(identity_id)),
            email: String::from_str(email),
            email_verified: Some(false),
            password_hash: Some(String::from_str(password_hash)),
            created_at: now,
        };
        let result = row.duplicate();
        proof {
            lemma_spec_find_email_none_means_no_match(self.emails@, email@);
            lemma_emails_unique_push(self.emails@, row);
            lemma_emails_linked_push(self.emails@, self.identities@, row);
        }
        self.emails.push(row);
        Ok(result)
    }

    /// The index of the wallet credential with the given address.
    fn wallet_index_of(&self, address: &str) -> (r: Option<usize>)
        ensures
            match r {
                Some(i) => i < self.wallets@.len() && self.wallets@[i as int].wallet_address@
                    == address@ && (forall|k: int|
                    0 <= k < i ==> #[trigger] self.wallets@[k].wallet_address@ != address@),
                None => forall|k: int|
                    0 <= k < self.wallets@.len()
                        ==> #[trigger] self.wallets@[k].wallet_address@ != address@,
            },
    {
        let needle = String::from_str(address);
        let n = self.wallets.len();
        let mut i: usize = 0;
        while i < n
            invariant
                i <= n,
                n == self.wallets@.len(),
                needle@ == address@,
                forall|k: int|
                    0 <= k < i ==> #[trigger] self.wallets@[k].wallet_address@ != address@,
            decreases n - i,
        {
            if self.wallets[i].wallet_address == needle {
                return Some(i);
            }
            i = i + 1;
        }
        None
    }

    /// Rotate the nonce of the wallet credential with the given address to a
    /// freshly minted one — different from every nonce ever issued before,
    /// not merely from the one it replaces. Nothing else about the row or
    /// the store changes; fails with `UnknownWallet` if the address is
    /// unknown.
    pub fn rotate_wallet_nonce(&mut self, address: &str) -> (r: Result<WalletIdentity, AuthError>)
        requires
            old(self).wf(),
            old(self).nonce_counter < u64::MAX,
        ensures
            final(self).wf(),
            final(self).identities@ == old(self).identities@,
            final(self).emails@ == old(self).emails@,
            r is Ok <==> spec_find_wallet(old(self).wallets@, address@) is Some,
            match r {
                Ok(w) => {
                    &&& spec_find_wallet(old(self).wallets@, address@) matches Some(prev) && w
                        == WalletIdentity { nonce: w.nonce, ..prev } && w.nonce@ != prev.nonce@
                    &&& !old(self).issued_nonces@.contains(w.nonce@)
                    &&& final(self).issued_nonces@ == old(self).issued_nonces@.insert(w.nonce@)
                    &&& final(self).nonce_counter == old(self).nonce_counter + 1
                    &&& spec_find_wallet(final(self).wallets@, address@) == Some(w)
                    &&& exists|i: int|
                        0 <= i < old(self).wallets@.len() && final(self).wallets@ == old(
                            self,
                        ).wallets@.update(i, w) && old(self).wallets@[i].wallet_address@ == address@
                },
                Err(e) => {
                    &&& e == AuthError::UnknownWallet
                    &&& *final(self) == *old(self)
                },
            },
    {
        let i = match self.wallet_index_of(address) {
            None => {
                proof {
                    lemma_spec_find_wallet_none(self.wallets@, address@);
                }
                return Err(AuthError::UnknownWallet);
            },
            Some(i) => i,
        };
        proof {
            lemma_spec_find_wallet_at(self.wallets@, address@, i as int);
        }
        let nonce = self.mint_nonce();
        let updated = WalletIdentity { nonce, ..self.wallets[i].duplicate() };
        let result = updated.duplicate();
        proof {
            assert(old(self).issued_nonces@.contains(old(self).wallets@[i as int].nonce@));
            lemma_wallet_addresses_unique_update(self.wallets@, i as int, updated);
            lemma_wallets_linked_update(self.wallets@, self.identities@, i as int, updated);
        }
        self.wallets[i] = updated;
        proof {
            lemma_spec_find_wallet_at(self.wallets@, address@, i as int);
            assert forall|k: int| 0 <= k < self.wallets@.len() implies self.issued_nonces@.contains(
                #[trigger] self.wallets@[k].nonce@,
            ) by {
                if k != i as int {
                    assert(self.wallets@[k] == old(self).wallets@[k]);
                } else {
                    assert(self.wallets@[k] == updated);
                }
            }
        }
        Ok(result)
    }
}

/// If index `i` holds the first address match, the find returns that row.
pub proof fn lemma_spec_find_wallet_at(ws: Seq<WalletIdentity>, addr: Seq<char>, i: int)
    requires
        0 <= i < ws.len(),
        ws[i].wallet_address@ == addr,
        forall|k: int| 0 <= k < i ==> #[trigger] ws[k].wallet_address@ != addr,
    ensures
        spec_find_wallet(ws, addr) == Some(ws[i]),
    decreases i,
{
    if i > 0 {
        lemma_spec_find_wallet_at(ws.drop_first(), addr, i - 1);
    }
}

/// If no row matches the address, the find returns nothing.
pub proof fn lemma_spec_find_wallet_none(ws: Seq<WalletIdentity>, addr: Seq<char>)
    requires
        forall|k: int| 0 <= k < ws.len() ==> #[trigger] ws[k].wallet_address@ != addr,
    ensures
        spec_find_wallet(ws, addr) is None,
    decreases ws.len(),
{
    if ws.len() > 0 {
        lemma_spec_find_wallet_none(ws.drop_first(), addr);
    }
}

/// A successful find returns a row that carries the address.
pub proof fn lemma_spec_find_wallet_some_means_match(ws: Seq<WalletIdentity>, addr: Seq<char>)
    requires
        spec_find_wallet(ws, addr) is Some,
    ensures
        exists|k: int|
            0 <= k < ws.len() && #[trigger] ws[k].wallet_address@ == addr && spec_find_wallet(
                ws,
                addr,
            ) == Some(ws[k]),
    decreases ws.len(),
{
    if ws.len() > 0 && ws[0].wallet_address@ != addr {
        lemma_spec_find_wallet_some_means_match(ws.drop_first(), addr);
        let k = choose|k: int|
            0 <= k < ws.drop_first().len() && #[trigger] ws.drop_first()[k].wallet_address@ == addr
                && spec_find_wallet(ws.drop_first(), addr) == Some(ws.drop_first()[k]);
        assert(ws[k + 1] == ws.drop_first()[k]);
    }
}

/// A failed find means no row carries the address.
pub proof fn lemma_spec_find_wallet_none_means_no_match(ws: Seq<WalletIdentity>, addr: Seq<char>)
    requires
        spec_find_wallet(ws, addr) is None,
    ensures
        forall|k: int| 0 <= k < ws.len() ==> #[trigger] ws[k].wallet_address@ != addr,
    decreases ws.len(),
{
    if ws.len() > 0 {
        lemma_spec_find_wallet_none_means_no_match(ws.drop_first(), addr);
        assert forall|k: int| 0 <= k < ws.len() implies #[trigger] ws[k].wallet_address@
            != addr by {
            if k > 0 {
                assert(ws[k] == ws.drop_first()[k - 1]);
            }
        }
    }
}

/// Extending a store that misses the address finds exactly the pushed row.
pub proof fn lemma_spec_find_wallet_push(
    ws: Seq<WalletIdentity>,
    addr: Seq<char>,
    w: WalletIdentity,
)
    requires
        spec_find_wallet(ws, addr) is None,
    ensures
        spec_find_wallet(ws.push(w), addr) == if w.wallet_address@ == addr {
            Some(w)
        } else {
            Option::<WalletIdentity>::None
        },
    decreases ws.len(),
{
    let ws1 = ws.push(w);
    assert(ws1.len() == ws.len() + 1);
    if ws.len() == 0 {
        assert(ws1[0] == w);
        assert(ws1.drop_first() =~= Seq::<WalletIdentity>::empty());
        if w.wallet_address@ == addr {
            assert(spec_find_wallet(ws1, addr) == Some(w));
        } else {
            assert(spec_find_wallet(ws1, addr) == spec_find_wallet(ws1.drop_first(), addr));
            assert(spec_find_wallet(ws1, addr) is None);
        }
    } else {
        lemma_spec_find_wallet_push(ws.drop_first(), addr, w);
        assert(ws1[0] == ws[0]);
        assert(ws[0].wallet_address@ != addr);
        assert(ws1.drop_first() =~= ws.drop_first().push(w));
        assert(spec_find_wallet(ws1, addr) == spec_find_wallet(ws.drop_first().push(w), addr));
    }
}

/// If index `i` holds the first email match, the find returns that row.
pub proof fn lemma_spec_find_email_at(es: Seq<EmailIdentity>, email: Seq<char>, i: int)
    requires
        0 <= i < es.len(),
        es[i].email@ == email,
        forall|k: int| 0 <= k < i ==> #[trigger] es[k].email@ != email,
    ensures
        spec_find_email(es, email) == Some(es[i]),
    decreases i,
{
    if i > 0 {
        lemma_spec_find_email_at(es.drop_first(), email, i - 1);
    }
}

/// If no row matches the email, the find returns nothing.
pub proof fn lemma_spec_find_email_none(es: Seq<EmailIdentity>, email: Seq<char>)
    requires
        forall|k: int| 0 <= k < es.len() ==> #[trigger] es[k].email@ != email,
    ensures
        spec_find_email(es, email) is None,
    decreases es.len(),
{
    if es.len() > 0 {
        lemma_spec_find_email_none(es.drop_first(), email);
    }
}

/// A successful find returns a row that carries the email.
pub proof fn lemma_spec_find_email_some_means_match(es: Seq<EmailIdentity>, email: Seq<char>)
    requires
        spec_find_email(es, email) is Some,
    ensures
        exists|k: int|
            0 <= k < es.len() && #[trigger] es[k].email@ == email && spec_find_email(es, email)
                == Some(es[k]),
    decreases es.len(),
{
    if es.len() > 0 && es[0].email@ != email {
        lemma_spec_find_email_some_means_match(es.drop_first(), email);
        let k = choose|k: int|
            0 <= k < es.drop_first().len() && #[trigger] es.drop_first()[k].email@ == email
                && spec_find_email(es.drop_first(), email) == Some(es.drop_first()[k]);
        assert(es[k + 1] == es.drop_first()[k]);
    }
}

/// A failed find means no row carries the email.
pub proof fn lemma_spec_find_email_none_means_no_match(es: Seq<EmailIdentity>, email: Seq<char>)
    requires
        spec_find_email(es, email) is None,
    ensures
        forall|k: int| 0 <= k < es.len() ==> #[trigger] es[k].email@ != email,
    decreases es.len(),
{
    if es.len() > 0 {
        lemma_spec_find_email_none_means_no_match(es.drop_first(), email);
        assert forall|k: int| 0 <= k < es.len() implies #[trigger] es[k].email@ != email by {
            if k > 0 {
                assert(es[k] == es.drop_first()[k - 1]);
            }
        }
    }
}

/// Extending a store that misses the email finds exactly the pushed row.
pub proof fn lemma_spec_find_email_push(es: Seq<EmailIdentity>, email: Seq<char>, e: EmailIdentity)
    requires
        spec_find_email(es, email) is None,
    ensures
        spec_find_email(es.push(e), email) == if e.email@ == email {
            Some(e)
        } else {
            Option::<EmailIdentity>::None
        },
    decreases es.len(),
{
    let es1 = es.push(e);
    assert(es1.len() == es.len() + 1);
    if es.len() == 0 {
        assert(es1[0] == e);
        assert(es1.drop_first() =~= Seq::<EmailIdentity>::empty());
        if e.email@ == email {
            assert(spec_find_email(es1, email) == Some(e));
        } else {
            assert(spec_find_email(es1, email) == spec_find_email(es1.drop_first(), email));
            assert(spec_find_email(es1, email) is None);
        }
    } else {
        lemma_spec_find_email_push(es.drop_first(), email, e);
        assert(es1[0] == es[0]);
        assert(es[0].email@ != email);
        assert(es1.drop_first() =~= es.drop_first().push(e));
        assert(spec_find_email(es1, email) == spec_find_email(es.drop_first().push(e), email));
    }
}

/// If index `i` holds the first back-reference match, the find returns it.
pub proof fn lemma_spec_find_email_of_identity_at(es: Seq<EmailIdentity>, id: Seq<char>, i: int)
    requires
        0 <= i < es.len(),
        es[i].identity_id matches Some(x) && x@ == id,
        forall|k: int| 0 <= k < i ==> !(#[trigger] es[k].identity_id matches Some(x) && x@ == id),
    ensures
        spec_find_email_of_identity(es, id) == Some(es[i]),
    decreases i,
{
    if i > 0 {
        lemma_spec_find_email_of_identity_at(es.drop_first(), id, i - 1);
    }
}

/// If no back-reference matches, the find returns nothing.
pub proof fn lemma_spec_find_email_of_identity_none(es: Seq<EmailIdentity>, id: Seq<char>)
    requires
        forall|k: int|
            0 <= k < es.len() ==> !(#[trigger] es[k].identity_id matches Some(x) && x@ == id),
    ensures
        spec_find_email_of_identity(es, id) is None,
    decreases es.len(),
{
    if es.len() > 0 {
        lemma_spec_find_email_of_identity_none(es.drop_first(), id);
    }
}

/// If index `i` holds the first back-reference match, the find returns it.
pub proof fn lemma_spec_find_wallet_of_identity_at(ws: Seq<WalletIdentity>, id: Seq<char>, i: int)
    requires
        0 <= i < ws.len(),
        ws[i].identity_id matches Some(x) && x@ == id,
        forall|k: int| 0 <= k < i ==> !(#[trigger] ws[k].identity_id matches Some(x) && x@ == id),
    ensures
        spec_find_wallet_of_identity(ws, id) == Some(ws[i]),
    decreases i,
{
    if i > 0 {
        lemma_spec_find_wallet_of_identity_at(ws.drop_first(), id, i - 1);
    }
}

/// Extending a store whose rows never back-reference the identity finds
/// exactly the pushed row when that row does.
pub proof fn lemma_spec_find_wallet_of_identity_push(
    ws: Seq<WalletIdentity>,
    id: Seq<char>,
    w: WalletIdentity,
)
    requires
        spec_find_wallet_of_identity(ws, id) is None,
        w.identity_id matches Some(x) && x@ == id,
    ensures
        spec_find_wallet_of_identity(ws.push(w), id) == Some(w),
    decreases ws.len(),
{
    let ws1 = ws.push(w);
    assert(ws1.len() == ws.len() + 1);
    if ws.len() == 0 {
        assert(ws1[0] == w);
        assert(spec_find_wallet_of_identity(ws1, id) == Some(w));
    } else {
        lemma_spec_find_wallet_of_identity_push(ws.drop_first(), id, w);
        assert(ws1[0] == ws[0]);
        assert(!(ws[0].identity_id matches Some(x) && x@ == id));
        assert(ws1.drop_first() =~= ws.drop_first().push(w));
        assert(spec_find_wallet_of_identity(ws1, id) == spec_find_wallet_of_identity(
            ws.drop_first().push(w),
            id,
        ));
    }
}

/// If no back-reference matches, the find returns nothing.
pub proof fn lemma_spec_find_wallet_of_identity_none(ws: Seq<WalletIdentity>, id: Seq<char>)
    requires
        forall|k: int|
            0 <= k < ws.len() ==> !(#[trigger] ws[k].identity_id matches Some(x) && x@ == id),
    ensures
        spec_find_wallet_of_identity(ws, id) is None,
    decreases ws.len(),
{
    if ws.len() > 0 {
        lemma_spec_find_wallet_of_identity_none(ws.drop_first(), id);
    }
}

/// Pushing a row with a fresh address keeps addresses unique.
proof fn lemma_wallet_addresses_unique_push(ws: Seq<WalletIdentity>, w: WalletIdentity)
    requires
        spec_wallet_addresses_unique(ws),
        forall|k: int| 0 <= k < ws.len() ==> #[trigger] ws[k].wallet_address@ != w.wallet_address@,
    ensures
        spec_wallet_addresses_unique(ws.push(w)),
{
    let ws1 = ws.push(w);
    assert forall|i: int, j: int|
        0 <= i < j < ws1.len() implies #[trigger] ws1[i].wallet_address@ != #[trigger] ws1[
        j
    ].wallet_address@ by {
        if j < ws.len() {
            assert(ws1[i] == ws[i] && ws1[j] == ws[j]);
        } else {
            assert(ws1[i] == ws[i] && ws1[j] == w);
        }
    }
}

/// Pushing a row with a fresh email keeps emails unique.
proof fn lemma_emails_unique_push(es: Seq<EmailIdentity>, e: EmailIdentity)
    requires
        spec_emails_unique(es),
        forall|k: int| 0 <= k < es.len() ==> #[trigger] es[k].email@ != e.email@,
    ensures
        spec_emails_unique(es.push(e)),
{
    let es1 = es.push(e);
    assert forall|i: int, j: int|
        0 <= i < j < es1.len() implies #[trigger] es1[i].email@ != #[trigger] es1[j].email@ by {
        if j < es.len() {
            assert(es1[i] == es[i] && es1[j] == es[j]);
        } else {
            assert(es1[i] == es[i] && es1[j] == e);
        }
    }
}

/// Known identities stay known when an identity row is added.
proof fn lemma_has_identity_extend(ids: Seq<Identity>, ident: Identity, id: Seq<char>)
    requires
        spec_has_identity(ids, id),
    ensures
        spec_has_identity(ids.push(ident), id),
{
    let k = choose|k: int| 0 <= k < ids.len() && ids[k].id@ == id;
    assert(ids.push(ident)[k] == ids[k]);
}

/// Wallet back-references stay resolved when an identity row is added.
proof fn lemma_wallets_linked_extend(ws: Seq<WalletIdentity>, ids: Seq<Identity>, ident: Identity)
    requires
        spec_wallets_linked(ws, ids),
    ensures
        spec_wallets_linked(ws, ids.push(ident)),
{
    assert forall|k: int|
        0 <= k < ws.len() implies (#[trigger] ws[k].identity_id matches Some(i)
        ==> spec_has_identity(ids.push(ident), i@)) by {
        if ws[k].identity_id is Some {
            let i = ws[k].identity_id->0;
            lemma_has_identity_extend(ids, ident, i@);
        }
    }
}

/// Email back-references stay resolved when an identity row is added.
proof fn lemma_emails_linked_extend(es: Seq<EmailIdentity>, ids: Seq<Identity>, ident: Identity)
    requires
        spec_emails_linked(es, ids),
    ensures
        spec_emails_linked(es, ids.push(ident)),
{
    assert forall|k: int|
        0 <= k < es.len() implies (#[trigger] es[k].identity_id matches Some(i)
        ==> spec_has_identity(ids.push(ident), i@)) by {
        if es[k].identity_id is Some {
            let i = es[k].identity_id->0;
            lemma_has_identity_extend(ids, ident, i@);
        }
    }
}

/// Pushing a wallet row whose back-reference resolves keeps the store linked.
proof fn lemma_wallets_linked_push(ws: Seq<WalletIdentity>, ids: Seq<Identity>, w: WalletIdentity)
    requires
        spec_wallets_linked(ws, ids),
        w.identity_id matches Some(i) ==> spec_has_identity(ids, i@),
    ensures
        spec_wallets_linked(ws.push(w), ids),
{
    let ws1 = ws.push(w);
    assert forall|k: int|
        0 <= k < ws1.len() implies (#[trigger] ws1[k].identity_id matches Some(i)
        ==> spec_has_identity(ids, i@)) by {
        if k < ws.len() {
            assert(ws1[k] == ws[k]);
        } else {
            assert(ws1[k] == w);
        }
    }
}

/// Pushing an email row whose back-reference resolves keeps the store linked.
proof fn lemma_emails_linked_push(es: Seq<EmailIdentity>, ids: Seq<Identity>, e: EmailIdentity)
    requires
        spec_emails_linked(es, ids),
        e.identity_id matches Some(i) ==> spec_has_identity(ids, i@),
    ensures
        spec_emails_linked(es.push(e), ids),
{
    let es1 = es.push(e);
    assert forall|k: int|
        0 <= k < es1.len() implies (#[trigger] es1[k].identity_id matches Some(i)
        ==> spec_has_identity(ids, i@)) by {
        if k < es.len() {
            assert(es1[k] == es[k]);
        } else {
            assert(es1[k] == e);
        }
    }
}

/// Replacing a row without changing its address keeps addresses unique.
proof fn lemma_wallet_addresses_unique_update(ws: Seq<WalletIdentity>, i: int, w: WalletIdentity)
    requires
        spec_wallet_addresses_unique(ws),
        0 <= i < ws.len(),
        w.wallet_address@ == ws[i].wallet_address@,
    ensures
        spec_wallet_addresses_unique(ws.update(i, w)),
{
    let ws1 = ws.update(i, w);
    assert forall|a: int, b: int|
        0 <= a < b < ws1.len() implies #[trigger] ws1[a].wallet_address@ != #[trigger] ws1[
        b
    ].wallet_address@ by {
        assert(ws1[a].wallet_address@ == ws[a].wallet_address@);
        assert(ws1[b].wallet_address@ == ws[b].wallet_address@);
    }
}

/// Replacing a row without changing its back-reference keeps the store linked.
proof fn lemma_wallets_linked_update(
    ws: Seq<WalletIdentity>,
    ids: Seq<Identity>,
    i: int,
    w: WalletIdentity,
)
    requires
        spec_wallets_linked(ws, ids),
        0 <= i < ws.len(),
        w.identity_id == ws[i].identity_id,
    ensures
        spec_wallets_linked(ws.update(i, w), ids),
{
    let ws1 = ws.update(i, w);
    assert forall|k: int|
        0 <= k < ws1.len() implies (#[trigger] ws1[k].identity_id matches Some(x)
        ==> spec_has_identity(ids, x@)) by {
        assert(ws1[k].identity_id == ws[k].identity_id);
    }
}

} // verus!
