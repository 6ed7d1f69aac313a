//! A proof checker that accepts everything, for exercising the surrounding
//! flows without key material.

use vstd::prelude::*;

use crate::zk::ZKVerifier;

verus! {

/// A checker that treats every proof as valid. Never use it where
/// authentication matters; it exists so the flows can run without a trusted
/// setup.
#[derive(Debug)]
pub struct MockZKVerifier {}

impl MockZKVerifier {
    /// A fresh all-accepting checker.
    pub fn new() -> (r: MockZKVerifier) {
        MockZKVerifier {  }
    }

    /// Accepts every (wallet, proof) pair.
    pub fn check_wallet(&self, _wallet: &str, _proof: &str) -> (r: bool)
        ensures
            r == true,
    {
        true
    }

    /// Accepts every (email, proof) pair.
    pub fn check_email(&self, _email: &str, _proof: &str) -> (r: bool)
        ensures
            r == true,
    {
        true
    }
}

impl ZKVerifier for MockZKVerifier {
    /// The mock accepts every wallet pair.
    open spec fn wallet_accepts(&self, _wallet: Seq<char>, _proof: Seq<char>) -> bool {
        true
    }

    /// The mock accepts every email pair.
    open spec fn email_accepts(&self, _email: Seq<char>, _proof: Seq<char>) -> bool {
        true
    }

    fn verify_wallet(&self, wallet: &str, proof: &str) -> (r: bool) {
        self.check_wallet(wallet, proof)
    }

    fn verify_email(&self, email: &str, proof: &str) -> (r: bool) {
        self.check_email(email, proof)
    }
}

} // verus!
