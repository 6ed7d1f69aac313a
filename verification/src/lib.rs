//! A decentralized-identity backend core: one logical identity backed by
//! wallet, email, and zero-knowledge credentials.
//!
//! The crate models the relational credential store, the identity graph
//! operations over it, the nonce challenge-response protocol for wallet
//! login, the zero-knowledge proof pipeline (hash-to-field, proof creation,
//! proof verification), and signed-session-token issuance. Persistence,
//! networking and key-file handling are collaborators of the surrounding
//! application; this library holds the logic and its proofs.

pub mod auth;
pub mod codec;
pub mod errors;
pub mod flows;
pub mod laws;
pub mod nonce;
pub mod session;
pub mod store;
pub mod zk;
