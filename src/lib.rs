//! A small peer-to-peer ledger: signed transfers sealed by proof of work into
//! an append-only chain, balances derived from the chain, and majority-copy
//! reconciliation of chains reported by peers.
pub mod block;
pub mod chain;
pub mod crypto;
pub mod encoding;
pub mod error;
pub mod ledger;
pub mod transaction;

pub use block::{Block, DIFFICULTY};
pub use chain::Blockchain;
pub use error::LedgerError;
pub use ledger::{next_request, Ledger, PeerAddr, PeerReport, PeerRequest};
pub use transaction::{generate_keypair, PublicKey, SecretKey, Transaction};
