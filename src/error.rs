//! The ledger's error type.
use vstd::prelude::*;

verus! {

/// Why a ledger operation failed.
#[derive(Debug, Clone, Copy, PartialEq, Eq, Structural)]
pub enum LedgerError {
    /// The secret key is not a valid secp256k1 secret key.
    InvalidSecretKey,
    /// A public key cannot be decoded.
    InvalidPublicKey,
    /// A signature string is not hex-encoded DER.
    InvalidSignature,
    /// A digest is not 32 bytes long.
    InvalidDigest,
    /// The sender's balance is below the amount.
    InsufficientFunds,
    /// A balance leaves the range of `i64`.
    BalanceOutOfRange,
    /// No nonce up to `u64::MAX` seals the block.
    MiningExhausted,
}

} // verus!
