//! Keys and signed transfers.
use vstd::prelude::*;
use crate::crypto::{
    check_signature, derive_public_key, ecdsa_accepts, public_key_of, public_key_readable,
    random_keypair, sha256, sha256_of, sign_digest, signature_readable, valid_secret,
    SignatureFault,
};
use crate::encoding::{be_bytes, hex_of, push_be_bytes, push_hex};
use crate::error::LedgerError;

verus! {

/// A secp256k1 public key in its compressed 33-byte encoding.
pub struct PublicKey {
    pub bytes: Vec<u8>,
}

/// A secp256k1 secret key as its 32 bytes.
pub struct SecretKey {
    pub bytes: Vec<u8>,
}

impl View for PublicKey {
    type V = Seq<u8>;

    open spec fn view(&self) -> Seq<u8> {
        self.bytes@
    }
}

impl View for SecretKey {
    type V = Seq<u8>;

    open spec fn view(&self) -> Seq<u8> {
        self.bytes@
    }
}

/// Copies a byte vector.
pub fn copy_bytes(v: &Vec<u8>) -> (r: Vec<u8>)
    ensures
        r@ == v@,
{
    let r = v.clone();
    assert(r@ =~= v@);
    r
}

/// Whether two byte vectors hold the same bytes.
pub fn same_bytes(a: &Vec<u8>, b: &Vec<u8>) -> (r: bool)
    ensures
        r == (a@ == b@),
{
    if a.len() != b.len() {
        return false;
    }
    let mut i: usize = 0;
    while i < a.len()
        invariant
            i <= a.len(),
            a.len() == b.len(),
            forall|j: int| 0 <= j < i ==> a@[j] == b@[j],
        decreases a.len() - i,
    {
        if a[i] != b[i] {
            return false;
        }
        i = i + 1;
    }
    assert(a@ =~= b@);
    true
}

impl PublicKey {
    pub fn copy(&self) -> (r: PublicKey)
        ensures
            r@ == self@,
    {
        PublicKey { bytes: copy_bytes(&self.bytes) }
    }

    pub fn same(&self, other: &PublicKey) -> (r: bool)
        ensures
            r == (self@ == other@),
    {
        same_bytes(&self.bytes, &other.bytes)
    }
}

/// What a transaction holds, as plain values.
pub struct TransactionView {
    pub from: Seq<u8>,
    pub to: Seq<u8>,
    pub amount: u64,
    pub signature: Seq<char>,
}

/// A signed transfer of `amount` from the holder of `from` to `to`.
pub struct Transaction {
    pub from: PublicKey,
    pub to: PublicKey,
    pub amount: u64,
    pub signature: String,
}

impl View for Transaction {
    type V = TransactionView;

    open spec fn view(&self) -> TransactionView {
        TransactionView {
            from: self.from@,
            to: self.to@,
            amount: self.amount,
            signature: self.signature@,
        }
    }
}

/// The bytes that are hashed for signing: the hex text of the sender's key,
/// the hex text of the receiver's key, then the amount in big-endian order.
pub open spec fn message_of(from: Seq<u8>, to: Seq<u8>, amount: u64) -> Seq<u8> {
    hex_of(from) + hex_of(to) + be_bytes(amount)
}

/// The digest that a transfer's signature covers.
pub open spec fn digest_of(from: Seq<u8>, to: Seq<u8>, amount: u64) -> Seq<u8> {
    sha256_of(message_of(from, to, amount))
}

impl TransactionView {
    /// The signature is accepted under the sender's declared key.
    pub open spec fn signature_valid(self) -> bool {
        ecdsa_accepts(self.from, digest_of(self.from, self.to, self.amount), self.signature)
    }

    /// This transfer was signed with `secret` for `to` and `amount`.
    pub open spec fn issued_by(self, secret: Seq<u8>, to: Seq<u8>, amount: u64) -> bool {
        &&& self.from == public_key_of(secret)
        &&& self.to == to
        &&& self.amount == amount
        &&& ecdsa_accepts(self.from, digest_of(self.from, self.to, self.amount), self.signature)
    }
}

/// The digest of the signed message of a transfer.
pub fn message_bytes(to: &PublicKey, from_public: &PublicKey, amount: u64) -> (r: Vec<u8>)
    ensures
        r@ == digest_of(from_public@, to@, amount),
        r@.len() == 32,
{
    let mut message: Vec<u8> = Vec::new();
    push_hex(&mut message, &from_public.bytes);
    push_hex(&mut message, &to.bytes);
    push_be_bytes(&mut message, amount);
    assert(message@ =~= message_of(from_public@, to@, amount));
    sha256(&message)
}

/// Maps a fault met while checking a signature to the ledger's error.
pub fn signature_error(f: SignatureFault) -> (r: LedgerError)
    ensures
        f == SignatureFault::PublicKey ==> r == LedgerError::InvalidPublicKey,
        f == SignatureFault::Signature ==> r == LedgerError::InvalidSignature,
        f == SignatureFault::Digest ==> r == LedgerError::InvalidDigest,
{
    match f {
        SignatureFault::PublicKey => LedgerError::InvalidPublicKey,
        SignatureFault::Signature => LedgerError::InvalidSignature,
        SignatureFault::Digest => LedgerError::InvalidDigest,
    }
}

/// A fresh random key pair: the secret key and the public key that belongs
/// to it.
pub fn generate_keypair() -> (r: (SecretKey, PublicKey))
    ensures
        valid_secret(r.0@),
        r.1@ == public_key_of(r.0@),
{
    let (s, p) = random_keypair();
    (SecretKey { bytes: s }, PublicKey { bytes: p })
}

/// The public key of a secret key.
pub fn public_key(secret: &SecretKey) -> (r: Result<PublicKey, LedgerError>)
    ensures
        r matches Ok(p) ==> p@ == public_key_of(secret@),
        r matches Err(e) ==> e == LedgerError::InvalidSecretKey,
        r is Ok <==> valid_secret(secret@),
{
    match derive_public_key(&secret.bytes) {
        Some(p) => Ok(PublicKey { bytes: p }),
        None => Err(LedgerError::InvalidSecretKey),
    }
}

impl Transaction {
    /// Signs a transfer of `amount` to `to` with the sender's secret key. The
    /// sender's public key is derived from the secret key.
    pub fn new(to: &PublicKey, from: &SecretKey, amount: u64) -> (r: Result<Transaction, LedgerError>)
        ensures
            r matches Ok(t) ==> t@.issued_by(from@, to@, amount),
            r matches Err(e) ==> e == LedgerError::InvalidSecretKey,
            r is Ok <==> valid_secret(from@),
    {
        let from_public = public_key(from)?;
        let message = message_bytes(to, &from_public, amount);
        match sign_digest(&from.bytes, &message) {
            Some(signature) => Ok(Transaction { from: from_public, to: to.copy(), amount, signature }),
            None => Err(LedgerError::InvalidSecretKey),
        }
    }

    /// Checks the signature against the sender's declared key. A readable
    /// key and signature give `Ok`, `Ok(false)` for a wrong signature; a key
    /// or signature that cannot be read gives an error.
    pub fn verify(&self) -> (r: Result<bool, LedgerError>)
        ensures
            r matches Ok(b) ==> b == self@.signature_valid(),
            r is Err ==> !self@.signature_valid(),
            self@.signature_valid() ==> r == Ok::<bool, LedgerError>(true),
            r is Err <==> !(public_key_readable(self.from@) && signature_readable(self.signature@)),
            r matches Err(e) ==> (e == LedgerError::InvalidPublicKey) == !public_key_readable(self.from@),
            r matches Err(e) ==> (e == LedgerError::InvalidSignature) == (public_key_readable(self.from@)
                && !signature_readable(self.signature@)),
    {
        let message = message_bytes(&self.to, &self.from, self.amount);
        match check_signature(&self.from.bytes, &message, &self.signature) {
            Ok(b) => Ok(b),
            Err(f) => Err(signature_error(f)),
        }
    }

    pub fn copy(&self) -> (r: Transaction)
        ensures
            r@ == self@,
    {
        Transaction {
            from: self.from.copy(),
            to: self.to.copy(),
            amount: self.amount,
            signature: self.signature.clone(),
        }
    }
}

/// A transfer made by `Transaction::new` passes `Transaction::verify`: its
/// signature is accepted under the sender's declared key.
pub proof fn lemma_signed_transfer_verifies(t: TransactionView, secret: Seq<u8>, to: Seq<u8>, amount: u64)
    requires
        t.issued_by(secret, to, amount),
    ensures
        t.signature_valid(),
{
}

} // verus!
