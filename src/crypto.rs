//! The cryptographic primitives this ledger relies on, each behind a small
//! trusted wrapper. Results that take pages to define (a digest, a base64
//! text, the public point of a secret scalar, whether ECDSA accepts a
//! signature) are given names; the wrappers say when those names apply.
use vstd::prelude::*;
use base64::Engine;
use sha2::Digest;

verus! {

/// The SHA-256 digest of a byte sequence.
pub uninterp spec fn sha256_of(data: Seq<u8>) -> Seq<u8>;

/// The standard, padded base64 text of a byte sequence.
pub uninterp spec fn base64_of(data: Seq<u8>) -> Seq<char>;

/// The compressed 33-byte encoding of the secp256k1 public key that belongs
/// to a 32-byte secret key.
pub uninterp spec fn public_key_of(secret: Seq<u8>) -> Seq<u8>;

/// Whether `signature`, read as the hex text of a DER-encoded ECDSA
/// signature, is accepted by secp256k1 for the 32-byte `digest` under the
/// encoded public key `public`.
pub uninterp spec fn ecdsa_accepts(public: Seq<u8>, digest: Seq<u8>, signature: Seq<char>) -> bool;

/// The value of a byte sequence read as a big-endian unsigned integer.
pub open spec fn be_value(s: Seq<u8>) -> nat
    decreases s.len(),
{
    if s.len() == 0 {
        0
    } else {
        be_value(s.drop_last()) * 256 + s.last() as nat
    }
}

/// The order of the secp256k1 group.
pub open spec fn group_order() -> nat {
    0xFFFFFFFFFFFFFFFFFFFFFFFFFFFFFFFEu128 as nat * 0x1_0000_0000_0000_0000_0000_0000_0000_0000
        + 0xBAAEDCE6AF48A03BBFD25E8CD0364141u128 as nat
}

/// A secp256k1 secret key: 32 bytes whose big-endian value is neither zero
/// nor at least the group order.
pub open spec fn valid_secret(s: Seq<u8>) -> bool {
    s.len() == 32 && 0 < be_value(s) < group_order()
}

/// Whether secp256k1 reads the bytes as an encoded public key.
pub uninterp spec fn public_key_readable(public: Seq<u8>) -> bool;

/// Whether secp256k1 reads the text as the hex of a DER-encoded ECDSA
/// signature.
pub uninterp spec fn signature_readable(signature: Seq<char>) -> bool;

/// Why a signature could not be checked at all.
#[derive(Debug, Clone, Copy, PartialEq, Eq, Structural)]
pub enum SignatureFault {
    PublicKey,
    Signature,
    Digest,
}

/// Relies on sha2::Sha256 (update, then finalize): a 32-byte digest that
/// depends on the input bytes alone.
#[verifier::external_body]
pub(crate) fn sha256(data: &Vec<u8>) -> (r: Vec<u8>)
    ensures
        r@ == sha256_of(data@),
        r@.len() == 32,
{
    let mut hasher = sha2::Sha256::new();
    hasher.update(data.as_slice());
    hasher.finalize().to_vec()
}

/// Relies on base64's STANDARD engine `encode`: the padded base64 text of the
/// bytes.
#[verifier::external_body]
pub(crate) fn base64_encode(data: &Vec<u8>) -> (r: String)
    ensures
        r@ == base64_of(data@),
        r@.len() == 4 * ((data@.len() + 2) / 3),
{
    base64::engine::general_purpose::STANDARD.encode(data.as_slice())
}

/// Relies on secp256k1's `PublicKey::from_secret_key` (after
/// `SecretKey::from_slice`, which accepts exactly the valid secret keys) and
/// `PublicKey::serialize`: the compressed public key of a valid secret key.
#[verifier::external_body]
pub(crate) fn derive_public_key(secret: &Vec<u8>) -> (r: Option<Vec<u8>>)
    ensures
        r matches Some(p) ==> p@ == public_key_of(secret@) && p@.len() == 33,
        r is Some ==> valid_secret(secret@),
        valid_secret(secret@) ==> r is Some,
{
    let sk = secp256k1::SecretKey::from_slice(secret.as_slice()).ok()?;
    let context = secp256k1::Secp256k1::new();
    Some(secp256k1::PublicKey::from_secret_key(&context, &sk).serialize().to_vec())
}

/// Relies on secp256k1's `Secp256k1::sign_ecdsa` (after
/// `SecretKey::from_slice`, which accepts exactly the valid secret keys, and
/// `Message::from_digest_slice`, which accepts exactly 32 bytes) and the
/// signature's hex DER text: a signature that `verify_ecdsa` accepts under
/// the signer's public key.
#[verifier::external_body]
pub(crate) fn sign_digest(secret: &Vec<u8>, digest: &Vec<u8>) -> (r: Option<String>)
    ensures
        r matches Some(s) ==> ecdsa_accepts(public_key_of(secret@), digest@, s@),
        r is Some ==> valid_secret(secret@) && digest@.len() == 32,
        valid_secret(secret@) && digest@.len() == 32 ==> r is Some,
{
    let sk = secp256k1::SecretKey::from_slice(secret.as_slice()).ok()?;
    let message = secp256k1::Message::from_digest_slice(digest.as_slice()).ok()?;
    let context = secp256k1::Secp256k1::new();
    Some(context.sign_ecdsa(&message, &sk).to_string())
}

/// Relies on secp256k1's `Secp256k1::verify_ecdsa` (after
/// `PublicKey::from_slice`, `Signature::from_str` and
/// `Message::from_digest_slice`, tried in that order): whether the signature
/// is accepted, or the first input that could not be read.
#[verifier::external_body]
pub(crate) fn check_signature(public: &Vec<u8>, digest: &Vec<u8>, signature: &String) -> (r: Result<bool, SignatureFault>)
    ensures
        r matches Ok(b) ==> b == ecdsa_accepts(public@, digest@, signature@),
        r is Err ==> !ecdsa_accepts(public@, digest@, signature@),
        r is Ok ==> public_key_readable(public@) && signature_readable(signature@) && digest@.len() == 32,
        public_key_readable(public@) && signature_readable(signature@) && digest@.len() == 32 ==> r is Ok,
        r matches Err(f) ==> (f == SignatureFault::PublicKey) == !public_key_readable(public@),
        r matches Err(f) ==> (f == SignatureFault::Signature) == (public_key_readable(public@)
            && !signature_readable(signature@)),
{
    let pk = secp256k1::PublicKey::from_slice(public.as_slice()).map_err(|_| SignatureFault::PublicKey)?;
    let sig = <secp256k1::ecdsa::Signature as std::str::FromStr>::from_str(signature.as_str())
        .map_err(|_| SignatureFault::Signature)?;
    let message = secp256k1::Message::from_digest_slice(digest.as_slice()).map_err(|_| SignatureFault::Digest)?;
    let context = secp256k1::Secp256k1::new();
    Ok(context.verify_ecdsa(&message, &sig, &pk).is_ok())
}

/// Relies on secp256k1's `Secp256k1::generate_keypair` with rand's
/// `thread_rng`: a fresh secret key (`SecretKey::new` draws until the key is
/// valid) and the public key that belongs to it.
#[verifier::external_body]
pub(crate) fn random_keypair() -> (r: (Vec<u8>, Vec<u8>))
    ensures
        r.0@.len() == 32,
        valid_secret(r.0@),
        r.1@ == public_key_of(r.0@),
        r.1@.len() == 33,
{
    let context = secp256k1::Secp256k1::new();
    let (sk, pk) = context.generate_keypair(&mut rand::thread_rng());
    (sk.secret_bytes().to_vec(), pk.serialize().to_vec())
}

/// Relies on std's `SystemTime::now` and `duration_since(UNIX_EPOCH)`:
/// milliseconds since the epoch, or zero for a clock set before it.
#[verifier::external_body]
pub(crate) fn now_millis() -> (r: u128) {
    std::time::SystemTime::now()
        .duration_since(std::time::UNIX_EPOCH)
        .map(|d| d.as_millis())
        .unwrap_or(0)
}

} // verus!
