//! Blocks: one transfer sealed by proof of work and linked to the block
//! before it.
use vstd::prelude::*;
use crate::crypto::{
    base64_encode, base64_of, now_millis, public_key_readable, sha256, sha256_of, signature_readable,
};
use crate::encoding::{decimal, list_form, push_decimal, push_list_form};
use crate::error::LedgerError;
use crate::transaction::{digest_of, message_bytes, Transaction, TransactionView};

verus! {

/// The number of leading `'0'` characters a sealed block's hash carries.
pub const DIFFICULTY: usize = 2;

/// Whether `h` starts with `d` characters `'0'`.
pub open spec fn zero_prefix(h: Seq<char>, d: nat) -> bool {
    d <= h.len() && forall|i: int| 0 <= i < d ==> h[i] == '0'
}

/// The bytes that are hashed to seal a block: the time as a decimal
/// numeral, the transfer's digest in bracketed list form, the previous
/// block's hash, and the nonce as a decimal numeral.
pub open spec fn header_of(time: u128, digest: Seq<u8>, prev: Seq<char>, nonce: u64) -> Seq<u8> {
    decimal(time as nat) + list_form(digest) + vstd::utf8::encode_utf8(prev) + decimal(nonce as nat)
}

/// The hash of a block with these fields: the base64 text of the SHA-256 of
/// its header.
pub open spec fn block_hash(time: u128, digest: Seq<u8>, prev: Seq<char>, nonce: u64) -> Seq<char> {
    base64_of(sha256_of(header_of(time, digest, prev, nonce)))
}

/// What a block holds, as plain values.
pub struct BlockView {
    pub time: u128,
    pub transaction: TransactionView,
    pub prev_block_hash: Seq<char>,
    pub nonce: u64,
    pub hash: Seq<char>,
}

impl BlockView {
    /// The hash this block would have with the given nonce.
    pub open spec fn hash_at(self, nonce: u64) -> Seq<char> {
        let t = self.transaction;
        block_hash(self.time, digest_of(t.from, t.to, t.amount), self.prev_block_hash, nonce)
    }

    /// No nonce seals this block at difficulty `d`.
    pub open spec fn unsealable(self, d: nat) -> bool {
        forall|m: u64| !zero_prefix(#[trigger] self.hash_at(m), d)
    }

    /// The block is sealed at difficulty `d`: its hash is the one its fields
    /// give, it carries `d` zeros, and no smaller nonce gives such a hash.
    pub open spec fn sealed(self, d: nat) -> bool {
        &&& self.hash == self.hash_at(self.nonce)
        &&& zero_prefix(self.hash, d)
        &&& forall|m: u64| m < self.nonce ==> !zero_prefix(#[trigger] self.hash_at(m), d)
    }

    /// The stored hash is the one its fields give, with the fixed number of
    /// zeros, and the transfer's signature is accepted.
    pub open spec fn valid(self) -> bool {
        &&& self.hash == self.hash_at(self.nonce)
        &&& zero_prefix(self.hash, DIFFICULTY as nat)
        &&& self.transaction.signature_valid()
    }
}

/// A transfer sealed by proof of work.
pub struct Block {
    pub time: u128,
    pub transaction: Transaction,
    pub prev_block_hash: String,
    pub nonce: u64,
    pub hash: String,
}

impl View for Block {
    type V = BlockView;

    open spec fn view(&self) -> BlockView {
        BlockView {
            time: self.time,
            transaction: self.transaction@,
            prev_block_hash: self.prev_block_hash@,
            nonce: self.nonce,
            hash: self.hash@,
        }
    }
}

/// Whether `h` starts with `d` characters `'0'`.
pub fn has_zero_prefix(h: &String, d: usize) -> (r: bool)
    ensures
        r == zero_prefix(h@, d as nat),
{
    let s = h.as_str();
    if s.unicode_len() < d {
        return false;
    }
    let mut i: usize = 0;
    while i < d
        invariant
            i <= d,
            d <= s@.len(),
            s@ == h@,
            forall|j: int| 0 <= j < i ==> h@[j] == '0',
        decreases d - i,
    {
        if s.get_char(i) != '0' {
            return false;
        }
        i = i + 1;
    }
    true
}

impl Block {
    /// Seals a transfer on top of `prev_block_hash`, stamped with the current
    /// time, at the fixed difficulty.
    pub fn new(transaction: Transaction, prev_block_hash: String) -> (r: Result<Block, LedgerError>)
        ensures
            r matches Ok(b) ==> b@.sealed(DIFFICULTY as nat) && b@.transaction == transaction@
                && b@.prev_block_hash == prev_block_hash@,
            r matches Err(e) ==> e == LedgerError::MiningExhausted,
            r is Err ==> exists|t: u128|
                (BlockView {
                    time: t,
                    transaction: transaction@,
                    prev_block_hash: prev_block_hash@,
                    nonce: 0,
                    hash: Seq::empty(),
                }).unsealable(DIFFICULTY as nat),
    {
        let time = now_millis();
        let ghost tv = transaction@;
        let ghost pv = prev_block_hash@;
        let r = Block::seal(transaction, prev_block_hash, time, DIFFICULTY);
        proof {
            if r is Err {
                let w = BlockView { time, transaction: tv, prev_block_hash: pv, nonce: 0, hash: Seq::empty() };
                assert(w.unsealable(DIFFICULTY as nat));
            }
        }
        r
    }

    /// Seals a transfer on top of `prev_block_hash` with the given time at
    /// difficulty `difficulty`. Fails only when no nonce seals it.
    pub fn seal(transaction: Transaction, prev_block_hash: String, time: u128, difficulty: usize) -> (r: Result<Block, LedgerError>)
        ensures
            r matches Ok(b) ==> b@.sealed(difficulty as nat) && b@.transaction == transaction@
                && b@.prev_block_hash == prev_block_hash@ && b.time == time,
            r is Err <==> (BlockView {
                time,
                transaction: transaction@,
                prev_block_hash: prev_block_hash@,
                nonce: 0,
                hash: Seq::empty(),
            }).unsealable(difficulty as nat),
            r matches Err(e) ==> e == LedgerError::MiningExhausted,
    {
        let mut block = Block { time, transaction, prev_block_hash, nonce: 0, hash: String::new() };
        match block.mine(difficulty) {
            Ok(()) => Ok(block),
            Err(e) => Err(e),
        }
    }

    /// Counts the nonce up from zero until the hash carries `difficulty`
    /// zeros.
    pub fn mine(&mut self, difficulty: usize) -> (r: Result<(), LedgerError>)
        requires
            old(self).nonce == 0,
        ensures
            final(self).time == old(self).time,
            final(self)@.transaction == old(self)@.transaction,
            final(self)@.prev_block_hash == old(self)@.prev_block_hash,
            r is Ok ==> final(self)@.sealed(difficulty as nat),
            r is Err <==> old(self)@.unsealable(difficulty as nat),
            r matches Err(e) ==> e == LedgerError::MiningExhausted,
    {
        let ghost start = self@;
        let digest = message_bytes(&self.transaction.to, &self.transaction.from, self.transaction.amount);
        self.hash = hash_of_fields(self.time, &digest, &self.prev_block_hash, self.nonce);
        while !has_zero_prefix(&self.hash, difficulty)
            invariant
                start == old(self)@,
                self.time == start.time,
                self@.transaction == start.transaction,
                self@.prev_block_hash == start.prev_block_hash,
                digest@ == digest_of(start.transaction.from, start.transaction.to, start.transaction.amount),
                self.hash@ == start.hash_at(self.nonce),
                forall|m: u64| m < self.nonce ==> !zero_prefix(#[trigger] start.hash_at(m), difficulty as nat),
            decreases u64::MAX - self.nonce,
        {
            if self.nonce == u64::MAX {
                proof {
                    assert forall|m: u64| !zero_prefix(#[trigger] start.hash_at(m), difficulty as nat) by {
                        if m < self.nonce {
                        } else {
                            assert(m == self.nonce);
                        }
                    }
                }
                return Err(LedgerError::MiningExhausted);
            }
            self.nonce = self.nonce + 1;
            self.hash = hash_of_fields(self.time, &digest, &self.prev_block_hash, self.nonce);
        }
        proof {
            assert(self@.hash_at(self.nonce) == start.hash_at(self.nonce));
            assert(!start.unsealable(difficulty as nat)) by {
                assert(zero_prefix(start.hash_at(self.nonce), difficulty as nat));
            }
            assert forall|m: u64| m < self.nonce implies !zero_prefix(#[trigger] self@.hash_at(m), difficulty as nat) by {
                assert(self@.hash_at(m) == start.hash_at(m));
            }
        }
        Ok(())
    }

    /// Whether the hash carries `difficulty` zeros.
    pub fn verify_hash(&self, difficulty: usize) -> (r: bool)
        ensures
            r == zero_prefix(self.hash@, difficulty as nat),
    {
        has_zero_prefix(&self.hash, difficulty)
    }

    /// Whether the block is acceptable: its transfer's signature is accepted,
    /// its stored hash is the one its fields give, and that hash carries
    /// `difficulty` zeros. A key or signature that cannot be read gives the
    /// transfer's error.
    pub fn verify(&self, difficulty: usize) -> (r: Result<bool, LedgerError>)
        ensures
            r matches Ok(b) ==> b == (self@.transaction.signature_valid() && zero_prefix(self.hash@, difficulty as nat)
                && self.hash@ == self@.hash_at(self.nonce)),
            r is Err <==> !(public_key_readable(self.transaction.from@) && signature_readable(
                self.transaction.signature@,
            )),
            r matches Err(e) ==> (e == LedgerError::InvalidPublicKey) == !public_key_readable(
                self.transaction.from@,
            ),
            r matches Err(e) ==> (e == LedgerError::InvalidSignature) == (public_key_readable(
                self.transaction.from@,
            ) && !signature_readable(self.transaction.signature@)),
    {
        let signed = self.transaction.verify()?;
        Ok(signed && self.verify_hash(difficulty) && self.calculate_hash() == self.hash)
    }

    /// The hash that this block's fields give.
    pub fn calculate_hash(&self) -> (r: String)
        ensures
            r@ == self@.hash_at(self.nonce),
    {
        let digest = message_bytes(&self.transaction.to, &self.transaction.from, self.transaction.amount);
        hash_of_fields(self.time, &digest, &self.prev_block_hash, self.nonce)
    }

    pub fn copy(&self) -> (r: Block)
        ensures
            r@ == self@,
    {
        Block {
            time: self.time,
            transaction: self.transaction.copy(),
            prev_block_hash: self.prev_block_hash.clone(),
            nonce: self.nonce,
            hash: self.hash.clone(),
        }
    }
}

/// The block hash of the given fields.
pub fn hash_of_fields(time: u128, digest: &Vec<u8>, prev_block_hash: &String, nonce: u64) -> (r: String)
    ensures
        r@ == block_hash(time, digest@, prev_block_hash@, nonce),
{
    let mut header: Vec<u8> = Vec::new();
    push_decimal(&mut header, time);
    push_list_form(&mut header, digest);
    let prev = prev_block_hash.as_str().as_bytes_vec();
    let mut i: usize = 0;
    let ghost before = header@;
    while i < prev.len()
        invariant
            i <= prev.len(),
            header@ == before + prev@.take(i as int),
        decreases prev.len() - i,
    {
        header.push(prev[i]);
        assert(prev@.take(i as int + 1) =~= prev@.take(i as int).push(prev@[i as int]));
        i = i + 1;
    }
    assert(prev@.take(prev.len() as int) =~= prev@);
    push_decimal(&mut header, nonce as u128);
    assert(header@ =~= header_of(time, digest@, prev_block_hash@, nonce));
    let h = sha256(&header);
    base64_encode(&h)
}

} // verus!
