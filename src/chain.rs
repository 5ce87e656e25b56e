//! The chain: an append-only sequence of sealed blocks, each linked to the
//! hash of the one before it.
use vstd::prelude::*;
use crate::block::{Block, BlockView, DIFFICULTY, has_zero_prefix};
use crate::error::LedgerError;
use crate::transaction::Transaction;

verus! {

/// The hash the first block of a chain links to.
pub open spec fn genesis_link() -> Seq<char> {
    seq!['0']
}

/// The hash a new block links to: that of the last block, or the genesis
/// link for an empty chain.
pub open spec fn tip_hash(s: Seq<BlockView>) -> Seq<char> {
    if s.len() == 0 {
        genesis_link()
    } else {
        s.last().hash
    }
}

/// Each block links to the hash of the block before it, and the first one to
/// the genesis link.
pub open spec fn linked(s: Seq<BlockView>) -> bool {
    &&& s.len() > 0 ==> s[0].prev_block_hash == genesis_link()
    &&& forall|i: int| 0 < i < s.len() ==> #[trigger] s[i].prev_block_hash == s[i - 1].hash
}

/// The chain is linked and every block in it is valid.
pub open spec fn chain_valid(s: Seq<BlockView>) -> bool {
    &&& linked(s)
    &&& forall|i: int| 0 <= i < s.len() ==> #[trigger] s[i].valid()
}

/// An ordered sequence of blocks.
pub struct Blockchain {
    pub chain: Vec<Block>,
}

impl View for Blockchain {
    type V = Seq<BlockView>;

    open spec fn view(&self) -> Seq<BlockView> {
        self.chain@.map_values(|b: Block| b@)
    }
}

/// The text `"0"`.
fn genesis_hash() -> (r: String)
    ensures
        r@ == genesis_link(),
{
    let r = String::from_str("0");
    proof {
        reveal_strlit("0");
    }
    assert(r@ =~= genesis_link());
    r
}

/// Whether two blocks hold the same values in every field.
pub fn same_block(a: &Block, b: &Block) -> (r: bool)
    ensures
        r == (a@ == b@),
{
    a.time == b.time && a.transaction.from.same(&b.transaction.from) && a.transaction.to.same(
        &b.transaction.to,
    ) && a.transaction.amount == b.transaction.amount && a.transaction.signature
        == b.transaction.signature && a.prev_block_hash == b.prev_block_hash && a.nonce == b.nonce
        && a.hash == b.hash
}

impl Blockchain {
    /// The empty chain.
    pub fn new() -> (r: Blockchain)
        ensures
            r@ == Seq::<BlockView>::empty(),
            linked(r@),
    {
        let r = Blockchain { chain: Vec::new() };
        assert(r@ =~= Seq::<BlockView>::empty());
        r
    }

    /// Mines a block for `transaction` on top of the last block (or the
    /// genesis link) and appends it. On failure the chain is unchanged.
    pub fn add_block(&mut self, transaction: Transaction) -> (r: Result<(), LedgerError>)
        ensures
            r is Ok ==> {
                &&& final(self)@.len() == old(self)@.len() + 1
                &&& final(self)@.drop_last() == old(self)@
                &&& final(self)@.last().sealed(DIFFICULTY as nat)
                &&& final(self)@.last().transaction == transaction@
                &&& final(self)@.last().prev_block_hash == tip_hash(old(self)@)
            },
            r is Err ==> final(self)@ == old(self)@,
            r matches Err(e) ==> e == LedgerError::MiningExhausted,
            r is Err ==> exists|t: u128|
                (BlockView {
                    time: t,
                    transaction: transaction@,
                    prev_block_hash: tip_hash(old(self)@),
                    nonce: 0,
                    hash: Seq::empty(),
                }).unsealable(DIFFICULTY as nat),
            linked(old(self)@) ==> linked(final(self)@),
    {
        let n = self.chain.len();
        let prev_hash = if n == 0 {
            genesis_hash()
        } else {
            self.chain[n - 1].hash.clone()
        };
        let ghost before = self@;
        assert(prev_hash@ == tip_hash(before));
        let new_block = Block::new(transaction, prev_hash)?;
        self.chain.push(new_block);
        assert(self@.drop_last() =~= before);
        assert(self@ =~= before.push(new_block@));
        Ok(())
    }

    /// Whether the whole chain can be trusted: it is linked, every stored hash
    /// is the one its block's fields give and carries the fixed number of
    /// zeros, and every transfer's signature is accepted.
    pub fn validate(&self) -> (r: bool)
        ensures
            r == chain_valid(self@),
    {
        let n = self.chain.len();
        let mut i: usize = 0;
        while i < n
            invariant
                n == self.chain@.len(),
                i <= n,
                forall|j: int| 0 <= j < i ==> #[trigger] self@[j].valid(),
                i > 0 ==> self@[0].prev_block_hash == genesis_link(),
                forall|j: int| 0 < j < i ==> #[trigger] self@[j].prev_block_hash == self@[j - 1].hash,
            decreases n - i,
        {
            let b = &self.chain[i];
            assert(self@[i as int] == b@);
            let link_ok = if i == 0 {
                b.prev_block_hash == genesis_hash()
            } else {
                b.prev_block_hash == self.chain[i - 1].hash
            };
            if !link_ok {
                proof {
                    if i > 0 {
                        assert(self@[i as int].prev_block_hash != self@[i - 1].hash);
                    }
                    assert(!linked(self@));
                }
                return false;
            }
            let h = b.calculate_hash();
            if !(h == b.hash) || !has_zero_prefix(&b.hash, DIFFICULTY) {
                assert(!self@[i as int].valid());
                return false;
            }
            match b.transaction.verify() {
                Ok(true) => {},
                _ => {
                    assert(!self@[i as int].valid());
                    return false;
                },
            }
            i = i + 1;
        }
        true
    }

    /// Whether two chains hold the same blocks in the same order, field by
    /// field.
    pub fn same(&self, other: &Blockchain) -> (r: bool)
        ensures
            r == (self@ == other@),
    {
        if self.chain.len() != other.chain.len() {
            assert(self@.len() != other@.len());
            return false;
        }
        let mut i: usize = 0;
        while i < self.chain.len()
            invariant
                i <= self.chain.len(),
                self.chain.len() == other.chain.len(),
                forall|j: int| 0 <= j < i ==> self@[j] == other@[j],
            decreases self.chain.len() - i,
        {
            if !same_block(&self.chain[i], &other.chain[i]) {
                assert(self@[i as int] != other@[i as int]);
                return false;
            }
            i = i + 1;
        }
        assert(self@ =~= other@);
        true
    }

    pub fn copy(&self) -> (r: Blockchain)
        ensures
            r@ == self@,
    {
        let mut out: Vec<Block> = Vec::new();
        let mut i: usize = 0;
        while i < self.chain.len()
            invariant
                i <= self.chain.len(),
                out@.len() == i,
                forall|j: int| 0 <= j < i ==> #[trigger] out@[j]@ == self.chain@[j]@,
            decreases self.chain.len() - i,
        {
            out.push(self.chain[i].copy());
            i = i + 1;
        }
        let r = Blockchain { chain: out };
        assert(r@ =~= self@);
        r
    }
}

} // verus!
