//! A node's ledger: its chain, its address and the peers it knows, with
//! balance derivation, transfer submission and majority-copy reconciliation
//! of the chains that peers report.
use vstd::prelude::*;
use crate::block::{BlockView, DIFFICULTY};
use crate::chain::{Blockchain, chain_valid, linked, tip_hash};
use crate::crypto::{public_key_of, valid_secret};
use crate::error::LedgerError;
use crate::transaction::{public_key, PublicKey, SecretKey, Transaction, TransactionView};

verus! {

broadcast use vstd::seq_lib::group_seq_properties;

/// The credit every identity starts with.
pub const GENESIS_CREDIT: i64 = 100;

/// A peer's network address: an IPv4 address (widened to 128 bits) or an
/// IPv6 address, and a port.
#[derive(Debug, Clone, Copy, PartialEq, Eq, Structural, Hash)]
pub struct PeerAddr {
    pub v6: bool,
    pub ip: u128,
    pub port: u16,
}

/// What one peer answered during reconciliation: its peer list, if that
/// request succeeded, and its chain, if that request succeeded and the
/// answer could be read.
pub struct PeerReport {
    pub peer: PeerAddr,
    pub peers: Option<Vec<PeerAddr>>,
    pub chain: Option<Blockchain>,
}

/// A request made to one peer during reconciliation.
#[derive(Debug, Clone, Copy, PartialEq, Eq, Structural)]
pub enum PeerRequest {
    /// Tell the peer this node's address.
    Announce,
    /// Fetch the peer's list of peers.
    FetchPeers,
    /// Fetch the peer's chain.
    FetchChain,
}

/// The request to make after `last` (`None` before the first one), given
/// whether `last` succeeded; `None` when this peer is done. An announcement
/// that fails is only noted; a failed fetch of the peer list ends the work
/// on that peer.
pub open spec fn next_request_of(last: Option<PeerRequest>, succeeded: bool) -> Option<PeerRequest> {
    match last {
        None => Some(PeerRequest::Announce),
        Some(PeerRequest::Announce) => Some(PeerRequest::FetchPeers),
        Some(PeerRequest::FetchPeers) => if succeeded {
            Some(PeerRequest::FetchChain)
        } else {
            None
        },
        Some(PeerRequest::FetchChain) => None,
    }
}

/// Decides the next request to make to a peer during reconciliation.
pub fn next_request(last: Option<PeerRequest>, succeeded: bool) -> (r: Option<PeerRequest>)
    ensures
        r == next_request_of(last, succeeded),
{
    match last {
        None => Some(PeerRequest::Announce),
        Some(PeerRequest::Announce) => Some(PeerRequest::FetchPeers),
        Some(PeerRequest::FetchPeers) => if succeeded {
            Some(PeerRequest::FetchChain)
        } else {
            None
        },
        Some(PeerRequest::FetchChain) => None,
    }
}

/// How a transfer changes the balance of `key`: a transfer to it adds, one
/// from it takes away, and a transfer from it to itself changes nothing.
pub open spec fn delta(t: TransactionView, key: Seq<u8>) -> int {
    if t.from == key && t.to == key {
        0
    } else if t.to == key {
        t.amount as int
    } else if t.from == key {
        -(t.amount as int)
    } else {
        0
    }
}

/// The balance of `key` after the transfers of `s`, in order.
pub open spec fn balance_of(s: Seq<BlockView>, key: Seq<u8>) -> int
    decreases s.len(),
{
    if s.len() == 0 {
        GENESIS_CREDIT as int
    } else {
        balance_of(s.drop_last(), key) + delta(s.last().transaction, key)
    }
}

/// Every running balance of `key` along `s` fits in an `i64`.
pub open spec fn balance_in_range(s: Seq<BlockView>, key: Seq<u8>) -> bool {
    forall|i: int|
        0 <= i <= s.len() ==> i64::MIN <= #[trigger] balance_of(s.take(i), key) <= i64::MAX
}

/// The report is taken into account: it is not this node's own, and the
/// peer's list of peers was fetched.
pub open spec fn counted(r: PeerReport, me: PeerAddr) -> bool {
    r.peer != me && r.peers is Some
}

/// The peers that the counted reports name.
pub open spec fn learned_peers(rs: Seq<PeerReport>, me: PeerAddr) -> Set<PeerAddr>
    decreases rs.len(),
{
    if rs.len() == 0 {
        Set::empty()
    } else {
        let r = rs.last();
        learned_peers(rs.drop_last(), me) + if counted(r, me) {
            r.peers.unwrap()@.to_set()
        } else {
            Set::empty()
        }
    }
}

/// The chains of the counted reports that were fetched and are valid, in
/// report order.
pub open spec fn fetched_chains(rs: Seq<PeerReport>, me: PeerAddr) -> Seq<Seq<BlockView>>
    decreases rs.len(),
{
    if rs.len() == 0 {
        Seq::empty()
    } else {
        let r = rs.last();
        let prev = fetched_chains(rs.drop_last(), me);
        if counted(r, me) && r.chain is Some && chain_valid(r.chain.unwrap()@) {
            prev.push(r.chain.unwrap()@)
        } else {
            prev
        }
    }
}

/// How many of `c` are identical to `x`.
pub open spec fn votes(c: Seq<Seq<BlockView>>, x: Seq<BlockView>) -> nat
    decreases c.len(),
{
    if c.len() == 0 {
        0
    } else {
        votes(c.drop_last(), x) + if c.last() == x {
            1nat
        } else {
            0nat
        }
    }
}

/// `c[w]` has the most votes among `c`.
pub open spec fn has_most_votes(c: Seq<Seq<BlockView>>, w: int) -> bool {
    &&& 0 <= w < c.len()
    &&& forall|j: int| 0 <= j < c.len() ==> #[trigger] votes(c, c[j]) <= votes(c, c[w])
}

/// No entry of `c` before `w` has as many votes as `c[w]`.
pub open spec fn no_earlier_tie(c: Seq<Seq<BlockView>>, w: int) -> bool {
    forall|j: int| 0 <= j < w ==> #[trigger] votes(c, c[j]) < votes(c, c[w])
}

/// `c[w]` has the most votes among `c`, and no earlier entry has as many.
pub open spec fn first_majority(c: Seq<Seq<BlockView>>, w: int) -> bool {
    has_most_votes(c, w) && no_earlier_tie(c, w)
}

/// The views of a vector of chains.
pub open spec fn chain_views(c: Seq<Blockchain>) -> Seq<Seq<BlockView>> {
    c.map_values(|b: Blockchain| b@)
}

/// The addresses of `s` other than `me`, in order.
pub open spec fn others(s: Seq<PeerAddr>, me: PeerAddr) -> Seq<PeerAddr>
    decreases s.len(),
{
    if s.len() == 0 {
        Seq::empty()
    } else if s.last() == me {
        others(s.drop_last(), me)
    } else {
        others(s.drop_last(), me).push(s.last())
    }
}

/// Whether `a` is in `peers`.
pub fn has_peer(peers: &Vec<PeerAddr>, a: PeerAddr) -> (r: bool)
    ensures
        r == peers@.contains(a),
{
    let mut i: usize = 0;
    while i < peers.len()
        invariant
            i <= peers.len(),
            forall|j: int| 0 <= j < i ==> peers@[j] != a,
        decreases peers.len() - i,
    {
        if peers[i] == a {
            return true;
        }
        i = i + 1;
    }
    false
}

/// How many chains of `c` are identical to `x`.
pub fn count_copies(c: &Vec<Blockchain>, x: &Blockchain) -> (r: usize)
    ensures
        r == votes(chain_views(c@), x@),
{
    let ghost v = chain_views(c@);
    let mut count: usize = 0;
    let mut j: usize = 0;
    while j < c.len()
        invariant
            j <= c.len(),
            v == chain_views(c@),
            count <= j,
            count == votes(v.take(j as int), x@),
        decreases c.len() - j,
    {
        let same = c[j].same(x);
        proof {
            let t = v.take(j as int + 1);
            assert(t.drop_last() =~= v.take(j as int));
            assert(t.last() == c@[j as int]@);
        }
        if same {
            count = count + 1;
        }
        j = j + 1;
    }
    assert(v.take(c.len() as int) =~= v);
    count
}

/// The index of the first chain of `c` that has the most identical copies
/// in `c`.
pub fn first_majority_index(c: &Vec<Blockchain>) -> (r: usize)
    requires
        c.len() > 0,
    ensures
        first_majority(chain_views(c@), r as int),
{
    let ghost v = chain_views(c@);
    let mut best: usize = 0;
    let mut best_count: usize = count_copies(c, &c[0]);
    let mut i: usize = 1;
    while i < c.len()
        invariant
            1 <= i <= c.len(),
            v == chain_views(c@),
            best < i,
            best_count == votes(v, v[best as int]),
            forall|j: int| 0 <= j < i ==> #[trigger] votes(v, v[j]) <= best_count,
            forall|j: int| 0 <= j < best ==> #[trigger] votes(v, v[j]) < best_count,
        decreases c.len() - i,
    {
        let n = count_copies(c, &c[i]);
        if n > best_count {
            best = i;
            best_count = n;
        }
        i = i + 1;
    }
    best
}

/// Every chain that reconciliation counts from peers is valid.
pub proof fn lemma_fetched_chains_valid(rs: Seq<PeerReport>, me: PeerAddr)
    ensures
        forall|i: int|
            0 <= i < fetched_chains(rs, me).len() ==> chain_valid(#[trigger] fetched_chains(rs, me)[i]),
    decreases rs.len(),
{
    if rs.len() > 0 {
        lemma_fetched_chains_valid(rs.drop_last(), me);
        let prev = fetched_chains(rs.drop_last(), me);
        let f = fetched_chains(rs, me);
        assert forall|i: int| 0 <= i < f.len() implies chain_valid(#[trigger] f[i]) by {
            if i < prev.len() {
                assert(f[i] == prev[i]);
            }
        }
    }
}

/// A peer whose peer list or chain could not be fetched adds no candidate
/// chain, so it gives no vote; and the peers learned so far stay learned.
pub proof fn lemma_failed_peer_adds_no_vote(rs: Seq<PeerReport>, r: PeerReport, me: PeerAddr)
    requires
        r.peers is None || r.chain is None,
    ensures
        fetched_chains(rs.push(r), me) == fetched_chains(rs, me),
        learned_peers(rs, me).subset_of(learned_peers(rs.push(r), me)),
{
    assert(rs.push(r).drop_last() =~= rs);
}

/// A ledger whose chain is `s` owes a balance of `balance_of(s, key)` to
/// every key, whenever it is asked: the balance is a function of the chain
/// and the key alone.
pub proof fn lemma_balance_replay(s: Seq<BlockView>, t: Seq<BlockView>, key: Seq<u8>)
    requires
        s == t,
    ensures
        balance_of(s, key) == balance_of(t, key),
        balance_in_range(s, key) == balance_in_range(t, key),
{
}

/// A transfer from a key to itself leaves every balance as it was.
pub proof fn lemma_self_transfer_keeps_balance(s: Seq<BlockView>, b: BlockView, key: Seq<u8>)
    requires
        b.transaction.from == b.transaction.to,
    ensures
        balance_of(s.push(b), key) == balance_of(s, key),
{
    assert(s.push(b).drop_last() =~= s);
}

/// A node's ledger.
pub struct Ledger {
    pub chain: Blockchain,
    pub addr: PeerAddr,
    pub pending_transactions: Vec<Transaction>,
    pub peers: Vec<PeerAddr>,
}

impl Ledger {
    /// Each known peer is listed once.
    pub open spec fn wf(&self) -> bool {
        self.peers@.no_duplicates()
    }

    /// The set of known peers.
    pub open spec fn peer_set(&self) -> Set<PeerAddr> {
        self.peers@.to_set()
    }

    /// A ledger with an empty chain that knows `initial_peers`.
    pub fn new(initial_peers: Vec<PeerAddr>, addr: PeerAddr) -> (r: Ledger)
        ensures
            r.wf(),
            r.chain@ == Seq::<BlockView>::empty(),
            r.addr == addr,
            r.pending_transactions@.len() == 0,
            r.peer_set() == initial_peers@.to_set(),
    {
        let mut ledger = Ledger {
            chain: Blockchain::new(),
            addr,
            pending_transactions: Vec::new(),
            peers: Vec::new(),
        };
        assert(ledger.peers@.to_set() =~= Set::<PeerAddr>::empty());
        ledger.add_peers(&initial_peers);
        assert(Set::<PeerAddr>::empty() + initial_peers@.to_set() =~= initial_peers@.to_set());
        ledger
    }

    /// The balance of `public_key`: the genesis credit, plus every transfer
    /// to it, minus every transfer from it, skipping transfers from it to
    /// itself. Fails when a running balance leaves the range of `i64`.
    pub fn get_balance(&self, public_key: &PublicKey) -> (r: Result<i64, LedgerError>)
        ensures
            r matches Ok(b) ==> b == balance_of(self.chain@, public_key@),
            r is Ok <==> balance_in_range(self.chain@, public_key@),
            r matches Err(e) ==> e == LedgerError::BalanceOutOfRange,
    {
        let ghost s = self.chain@;
        let ghost k = public_key@;
        let mut balance: i128 = GENESIS_CREDIT as i128;
        let mut i: usize = 0;
        assert(s.take(0) =~= Seq::<BlockView>::empty());
        while i < self.chain.chain.len()
            invariant
                i <= self.chain.chain.len(),
                s == self.chain@,
                k == public_key@,
                balance == balance_of(s.take(i as int), k),
                forall|j: int|
                    0 <= j <= i ==> i64::MIN <= #[trigger] balance_of(s.take(j), k) <= i64::MAX,
            decreases self.chain.chain.len() - i,
        {
            let t = &self.chain.chain[i].transaction;
            let is_from = public_key.same(&t.from);
            let is_to = public_key.same(&t.to);
            let next: i128 = if is_from && is_to {
                balance
            } else if is_to {
                balance + t.amount as i128
            } else if is_from {
                balance - t.amount as i128
            } else {
                balance
            };
            proof {
                let p = s.take(i as int + 1);
                assert(p.drop_last() =~= s.take(i as int));
                assert(p.last() == s[i as int]);
                assert(s[i as int].transaction == t@);
                assert(next == balance_of(p, k));
            }
            if next < i64::MIN as i128 || next > i64::MAX as i128 {
                assert(!balance_in_range(s, k)) by {
                    assert(!(i64::MIN <= balance_of(s.take(i as int + 1), k) <= i64::MAX));
                }
                return Err(LedgerError::BalanceOutOfRange);
            }
            balance = next;
            i = i + 1;
        }
        assert(s.take(s.len() as int) =~= s);
        Ok(balance as i64)
    }

    /// Submits a transfer of `amount` from the holder of `from` to `to`: the
    /// sender's balance must cover the amount, then a signed transfer is
    /// sealed into a new block on the local chain. On any failure the
    /// ledger is unchanged. Telling peers about the new chain is left to the
    /// caller.
    pub fn send(&mut self, to: &PublicKey, from: &SecretKey, amount: u64) -> (r: Result<(), LedgerError>)
        requires
            old(self).wf(),
        ensures
            final(self).wf(),
            final(self).addr == old(self).addr,
            final(self).peers@ == old(self).peers@,
            final(self).pending_transactions@ == old(self).pending_transactions@,
            r is Err ==> final(self).chain@ == old(self).chain@,
            r is Ok ==> {
                let s = old(self).chain@;
                let k = public_key_of(from@);
                &&& balance_in_range(s, k)
                &&& amount <= balance_of(s, k)
                &&& final(self).chain@.len() == s.len() + 1
                &&& final(self).chain@.drop_last() == s
                &&& final(self).chain@.last().transaction.issued_by(from@, to@, amount)
                &&& final(self).chain@.last().sealed(DIFFICULTY as nat)
                &&& final(self).chain@.last().prev_block_hash == tip_hash(s)
            },
            r == Err::<(), LedgerError>(LedgerError::InsufficientFunds) ==> {
                let s = old(self).chain@;
                let k = public_key_of(from@);
                balance_in_range(s, k) && amount > balance_of(s, k)
            },
            ({
                let s = old(self).chain@;
                let k = public_key_of(from@);
                balance_in_range(s, k) && amount > balance_of(s, k)
            }) ==> r is Err,
            from@.len() != 32 ==> r == Err::<(), LedgerError>(LedgerError::InvalidSecretKey),
            r == Err::<(), LedgerError>(LedgerError::InvalidSecretKey) <==> !valid_secret(from@),
            valid_secret(from@) ==> (r == Err::<(), LedgerError>(LedgerError::BalanceOutOfRange)
                <==> !balance_in_range(old(self).chain@, public_key_of(from@))),
            ({
                let s = old(self).chain@;
                let k = public_key_of(from@);
                valid_secret(from@) && balance_in_range(s, k)
            }) ==> (r == Err::<(), LedgerError>(LedgerError::InsufficientFunds) <==> amount
                > balance_of(old(self).chain@, public_key_of(from@))),
            ({
                let s = old(self).chain@;
                let k = public_key_of(from@);
                valid_secret(from@) && balance_in_range(s, k) && amount <= balance_of(s, k)
            }) ==> (r is Ok || r == Err::<(), LedgerError>(LedgerError::MiningExhausted)),
            r == Err::<(), LedgerError>(LedgerError::MiningExhausted) ==> exists|t: u128, tx: TransactionView|
                tx.issued_by(from@, to@, amount) && (BlockView {
                    time: t,
                    transaction: tx,
                    prev_block_hash: tip_hash(old(self).chain@),
                    nonce: 0,
                    hash: Seq::empty(),
                }).unsealable(DIFFICULTY as nat),
            linked(old(self).chain@) ==> linked(final(self).chain@),
    {
        let from_public = public_key(from)?;
        let from_balance = self.get_balance(&from_public)?;
        if amount as i128 > from_balance as i128 {
            return Err(LedgerError::InsufficientFunds);
        }
        let transaction = Transaction::new(to, from, amount)?;
        let ghost tx = transaction@;
        let ghost tip = tip_hash(self.chain@);
        match self.chain.add_block(transaction) {
            Ok(()) => Ok(()),
            Err(e) => {
                proof {
                    let t = choose|t: u128|
                        (BlockView {
                            time: t,
                            transaction: tx,
                            prev_block_hash: tip,
                            nonce: 0,
                            hash: Seq::empty(),
                        }).unsealable(DIFFICULTY as nat);
                    let w = BlockView { time: t, transaction: tx, prev_block_hash: tip, nonce: 0, hash: Seq::empty() };
                    assert(tx.issued_by(from@, to@, amount) && w.unsealable(DIFFICULTY as nat));
                }
                Err(e)
            },
        }
    }

    /// A copy of the chain.
    pub fn get_blockchain(&self) -> (r: Blockchain)
        ensures
            r@ == self.chain@,
    {
        self.chain.copy()
    }

    /// Replaces the chain with a copy of `blockchain`.
    pub fn update_blockchain(&mut self, blockchain: &Blockchain)
        requires
            old(self).wf(),
        ensures
            final(self).wf(),
            final(self).chain@ == blockchain@,
            final(self).addr == old(self).addr,
            final(self).peers@ == old(self).peers@,
            final(self).pending_transactions@ == old(self).pending_transactions@,
    {
        self.chain = blockchain.copy();
    }

    /// Takes a chain pushed by a peer: it replaces the local chain only if
    /// the whole chain is valid, and the result says whether it did.
    pub fn receive_blockchain(&mut self, blockchain: &Blockchain) -> (r: bool)
        requires
            old(self).wf(),
        ensures
            final(self).wf(),
            r == chain_valid(blockchain@),
            r ==> final(self).chain@ == blockchain@,
            !r ==> final(self).chain@ == old(self).chain@,
            final(self).addr == old(self).addr,
            final(self).peers@ == old(self).peers@,
            final(self).pending_transactions@ == old(self).pending_transactions@,
    {
        if blockchain.validate() {
            self.update_blockchain(blockchain);
            true
        } else {
            false
        }
    }

    /// Adds `new_addr` to the known peers.
    pub fn add_peer(&mut self, new_addr: PeerAddr)
        requires
            old(self).wf(),
        ensures
            final(self).wf(),
            final(self).peer_set() == old(self).peer_set().insert(new_addr),
            final(self).chain@ == old(self).chain@,
            final(self).addr == old(self).addr,
            final(self).pending_transactions@ == old(self).pending_transactions@,
    {
        if !has_peer(&self.peers, new_addr) {
            self.peers.push(new_addr);
        } else {
            assert(self.peers@.to_set() =~= self.peers@.to_set().insert(new_addr));
        }
    }

    /// Adds every address of `addrs` to the known peers.
    pub fn add_peers(&mut self, addrs: &Vec<PeerAddr>)
        requires
            old(self).wf(),
        ensures
            final(self).wf(),
            final(self).peer_set() == old(self).peer_set() + addrs@.to_set(),
            final(self).chain@ == old(self).chain@,
            final(self).addr == old(self).addr,
            final(self).pending_transactions@ == old(self).pending_transactions@,
    {
        let ghost start = self.peer_set();
        let mut j: usize = 0;
        assert(addrs@.take(0).to_set() =~= Set::<PeerAddr>::empty());
        assert(start + Set::<PeerAddr>::empty() =~= start);
        while j < addrs.len()
            invariant
                j <= addrs.len(),
                self.wf(),
                self.peer_set() == start + addrs@.take(j as int).to_set(),
                self.chain@ == old(self).chain@,
                self.addr == old(self).addr,
                self.pending_transactions@ == old(self).pending_transactions@,
            decreases addrs.len() - j,
        {
            self.add_peer(addrs[j]);
            proof {
                let t = addrs@.take(j as int + 1);
                assert(t =~= addrs@.take(j as int).push(addrs@[j as int]));
                addrs@.take(j as int).lemma_push_to_set_commute(addrs@[j as int]);
                assert(self.peer_set() =~= start + t.to_set());
            }
            j = j + 1;
        }
        assert(addrs@.take(addrs.len() as int) =~= addrs@);
    }

    /// Reconciles with what the peers reported, as one update: the peer
    /// lists of the counted reports are merged into the known peers; the
    /// valid chains they carry, followed by this node's own chain, are the
    /// candidates; and the first candidate held identically by the most
    /// candidates becomes the chain. A peer whose requests failed adds no
    /// vote and stays known. Ties go to the candidate that comes first, a
    /// choice of this library: the rule leaves tie-breaking open.
    pub fn sync(&mut self, reports: &Vec<PeerReport>)
        requires
            old(self).wf(),
        ensures
            final(self).wf(),
            final(self).addr == old(self).addr,
            final(self).pending_transactions@ == old(self).pending_transactions@,
            final(self).peer_set() == old(self).peer_set() + learned_peers(reports@, old(self).addr),
            ({
                let c = fetched_chains(reports@, old(self).addr).push(old(self).chain@);
                exists|w: int| has_most_votes(c, w) && final(self).chain@ == c[w]
            }),
            // Among chains with equally many votes the first candidate wins;
            // the majority rule leaves this open, and it is this library's
            // own choice.
            ({
                let c = fetched_chains(reports@, old(self).addr).push(old(self).chain@);
                exists|w: int| first_majority(c, w) && final(self).chain@ == c[w]
            }),
            linked(old(self).chain@) ==> linked(final(self).chain@),
    {
        let ghost me = self.addr;
        let ghost own = self.chain@;
        let ghost start_peers = self.peer_set();
        let mut cands: Vec<Blockchain> = Vec::new();
        let mut i: usize = 0;
        assert(reports@.take(0) =~= Seq::<PeerReport>::empty());
        assert(start_peers + Set::<PeerAddr>::empty() =~= start_peers);
        assert(chain_views(cands@) =~= Seq::<Seq<BlockView>>::empty());
        while i < reports.len()
            invariant
                i <= reports.len(),
                self.wf(),
                self.addr == me,
                self.chain@ == own,
                self.pending_transactions@ == old(self).pending_transactions@,
                self.peer_set() == start_peers + learned_peers(reports@.take(i as int), me),
                chain_views(cands@) == fetched_chains(reports@.take(i as int), me),
            decreases reports.len() - i,
        {
            let r = &reports[i];
            let ghost before_cands = chain_views(cands@);
            proof {
                let t = reports@.take(i as int + 1);
                assert(t.drop_last() =~= reports@.take(i as int));
                assert(t.last() == reports@[i as int]);
            }
            if r.peer != self.addr {
                match &r.peers {
                    Some(ps) => {
                        self.add_peers(ps);
                        match &r.chain {
                            Some(c) => {
                                if c.validate() {
                                    cands.push(c.copy());
                                    assert(chain_views(cands@) =~= before_cands.push(c@));
                                }
                            },
                            None => {},
                        }
                    },
                    None => {},
                }
            }
            proof {
                let t = reports@.take(i as int + 1);
                let l = learned_peers(reports@.take(i as int), me);
                if counted(*r, me) {
                    let ps = r.peers.unwrap()@.to_set();
                    assert(start_peers + l + ps =~= start_peers + (l + ps));
                } else {
                    assert(l + Set::<PeerAddr>::empty() =~= l);
                }
                assert(self.peer_set() =~= start_peers + learned_peers(t, me));
            }
            i = i + 1;
        }
        assert(reports@.take(reports.len() as int) =~= reports@);
        let ghost fetched = chain_views(cands@);
        cands.push(self.chain.copy());
        assert(chain_views(cands@) =~= fetched.push(own));
        let w = first_majority_index(&cands);
        self.chain = cands[w].copy();
        proof {
            let c = fetched.push(own);
            assert(first_majority(c, w as int) && self.chain@ == c[w as int]);
            lemma_fetched_chains_valid(reports@, me);
            if (w as int) < fetched.len() {
                assert(c[w as int] == fetched[w as int]);
                assert(chain_valid(fetched[w as int]));
            }
        }
    }

    /// The known peers.
    pub fn get_peers(&self) -> (r: Vec<PeerAddr>)
        ensures
            r@ == self.peers@,
    {
        self.peers.clone()
    }

    /// The peers to contact during reconciliation: every known peer but
    /// this node itself.
    pub fn sync_targets(&self) -> (r: Vec<PeerAddr>)
        ensures
            r@ == others(self.peers@, self.addr),
    {
        let mut out: Vec<PeerAddr> = Vec::new();
        let mut i: usize = 0;
        assert(self.peers@.take(0) =~= Seq::<PeerAddr>::empty());
        while i < self.peers.len()
            invariant
                i <= self.peers.len(),
                out@ == others(self.peers@.take(i as int), self.addr),
            decreases self.peers.len() - i,
        {
            let p = self.peers[i];
            proof {
                let t = self.peers@.take(i as int + 1);
                assert(t.drop_last() =~= self.peers@.take(i as int));
                assert(t.last() == p);
            }
            if p != self.addr {
                out.push(p);
            }
            i = i + 1;
        }
        assert(self.peers@.take(self.peers.len() as int) =~= self.peers@);
        out
    }
}

} // verus!
