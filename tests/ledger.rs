use base64::Engine;
use sha2::Digest;
use tanishqoin::block::{hash_of_fields, has_zero_prefix};
use tanishqoin::encoding::{push_be_bytes, push_decimal, push_hex, push_list_form};
use tanishqoin::transaction::message_bytes;
use tanishqoin::{
    generate_keypair, next_request, Block, Blockchain, Ledger, LedgerError, PeerAddr, PeerReport, PublicKey,
    SecretKey, PeerRequest, Transaction, DIFFICULTY,
};

fn addr(port: u16) -> PeerAddr {
    PeerAddr { v6: false, ip: 0x7f00_0001, port }
}

fn hex(bytes: &[u8]) -> String {
    bytes.iter().map(|b| format!("{:02x}", b)).collect()
}

fn key_copy(k: &PublicKey) -> PublicKey {
    PublicKey { bytes: k.bytes.clone() }
}

fn secret_copy(k: &SecretKey) -> SecretKey {
    SecretKey { bytes: k.bytes.clone() }
}

fn chain_of(n: usize) -> Blockchain {
    let (sec_a, _pub_a) = generate_keypair();
    let (_sec_b, pub_b) = generate_keypair();
    let mut c = Blockchain::new();
    for i in 0..n {
        let t = Transaction::new(&pub_b, &sec_a, i as u64 + 1).unwrap();
        c.add_block(t).unwrap();
    }
    c
}

#[test]
fn hex_encoding_is_lowercase_pairs() {
    let mut out = Vec::new();
    push_hex(&mut out, &vec![0xab, 0x01, 0x00, 0xff]);
    assert_eq!(out, b"ab0100ff".to_vec());
}

#[test]
fn big_endian_bytes() {
    let mut out = Vec::new();
    push_be_bytes(&mut out, 0x0102_0304_0506_0708);
    assert_eq!(out, vec![1, 2, 3, 4, 5, 6, 7, 8]);
}

#[test]
fn decimal_numerals() {
    let mut out = Vec::new();
    push_decimal(&mut out, 0);
    push_decimal(&mut out, 1_700_000_000_123);
    assert_eq!(out, b"01700000000123".to_vec());
}

#[test]
fn list_form_matches_debug_format() {
    let v: Vec<u8> = vec![0, 7, 42, 255];
    let mut out = Vec::new();
    push_list_form(&mut out, &v);
    assert_eq!(String::from_utf8(out).unwrap(), format!("{:?}", v));
    let mut empty = Vec::new();
    push_list_form(&mut empty, &Vec::new());
    assert_eq!(empty, b"[]".to_vec());
}

#[test]
fn message_digest_is_sha256_of_hex_keys_and_amount() {
    let (_sec_a, pub_a) = generate_keypair();
    let (_sec_b, pub_b) = generate_keypair();
    let got = message_bytes(&pub_b, &pub_a, 258);
    let mut msg = Vec::new();
    msg.extend(hex(&pub_a.bytes).bytes());
    msg.extend(hex(&pub_b.bytes).bytes());
    msg.extend(258u64.to_be_bytes());
    let want = sha2::Sha256::digest(&msg).to_vec();
    assert_eq!(got, want);
    assert_eq!(got.len(), 32);
}

#[test]
fn block_hash_formula() {
    let digest: Vec<u8> = vec![1, 2, 3];
    let got = hash_of_fields(1234, &digest, &String::from("abc"), 9);
    let header = format!("{}{:?}{}{}", 1234u128, digest, "abc", 9u64);
    let want = base64::engine::general_purpose::STANDARD.encode(sha2::Sha256::digest(header.as_bytes()));
    assert_eq!(got, want);
    assert_ne!(got, "abc");
}

#[test]
fn keypair_public_key_matches_secret() {
    let (s, p) = generate_keypair();
    assert_eq!(s.bytes.len(), 32);
    let derived = tanishqoin::transaction::public_key(&s).unwrap();
    assert_eq!(derived.bytes, p.bytes);
    assert_eq!(p.bytes.len(), 33);
}

#[test]
fn signed_transaction_verifies() {
    let (sec_a, pub_a) = generate_keypair();
    let (_sec_b, pub_b) = generate_keypair();
    for amount in [0u64, 1, 50, u64::MAX] {
        let t = Transaction::new(&pub_b, &sec_a, amount).unwrap();
        assert_eq!(t.from.bytes, pub_a.bytes);
        assert_eq!(t.to.bytes, pub_b.bytes);
        assert_eq!(t.amount, amount);
        assert_eq!(t.verify(), Ok(true));
    }
}

#[test]
fn altered_amount_fails_verification() {
    let (sec_a, _pub_a) = generate_keypair();
    let (_sec_b, pub_b) = generate_keypair();
    let mut t = Transaction::new(&pub_b, &sec_a, 10).unwrap();
    t.amount = 11;
    assert_eq!(t.verify(), Ok(false));
}

#[test]
fn altered_signature_fails_verification() {
    let (sec_a, _pub_a) = generate_keypair();
    let (_sec_b, pub_b) = generate_keypair();
    let t = Transaction::new(&pub_b, &sec_a, 10).unwrap();
    let mut chars: Vec<char> = t.signature.chars().collect();
    let last = chars.len() - 1;
    chars[last] = if chars[last] == '0' { '1' } else { '0' };
    let mut bad = t.copy();
    bad.signature = chars.into_iter().collect();
    assert_eq!(bad.verify(), Ok(false));
}

#[test]
fn signature_from_another_sender_fails() {
    let (sec_a, _pub_a) = generate_keypair();
    let (_sec_b, pub_b) = generate_keypair();
    let (_sec_c, pub_c) = generate_keypair();
    let mut t = Transaction::new(&pub_b, &sec_a, 10).unwrap();
    t.from = key_copy(&pub_c);
    assert_eq!(t.verify(), Ok(false));
}

#[test]
fn malformed_signature_is_an_error() {
    let (sec_a, _pub_a) = generate_keypair();
    let (_sec_b, pub_b) = generate_keypair();
    let mut t = Transaction::new(&pub_b, &sec_a, 10).unwrap();
    t.signature = String::from("zz");
    assert_eq!(t.verify(), Err(LedgerError::InvalidSignature));
}

#[test]
fn undecodable_public_key_is_an_error() {
    let (sec_a, _pub_a) = generate_keypair();
    let (_sec_b, pub_b) = generate_keypair();
    let mut t = Transaction::new(&pub_b, &sec_a, 10).unwrap();
    t.from = PublicKey { bytes: vec![9; 33] };
    assert_eq!(t.verify(), Err(LedgerError::InvalidPublicKey));
}

#[test]
fn invalid_secret_key_is_refused() {
    let (_sec_b, pub_b) = generate_keypair();
    let zero = SecretKey { bytes: vec![0; 32] };
    assert!(matches!(Transaction::new(&pub_b, &zero, 1), Err(LedgerError::InvalidSecretKey)));
    let short = SecretKey { bytes: vec![1; 5] };
    assert!(matches!(Transaction::new(&pub_b, &short, 1), Err(LedgerError::InvalidSecretKey)));
}

#[test]
fn sealed_block_has_zero_prefix_and_first_nonce() {
    let (sec_a, _pub_a) = generate_keypair();
    let (_sec_b, pub_b) = generate_keypair();
    let t = Transaction::new(&pub_b, &sec_a, 5).unwrap();
    let b = Block::seal(t.copy(), String::from("0"), 1_000, 1).unwrap();
    assert!(b.hash.starts_with("0"));
    assert_eq!(b.calculate_hash(), b.hash);
    for m in 0..b.nonce {
        let mut probe = b.copy();
        probe.nonce = m;
        assert!(!probe.calculate_hash().starts_with("0"));
    }
}

#[test]
fn new_block_is_sealed_at_fixed_difficulty() {
    let (sec_a, _pub_a) = generate_keypair();
    let (_sec_b, pub_b) = generate_keypair();
    let t = Transaction::new(&pub_b, &sec_a, 5).unwrap();
    let b = Block::new(t, String::from("0")).unwrap();
    assert!(b.hash.starts_with("00"));
    assert_eq!(b.calculate_hash(), b.hash);
    assert!(b.verify_hash(DIFFICULTY));
    assert_eq!(b.verify(DIFFICULTY), Ok(true));
    assert_eq!(b.prev_block_hash, "0");
}

#[test]
fn zero_difficulty_seals_without_mining() {
    let (sec_a, _pub_a) = generate_keypair();
    let (_sec_b, pub_b) = generate_keypair();
    let t = Transaction::new(&pub_b, &sec_a, 5).unwrap();
    let b = Block::seal(t, String::from("x"), 7, 0).unwrap();
    assert_eq!(b.nonce, 0);
    assert_eq!(b.hash, b.calculate_hash());
    assert!(!b.hash.is_empty());
}

#[test]
fn block_verify_recomputes_hash() {
    let (sec_a, _pub_a) = generate_keypair();
    let (_sec_b, pub_b) = generate_keypair();
    let t = Transaction::new(&pub_b, &sec_a, 5).unwrap();
    let mut b = Block::new(t, String::from("0")).unwrap();
    assert_eq!(b.verify(DIFFICULTY), Ok(true));
    b.hash = String::from("00forged");
    assert_eq!(b.verify(DIFFICULTY), Ok(false));
    b.transaction.signature = String::from("zz");
    assert_eq!(b.verify(DIFFICULTY), Err(LedgerError::InvalidSignature));
}

#[test]
fn secret_at_group_order_is_refused() {
    let (_sec_b, pub_b) = generate_keypair();
    let mut order = vec![0xffu8; 15];
    order.push(0xfe);
    order.extend([
        0xba, 0xae, 0xdc, 0xe6, 0xaf, 0x48, 0xa0, 0x3b, 0xbf, 0xd2, 0x5e, 0x8c, 0xd0, 0x36, 0x41,
        0x41,
    ]);
    let at_order = SecretKey { bytes: order.clone() };
    assert!(matches!(Transaction::new(&pub_b, &at_order, 1), Err(LedgerError::InvalidSecretKey)));
    let mut below = order;
    below[31] = 0x40;
    let below_order = SecretKey { bytes: below };
    assert!(Transaction::new(&pub_b, &below_order, 1).is_ok());
}

#[test]
fn zero_prefix_check() {
    assert!(has_zero_prefix(&String::from("00ab"), 2));
    assert!(!has_zero_prefix(&String::from("0ab"), 2));
    assert!(!has_zero_prefix(&String::from("0"), 2));
    assert!(has_zero_prefix(&String::from(""), 0));
}

#[test]
fn chain_blocks_are_linked() {
    let c = chain_of(3);
    assert_eq!(c.chain.len(), 3);
    assert_eq!(c.chain[0].prev_block_hash, "0");
    for i in 1..3 {
        assert_eq!(c.chain[i].prev_block_hash, c.chain[i - 1].hash);
    }
    assert!(c.validate());
}

#[test]
fn tampered_chain_is_not_valid() {
    let mut c = chain_of(2);
    c.chain[1].transaction.amount += 1;
    assert!(!c.validate());
    let mut d = chain_of(2);
    d.chain[1].prev_block_hash = String::from("0");
    assert!(!d.validate());
}

#[test]
fn balance_starts_at_genesis_credit() {
    let ledger = Ledger::new(vec![], addr(3000));
    let (_s, p) = generate_keypair();
    assert_eq!(ledger.get_balance(&p), Ok(100));
}

#[test]
fn send_moves_funds() {
    let mut ledger = Ledger::new(vec![], addr(3000));
    let (sec_a, pub_a) = generate_keypair();
    let (_sec_b, pub_b) = generate_keypair();
    let (_sec_c, pub_c) = generate_keypair();
    ledger.send(&pub_b, &sec_a, 30).unwrap();
    assert_eq!(ledger.get_balance(&pub_a), Ok(70));
    assert_eq!(ledger.get_balance(&pub_b), Ok(130));
    assert_eq!(ledger.get_balance(&pub_c), Ok(100));
    assert_eq!(ledger.chain.chain.len(), 1);
    assert_eq!(ledger.chain.chain[0].prev_block_hash, "0");
}

#[test]
fn balance_is_the_same_when_recomputed() {
    let mut ledger = Ledger::new(vec![], addr(3000));
    let (sec_a, pub_a) = generate_keypair();
    let (_sec_b, pub_b) = generate_keypair();
    ledger.send(&pub_b, &sec_a, 12).unwrap();
    let first = ledger.get_balance(&pub_a);
    let second = ledger.get_balance(&pub_a);
    assert_eq!(first, second);
    assert_eq!(first, Ok(88));
}

#[test]
fn self_transfer_leaves_balance() {
    let mut ledger = Ledger::new(vec![], addr(3000));
    let (sec_a, pub_a) = generate_keypair();
    ledger.send(&pub_a, &sec_a, 60).unwrap();
    assert_eq!(ledger.chain.chain.len(), 1);
    assert_eq!(ledger.get_balance(&pub_a), Ok(100));
}

#[test]
fn insufficient_funds_leaves_chain() {
    let mut ledger = Ledger::new(vec![], addr(3000));
    let (sec_a, pub_a) = generate_keypair();
    let (_sec_b, pub_b) = generate_keypair();
    assert_eq!(ledger.send(&pub_b, &sec_a, 101), Err(LedgerError::InsufficientFunds));
    assert_eq!(ledger.chain.chain.len(), 0);
    assert_eq!(ledger.send(&pub_b, &sec_a, u64::MAX), Err(LedgerError::InsufficientFunds));
    assert_eq!(ledger.chain.chain.len(), 0);
    ledger.send(&pub_b, &sec_a, 100).unwrap();
    assert_eq!(ledger.get_balance(&pub_a), Ok(0));
    assert_eq!(ledger.send(&pub_b, &sec_a, 1), Err(LedgerError::InsufficientFunds));
    assert_eq!(ledger.chain.chain.len(), 1);
}

#[test]
fn send_with_invalid_secret_fails() {
    let mut ledger = Ledger::new(vec![], addr(3000));
    let (_sec_b, pub_b) = generate_keypair();
    let bad = SecretKey { bytes: vec![0; 32] };
    assert_eq!(ledger.send(&pub_b, &bad, 1), Err(LedgerError::InvalidSecretKey));
    assert_eq!(ledger.chain.chain.len(), 0);
}

#[test]
fn balance_out_of_range_is_an_error() {
    let (sec_a, _pub_a) = generate_keypair();
    let (_sec_b, pub_b) = generate_keypair();
    let t = Transaction::new(&pub_b, &sec_a, u64::MAX).unwrap();
    let b = Block::seal(t, String::from("0"), 1, 0).unwrap();
    let mut c = Blockchain::new();
    c.chain.push(b);
    let mut ledger = Ledger::new(vec![], addr(3000));
    ledger.update_blockchain(&c);
    assert_eq!(ledger.get_balance(&pub_b), Err(LedgerError::BalanceOutOfRange));
}

#[test]
fn peers_are_kept_once() {
    let mut ledger = Ledger::new(vec![addr(1), addr(2), addr(1)], addr(3000));
    assert_eq!(ledger.get_peers().len(), 2);
    ledger.add_peer(addr(2));
    ledger.add_peer(addr(3));
    assert_eq!(ledger.get_peers(), vec![addr(1), addr(2), addr(3)]);
}

#[test]
fn sync_targets_skip_self() {
    let ledger = Ledger::new(vec![addr(1), addr(3000), addr(2)], addr(3000));
    assert_eq!(ledger.sync_targets(), vec![addr(1), addr(2)]);
}

#[test]
fn majority_copy_beats_longer_chain() {
    let long = chain_of(2);
    let short = Blockchain { chain: vec![long.chain[0].copy()] };
    let mut a = Ledger::new(vec![addr(2), addr(3)], addr(1));
    a.update_blockchain(&long);
    let reports = vec![
        PeerReport { peer: addr(2), peers: Some(vec![addr(1), addr(3)]), chain: Some(short.copy()) },
        PeerReport { peer: addr(3), peers: Some(vec![addr(1), addr(2)]), chain: Some(short.copy()) },
    ];
    a.sync(&reports);
    assert!(a.get_blockchain().same(&short));
    assert_eq!(a.chain.chain.len(), 1);
}

#[test]
fn timed_out_peer_adds_no_vote_and_stays() {
    let own = chain_of(1);
    let other = chain_of(1);
    let mut a = Ledger::new(vec![addr(2), addr(3)], addr(1));
    a.update_blockchain(&own);
    let reports = vec![
        PeerReport { peer: addr(2), peers: Some(vec![addr(4)]), chain: None },
        PeerReport { peer: addr(3), peers: None, chain: Some(other.copy()) },
    ];
    a.sync(&reports);
    assert!(a.chain.same(&own));
    let peers = a.get_peers();
    assert!(peers.contains(&addr(2)));
    assert!(peers.contains(&addr(3)));
    assert!(peers.contains(&addr(4)));
}

#[test]
fn tie_keeps_first_candidate() {
    let own = chain_of(1);
    let other = chain_of(1);
    let mut a = Ledger::new(vec![addr(2)], addr(1));
    a.update_blockchain(&own);
    let reports = vec![PeerReport { peer: addr(2), peers: Some(vec![]), chain: Some(other.copy()) }];
    a.sync(&reports);
    assert!(a.chain.same(&other));
}

#[test]
fn invalid_reported_chain_gets_no_votes() {
    let own = chain_of(1);
    let mut forged = chain_of(1);
    forged.chain[0].transaction.amount = 99;
    let mut a = Ledger::new(vec![addr(2), addr(3)], addr(1));
    a.update_blockchain(&own);
    let reports = vec![
        PeerReport { peer: addr(2), peers: Some(vec![]), chain: Some(forged.copy()) },
        PeerReport { peer: addr(3), peers: Some(vec![]), chain: Some(forged.copy()) },
    ];
    a.sync(&reports);
    assert!(a.chain.same(&own));
}

#[test]
fn own_address_report_is_ignored() {
    let own = chain_of(1);
    let other = chain_of(1);
    let mut a = Ledger::new(vec![addr(1)], addr(1));
    a.update_blockchain(&own);
    let reports = vec![
        PeerReport { peer: addr(1), peers: Some(vec![addr(9)]), chain: Some(other.copy()) },
        PeerReport { peer: addr(1), peers: Some(vec![addr(9)]), chain: Some(other.copy()) },
    ];
    a.sync(&reports);
    assert!(a.chain.same(&own));
    assert!(!a.get_peers().contains(&addr(9)));
}

#[test]
fn no_reports_keeps_chain() {
    let own = chain_of(2);
    let mut a = Ledger::new(vec![], addr(1));
    a.update_blockchain(&own);
    a.sync(&vec![]);
    assert!(a.chain.same(&own));
}

#[test]
fn copied_secret_signs_alike() {
    let (sec_a, pub_a) = generate_keypair();
    let s = secret_copy(&sec_a);
    let t = Transaction::new(&pub_a, &s, 3).unwrap();
    assert_eq!(t.verify(), Ok(true));
}

#[test]
fn pushed_chain_is_taken_only_when_valid() {
    let mut a = Ledger::new(vec![], addr(1));
    let good = chain_of(2);
    assert!(a.receive_blockchain(&good));
    assert!(a.chain.same(&good));
    let mut bad = chain_of(1);
    bad.chain[0].hash = String::from("00forged");
    assert!(!a.receive_blockchain(&bad));
    assert!(a.chain.same(&good));
}

#[test]
fn peer_requests_follow_the_reconciliation_order() {
    assert_eq!(next_request(None, true), Some(PeerRequest::Announce));
    assert_eq!(next_request(Some(PeerRequest::Announce), false), Some(PeerRequest::FetchPeers));
    assert_eq!(next_request(Some(PeerRequest::Announce), true), Some(PeerRequest::FetchPeers));
    assert_eq!(next_request(Some(PeerRequest::FetchPeers), true), Some(PeerRequest::FetchChain));
    assert_eq!(next_request(Some(PeerRequest::FetchPeers), false), None);
    assert_eq!(next_request(Some(PeerRequest::FetchChain), true), None);
    assert_eq!(next_request(Some(PeerRequest::FetchChain), false), None);
}

#[test]
fn block_hash_is_padded_base64_of_a_digest() {
    let h = hash_of_fields(1, &vec![0u8; 32], &String::from("0"), 0);
    assert_eq!(h.len(), 44);
    assert!(h.ends_with('='));
}
