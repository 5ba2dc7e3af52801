use num_bigint::BigUint;
use num_traits::One;
use pow_chain::block::Block;
use pow_chain::encoding::serialize_record;
use pow_chain::pow::{PowError, ProofOfWork};
use pow_chain::target::meets_target;
use sha2::{Digest, Sha256};

const TS: i64 = 1_700_000_000;

fn mine(data: &[u8], prev: &[u8], bits: u32) -> Block {
    Block::new(data.to_vec(), prev.to_vec(), TS, bits).expect("mining succeeds")
}

fn validates(block: &Block, bits: u32) -> bool {
    ProofOfWork::new(block.clone(), bits).unwrap().validate()
}

#[test]
fn genesis_record_at_difficulty_eight() {
    let block = mine(b"Genesis Block", b"", 8);
    assert!(validates(&block, 8));
    assert_eq!(block.hash.len(), 32);
    assert_eq!(block.hash[0], 0x00);
    assert!(block.prev_block_hash.is_empty());
    assert_eq!(block.data, b"Genesis Block".to_vec());
    assert_eq!(block.timestamp, TS);
}

#[test]
fn mined_records_validate() {
    for (i, payload) in ["a", "b", "Send 1 BTC to Ivan", ""].iter().enumerate() {
        let bits = 4 + 2 * i as u32;
        let block = mine(payload.as_bytes(), &[7u8; 32], bits);
        assert!(validates(&block, bits));
    }
}

#[test]
fn mining_returns_the_least_solving_nonce() {
    let block = mine(b"least", b"", 8);
    let pow = ProofOfWork::new(block.clone(), 8).unwrap();
    for m in 0..block.nonce {
        let d = pow.recompute_digest(m);
        assert!(!meets_target(&d, 8));
    }
    assert!(meets_target(&pow.recompute_digest(block.nonce), 8));
}

#[test]
fn tampering_breaks_validation() {
    let bits = 16;
    let block = mine(b"Send 2 more BTC to Ivan", &[0x11u8; 32], bits);
    assert!(validates(&block, bits));

    let mut payload = block.clone();
    payload.data[0] ^= 0x01;
    assert!(!validates(&payload, bits));

    let mut payload_last = block.clone();
    let n = payload_last.data.len();
    payload_last.data[n - 1] ^= 0x80;
    assert!(!validates(&payload_last, bits));

    let mut prev = block.clone();
    prev.prev_block_hash[5] ^= 0x04;
    assert!(!validates(&prev, bits));

    let mut ts = block.clone();
    ts.timestamp ^= 1;
    assert!(!validates(&ts, bits));

    let mut nonce = block.clone();
    nonce.nonce ^= 1 << 40;
    assert!(!validates(&nonce, bits));

    let mut nonce_low = block.clone();
    nonce_low.nonce ^= 1;
    assert!(!validates(&nonce_low, bits));
}

#[test]
fn stored_digest_is_reproduced() {
    let block = mine(b"determinism", &[0xabu8; 32], 8);
    let pow = ProofOfWork::new(block.clone(), 8).unwrap();
    assert_eq!(pow.recompute_digest(block.nonce), block.hash);
    assert_eq!(pow.recompute_digest(block.nonce), pow.recompute_digest(block.nonce));
    let bytes = pow.prepare_data(block.nonce);
    assert_eq!(Sha256::digest(&bytes).to_vec(), block.hash);
}

#[test]
fn serialization_layout() {
    let bytes = serialize_record(&[0xaa, 0xbb], b"hi", 0x0102030405060708, 20, 0x1122334455667788);
    let mut expected = vec![0xaa, 0xbb, b'h', b'i'];
    expected.extend_from_slice(&[1, 2, 3, 4, 5, 6, 7, 8]);
    expected.extend_from_slice(&[0, 0, 0, 0, 0, 0, 0, 20]);
    expected.extend_from_slice(&[0x11, 0x22, 0x33, 0x44, 0x55, 0x66, 0x77, 0x88]);
    assert_eq!(bytes, expected);
}

#[test]
fn serialization_of_negative_timestamp() {
    let bytes = serialize_record(&[], &[], -1, 0, 0);
    let mut expected = vec![0xffu8; 8];
    expected.extend_from_slice(&[0u8; 16]);
    assert_eq!(bytes, expected);
    assert_eq!(&bytes[0..8], &(-1i64).to_be_bytes());
}

#[test]
fn serialization_matches_fixed_width_encodings() {
    let ts: i64 = 1_234_567_890;
    let nonce: u64 = 987_654_321;
    let bytes = serialize_record(b"prev", b"payload", ts, 20, nonce);
    let mut expected = Vec::new();
    expected.extend_from_slice(b"prev");
    expected.extend_from_slice(b"payload");
    expected.extend_from_slice(&ts.to_be_bytes());
    expected.extend_from_slice(&(20i64).to_be_bytes());
    expected.extend_from_slice(&(nonce as i64).to_be_bytes());
    assert_eq!(bytes, expected);
}

#[test]
fn digest_is_sha256_of_serialization() {
    let block = Block {
        timestamp: TS,
        data: b"x".to_vec(),
        prev_block_hash: Vec::new(),
        hash: Vec::new(),
        nonce: 0,
    };
    let pow = ProofOfWork::new(block, 8).unwrap();
    let expected = Sha256::digest(&pow.prepare_data(3)).to_vec();
    assert_eq!(pow.recompute_digest(3), expected);
    assert_ne!(pow.recompute_digest(3), pow.prepare_data(3));
}

#[test]
fn difficulty_above_digest_width_is_rejected() {
    let block = Block {
        timestamp: TS,
        data: Vec::new(),
        prev_block_hash: Vec::new(),
        hash: Vec::new(),
        nonce: 0,
    };
    assert!(matches!(ProofOfWork::new(block.clone(), 257), Err(PowError::DifficultyOutOfRange)));
    assert!(ProofOfWork::new(block, 256).is_ok());
    assert_eq!(
        Block::new(b"x".to_vec(), Vec::new(), TS, 300).unwrap_err(),
        PowError::DifficultyOutOfRange
    );
}

#[test]
fn difficulty_zero_accepts_the_first_nonce() {
    let block = mine(b"anything", b"", 0);
    assert_eq!(block.nonce, 0);
    assert!(validates(&block, 0));
}

#[test]
fn target_boundaries() {
    let zero = [0u8; 32];
    assert!(meets_target(&zero, 256));
    let mut one = [0u8; 32];
    one[31] = 1;
    assert!(!meets_target(&one, 256));
    assert!(meets_target(&one, 255));
    let max = [0xffu8; 32];
    assert!(meets_target(&max, 0));
    assert!(!meets_target(&max, 1));
    let mut half = [0u8; 32];
    half[0] = 0x7f;
    half[1] = 0xff;
    assert!(meets_target(&half, 1));
    assert!(!meets_target(&half, 2));
    let mut at_target = [0u8; 32];
    at_target[2] = 0x10;
    // 2^(256 - 20) has its single bit in byte 2, value 0x10.
    assert!(!meets_target(&at_target, 20));
    assert!(meets_target(&at_target, 19));
    at_target[2] = 0x0f;
    at_target[31] = 0xff;
    assert!(meets_target(&at_target, 20));
}

#[test]
fn target_grows_as_difficulty_drops() {
    let mut d = [0u8; 32];
    d[3] = 1;
    // value 2^224: meets exactly the difficulties below 32.
    for bits in 0..=256u32 {
        assert_eq!(meets_target(&d, bits), bits < 32, "bits {}", bits);
    }
}

#[test]
fn target_agrees_with_big_integer_comparison() {
    let samples: Vec<[u8; 32]> = (0u8..40)
        .map(|k| {
            let h = Sha256::digest([k]);
            let mut d: [u8; 32] = h.into();
            for b in d.iter_mut().take((k / 4) as usize) {
                *b = 0;
            }
            d
        })
        .collect();
    for d in &samples {
        let value = BigUint::from_bytes_be(d);
        for bits in [0u32, 1, 3, 7, 8, 9, 12, 16, 20, 33, 64, 100, 200, 255, 256] {
            let mut target = BigUint::one();
            target <<= 256 - bits;
            assert_eq!(meets_target(d, bits), value < target, "bits {}", bits);
        }
    }
}

#[test]
fn search_range_finds_first_solution_in_range() {
    let block = mine(b"ranges", b"", 6);
    let pow = ProofOfWork::new(block.clone(), 6).unwrap();
    let (n, h) = pow.search_range(0, u64::MAX).unwrap();
    assert_eq!((n, h), (block.nonce, block.hash.clone()));
    let (later, later_hash) = pow.search_range(n + 1, n + 100_000).unwrap();
    assert!(later > n);
    assert!(meets_target(&later_hash, 6));
    for m in n + 1..later {
        assert!(!meets_target(&pow.recompute_digest(m), 6));
    }
}

#[test]
fn search_range_without_solution_is_none() {
    let block = mine(b"ranges", b"", 6);
    let pow = ProofOfWork::new(block.clone(), 6).unwrap();
    if block.nonce > 0 {
        assert!(pow.search_range(0, block.nonce - 1).is_none());
    }
    assert!(pow.search_range(10, 9).is_none());
    assert_eq!(pow.search_range(block.nonce, block.nonce).map(|(n, _)| n), Some(block.nonce));
}

#[test]
fn run_matches_block_new() {
    let block = mine(b"run", &[1, 2, 3], 7);
    let unsealed = Block { hash: Vec::new(), nonce: 0, ..block.clone() };
    let (n, h) = ProofOfWork::new(unsealed, 7).unwrap().run().unwrap();
    assert_eq!(n, block.nonce);
    assert_eq!(h, block.hash);
}
