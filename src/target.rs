//! The acceptance threshold of the puzzle, and the test of a digest against it.
use vstd::arithmetic::power2::*;
use vstd::prelude::*;

verus! {

/// Bit width of a digest.
pub const DIGEST_BITS: u32 = 256;

/// Byte length of a digest.
pub const DIGEST_LEN: usize = 32;

/// The value of a byte string read as a big-endian unsigned integer.
pub open spec fn be_value(s: Seq<u8>) -> nat
    decreases s.len(),
{
    if s.len() == 0 {
        0
    } else {
        be_value(s.drop_last()) * 256 + s.last() as nat
    }
}

/// The acceptance threshold for a difficulty: `2^(DIGEST_BITS - difficulty_bits)`.
pub open spec fn target(difficulty_bits: nat) -> nat {
    pow2((DIGEST_BITS - difficulty_bits) as nat)
}

/// Whether a digest, read as a big-endian integer, lies strictly below the threshold.
pub open spec fn below_target(digest: Seq<u8>, difficulty_bits: nat) -> bool {
    be_value(digest) < target(difficulty_bits)
}

proof fn lemma_pow2_8_step(k: nat)
    ensures
        pow2(8 * (k + 1)) == pow2(8 * k) * 256,
{
    lemma_pow2_adds(8 * k, 8);
    lemma2_to64();
    assert(8 * (k + 1) == 8 * k + 8) by (nonlinear_arith);
}

/// Appending bytes shifts the value of the prefix by eight bits per byte.
proof fn lemma_be_value_concat(a: Seq<u8>, b: Seq<u8>)
    ensures
        be_value(a + b) == be_value(a) * pow2(8 * b.len()) + be_value(b),
    decreases b.len(),
{
    if b.len() == 0 {
        assert(a + b =~= a);
        lemma2_to64();
        assert(pow2(8 * b.len()) == 1);
        assert(be_value(a) * 1 == be_value(a));
    } else {
        let b2 = b.drop_last();
        assert((a + b).drop_last() =~= a + b2);
        assert((a + b).last() == b.last());
        assert(be_value(a + b) == be_value(a + b2) * 256 + b.last() as nat);
        lemma_be_value_concat(a, b2);
        assert(8 * b.len() == 8 * (b2.len() + 1));
        lemma_pow2_8_step(b2.len());
        let p = pow2(8 * b2.len());
        let va = be_value(a);
        let vb = be_value(b2);
        let x = b.last() as nat;
        assert((va * p + vb) * 256 + x == va * (p * 256) + (vb * 256 + x)) by (nonlinear_arith);
        assert(pow2(8 * b.len()) == p * 256);
        assert(be_value(b) == vb * 256 + x);
        assert(be_value(a + b) == va * (p * 256) + be_value(b));
    }
}

/// A string of `n` bytes has a value below `2^(8n)`.
proof fn lemma_be_value_bound(s: Seq<u8>)
    ensures
        be_value(s) < pow2(8 * s.len()),
    decreases s.len(),
{
    if s.len() == 0 {
        lemma2_to64();
    } else {
        let s2 = s.drop_last();
        lemma_be_value_bound(s2);
        lemma_pow2_8_step(s2.len());
        let p = pow2(8 * s2.len());
        let v = be_value(s2);
        let x = s.last() as nat;
        assert(v * 256 + x < p * 256) by (nonlinear_arith)
            requires
                v < p,
                x < 256,
        ;
    }
}

/// A longer prefix never has a smaller value.
proof fn lemma_be_value_prefix_grows(s: Seq<u8>, j: int, k: int)
    requires
        0 <= j <= k <= s.len(),
    ensures
        be_value(s.take(j)) <= be_value(s.take(k)),
{
    let a = s.take(j);
    let b = s.subrange(j, k);
    assert(s.take(k) =~= a + b);
    lemma_be_value_concat(a, b);
    lemma_pow2_pos(8 * b.len());
    let p = pow2(8 * b.len());
    let va = be_value(a);
    assert(va <= va * p) by (nonlinear_arith)
        requires
            p > 0,
    ;
}

/// A value lies below `2^(8q + r)` exactly when its bytes before the last `q`
/// lie below `2^r`.
proof fn lemma_below_pow2_by_prefix(s: Seq<u8>, q: nat, r: nat)
    requires
        q <= s.len(),
    ensures
        (be_value(s) < pow2(8 * q + r)) == (be_value(s.take(s.len() - q)) < pow2(r)),
{
    let cut = s.len() - q;
    let a = s.take(cut);
    let b = s.skip(cut);
    assert(s =~= a + b);
    lemma_be_value_concat(a, b);
    lemma_be_value_bound(b);
    lemma_pow2_adds(r, 8 * q);
    let m = pow2(8 * q);
    let t = pow2(r);
    let va = be_value(a);
    let vb = be_value(b);
    if va < t {
        assert(va * m + vb < t * m) by (nonlinear_arith)
            requires
                va + 1 <= t,
                vb < m,
        ;
    } else {
        assert(va * m + vb >= t * m) by (nonlinear_arith)
            requires
                va >= t,
                m > 0,
        ;
    }
}

/// Whether `digest`, read as a big-endian unsigned integer, is strictly below
/// `target(difficulty_bits)`.
pub fn meets_target(digest: &[u8], difficulty_bits: u32) -> (r: bool)
    requires
        digest@.len() == DIGEST_LEN,
        difficulty_bits <= DIGEST_BITS,
    ensures
        r == below_target(digest@, difficulty_bits as nat),
{
    let exponent: u32 = DIGEST_BITS - difficulty_bits;
    let q: usize = (exponent / 8) as usize;
    let rest: u32 = exponent % 8;
    let m: usize = DIGEST_LEN - q;
    proof {
        lemma2_to64();
    }
    let mut bound: u32 = 1;
    let mut j: u32 = 0;
    while j < rest
        invariant
            j <= rest < 8,
            bound == pow2(j as nat),
        decreases rest - j,
    {
        proof {
            lemma_pow2_unfold((j + 1) as nat);
            lemma2_to64();
            lemma_pow2_strictly_increases(j as nat, 7);
        }
        bound = bound * 2;
        j = j + 1;
    }
    let mut acc: u32 = 0;
    let mut i: usize = 0;
    proof {
        assert(digest@.take(0) =~= Seq::<u8>::empty());
    }
    while i < m
        invariant
            i <= m <= digest@.len(),
            acc == be_value(digest@.take(i as int)),
            acc < 256,
            rest < 8,
            bound == pow2(rest as nat),
            m == digest@.len() - q,
            exponent == 8 * q + rest,
            exponent == DIGEST_BITS - difficulty_bits,
        decreases m - i,
    {
        proof {
            assert(digest@.take(i + 1).drop_last() =~= digest@.take(i as int));
        }
        let next: u32 = acc * 256 + digest[i] as u32;
        if next >= 256 {
            proof {
                lemma_be_value_prefix_grows(digest@, i + 1, m as int);
                lemma2_to64();
                lemma_pow2_strictly_increases(rest as nat, 8);
                lemma_below_pow2_by_prefix(digest@, q as nat, rest as nat);
            }
            return false;
        }
        acc = next;
        i = i + 1;
    }
    proof {
        lemma_below_pow2_by_prefix(digest@, q as nat, rest as nat);
    }
    acc < bound
}

/// Lowering the difficulty never shrinks the threshold: fewer required
/// leading zero bits give a strictly larger target.
pub proof fn lemma_target_monotone(difficulty_bits_1: nat, difficulty_bits_2: nat)
    requires
        difficulty_bits_1 < difficulty_bits_2 <= DIGEST_BITS,
    ensures
        target(difficulty_bits_1) > target(difficulty_bits_2),
{
    lemma_pow2_strictly_increases(
        (DIGEST_BITS - difficulty_bits_2) as nat,
        (DIGEST_BITS - difficulty_bits_1) as nat,
    );
}

/// A digest that meets a difficulty of at least eight bits starts with a
/// zero byte.
pub proof fn lemma_leading_byte_zero(digest: Seq<u8>, difficulty_bits: nat)
    requires
        digest.len() == DIGEST_LEN,
        8 <= difficulty_bits <= DIGEST_BITS,
        below_target(digest, difficulty_bits),
    ensures
        digest[0] == 0,
{
    let exponent = (DIGEST_BITS - difficulty_bits) as nat;
    if exponent < 248 {
        lemma_pow2_strictly_increases(exponent, 248);
    }
    lemma_below_pow2_by_prefix(digest, 31, 0);
    lemma2_to64();
    let first = digest.take(1);
    assert(first.drop_last() =~= Seq::<u8>::empty());
    assert(be_value(first) == first.last() as nat);
}

} // verus!
