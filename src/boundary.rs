use bigint::uint::U256;
use vstd::prelude::*;

verus! {

/// Value of a byte string read as a big-endian unsigned number.
pub open spec fn be_value(s: Seq<u8>) -> nat
    decreases s.len(),
{
    if s.len() == 0 {
        0
    } else {
        be_value(s.drop_last()) * 256 + s.last() as nat
    }
}

/// The largest 256-bit number, 2^256 - 1.
pub open spec fn max_u256() -> nat {
    0xffff_ffff_ffff_ffff_ffff_ffff_ffff_ffff_ffff_ffff_ffff_ffff_ffff_ffff_ffff_ffffnat
}

/// 2^192: the weight of the most significant 64-bit word of a 256-bit number.
pub open spec fn high_word_weight() -> nat {
    0x1_0000_0000_0000_0000_0000_0000_0000_0000_0000_0000_0000_0000nat
}

/// The difficulty a job is mined at: zero counts as one.
pub open spec fn effective_difficulty_spec(difficulty: u64) -> nat {
    if difficulty == 0 {
        1
    } else {
        difficulty as nat
    }
}

/// The largest hash value accepted at `difficulty`.
pub open spec fn boundary_value(difficulty: u64) -> nat {
    max_u256() / effective_difficulty_spec(difficulty)
}

/// Relies on bigint's U256 division, max_value, From<u64> and the big-endian
/// conversion to bytes: the result is floor((2^256 - 1) / divisor), big-endian.
#[verifier::external_body]
fn u256_max_div(divisor: u64) -> (r: [u8; 32])
    requires
        divisor >= 1,
    ensures
        be_value(r@) == max_u256() / (divisor as nat),
{
    (U256::max_value() / U256::from(divisor)).into()
}

/// Relies on bigint's U256 ordering and its big-endian From<&[u8; 32]>.
#[verifier::external_body]
fn u256_le(a: &[u8; 32], b: &[u8; 32]) -> (r: bool)
    ensures
        r == (be_value(a@) <= be_value(b@)),
{
    U256::from(a) <= U256::from(b)
}

/// Relies on bigint's U256 right shift and low_u64: the most significant
/// 64-bit word of a big-endian 256-bit number.
#[verifier::external_body]
fn u256_high_word(a: &[u8; 32]) -> (r: u64)
    ensures
        r as nat == be_value(a@) / high_word_weight(),
{
    (U256::from(a) >> 192).low_u64()
}

/// The difficulty a job is mined at: zero counts as one, so that no division
/// by zero can happen.
pub fn effective_difficulty(difficulty: u64) -> (r: u64)
    ensures
        r as nat == effective_difficulty_spec(difficulty),
        r >= 1,
{
    if difficulty > 0 {
        difficulty
    } else {
        1
    }
}

/// The boundary of a job: floor((2^256 - 1) / max(difficulty, 1)), big-endian.
pub fn boundary(difficulty: u64) -> (r: [u8; 32])
    ensures
        be_value(r@) == boundary_value(difficulty),
{
    u256_max_div(effective_difficulty(difficulty))
}

/// Whether a big-endian hash is a solution for `boundary`: at most equal to it.
pub fn meets_boundary(hash: &[u8; 32], boundary: &[u8; 32]) -> (r: bool)
    ensures
        r == (be_value(hash@) <= be_value(boundary@)),
{
    u256_le(hash, boundary)
}

/// The 64-bit target handed to the GPU kernel: the boundary shifted right by 192.
pub fn gpu_target(difficulty: u64) -> (r: u64)
    ensures
        r as nat == boundary_value(difficulty) / high_word_weight(),
{
    let b = boundary(difficulty);
    u256_high_word(&b)
}

/// Hashes per second of a work quantum of `work` hashes that ran from `start`
/// to `end` (milliseconds). An elapsed time of zero, or a clock that went
/// backwards, reports `work` itself.
pub fn hashes_per_sec(work: u64, start: u64, end: u64) -> (r: u64)
    requires
        work as nat * 1000 <= u64::MAX,
    ensures
        r as nat == hashes_per_sec_spec(work as nat, start as nat, end as nat),
{
    if end > start {
        (work * 1000) / (end - start)
    } else {
        work
    }
}

/// Hashes per second of a quantum of `work` hashes from `start` to `end`.
pub open spec fn hashes_per_sec_spec(work: nat, start: nat, end: nat) -> nat {
    if end > start {
        (work * 1000) / ((end - start) as nat)
    } else {
        work
    }
}

/// 256 to the power `n`: the count of values of `n` bytes.
pub open spec fn byte_range(n: nat) -> nat
    decreases n,
{
    if n == 0 {
        1
    } else {
        256 * byte_range((n - 1) as nat)
    }
}

proof fn lemma_be_value_below(s: Seq<u8>)
    ensures
        be_value(s) < byte_range(s.len()),
    decreases s.len(),
{
    if s.len() > 0 {
        lemma_be_value_below(s.drop_last());
        let a = be_value(s.drop_last());
        let b = byte_range((s.len() - 1) as nat);
        let c = s.last() as nat;
        assert(a * 256 + c < b * 256) by (nonlinear_arith)
            requires
                a < b,
                c < 256,
        ;
    }
}

/// Every 32-byte hash is at most 2^256 - 1.
pub proof fn lemma_hash_within_max(h: Seq<u8>)
    requires
        h.len() == 32,
    ensures
        be_value(h) <= max_u256(),
{
    lemma_be_value_below(h);
    reveal_with_fuel(byte_range, 33);
    assert(byte_range(32) == max_u256() + 1);
}

/// A job of difficulty zero has the boundary of difficulty one.
pub proof fn lemma_zero_difficulty_is_one()
    ensures
        boundary_value(0) == boundary_value(1),
        boundary_value(0) == max_u256(),
{
}

} // verus!
