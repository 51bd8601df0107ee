use vstd::prelude::*;

use crate::header::{le_bytes, u64_le_bytes};
use crate::types::{AlgorithmParams, ParamsModel, Solution, SolutionModel};

verus! {

/// Tag byte of an encoded Cuckoo proof.
pub const TAG_CUCKOO: u8 = 0;

/// Tag byte of an encoded RandomX hash.
pub const TAG_RANDOMX: u8 = 1;

/// Tag byte of an encoded ProgPow mix hash.
pub const TAG_PROGPOW: u8 = 2;

/// The four bytes of `n`, least significant first.
pub open spec fn le_u32_bytes(n: u32) -> Seq<u8> {
    seq![n as u8, (n >> 8u32) as u8, (n >> 16u32) as u8, (n >> 24u32) as u8]
}

/// The nonces of a proof, eight little-endian bytes each, in order.
pub open spec fn u64s_bytes(v: Seq<u64>) -> Seq<u8>
    decreases v.len(),
{
    if v.len() == 0 {
        Seq::empty()
    } else {
        u64s_bytes(v.drop_last()) + le_bytes(v.last())
    }
}

/// The encoding of algorithm parameters: a tag byte, then for Cuckoo the edge
/// bits (4 bytes), the number of nonces (8 bytes) and the nonces (8 bytes
/// each), for RandomX and ProgPow the 32 hash bytes. Integers little-endian.
pub open spec fn encode_params(p: ParamsModel) -> Seq<u8> {
    match p {
        ParamsModel::Cuckoo(e, v) => seq![TAG_CUCKOO] + le_u32_bytes(e) + le_bytes(
            v.len() as u64,
        ) + u64s_bytes(v),
        ParamsModel::RandomX(h) => seq![TAG_RANDOMX] + h,
        ParamsModel::ProgPow(m) => seq![TAG_PROGPOW] + m,
    }
}

/// The encoding of a solution: id and nonce (8 bytes each, little-endian),
/// then the encoded parameters.
pub open spec fn encode_solution(s: SolutionModel) -> Seq<u8> {
    le_bytes(s.id) + le_bytes(s.nonce) + encode_params(s.params)
}

/// The u32 stored little-endian at `at`.
pub open spec fn read_u32(b: Seq<u8>, at: int) -> u32 {
    (b[at] as u32) | ((b[at + 1] as u32) << 8u32) | ((b[at + 2] as u32) << 16u32) | ((b[at
        + 3] as u32) << 24u32)
}

/// The u64 stored little-endian at `at`.
pub open spec fn read_u64(b: Seq<u8>, at: int) -> u64 {
    (b[at] as u64) | ((b[at + 1] as u64) << 8u64) | ((b[at + 2] as u64) << 16u64) | ((b[at
        + 3] as u64) << 24u64) | ((b[at + 4] as u64) << 32u64) | ((b[at + 5] as u64) << 40u64)
        | ((b[at + 6] as u64) << 48u64) | ((b[at + 7] as u64) << 56u64)
}

/// The parameters that `b` encodes, or `None` where `b` encodes none.
pub open spec fn decode_params(b: Seq<u8>) -> Option<ParamsModel> {
    if b.len() == 0 {
        None
    } else if b[0] == TAG_CUCKOO {
        if b.len() >= 13 && b.len() == 13 + 8 * read_u64(b, 5) {
            Some(
                ParamsModel::Cuckoo(
                    read_u32(b, 1),
                    Seq::new(read_u64(b, 5) as nat, |k: int| read_u64(b, 13 + 8 * k)),
                ),
            )
        } else {
            None
        }
    } else if b[0] == TAG_RANDOMX && b.len() == 33 {
        Some(ParamsModel::RandomX(b.subrange(1, 33)))
    } else if b[0] == TAG_PROGPOW && b.len() == 33 {
        Some(ParamsModel::ProgPow(b.subrange(1, 33)))
    } else {
        None
    }
}

/// The solution that `b` encodes, or `None` where `b` encodes none.
pub open spec fn decode_solution(b: Seq<u8>) -> Option<SolutionModel> {
    if b.len() < 16 {
        None
    } else {
        match decode_params(b.subrange(16, b.len() as int)) {
            Some(p) => Some(SolutionModel { id: read_u64(b, 0), nonce: read_u64(b, 8), params: p }),
            None => None,
        }
    }
}

/// Whether parameters can be held by [`AlgorithmParams`]: hashes of 32 bytes,
/// a proof with fewer than 2^64 nonces.
pub open spec fn params_valid(p: ParamsModel) -> bool {
    match p {
        ParamsModel::Cuckoo(_, v) => v.len() <= u64::MAX,
        ParamsModel::RandomX(h) => h.len() == 32,
        ParamsModel::ProgPow(m) => m.len() == 32,
    }
}

proof fn lemma_read_le_u64(n: u64)
    ensures
        read_u64(le_bytes(n), 0) == n,
{
    let b = le_bytes(n);
    assert(read_u64(b, 0) == ((n as u8) as u64) | (((n >> 8u64) as u8 as u64) << 8u64) | (((n
        >> 16u64) as u8 as u64) << 16u64) | (((n >> 24u64) as u8 as u64) << 24u64) | (((n
        >> 32u64) as u8 as u64) << 32u64) | (((n >> 40u64) as u8 as u64) << 40u64) | (((n
        >> 48u64) as u8 as u64) << 48u64) | (((n >> 56u64) as u8 as u64) << 56u64));
    assert(((n as u8) as u64) | (((n >> 8u64) as u8 as u64) << 8u64) | (((n >> 16u64) as u8
        as u64) << 16u64) | (((n >> 24u64) as u8 as u64) << 24u64) | (((n >> 32u64) as u8
        as u64) << 32u64) | (((n >> 40u64) as u8 as u64) << 40u64) | (((n >> 48u64) as u8
        as u64) << 48u64) | (((n >> 56u64) as u8 as u64) << 56u64) == n) by (bit_vector);
}

proof fn lemma_read_le_u32(n: u32)
    ensures
        read_u32(le_u32_bytes(n), 0) == n,
{
    let b = le_u32_bytes(n);
    assert(read_u32(b, 0) == ((n as u8) as u32) | (((n >> 8u32) as u8 as u32) << 8u32) | (((n
        >> 16u32) as u8 as u32) << 16u32) | (((n >> 24u32) as u8 as u32) << 24u32));
    assert(((n as u8) as u32) | (((n >> 8u32) as u8 as u32) << 8u32) | (((n >> 16u32) as u8
        as u32) << 16u32) | (((n >> 24u32) as u8 as u32) << 24u32) == n) by (bit_vector);
}

/// Reading at an offset reads the bytes from that offset on.
proof fn lemma_read_u64_shift(b: Seq<u8>, c: Seq<u8>, off: int)
    requires
        0 <= off,
        8 <= c.len(),
        off + 8 <= b.len(),
        forall|k: int| 0 <= k < 8 ==> #[trigger] c[k] == b[off + k],
    ensures
        read_u64(b, off) == read_u64(c, 0),
{
    assert(c[0] == b[off + 0]);
    assert(c[1] == b[off + 1]);
    assert(c[2] == b[off + 2]);
    assert(c[3] == b[off + 3]);
    assert(c[4] == b[off + 4]);
    assert(c[5] == b[off + 5]);
    assert(c[6] == b[off + 6]);
    assert(c[7] == b[off + 7]);
}

proof fn lemma_u64s_bytes(v: Seq<u64>)
    ensures
        u64s_bytes(v).len() == 8 * v.len(),
        forall|k: int, j: int|
            0 <= k < v.len() && 0 <= j < 8 ==> u64s_bytes(v)[8 * k + j] == #[trigger] le_bytes(
                v[k],
            )[j],
    decreases v.len(),
{
    if v.len() > 0 {
        lemma_u64s_bytes(v.drop_last());
        assert forall|k: int, j: int|
            0 <= k < v.len() && 0 <= j < 8 implies u64s_bytes(v)[8 * k + j] == #[trigger] le_bytes(
            v[k],
        )[j] by {
            if k < v.len() - 1 {
                assert(v.drop_last()[k] == v[k]);
            }
        }
    }
}

/// Decoding encoded parameters gives them back, so encoding them again gives
/// the same bytes.
pub proof fn lemma_params_round_trip(p: ParamsModel)
    requires
        params_valid(p),
    ensures
        decode_params(encode_params(p)) == Some(p),
        encode_params(decode_params(encode_params(p)).unwrap()) == encode_params(p),
{
    let b = encode_params(p);
    match p {
        ParamsModel::Cuckoo(e, v) => {
            let lb = le_bytes(v.len() as u64);
            lemma_u64s_bytes(v);
            lemma_read_le_u32(e);
            lemma_read_le_u64(v.len() as u64);
            assert(read_u32(b, 1) == read_u32(le_u32_bytes(e), 0)) by {
                assert(b[1] == le_u32_bytes(e)[0]);
                assert(b[2] == le_u32_bytes(e)[1]);
                assert(b[3] == le_u32_bytes(e)[2]);
                assert(b[4] == le_u32_bytes(e)[3]);
            }
            lemma_read_u64_shift(b, lb, 5);
            let nonces = Seq::new(read_u64(b, 5) as nat, |k: int| read_u64(b, 13 + 8 * k));
            assert forall|k: int| 0 <= k < v.len() implies nonces[k] == v[k] by {
                lemma_read_le_u64(v[k]);
                assert forall|j: int| 0 <= j < 8 implies b[13 + 8 * k + j] == le_bytes(v[k])[j] by {
                    assert(b[13 + 8 * k + j] == u64s_bytes(v)[8 * k + j]);
                }
                lemma_read_u64_shift(b, le_bytes(v[k]), 13 + 8 * k);
            }
            assert(nonces =~= v);
        },
        ParamsModel::RandomX(h) => {
            assert(b.subrange(1, 33) =~= h);
        },
        ParamsModel::ProgPow(m) => {
            assert(b.subrange(1, 33) =~= m);
        },
    }
}

/// Decoding an encoded solution gives it back.
pub proof fn lemma_solution_round_trip(s: SolutionModel)
    requires
        params_valid(s.params),
    ensures
        decode_solution(encode_solution(s)) == Some(s),
{
    let b = encode_solution(s);
    lemma_params_round_trip(s.params);
    assert(b.subrange(16, b.len() as int) =~= encode_params(s.params));
    lemma_read_le_u64(s.id);
    lemma_read_le_u64(s.nonce);
    lemma_read_u64_shift(b, le_bytes(s.id), 0);
    lemma_read_u64_shift(b, le_bytes(s.nonce), 8);
}

fn push_le_u64(out: &mut Vec<u8>, n: u64)
    ensures
        final(out)@ == old(out)@ + le_bytes(n),
{
    let b = u64_le_bytes(n);
    let ghost start = out@;
    let mut i: usize = 0;
    while i < 8
        invariant
            i <= 8,
            b@ == le_bytes(n),
            out@ == start + b@.subrange(0, i as int),
        decreases 8 - i,
    {
        out.push(b[i]);
        i += 1;
        assert(out@ =~= start + b@.subrange(0, i as int));
    }
    assert(b@.subrange(0, 8) =~= b@);
}

fn push_bytes32(out: &mut Vec<u8>, b: &[u8; 32])
    ensures
        final(out)@ == old(out)@ + b@,
{
    let ghost start = out@;
    let mut i: usize = 0;
    while i < 32
        invariant
            i <= 32,
            out@ == start + b@.subrange(0, i as int),
        decreases 32 - i,
    {
        out.push(b[i]);
        i += 1;
        assert(out@ =~= start + b@.subrange(0, i as int));
    }
    assert(b@.subrange(0, 32) =~= b@);
}

fn push_params(out: &mut Vec<u8>, p: &AlgorithmParams)
    ensures
        final(out)@ == old(out)@ + encode_params(p@),
{
    let ghost start = out@;
    match p {
        AlgorithmParams::Cuckoo(e, v) => {
            out.push(TAG_CUCKOO);
            out.push(*e as u8);
            out.push((*e >> 8u32) as u8);
            out.push((*e >> 16u32) as u8);
            out.push((*e >> 24u32) as u8);
            push_le_u64(out, v.len() as u64);
            let ghost mid = out@;
            let mut i: usize = 0;
            while i < v.len()
                invariant
                    i <= v@.len(),
                    out@ == mid + u64s_bytes(v@.subrange(0, i as int)),
                decreases v@.len() - i,
            {
                push_le_u64(out, v[i]);
                assert(v@.subrange(0, i + 1).drop_last() =~= v@.subrange(0, i as int));
                i += 1;
                assert(out@ =~= mid + u64s_bytes(v@.subrange(0, i as int)));
            }
            assert(v@.subrange(0, i as int) =~= v@);
            assert(out@ =~= start + encode_params(p@));
        },
        AlgorithmParams::RandomX(h) => {
            out.push(TAG_RANDOMX);
            push_bytes32(out, h);
            assert(out@ =~= start + encode_params(p@));
        },
        AlgorithmParams::ProgPow(m) => {
            out.push(TAG_PROGPOW);
            push_bytes32(out, m);
            assert(out@ =~= start + encode_params(p@));
        },
    }
}

/// The bytes of algorithm parameters.
pub fn encode_algorithm_params(p: &AlgorithmParams) -> (r: Vec<u8>)
    ensures
        r@ == encode_params(p@),
{
    let mut out: Vec<u8> = Vec::new();
    push_params(&mut out, p);
    assert(out@ =~= encode_params(p@));
    out
}

/// The bytes of a solution.
pub fn encode_solution_bytes(s: &Solution) -> (r: Vec<u8>)
    ensures
        r@ == encode_solution(s@),
{
    let mut out: Vec<u8> = Vec::new();
    push_le_u64(&mut out, s.get_id());
    push_le_u64(&mut out, s.get_nonce());
    let p = s.get_algorithm_params();
    push_params(&mut out, &p);
    assert(out@ =~= encode_solution(s@));
    out
}

fn get_u64(b: &[u8], at: usize) -> (r: u64)
    requires
        at + 8 <= b@.len(),
    ensures
        r == read_u64(b@, at as int),
{
    (b[at] as u64) | ((b[at + 1] as u64) << 8u64) | ((b[at + 2] as u64) << 16u64) | ((b[at
        + 3] as u64) << 24u64) | ((b[at + 4] as u64) << 32u64) | ((b[at + 5] as u64) << 40u64)
        | ((b[at + 6] as u64) << 48u64) | ((b[at + 7] as u64) << 56u64)
}

fn get_u32(b: &[u8], at: usize) -> (r: u32)
    requires
        at + 4 <= b@.len(),
    ensures
        r == read_u32(b@, at as int),
{
    (b[at] as u32) | ((b[at + 1] as u32) << 8u32) | ((b[at + 2] as u32) << 16u32) | ((b[at
        + 3] as u32) << 24u32)
}

fn get_bytes32(b: &[u8], at: usize) -> (r: [u8; 32])
    requires
        at + 32 <= b@.len(),
    ensures
        r@ == b@.subrange(at as int, at + 32),
{
    let mut r = [0u8; 32];
    let len = b.len();
    let mut i: usize = 0;
    while i < 32
        invariant
            len == b@.len(),
            at + 32 <= b@.len(),
            i <= 32,
            forall|k: int| 0 <= k < i ==> r@[k] == b@[at + k],
        decreases 32 - i,
    {
        r[i] = b[at + i];
        i += 1;
    }
    assert(r@ =~= b@.subrange(at as int, at + 32));
    r
}

/// The parameters that `b` encodes, or `None` where it encodes none.
pub fn decode_algorithm_params(b: &[u8]) -> (r: Option<AlgorithmParams>)
    ensures
        r.is_some() == decode_params(b@).is_some(),
        r.is_some() ==> r.unwrap()@ == decode_params(b@).unwrap(),
{
    if b.len() == 0 {
        return None;
    }
    if b[0] == TAG_CUCKOO {
        if b.len() < 13 {
            return None;
        }
        let n = get_u64(b, 5);
        let rest = b.len() - 13;
        if rest % 8 != 0 || (rest / 8) as u64 != n {
            return None;
        }
        let e = get_u32(b, 1);
        let count = rest / 8;
        let mut v: Vec<u64> = Vec::new();
        let mut k: usize = 0;
        while k < count
            invariant
                rest == b@.len() - 13,
                count == (b@.len() - 13) / 8,
                (b@.len() - 13) % 8 == 0,
                b@.len() >= 13,
                k <= count,
                v@ == Seq::new(k as nat, |j: int| read_u64(b@, 13 + 8 * j)),
            decreases count - k,
        {
            assert(13 + 8 * k + 8 <= b@.len()) by (nonlinear_arith)
                requires
                    k < count,
                    count == rest / 8,
                    rest == b@.len() - 13,
            ;
            let x = get_u64(b, 13 + 8 * k);
            v.push(x);
            k += 1;
            assert(v@ =~= Seq::new(k as nat, |j: int| read_u64(b@, 13 + 8 * j)));
        }
        return Some(AlgorithmParams::Cuckoo(e, v));
    }
    if b.len() != 33 {
        return None;
    }
    if b[0] == TAG_RANDOMX {
        Some(AlgorithmParams::RandomX(get_bytes32(b, 1)))
    } else if b[0] == TAG_PROGPOW {
        Some(AlgorithmParams::ProgPow(get_bytes32(b, 1)))
    } else {
        None
    }
}

/// The solution that `b` encodes, or `None` where it encodes none.
pub fn decode_solution_bytes(b: &[u8]) -> (r: Option<Solution>)
    ensures
        r.is_some() == decode_solution(b@).is_some(),
        r.is_some() ==> r.unwrap()@ == decode_solution(b@).unwrap(),
{
    if b.len() < 16 {
        return None;
    }
    let id = get_u64(b, 0);
    let nonce = get_u64(b, 8);
    let mut tail: Vec<u8> = Vec::new();
    let mut i: usize = 16;
    while i < b.len()
        invariant
            16 <= i <= b@.len(),
            tail@ == b@.subrange(16, i as int),
        decreases b@.len() - i,
    {
        tail.push(b[i]);
        i += 1;
        assert(tail@ =~= b@.subrange(16, i as int));
    }
    match decode_algorithm_params(tail.as_slice()) {
        Some(p) => Some(Solution::new(id, nonce, p)),
        None => None,
    }
}

} // verus!
