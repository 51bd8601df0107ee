use vstd::prelude::*;
use vstd::string::StringSliceAdditionalSpecFns;

verus! {

/// Whether `c` is an ASCII hexadecimal digit, either case.
pub open spec fn is_hex_digit(c: u8) -> bool {
    (48 <= c <= 57) || (97 <= c <= 102) || (65 <= c <= 70)
}

/// Value of a hexadecimal digit.
pub open spec fn hex_digit_value(c: u8) -> u8 {
    if 48 <= c <= 57 {
        (c - 48) as u8
    } else if 97 <= c <= 102 {
        (c - 87) as u8
    } else if 65 <= c <= 70 {
        (c - 55) as u8
    } else {
        0
    }
}

/// Whether `s` is hexadecimal text: an even number of hex digits.
pub open spec fn is_hex_text(s: Seq<u8>) -> bool {
    &&& s.len() % 2 == 0
    &&& forall|i: int| 0 <= i < s.len() ==> is_hex_digit(#[trigger] s[i])
}

/// The bytes that hexadecimal text stands for, two digits per byte, high
/// digit first.
pub open spec fn hex_bytes(s: Seq<u8>) -> Seq<u8> {
    Seq::new(
        (s.len() / 2) as nat,
        |i: int| (hex_digit_value(s[2 * i]) * 16 + hex_digit_value(s[2 * i + 1])) as u8,
    )
}

/// The eight bytes of `n`, least significant first.
pub open spec fn le_bytes(n: u64) -> Seq<u8> {
    seq![
        n as u8,
        (n >> 8u64) as u8,
        (n >> 16u64) as u8,
        (n >> 24u64) as u8,
        (n >> 32u64) as u8,
        (n >> 40u64) as u8,
        (n >> 48u64) as u8,
        (n >> 56u64) as u8,
    ]
}

/// The header hashed for `nonce`: the bytes before the nonce, the nonce
/// little-endian, the bytes after it.
pub open spec fn header_bytes(pre: Seq<u8>, post: Seq<u8>, nonce: u64) -> Seq<u8> {
    hex_bytes(pre) + le_bytes(nonce) + hex_bytes(post)
}

/// Keccak-256 of a byte string.
pub uninterp spec fn keccak256(data: Seq<u8>) -> Seq<u8>;

fn hex_value(c: u8) -> (r: Option<u8>)
    ensures
        r.is_some() == is_hex_digit(c),
        r.is_some() ==> r.unwrap() == hex_digit_value(c),
{
    if 48 <= c && c <= 57 {
        Some(c - 48)
    } else if 97 <= c && c <= 102 {
        Some(c - 87)
    } else if 65 <= c && c <= 70 {
        Some(c - 55)
    } else {
        None
    }
}

/// Appends the bytes that the hexadecimal text `s` stands for to `out`, or
/// returns false, leaving `out` in an unspecified state, where `s` is not
/// hexadecimal text.
fn append_hex(s: &str, out: &mut Vec<u8>) -> (ok: bool)
    ensures
        ok == is_hex_text(s.spec_bytes()),
        ok ==> final(out)@ == old(out)@ + hex_bytes(s.spec_bytes()),
{
    let b = s.as_bytes();
    if b.len() % 2 != 0 {
        return false;
    }
    let ghost start = out@;
    let mut i: usize = 0;
    while i < b.len() / 2
        invariant
            b@ == s.spec_bytes(),
            b@.len() % 2 == 0,
            i <= b@.len() / 2,
            forall|k: int| 0 <= k < 2 * i ==> is_hex_digit(#[trigger] b@[k]),
            out@ == start + hex_bytes(b@).subrange(0, i as int),
        decreases b@.len() / 2 - i,
    {
        let hi = hex_value(b[2 * i]);
        let lo = hex_value(b[2 * i + 1]);
        match (hi, lo) {
            (Some(h), Some(l)) => {
                out.push(h * 16 + l);
                proof {
                    assert forall|k: int| 0 <= k < 2 * (i + 1) implies is_hex_digit(
                        #[trigger] b@[k],
                    ) by {
                        if k >= 2 * i {
                            assert(k == 2 * i || k == 2 * i + 1);
                        }
                    }
                }
                i += 1;
                assert(out@ =~= start + hex_bytes(b@).subrange(0, i as int));
            },
            _ => {
                assert(!is_hex_text(b@)) by {
                    if hi.is_none() {
                        assert(!is_hex_digit(b@[2 * i as int]));
                    } else {
                        assert(!is_hex_digit(b@[2 * i + 1]));
                    }
                }
                return false;
            },
        }
    }
    assert(hex_bytes(b@).subrange(0, i as int) =~= hex_bytes(b@));
    true
}

/// The bytes that the hexadecimal text `s` stands for, or `None` where `s` is
/// not hexadecimal text (odd length or a character that is no hex digit).
pub fn from_hex_string(s: &str) -> (r: Option<Vec<u8>>)
    ensures
        r.is_some() == is_hex_text(s.spec_bytes()),
        r.is_some() ==> r.unwrap()@ == hex_bytes(s.spec_bytes()),
{
    let mut out: Vec<u8> = Vec::new();
    if append_hex(s, &mut out) {
        assert(out@ =~= hex_bytes(s.spec_bytes()));
        Some(out)
    } else {
        None
    }
}

/// The eight bytes of `n`, least significant first.
pub fn u64_le_bytes(n: u64) -> (r: [u8; 8])
    ensures
        r@ == le_bytes(n),
{
    let r = [
        n as u8,
        (n >> 8u64) as u8,
        (n >> 16u64) as u8,
        (n >> 24u64) as u8,
        (n >> 32u64) as u8,
        (n >> 40u64) as u8,
        (n >> 48u64) as u8,
        (n >> 56u64) as u8,
    ];
    assert(r@ =~= le_bytes(n));
    r
}

/// The header for `nonce` from the hexadecimal parts before and after the
/// nonce; `None` where either part is not hexadecimal text.
pub fn header_with_nonce(pre_nonce: &str, post_nonce: &str, nonce: u64) -> (r: Option<Vec<u8>>)
    ensures
        r.is_some() == (is_hex_text(pre_nonce.spec_bytes()) && is_hex_text(
            post_nonce.spec_bytes(),
        )),
        r.is_some() ==> r.unwrap()@ == header_bytes(
            pre_nonce.spec_bytes(),
            post_nonce.spec_bytes(),
            nonce,
        ),
{
    let mut out: Vec<u8> = Vec::new();
    if !append_hex(pre_nonce, &mut out) {
        return None;
    }
    let nb = u64_le_bytes(nonce);
    let ghost before = out@;
    let mut i: usize = 0;
    while i < 8
        invariant
            i <= 8,
            nb@ == le_bytes(nonce),
            out@ == before + nb@.subrange(0, i as int),
        decreases 8 - i,
    {
        out.push(nb[i]);
        i += 1;
        assert(out@ =~= before + nb@.subrange(0, i as int));
    }
    assert(nb@.subrange(0, 8) =~= nb@);
    if !append_hex(post_nonce, &mut out) {
        return None;
    }
    assert(out@ =~= header_bytes(pre_nonce.spec_bytes(), post_nonce.spec_bytes(), nonce));
    Some(out)
}

/// Relies on rand::random: a uniformly drawn u64, of which nothing is promised.
#[verifier::external_body]
fn random_u64() -> u64 {
    rand::random::<u64>()
}

/// A starting nonce drawn at random and the header for it; `None` where either
/// part is not hexadecimal text.
pub fn get_next_header_data(pre_nonce: &str, post_nonce: &str) -> (r: Option<(u64, Vec<u8>)>)
    ensures
        r.is_some() == (is_hex_text(pre_nonce.spec_bytes()) && is_hex_text(
            post_nonce.spec_bytes(),
        )),
        r.is_some() ==> r.unwrap().1@ == header_bytes(
            pre_nonce.spec_bytes(),
            post_nonce.spec_bytes(),
            r.unwrap().0,
        ),
{
    let nonce = random_u64();
    match header_with_nonce(pre_nonce, post_nonce, nonce) {
        Some(h) => Some((nonce, h)),
        None => None,
    }
}

/// Relies on keccak_hash::keccak_256: writes the 32-byte Keccak-256 digest of
/// the input, which depends on the input alone.
#[verifier::external_body]
fn keccak_256_of(input: &[u8]) -> (r: [u8; 32])
    ensures
        r@ == keccak256(input@),
{
    let mut out = [0u8; 32];
    keccak_hash::keccak_256(input, &mut out);
    out
}

/// The 32-byte header that the ProgPow kernel searches: the Keccak-256 digest
/// of the bytes before the nonce. `None` where they are not hexadecimal text.
pub fn progpow_header(pre_nonce: &str) -> (r: Option<[u8; 32]>)
    ensures
        r.is_some() == is_hex_text(pre_nonce.spec_bytes()),
        r.is_some() ==> r.unwrap()@ == keccak256(hex_bytes(pre_nonce.spec_bytes())),
{
    match from_hex_string(pre_nonce) {
        Some(bytes) => Some(keccak_256_of(bytes.as_slice())),
        None => None,
    }
}

} // verus!
