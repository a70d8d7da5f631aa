use vstd::prelude::*;

use sha2::Digest;

verus! {

// ----------------------------------------------------------------------------
// The digest, trusted; everything around it, verified.
// ----------------------------------------------------------------------------

/// The SHA-256 digest of a byte string.
pub uninterp spec fn sha256_of(data: Seq<u8>) -> Seq<u8>;

/// Relies on `sha2::Sha256`: the digest depends on the input bytes alone
/// and holds exactly 32 bytes.
#[verifier::external_body]
fn sha256(data: &Vec<u8>) -> (r: Vec<u8>)
    ensures
        r@ == sha256_of(data@),
        r@.len() == 32,
{
    sha2::Sha256::digest(data.as_slice()).to_vec()
}

// ----------------------------------------------------------------------------
// Lowercase hex encoding.
// ----------------------------------------------------------------------------

/// The lowercase hex digit of a value under 16, as a byte.
pub open spec fn hex_digit(n: u8) -> u8 {
    if n < 10 {
        (48 + n) as u8
    } else {
        (87 + n) as u8
    }
}

/// The lowercase hex encoding of a byte string: two digits per byte, most
/// significant first.
pub open spec fn hex_of(bs: Seq<u8>) -> Seq<u8> {
    Seq::new(
        2 * bs.len(),
        |i: int|
            if i % 2 == 0 {
                hex_digit(bs[i / 2] / 16)
            } else {
                hex_digit(bs[i / 2] % 16)
            },
    )
}

/// Encodes a byte string as lowercase hex.
fn to_hex(bs: &Vec<u8>) -> (r: Vec<u8>)
    ensures
        r@ == hex_of(bs@),
{
    let mut r: Vec<u8> = Vec::new();
    let n = bs.len();
    for i in 0..n
        invariant
            n == bs@.len(),
            r@.len() == 2 * i,
            forall|k: int| 0 <= k < r@.len() ==> r@[k] == hex_of(bs@)[k],
    {
        let b = bs[i];
        let hi = b / 16;
        let lo = b % 16;
        let hid = if hi < 10 {
            48 + hi
        } else {
            87 + hi
        };
        let lod = if lo < 10 {
            48 + lo
        } else {
            87 + lo
        };
        r.push(hid);
        r.push(lod);
    }
    proof {
        assert(r@ =~= hex_of(bs@));
    }
    r
}

// ----------------------------------------------------------------------------
// Decimal rendering of the nonce.
// ----------------------------------------------------------------------------

/// The decimal digits of a number, as ASCII bytes.
pub open spec fn decimal_of(n: nat) -> Seq<u8>
    decreases n,
{
    if n < 10 {
        seq![(48 + n) as u8]
    } else {
        decimal_of(n / 10).push((48 + n % 10) as u8)
    }
}

/// Appends the decimal digits of `n`.
fn push_decimal(n: u64, out: &mut Vec<u8>)
    ensures
        final(out)@ == old(out)@ + decimal_of(n as nat),
    decreases n,
{
    if n < 10 {
        out.push(48 + (n as u8));
        proof {
            assert(old(out)@ + decimal_of(n as nat) =~= old(out)@.push((48 + n) as u8));
        }
    } else {
        push_decimal(n / 10, out);
        out.push(48 + ((n % 10) as u8));
        proof {
            assert(old(out)@ + decimal_of(n as nat) =~= (old(out)@ + decimal_of(
                (n / 10) as nat,
            )).push((48 + n % 10) as u8));
        }
    }
}

// ----------------------------------------------------------------------------
// The target comparison and the solver.
// ----------------------------------------------------------------------------

/// Lexicographic order on two equal-length byte strings, scanned from the
/// most significant byte at `i`: equal prefixes continue, and a wholly
/// equal pair compares as less-or-equal.
pub open spec fn spec_hex_le(a: Seq<u8>, b: Seq<u8>, i: int) -> bool
    decreases a.len() - i,
{
    if i < 0 || i >= a.len() {
        true
    } else if a[i] < b[i] {
        true
    } else if a[i] > b[i] {
        false
    } else {
        spec_hex_le(a, b, i + 1)
    }
}

/// A nonce answers the challenge when the lowercase hex digest of the
/// prefix followed by the nonce's decimal digits is byte-for-byte at most
/// the target, which must have the digest's length.
pub open spec fn spec_meets_target(prefix: Seq<u8>, target: Seq<u8>, nonce: u64) -> bool {
    let digest_hex = hex_of(sha256_of(prefix + decimal_of(nonce as nat)));
    digest_hex.len() == target.len() && spec_hex_le(digest_hex, target, 0)
}

/// Byte-for-byte comparison of two equal-length strings, most significant
/// byte first.
fn hex_le(a: &Vec<u8>, b: &Vec<u8>) -> (r: bool)
    requires
        a@.len() == b@.len(),
    ensures
        r == spec_hex_le(a@, b@, 0),
{
    let n = a.len();
    let mut i: usize = 0;
    while i < n
        invariant
            n == a@.len() == b@.len(),
            i <= n,
            spec_hex_le(a@, b@, 0) == spec_hex_le(a@, b@, i as int),
        decreases n - i,
    {
        if a[i] < b[i] {
            return true;
        }
        if a[i] > b[i] {
            return false;
        }
        i = i + 1;
    }
    true
}

/// Copies a byte string.
fn copy_bytes(v: &Vec<u8>) -> (r: Vec<u8>)
    ensures
        r@ == v@,
{
    let mut r: Vec<u8> = Vec::new();
    let n = v.len();
    for i in 0..n
        invariant
            n == v@.len(),
            r@ =~= v@.take(i as int),
    {
        r.push(v[i]);
        assert(r@ =~= v@.take(i + 1));
    }
    proof {
        assert(v@.take(n as int) =~= v@);
    }
    r
}

/// Whether one nonce answers the challenge.
pub fn check_nonce(prefix: &Vec<u8>, target: &Vec<u8>, nonce: u64) -> (r: bool)
    ensures
        r == spec_meets_target(prefix@, target@, nonce),
{
    let mut candidate = copy_bytes(prefix);
    push_decimal(nonce, &mut candidate);
    let digest = sha256(&candidate);
    let digest_hex = to_hex(&digest);
    if digest_hex.len() != target.len() {
        return false;
    }
    hex_le(&digest_hex, target)
}

/// Brute-force search for the least nonce that answers the challenge:
/// nonces are tried from zero upward, so the returned nonce answers it and
/// every smaller nonce fails it.  The search gives up only once the nonce
/// space is exhausted, which a real challenge never reaches.
pub fn solve_challenge(prefix: &Vec<u8>, target: &Vec<u8>) -> (r: Option<u64>)
    ensures
        r matches Some(n) ==> spec_meets_target(prefix@, target@, n) && (forall|m: u64|
            m < n ==> !spec_meets_target(prefix@, target@, m)),
        r is None ==> forall|m: u64| !spec_meets_target(prefix@, target@, m),
{
    let mut nonce: u64 = 0;
    loop
        invariant
            forall|m: u64| m < nonce ==> !spec_meets_target(prefix@, target@, m),
        decreases u64::MAX - nonce,
    {
        if check_nonce(prefix, target, nonce) {
            return Some(nonce);
        }
        if nonce == u64::MAX {
            proof {
                assert(forall|m: u64| m <= u64::MAX ==> !spec_meets_target(prefix@, target@, m));
            }
            return None;
        }
        nonce = nonce + 1;
    }
}

} // verus!
