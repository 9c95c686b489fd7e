//! Hash-to-group: deterministically map a byte string to an element of the
//! RSA group, i.e. an integer in `[2, N-1]`.
//!
//! The string is hashed with SHA3-512 and the digest is read as a big-endian
//! integer and reduced modulo `N`. If the residue is `0` or `1` the digest is
//! re-hashed, with a fixed zero byte appended, until a valid element appears;
//! after a fixed number of attempts (never reached in practice, since each
//! residue misses a 512-bit range with probability about `2/N`) the element
//! `2` is used. The whole procedure is a function of the input string and the
//! modulus alone, so two peers derive the same group element from a shared
//! secret.

use sha3::Digest;
use vstd::prelude::*;

verus! {

use crate::bignum::{BigNum, be_val, big_rem, big_lt};
use vstd::string::StringSliceAdditionalSpecFns;

/// The SHA3-512 digest of a byte string, as the external hash library
/// computes it: a pure function of the input, 64 bytes long.
pub uninterp spec fn sha3_512_of(input: Seq<u8>) -> Seq<u8>;

/// Relies on `sha3::Sha3_512`: the digest is a function of the input bytes
/// alone and is 64 bytes long.
#[verifier::external_body]
pub(crate) fn sha3_512(input: &[u8]) -> (r: Vec<u8>)
    ensures
        r@ == sha3_512_of(input@),
        r@.len() == 64,
{
    let digest = sha3::Sha3_512::digest(input);
    digest.to_vec()
}

/// The digest obtained after `k` re-hashes: each round appends a zero byte
/// to the previous digest and hashes again.
pub open spec fn digest_chain(input: Seq<u8>, k: nat) -> Seq<u8>
    decreases k,
{
    if k == 0 {
        sha3_512_of(input)
    } else {
        sha3_512_of(digest_chain(input, (k - 1) as nat).push(0u8))
    }
}

/// The group-element candidate of round `k`: the digest reduced modulo `n`.
pub open spec fn candidate(input: Seq<u8>, n: nat, k: nat) -> nat {
    be_val(digest_chain(input, k)) % n
}

/// The element the hash procedure settles on, searching from round `k`: the
/// first candidate that is at least `2`, or `2` itself if every round up to
/// the retry limit produced `0` or `1`.
pub open spec fn hash_spec_from(input: Seq<u8>, n: nat, k: nat) -> nat
    decreases 64 - k when k < 64
{
    if candidate(input, n, k) >= 2 {
        candidate(input, n, k)
    } else if k + 1 < 64 {
        hash_spec_from(input, n, (k + 1) as nat)
    } else {
        2
    }
}

/// Deterministically maps `s` to an element of `[2, modulus-1]`.
pub fn hash(s: &str, modulus: &BigNum) -> (r: BigNum)
    requires
        modulus@ >= 3,
    ensures
        r.wf(),
        2 <= r@ < modulus@,
        r@ == hash_spec_from(s.spec_bytes(), modulus@, 0),
{
    let two = BigNum::from_u64(2);
    let bytes: &[u8] = s.as_bytes();
    let mut d: Vec<u8> = sha3_512(bytes);
    let mut k: usize = 0;
    while k < 64
        invariant
            modulus@ >= 3,
            two@ == 2,
            k <= 64,
            k < 64 ==> d@ == digest_chain(s.spec_bytes(), k as nat),
            hash_spec_from(s.spec_bytes(), modulus@, 0) == if k < 64 {
                hash_spec_from(s.spec_bytes(), modulus@, k as nat)
            } else {
                2nat
            },
        decreases 64 - k,
    {
        let num = BigNum::from_bytes_be(d.as_slice());
        let h = big_rem(&num, modulus);
        assert(h@ == candidate(s.spec_bytes(), modulus@, k as nat));
        if !big_lt(&h, &two) {
            return h;
        }
        d.push(0u8);
        let next = sha3_512(d.as_slice());
        d = next;
        k = k + 1;
    }
    BigNum::from_u64(2)
}

} // verus!
