//! Arbitrary-precision non-negative integers.
//!
//! A `BigNum` holds the canonical big-endian byte encoding of a natural
//! number; its mathematical value is the view `@`. All logic in this crate
//! works on `BigNum` values and is specified over `nat`. The arithmetic
//! that only an external bignum library can perform (multiplication,
//! division, modular exponentiation, gcd, comparison) sits behind trusted
//! wrappers at the end of this file; everything else is verified.

use vstd::prelude::*;

verus! {

use vstd::arithmetic::power::pow;
use vstd::arithmetic::power::lemma_pow_increases;
use vstd::arithmetic::div_mod::lemma_fundamental_div_mod_converse;

/// The natural number encoded by a big-endian byte string.
pub open spec fn be_val(s: Seq<u8>) -> nat
    decreases s.len(),
{
    if s.len() == 0 {
        0
    } else {
        be_val(s.drop_last()) * 256 + s.last() as nat
    }
}

/// Canonical encodings: at least one byte, and no redundant leading zero.
/// Zero is encoded as the single byte `0`.
pub open spec fn canonical(s: Seq<u8>) -> bool {
    s.len() >= 1 && (s.len() == 1 || s[0] != 0)
}

/// An arbitrary-precision non-negative integer, stored as big-endian bytes.
#[derive(Debug, Clone)]
pub struct BigNum {
    pub bytes: Vec<u8>,
}

impl View for BigNum {
    type V = nat;

    open spec fn view(&self) -> nat {
        be_val(self.bytes@)
    }
}

impl PartialEq for BigNum {
    fn eq(&self, other: &Self) -> (r: bool) {
        if self.bytes.len() != other.bytes.len() {
            return false;
        }
        let mut i: usize = 0;
        while i < self.bytes.len()
            invariant
                i <= self.bytes.len(),
                self.bytes.len() == other.bytes.len(),
                forall|j: int| 0 <= j < i ==> self.bytes@[j] == other.bytes@[j],
            decreases self.bytes.len() - i,
        {
            if self.bytes[i] != other.bytes[i] {
                return false;
            }
            i = i + 1;
        }
        assert(self.bytes@ =~= other.bytes@);
        true
    }
}

impl vstd::std_specs::cmp::PartialEqSpecImpl for BigNum {
    open spec fn obeys_eq_spec() -> bool {
        true
    }

    open spec fn eq_spec(&self, other: &Self) -> bool {
        self.bytes@ =~= other.bytes@
    }
}

impl Eq for BigNum {}

impl BigNum {
    /// The encoding held by this value is canonical.
    pub open spec fn wf(&self) -> bool {
        canonical(self.bytes@)
    }

    /// The canonical encoding of a machine integer.
    pub fn from_u64(x: u64) -> (r: BigNum)
        ensures
            r.wf(),
            r@ == x,
    {
        if x == 0 {
            let mut v: Vec<u8> = Vec::new();
            v.push(0u8);
            proof {
                assert(v@.drop_last() =~= Seq::<u8>::empty());
                assert(be_val(Seq::<u8>::empty()) == 0);
                assert(be_val(v@) == be_val(v@.drop_last()) * 256 + v@.last() as nat);
            }
            BigNum { bytes: v }
        } else {
            let v = be_bytes_of_u64(x);
            BigNum { bytes: v }
        }
    }

    /// Reads a big-endian byte string, in any (possibly padded) form,
    /// into a canonical value.
    pub fn from_bytes_be(bytes: &[u8]) -> (r: BigNum)
        ensures
            r.wf(),
            r@ == be_val(bytes@),
    {
        let n: usize = bytes.len();
        let mut i: usize = 0;
        while i < n && bytes[i] == 0
            invariant
                i <= n,
                n == bytes@.len(),
                forall|j: int| 0 <= j < i ==> bytes@[j] == 0,
            decreases n - i,
        {
            i = i + 1;
        }
        proof {
            lemma_be_val_skip_zeros(bytes@, i as int);
        }
        if i == n {
            BigNum::from_u64(0)
        } else {
            let mut v: Vec<u8> = Vec::new();
            let mut j: usize = i;
            while j < n
                invariant
                    i <= j <= n,
                    n == bytes@.len(),
                    v@ =~= bytes@.subrange(i as int, j as int),
                decreases n - j,
            {
                v.push(bytes[j]);
                j = j + 1;
            }
            assert(v@ =~= bytes@.subrange(i as int, n as int));
            BigNum { bytes: v }
        }
    }

    /// A copy with the same bytes, hence the same value.
    pub fn duplicate(&self) -> (r: BigNum)
        ensures
            r.bytes@ =~= self.bytes@,
            r@ == self@,
            r.wf() == self.wf(),
    {
        let b = self.bytes.clone();
        assert(b@ =~= self.bytes@);
        BigNum { bytes: b }
    }
}

/// The big-endian bytes of a positive machine integer, without leading zeros.
fn be_bytes_of_u64(x: u64) -> (r: Vec<u8>)
    ensures
        be_val(r@) == x,
        x > 0 ==> r@.len() >= 1 && r@[0] != 0,
        x == 0 ==> r@.len() == 0,
    decreases x,
{
    if x == 0 {
        Vec::new()
    } else {
        let mut v = be_bytes_of_u64(x / 256);
        let ghost prefix = v@;
        v.push((x % 256) as u8);
        assert(v@.drop_last() =~= prefix);
        assert(be_val(v@) == be_val(prefix) * 256 + (x % 256));
        if x / 256 == 0 {
            assert(v@[0] == x % 256);
        }
        v
    }
}

/// Leading zero bytes do not change the encoded value.
proof fn lemma_be_val_drop_first_zero(s: Seq<u8>)
    requires
        s.len() >= 1,
        s[0] == 0,
    ensures
        be_val(s) == be_val(s.subrange(1, s.len() as int)),
    decreases s.len(),
{
    if s.len() == 1 {
        assert(s.drop_last() =~= Seq::<u8>::empty());
        assert(s.subrange(1, 1) =~= Seq::<u8>::empty());
    } else {
        let t = s.drop_last();
        lemma_be_val_drop_first_zero(t);
        assert(t.subrange(1, t.len() as int) =~= s.subrange(1, s.len() as int).drop_last());
        assert(s.subrange(1, s.len() as int).last() == s.last());
    }
}

/// Stripping any number of leading zero bytes keeps the encoded value.
proof fn lemma_be_val_skip_zeros(s: Seq<u8>, i: int)
    requires
        0 <= i <= s.len(),
        forall|j: int| 0 <= j < i ==> s[j] == 0,
    ensures
        be_val(s) == be_val(s.subrange(i, s.len() as int)),
    decreases i,
{
    if i > 0 {
        lemma_be_val_drop_first_zero(s);
        let t = s.subrange(1, s.len() as int);
        lemma_be_val_skip_zeros(t, i - 1);
        assert(t.subrange(i - 1, t.len() as int) =~= s.subrange(i, s.len() as int));
    } else {
        assert(s.subrange(0, s.len() as int) =~= s);
    }
}

/// A byte string of length `n` encodes a value below `256^n`.
pub proof fn lemma_be_val_upper(s: Seq<u8>)
    ensures
        be_val(s) < pow(256, s.len()),
    decreases s.len(),
{
    reveal(pow);
    if s.len() == 0 {
    } else {
        lemma_be_val_upper(s.drop_last());
        assert(pow(256, s.len()) == 256 * pow(256, (s.len() - 1) as nat));
        assert(be_val(s.drop_last()) * 256 + s.last() < pow(256, s.len())) by {
            assert(be_val(s.drop_last()) <= pow(256, (s.len() - 1) as nat) - 1);
            assert(be_val(s.drop_last()) * 256 <= (pow(256, (s.len() - 1) as nat) - 1) * 256)
                by (nonlinear_arith)
                requires
                    be_val(s.drop_last()) <= pow(256, (s.len() - 1) as nat) - 1,
            ;
        }
    }
}

/// A canonical byte string whose first byte is non-zero encodes a value
/// of at least `256^(n-1)`.
pub proof fn lemma_be_val_lower(s: Seq<u8>)
    requires
        s.len() >= 1,
        s[0] != 0,
    ensures
        be_val(s) >= pow(256, (s.len() - 1) as nat),
    decreases s.len(),
{
    reveal(pow);
    if s.len() == 1 {
        assert(s.drop_last() =~= Seq::<u8>::empty());
        assert(be_val(Seq::<u8>::empty()) == 0);
        assert(be_val(s) == be_val(s.drop_last()) * 256 + s.last() as nat);
        assert(be_val(s) == s[0]);
    } else {
        let t = s.drop_last();
        lemma_be_val_lower(t);
        assert(pow(256, (s.len() - 1) as nat) == 256 * pow(256, (s.len() - 2) as nat));
        assert(be_val(t) * 256 >= pow(256, (s.len() - 2) as nat) * 256) by (nonlinear_arith)
            requires
                be_val(t) >= pow(256, (s.len() - 2) as nat),
        ;
    }
}

/// Two byte strings of equal length with the same value are identical.
proof fn lemma_be_val_injective_same_len(s: Seq<u8>, t: Seq<u8>)
    requires
        s.len() == t.len(),
        be_val(s) == be_val(t),
    ensures
        s =~= t,
    decreases s.len(),
{
    if s.len() > 0 {
        let a = be_val(s.drop_last());
        let b = be_val(t.drop_last());
        lemma_fundamental_div_mod_converse(be_val(s) as int, 256, a as int, s.last() as int);
        lemma_fundamental_div_mod_converse(be_val(t) as int, 256, b as int, t.last() as int);
        assert(s.last() == be_val(s) % 256 && t.last() == be_val(t) % 256);
        assert(a == be_val(s) / 256 && b == be_val(t) / 256);
        lemma_be_val_injective_same_len(s.drop_last(), t.drop_last());
        assert(s =~= s.drop_last().push(s.last()));
        assert(t =~= t.drop_last().push(t.last()));
    }
}

/// The canonical encoding of a value is unique: two well-formed `BigNum`s
/// with the same value hold the same bytes.
pub proof fn lemma_canonical_injective(s: Seq<u8>, t: Seq<u8>)
    requires
        canonical(s),
        canonical(t),
        be_val(s) == be_val(t),
    ensures
        s =~= t,
{
    if s.len() < t.len() {
        lemma_canonical_len_ordered(s, t);
    } else if t.len() < s.len() {
        lemma_canonical_len_ordered(t, s);
    } else {
        lemma_be_val_injective_same_len(s, t);
    }
}

/// Of two canonical encodings, the strictly shorter one encodes the
/// strictly smaller value.
proof fn lemma_canonical_len_ordered(s: Seq<u8>, t: Seq<u8>)
    requires
        canonical(s),
        canonical(t),
        s.len() < t.len(),
    ensures
        be_val(s) < be_val(t),
{
    lemma_be_val_upper(s);
    assert(t.len() >= 2);
    lemma_be_val_lower(t);
    lemma_pow_increases(256, s.len(), (t.len() - 1) as nat);
}

// ---------------------------------------------------------------------------
// Trusted wrappers around the external bignum library.
//
// Each wrapper converts its arguments to `num_bigint::BigUint` values via the
// big-endian byte encoding, makes one library call, and converts the result
// back. `BigUint::from_bytes_be` accepts any padding, and `to_bytes_be`
// returns the minimal big-endian bytes (the single byte `0` for zero), so the
// results are canonical.
// ---------------------------------------------------------------------------

/// Relies on `num_bigint`'s `Mul` for `BigUint`: the product of the values.
#[verifier::external_body]
pub(crate) fn big_mul(a: &BigNum, b: &BigNum) -> (r: BigNum)
    ensures
        r.wf(),
        r@ == a@ * b@,
{
    let x = num_bigint::BigUint::from_bytes_be(&a.bytes);
    let y = num_bigint::BigUint::from_bytes_be(&b.bytes);
    BigNum { bytes: (x * y).to_bytes_be() }
}

/// Relies on `num_bigint`'s `Div` for `BigUint`: the quotient, rounded down.
/// Division by zero panics there, so it is excluded here.
#[verifier::external_body]
pub(crate) fn big_div(a: &BigNum, d: &BigNum) -> (r: BigNum)
    requires
        d@ > 0,
    ensures
        r.wf(),
        r@ == a@ / d@,
{
    let x = num_bigint::BigUint::from_bytes_be(&a.bytes);
    let y = num_bigint::BigUint::from_bytes_be(&d.bytes);
    BigNum { bytes: (x / y).to_bytes_be() }
}

/// Relies on `num_bigint`'s `Rem` for `BigUint`: the remainder of division.
/// Division by zero panics there, so it is excluded here.
#[verifier::external_body]
pub(crate) fn big_rem(a: &BigNum, m: &BigNum) -> (r: BigNum)
    requires
        m@ > 0,
    ensures
        r.wf(),
        r@ == a@ % m@,
{
    let x = num_bigint::BigUint::from_bytes_be(&a.bytes);
    let y = num_bigint::BigUint::from_bytes_be(&m.bytes);
    BigNum { bytes: (x % y).to_bytes_be() }
}

/// Relies on `BigUint::modpow`, documented as `(self ^ exponent) % modulus`,
/// which panics exactly when the modulus is zero.
#[verifier::external_body]
pub(crate) fn big_modpow(b: &BigNum, e: &BigNum, m: &BigNum) -> (r: BigNum)
    requires
        m@ > 0,
    ensures
        r.wf(),
        r@ == pow(b@ as int, e@) % (m@ as int),
{
    let base = num_bigint::BigUint::from_bytes_be(&b.bytes);
    let exp = num_bigint::BigUint::from_bytes_be(&e.bytes);
    let modulus = num_bigint::BigUint::from_bytes_be(&m.bytes);
    BigNum { bytes: base.modpow(&exp, &modulus).to_bytes_be() }
}

/// Relies on `num_integer::Integer::gcd` for `BigUint`: the greatest common
/// divisor, with `gcd(x, 0) == gcd(0, x) == x`.
#[verifier::external_body]
pub(crate) fn big_gcd(a: &BigNum, b: &BigNum) -> (r: BigNum)
    ensures
        r.wf(),
        r@ == gcd_nat(a@, b@),
{
    let x = num_bigint::BigUint::from_bytes_be(&a.bytes);
    let y = num_bigint::BigUint::from_bytes_be(&b.bytes);
    BigNum { bytes: num_integer::Integer::gcd(&x, &y).to_bytes_be() }
}

/// Relies on `num_bigint`'s `Ord` for `BigUint`, which orders by numeric
/// value.
#[verifier::external_body]
pub(crate) fn big_lt(a: &BigNum, b: &BigNum) -> (r: bool)
    ensures
        r == (a@ < b@),
{
    let x = num_bigint::BigUint::from_bytes_be(&a.bytes);
    let y = num_bigint::BigUint::from_bytes_be(&b.bytes);
    x < y
}

/// Relies on `num_bigint`'s `Eq` for `BigUint`, which compares numeric
/// values.
#[verifier::external_body]
pub(crate) fn big_eq(a: &BigNum, b: &BigNum) -> (r: bool)
    ensures
        r == (a@ == b@),
{
    let x = num_bigint::BigUint::from_bytes_be(&a.bytes);
    let y = num_bigint::BigUint::from_bytes_be(&b.bytes);
    x == y
}

/// The greatest common divisor, by Euclid's recurrence.
pub open spec fn gcd_nat(a: nat, b: nat) -> nat
    decreases b,
{
    if b == 0 {
        a
    } else {
        gcd_nat(b, a % b)
    }
}

} // verus!
