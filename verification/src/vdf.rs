//! The verifiable delay function: sequential squaring, Wesolowski-style
//! proof construction, and verification.
//!
//! A session squares a base `g` modulo an RSA integer `N` until either a
//! prime cap arrives or an iteration bound is reached, and then builds a
//! short proof `pi` that anyone can check in time logarithmic in the number
//! of squarings.

use vstd::prelude::*;

verus! {

use vstd::arithmetic::power::{
    pow,
    lemma_pow0,
    lemma_pow1,
    lemma_pow_adds,
    lemma_pow_multiplies,
    lemma_pow_mod_noop,
    lemma_pow_positive,
    lemma_square_is_pow2,
};
use vstd::arithmetic::div_mod::{
    lemma_fundamental_div_mod,
    lemma_fundamental_div_mod_converse,
    lemma_mul_mod_noop,
};
use crate::bignum::{BigNum, big_mul, big_div, big_rem, big_modpow, big_gcd, big_lt, big_eq,
    gcd_nat};

/// Returned when the cap a peer supplied fails the safe-prime test.
#[derive(Debug, PartialEq, Eq, Structural)]
pub struct InvalidCapError;

/// `2^t`.
pub open spec fn pow2n(t: nat) -> nat {
    pow(2, t) as nat
}

/// The value reached after `t` sequential squarings of `g` modulo `n`:
/// `g^(2^t) mod n`.
pub open spec fn session_output(n: nat, g: nat, t: nat) -> nat {
    (pow(g as int, pow2n(t)) % (n as int)) as nat
}

/// The Wesolowski proof for `t` squarings of `g` modulo `n` under the cap
/// `l`: `g^(2^t / l) mod n`, with the exponent rounded down.
pub open spec fn wesolowski_pi(n: nat, g: nat, t: nat, l: nat) -> nat {
    (pow(g as int, pow2n(t) / l) % (n as int)) as nat
}

/// The output of the squaring loop, still to be proved.
#[derive(Debug, Clone)]
pub struct VDFResult {
    pub result: BigNum,
    pub iterations: usize,
}

impl PartialEq for VDFResult {
    fn eq(&self, other: &Self) -> (r: bool) {
        self.result == other.result && self.iterations == other.iterations
    }
}

impl vstd::std_specs::cmp::PartialEqSpecImpl for VDFResult {
    open spec fn obeys_eq_spec() -> bool {
        true
    }

    open spec fn eq_spec(&self, other: &Self) -> bool {
        self.result.bytes@ =~= other.result.bytes@ && self.iterations == other.iterations
    }
}

impl Eq for VDFResult {}

/// Results order by their iteration count alone, so peers can compare how
/// far two sessions ran; equality still compares both fields.
impl PartialOrd for VDFResult {
    fn partial_cmp(&self, other: &Self) -> (r: Option<core::cmp::Ordering>) {
        if self.iterations < other.iterations {
            Some(core::cmp::Ordering::Less)
        } else if self.iterations == other.iterations {
            Some(core::cmp::Ordering::Equal)
        } else {
            Some(core::cmp::Ordering::Greater)
        }
    }
}

impl vstd::std_specs::cmp::PartialOrdSpecImpl for VDFResult {
    open spec fn obeys_partial_cmp_spec() -> bool {
        true
    }

    open spec fn partial_cmp_spec(&self, other: &Self) -> Option<core::cmp::Ordering> {
        if self.iterations < other.iterations {
            Some(core::cmp::Ordering::Less)
        } else if self.iterations == other.iterations {
            Some(core::cmp::Ordering::Equal)
        } else {
            Some(core::cmp::Ordering::Greater)
        }
    }
}

impl VDFResult {
    pub open spec fn wf(&self) -> bool {
        self.result.wf()
    }
}

/// A finished proof, passed between peers: `output.result` claims to be
/// `base^(2^iterations) mod modulus`, and `pi` backs the claim under `cap`.
#[derive(Debug, Clone)]
pub struct VDFProof {
    pub modulus: BigNum,
    pub base: BigNum,
    pub output: VDFResult,
    pub cap: BigNum,
    pub pi: BigNum,
}

impl PartialEq for VDFProof {
    fn eq(&self, other: &Self) -> (r: bool) {
        self.output == other.output && self.pi == other.pi && self.modulus == other.modulus
            && self.base == other.base && self.cap == other.cap
    }
}

impl vstd::std_specs::cmp::PartialEqSpecImpl for VDFProof {
    open spec fn obeys_eq_spec() -> bool {
        true
    }

    open spec fn eq_spec(&self, other: &Self) -> bool {
        &&& self.output.result.bytes@ =~= other.output.result.bytes@
        &&& self.output.iterations == other.output.iterations
        &&& self.pi.bytes@ =~= other.pi.bytes@
        &&& self.modulus.bytes@ =~= other.modulus.bytes@
        &&& self.base.bytes@ =~= other.base.bytes@
        &&& self.cap.bytes@ =~= other.cap.bytes@
    }
}

impl Eq for VDFProof {}

/// The verification equation: with `r = t^2 mod l`, the claimed
/// output must equal `pi^l * g^r (mod n)`.
pub open spec fn verify_equation(n: nat, g: nat, y: nat, t: nat, l: nat, pi: nat) -> bool {
    y as int == ((pow(pi as int, l) % (n as int)) * (pow(g as int, ((t * t) % l) as nat) % (
    n as int))) % (n as int)
}

/// Everything `verify` checks: non-zero modulus and cap, the structural
/// bound `pi < modulus`, and the verification equation.
pub open spec fn verifies_spec(p: VDFProof) -> bool {
    &&& p.modulus@ >= 1
    &&& p.cap@ >= 1
    &&& p.pi@ < p.modulus@
    &&& verify_equation(p.modulus@, p.base@, p.output.result@, p.output.iterations as nat, p.cap@,
        p.pi@)
}

impl VDFProof {
    pub open spec fn wf(&self) -> bool {
        &&& self.modulus.wf()
        &&& self.base.wf()
        &&& self.output.wf()
        &&& self.cap.wf()
        &&& self.pi.wf()
    }

    /// Builds the Wesolowski proof `pi = base^(2^iterations / cap) mod
    /// modulus` incrementally: `r` tracks the remainder `2^i mod cap` and
    /// each step feeds the next quotient bit `b` into `pi`.
    pub fn new(modulus: &BigNum, base: &BigNum, result: &VDFResult, cap: &BigNum) -> (p: VDFProof)
        requires
            modulus.wf(),
            base.wf(),
            result.wf(),
            cap.wf(),
            modulus@ >= 2,
            cap@ >= 2,
        ensures
            p.wf(),
            p.modulus.bytes@ =~= modulus.bytes@,
            p.base.bytes@ =~= base.bytes@,
            p.output.result.bytes@ =~= result.result.bytes@,
            p.output.iterations == result.iterations,
            p.cap.bytes@ =~= cap.bytes@,
            p.pi@ == wesolowski_pi(modulus@, base@, result.iterations as nat, cap@),
            p.pi@ < modulus@,
    {
        let two = BigNum::from_u64(2);
        let mut pi = BigNum::from_u64(1);
        let mut r = BigNum::from_u64(1);
        let ghost n = modulus@ as int;
        let ghost g = base@ as int;
        let ghost l = cap@ as int;
        let ghost mut q: nat = 0;
        let t = result.iterations;
        proof {
            lemma_pow0(2);
            lemma_pow0(g);
            vstd::arithmetic::div_mod::lemma_small_mod(1, modulus@);
        }
        let mut i: usize = 0;
        while i < t
            invariant
                two@ == 2,
                modulus@ >= 2,
                cap@ >= 2,
                n == modulus@ as int,
                g == base@ as int,
                l == cap@ as int,
                i <= t,
                pi.wf(),
                r.wf(),
                r@ < cap@,
                pow(2, i as nat) == q * cap@ + r@,
                pi@ as int == pow(g, q) % n,
            decreases t - i,
        {
            let doubled = big_mul(&two, &r);
            let b = big_div(&doubled, cap);
            let r2 = big_rem(&doubled, cap);
            let p1 = big_modpow(&pi, &two, modulus);
            let p2 = big_modpow(base, &b, modulus);
            let p3 = big_mul(&p1, &p2);
            let pi2 = big_rem(&p3, modulus);
            proof {
                // The next power of two splits as (2q + b) * l + r2.
                lemma_fundamental_div_mod(doubled@ as int, l);
                lemma_pow1(2);
                lemma_pow_adds(2, i as nat, 1);
                assert(2 * (q * l + r@) == (2 * q + b@) * l + r2@) by (nonlinear_arith)
                    requires
                        2 * r@ == b@ * l + r2@,
                ;
                // pi^2 * g^b mod n advances the accumulated power of g.
                lemma_pow_mod_noop(pow(g, q), 2, n);
                lemma_pow_multiplies(g, q, 2);
                lemma_mul_mod_noop(pow(g, 2 * q), pow(g, b@), n);
                lemma_pow_adds(g, 2 * q, b@);
                assert(q * 2 == 2 * q);
                assert(pi2@ as int == pow(g, 2 * q + b@) % n);
                q = 2 * q + b@;
            }
            pi = pi2;
            r = r2;
            i = i + 1;
        }
        proof {
            lemma_pow_positive(2, t as nat);
            lemma_fundamental_div_mod_converse(pow(2, t as nat), l, q as int, r@ as int);
            assert(q == pow2n(t as nat) / cap@);
        }
        VDFProof {
            modulus: modulus.duplicate(),
            base: base.duplicate(),
            output: VDFResult { result: result.result.duplicate(), iterations: result.iterations },
            cap: cap.duplicate(),
            pi,
        }
    }

    /// Checks the proof: rejects a zero modulus or cap, a `pi` that is not
    /// strictly below the modulus (a `pi` of exactly `N` would let the
    /// residue 0 pass), and any output that fails the verification equation.
    /// A zero base needs no test of its own here: `validate` rejects it,
    /// since `gcd(N, 0) = N != 1`.
    pub fn verify(&self) -> (r: bool)
        ensures
            r == verifies_spec(*self),
    {
        let zero = BigNum::from_u64(0);
        if big_eq(&self.modulus, &zero) {
            return false;
        }
        if big_eq(&self.cap, &zero) {
            return false;
        }
        if !big_lt(&self.pi, &self.modulus) {
            return false;
        }
        let two = BigNum::from_u64(2);
        let t_num = BigNum::from_u64(self.output.iterations as u64);
        let r_exp = big_modpow(&t_num, &two, &self.cap);
        let lhs = big_modpow(&self.pi, &self.cap, &self.modulus);
        let rhs_g = big_modpow(&self.base, &r_exp, &self.modulus);
        let prod = big_mul(&lhs, &rhs_g);
        let rhs = big_rem(&prod, &self.modulus);
        proof {
            lemma_square_is_pow2(self.output.iterations as int);
        }
        big_eq(&self.output.result, &rhs)
    }

    /// The structural gcd check, kept apart from `verify` so that
    /// callers sharing a modulus can amortise it: the proof is structurally
    /// valid iff `gcd(N, g) = 1` and `gcd(N, l) = 1`.
    pub fn validate(&self) -> (r: bool)
        ensures
            r == (gcd_nat(self.modulus@, self.base@) == 1 && gcd_nat(self.modulus@, self.cap@)
                == 1),
    {
        let one = BigNum::from_u64(1);
        let g1 = big_gcd(&self.modulus, &self.base);
        let g2 = big_gcd(&self.modulus, &self.cap);
        let r1 = big_eq(&g1, &one);
        let r2 = big_eq(&g2, &one);
        r1 && r2
    }

    /// How many iterations two proofs are apart.
    pub fn abs_difference(&self, other: &VDFProof) -> (d: usize)
        ensures
            d == (if self.output.iterations >= other.output.iterations {
                self.output.iterations - other.output.iterations
            } else {
                other.output.iterations - self.output.iterations
            }),
    {
        if self.output > other.output {
            self.output.iterations - other.output.iterations
        } else {
            other.output.iterations - self.output.iterations
        }
    }
}

// ---------------------------------------------------------------------------
// Safe-prime utilities, behind trusted wrappers.
// ---------------------------------------------------------------------------

/// Relies on `glass_pumpkin::safe_prime::new`: for a bit length of at least
/// 128 it returns an odd (probable) safe prime of exactly `bits` bits; a
/// smaller bit length is reported as an error, which the precondition rules
/// out. The result is drawn from the operating system's randomness, so
/// nothing relates two calls.
#[verifier::external_body]
pub(crate) fn generate_safe_prime(bits: usize) -> (r: BigNum)
    requires
        128 <= bits,
    ensures
        r.wf(),
        r@ % 2 == 1,
        pow(2, (bits - 1) as nat) <= r@ < pow(2, bits as nat),
{
    let p = glass_pumpkin::safe_prime::new(bits).unwrap();
    BigNum { bytes: p.to_bytes_be() }
}

/// No integer strictly between 1 and `n` divides `n`.
pub open spec fn is_prime(n: nat) -> bool {
    n >= 2 && forall|d: nat| 1 < d < n ==> #[trigger] (n % d) != 0
}

/// A prime whose half `(n - 1) / 2` is prime as well.
pub open spec fn is_safe_prime(n: nat) -> bool {
    is_prime(n) && is_prime(((n - 1) / 2) as nat)
}

/// Relies on `glass_pumpkin::safe_prime::check`: a randomized safe-primality
/// test. Two things hold of every run, and no more is assumed. It accepts
/// only candidates congruent to 2 modulo 3 — its first gate, and every safe
/// prime but 7 lies in that class. And it never rejects a true safe prime of
/// that class: trial division returns early when the candidate is itself a
/// listed prime, the elimination of halves fires only on a listed divisor of
/// the candidate, and the Fermat and Miller-Rabin rounds accept any prime
/// whatever bases the randomness supplies. The verdict on composites
/// congruent to 2 modulo 3 is randomized and stays open.
#[verifier::external_body]
pub(crate) fn check_safe_prime(n: &BigNum) -> (r: bool)
    ensures
        r ==> n@ % 3 == 2,
        is_safe_prime(n@) && n@ % 3 == 2 ==> r,
{
    glass_pumpkin::safe_prime::check(&num_bigint::BigUint::from_bytes_be(&n.bytes))
}

/// Every safe prime other than 7 is congruent to 2 modulo 3: a prime
/// divisible by 3 is 3 itself, whose half is 1, not a prime; and a prime
/// congruent to 1 modulo 3 has a half divisible by 3, forcing the half to
/// be 3 and the prime to be 7.
proof fn lemma_safe_prime_residue(p: nat)
    requires
        is_safe_prime(p),
        p != 7,
    ensures
        p % 3 == 2,
{
    let q = ((p - 1) / 2) as nat;
    if p == 2 {
        assert(!is_prime(q));
    }
    assert(p % 2 != 0 || p <= 2);
    vstd::arithmetic::div_mod::lemma_fundamental_div_mod((p - 1) as int, 2);
    assert(p == 2 * q + 1);
    if p % 3 == 0 {
        if p > 3 {
            assert(p % 3 != 0);
        }
        assert(p == 3);
        assert(!is_prime(q));
    }
    if p % 3 == 1 {
        vstd::arithmetic::div_mod::lemma_fundamental_div_mod(p as int, 3);
        assert(p - 1 == 3 * (p as int / 3));
        vstd::arithmetic::div_mod::lemma_mod_multiples_vanish(p as int / 3, 0, 3);
        assert((2 * q) % 3 == 0);
        vstd::arithmetic::div_mod::lemma_fundamental_div_mod(q as int, 3);
        vstd::arithmetic::div_mod::lemma_mod_multiples_vanish(
            2 * (q as int / 3),
            2 * (q as int % 3),
            3,
        );
        assert((2 * q) % 3 == (2 * (q as int % 3)) % 3);
        assert(q % 3 == 0);
        if q > 3 {
            assert(q % 3 != 0);
        }
        assert(q == 3);
    }
}

// ---------------------------------------------------------------------------
// The prover session.
// ---------------------------------------------------------------------------

/// A VDF session: the group parameters, the iteration bound, and an optional
/// preinstalled cap (`cap` zero means none).
#[derive(Debug, Clone)]
pub struct VDF {
    pub modulus: BigNum,
    pub base: BigNum,
    pub upper_bound: usize,
    pub cap: BigNum,
}

/// A proof emitted for session parameters `(n, g)` after `t` squarings under
/// cap `l`: every field is pinned to the mathematical model.
pub open spec fn proof_matches(p: VDFProof, n: nat, g: nat, t: nat, l: nat) -> bool {
    &&& p.wf()
    &&& p.modulus@ == n
    &&& p.base@ == g
    &&& p.output.iterations as nat == t
    &&& p.output.result@ == session_output(n, g, t)
    &&& p.cap@ == l
    &&& p.pi@ == wesolowski_pi(n, g, t, l)
    &&& p.pi@ < n
}

impl VDF {
    pub open spec fn wf(&self) -> bool {
        &&& self.modulus.wf()
        &&& self.base.wf()
        &&& self.cap.wf()
    }

    /// A session with no preinstalled cap.
    pub fn new(modulus: BigNum, base: BigNum, upper_bound: usize) -> (v: VDF)
        ensures
            v.modulus == modulus,
            v.base == base,
            v.upper_bound == upper_bound,
            v.cap@ == 0,
            v.cap.wf(),
    {
        VDF { modulus, base, upper_bound, cap: BigNum::from_u64(0) }
    }

    /// Preinstalls a cap, used when the bound is reached before a peer sends
    /// one.
    pub fn with_cap(self, cap: BigNum) -> (v: VDF)
        ensures
            v.modulus == self.modulus,
            v.base == self.base,
            v.upper_bound == self.upper_bound,
            v.cap == cap,
    {
        VDF { modulus: self.modulus, base: self.base, upper_bound: self.upper_bound, cap }
    }

    /// Starts the squaring loop: the running value is the base and no
    /// iteration has happened yet.
    pub fn start(self) -> (w: WorkerState)
        requires
            self.wf(),
            self.modulus@ >= 2,
        ensures
            w.vdf == self,
            w.iterations == 0,
            w.inv(),
    {
        let result = self.base.duplicate();
        WorkerState { vdf: self, result, iterations: 0 }
    }

    /// Runs the session to its iteration bound with no peer involved: the
    /// caller either preinstalled a cap or accepts a freshly generated one.
    /// Exactly one outcome is produced; an `InvalidCapError` can only arise
    /// from a preinstalled cap, is certain when that cap is outside the
    /// residue class 2 mod 3 (7 excepted) or not coprime to the modulus,
    /// and never happens when it is a safe prime coprime to the modulus.
    pub fn run(self) -> (r: Result<VDFProof, InvalidCapError>)
        requires
            self.wf(),
            self.modulus@ >= 2,
            self.upper_bound >= 1,
        ensures
            r matches Ok(p) ==> proof_matches(
                p,
                self.modulus@,
                self.base@,
                self.upper_bound as nat,
                p.cap@,
            ) && (self.cap@ != 0 ==> p.cap@ == self.cap@) && (self.cap@ == 0 ==> p.cap@ % 2 == 1
                && pow(2, 127) <= p.cap@ < pow(2, 128)),
            self.cap@ == 0 ==> r is Ok,
            self.cap@ != 0 && cap_certainly_rejected(self.modulus@, self.cap@) ==> r is Err,
            self.cap@ != 0 && cap_certainly_accepted(self.modulus@, self.cap@) ==> r is Ok,
            r is Err ==> self.cap@ != 0,
    {
        let ghost this = self;
        let mut w = self.start();
        loop
            invariant
                this == self,
                w.inv(),
                w.vdf == this,
                this.upper_bound >= 1,
                w.iterations < this.upper_bound,
            decreases this.upper_bound - w.iterations,
        {
            let stepped = w.step(None);
            match stepped {
                Some(res) => {
                    return res;
                },
                None => {},
            }
        }
    }
}

/// The state of a running session: the session parameters, the current
/// value, and how many squarings have been completed.
#[derive(Debug, Clone)]
pub struct WorkerState {
    pub vdf: VDF,
    pub result: BigNum,
    pub iterations: usize,
}

/// A supplied cap the worker is certain to turn away: one outside the
/// residue class 2 mod 3 — which holds every safe prime but 7, and 7 is
/// accepted before the outside test — or one sharing a factor with the
/// modulus. 0, 1 and 9 all fall here.
pub open spec fn cap_certainly_rejected(n: nat, l: nat) -> bool {
    (l % 3 != 2 && l != 7) || gcd_nat(n, l) != 1
}

/// A supplied cap the worker is certain to accept: a true safe prime
/// coprime to the modulus.
pub open spec fn cap_certainly_accepted(n: nat, l: nat) -> bool {
    is_safe_prime(l) && gcd_nat(n, l) == 1
}

/// What one call of `step` may hand back, given the session, the iteration
/// count `t1` just completed, and the cap message polled this round:
/// - the bound is reached with no preinstalled cap: a proof under a fresh
///   odd 128-bit cap, emitted without further tests, as the algorithm
///   prescribes for a cap the worker generated itself;
/// - the bound is reached with a preinstalled cap: a proof under that cap,
///   or `InvalidCapError` when the cap is rejected;
/// - a cap arrived early: likewise under the received cap;
/// - otherwise the loop continues and nothing is emitted.
///
/// Only composites congruent to 2 modulo 3 are left to the randomized
/// safe-prime test's discretion: every true safe prime coprime to the
/// modulus certainly yields a proof, and every cap outside that residue
/// class (7 aside) or sharing a factor with the modulus certainly yields
/// `InvalidCapError`.
pub open spec fn step_outcome(
    vdf: VDF,
    t1: nat,
    cap_msg: Option<BigNum>,
    r: Option<Result<VDFProof, InvalidCapError>>,
) -> bool {
    &&& ((t1 == vdf.upper_bound as nat || cap_msg is Some) <==> r is Some)
    &&& (t1 == vdf.upper_bound as nat && vdf.cap@ == 0 ==> (r matches Some(Ok(p))
        && proof_matches(p, vdf.modulus@, vdf.base@, t1, p.cap@) && p.cap@ % 2 == 1 && pow(2, 127)
        <= p.cap@ < pow(2, 128)))
    &&& (t1 == vdf.upper_bound as nat && vdf.cap@ != 0 ==> (r matches Some(Ok(p))
        ==> proof_matches(p, vdf.modulus@, vdf.base@, t1, vdf.cap@)))
    &&& (t1 == vdf.upper_bound as nat && vdf.cap@ != 0 && cap_certainly_rejected(vdf.modulus@,
    vdf.cap@) ==> (r matches Some(Err(_))))
    &&& (t1 == vdf.upper_bound as nat && vdf.cap@ != 0 && cap_certainly_accepted(vdf.modulus@,
    vdf.cap@) ==> (r matches Some(Ok(_))))
    &&& (t1 < vdf.upper_bound as nat ==> (cap_msg matches Some(c) ==> (r matches Some(Ok(p))
        ==> proof_matches(p, vdf.modulus@, vdf.base@, t1, c@))))
    &&& (t1 < vdf.upper_bound as nat ==> (cap_msg matches Some(c) ==> (cap_certainly_rejected(
        vdf.modulus@,
        c@,
    ) ==> (r matches Some(Err(_))))))
    &&& (t1 < vdf.upper_bound as nat ==> (cap_msg matches Some(c) ==> (cap_certainly_accepted(
        vdf.modulus@,
        c@,
    ) ==> (r matches Some(Ok(_))))))
}

impl WorkerState {
    /// Holds between any two steps of the loop: the running value is the
    /// base before the first squaring and `base^(2^iterations) mod modulus`
    /// afterwards.
    pub open spec fn inv(&self) -> bool {
        &&& self.vdf.wf()
        &&& self.result.wf()
        &&& self.vdf.modulus@ >= 2
        &&& self.iterations <= self.vdf.upper_bound
        &&& (if self.iterations == 0 {
            self.result@ == self.vdf.base@
        } else {
            self.result@ == session_output(self.vdf.modulus@, self.vdf.base@,
            self.iterations as nat)
        })
    }

    /// One turn of the worker loop: square the running value, count
    /// the iteration, then either finish — because the bound is reached or a
    /// cap was polled — or carry on. The bound is checked first, so both
    /// firing at once resolves to the bound.
    pub fn step(&mut self, cap_msg: Option<BigNum>) -> (r: Option<
        Result<VDFProof, InvalidCapError>,
    >)
        requires
            old(self).inv(),
            old(self).iterations < old(self).vdf.upper_bound,
            cap_msg matches Some(c) ==> c.wf(),
        ensures
            final(self).inv(),
            final(self).vdf == old(self).vdf,
            final(self).iterations == old(self).iterations + 1,
            step_outcome(old(self).vdf, (old(self).iterations + 1) as nat, cap_msg, r),
    {
        let two = BigNum::from_u64(2);
        let ghost n = self.vdf.modulus@;
        let ghost g = self.vdf.base@;
        let ghost t0 = self.iterations as nat;
        let y2 = big_modpow(&self.result, &two, &self.vdf.modulus);
        proof {
            lemma_session_step(n, g, t0, self.result@);
        }
        self.result = y2;
        self.iterations = self.iterations + 1;
        let t1 = self.iterations;
        proof {
            lemma_pow_127_cap_bounds();
        }
        if t1 == self.vdf.upper_bound {
            let vdf_result = VDFResult { result: self.result.duplicate(), iterations: t1 };
            let zero = BigNum::from_u64(0);
            if big_eq(&self.vdf.cap, &zero) {
                let fresh = generate_safe_prime(128);
                Some(Ok(VDFProof::new(&self.vdf.modulus, &self.vdf.base, &vdf_result, &fresh)))
            } else {
                let ok = accept_cap(&self.vdf.cap);
                let cap_copy = self.vdf.cap.duplicate();
                Some(finalize(&self.vdf, &vdf_result, &cap_copy, ok))
            }
        } else {
            match cap_msg {
                Some(c) => {
                    let ok = accept_cap(&c);
                    let vdf_result = VDFResult { result: self.result.duplicate(), iterations: t1 };
                    Some(finalize(&self.vdf, &vdf_result, &c, ok))
                },
                None => None,
            }
        }
    }
}

/// The worker's safe-primality verdict on a supplied cap: 7 — the one safe
/// prime not congruent to 2 modulo 3, which the outside test's first gate
/// would turn away — is accepted outright; every other cap is put to the
/// outside test. So a true safe prime is always accepted, a cap outside
/// the residue class is always rejected, and only composites congruent to
/// 2 modulo 3 are left to the randomized test.
fn accept_cap(cap: &BigNum) -> (r: bool)
    ensures
        r ==> cap@ >= 2,
        is_safe_prime(cap@) ==> r,
        cap@ % 3 != 2 && cap@ != 7 ==> !r,
{
    let seven = BigNum::from_u64(7);
    if big_eq(cap, &seven) {
        return true;
    }
    proof {
        if is_safe_prime(cap@) {
            lemma_safe_prime_residue(cap@);
        }
    }
    check_safe_prime(cap)
}

/// Ends a session over an already-computed output: builds the proof when
/// the cap passed the safe-prime test (`cap_ok`) and is coprime to the
/// modulus, and reports `InvalidCapError` otherwise — a cap failing either
/// condition is invalid, and a cap of 0 or 1 already fails the first.
/// Taking the test's verdict as an argument pins down exactly what is
/// emitted for each verdict.
pub fn finalize(vdf: &VDF, result: &VDFResult, cap: &BigNum, cap_ok: bool) -> (r: Result<
    VDFProof,
    InvalidCapError,
>)
    requires
        vdf.wf(),
        result.wf(),
        cap.wf(),
        vdf.modulus@ >= 2,
        cap_ok ==> cap@ >= 2,
    ensures
        cap_ok && gcd_nat(vdf.modulus@, cap@) == 1 ==> (r matches Ok(p) && p.wf() && p.modulus@
            == vdf.modulus@ && p.base@ == vdf.base@ && p.output.result@ == result.result@
            && p.output.iterations == result.iterations && p.cap@ == cap@ && p.pi@
            == wesolowski_pi(vdf.modulus@, vdf.base@, result.iterations as nat, cap@) && p.pi@
            < vdf.modulus@),
        !cap_ok || gcd_nat(vdf.modulus@, cap@) != 1 ==> r is Err,
{
    if !cap_ok {
        return Err(InvalidCapError);
    }
    let one = BigNum::from_u64(1);
    let shared = big_gcd(&vdf.modulus, cap);
    if !big_eq(&shared, &one) {
        return Err(InvalidCapError);
    }
    Ok(VDFProof::new(&vdf.modulus, &vdf.base, result, cap))
}

/// Squaring advances the session output by one step: for the value `y`
/// reached after `t` squarings, `y^2 mod n` is the value after `t + 1`.
proof fn lemma_session_step(n: nat, g: nat, t: nat, y: nat)
    requires
        n >= 2,
        y == (if t == 0 {
            g
        } else {
            session_output(n, g, t)
        }),
    ensures
        (pow(y as int, 2) % (n as int)) as nat == session_output(n, g, (t + 1) as nat),
{
    let ni = n as int;
    let gi = g as int;
    lemma_pow1(2);
    lemma_pow_adds(2, t, 1);
    lemma_pow_positive(2, t);
    lemma_pow_positive(2, (t + 1) as nat);
    assert(pow(2, (t + 1) as nat) == pow(2, t) * 2);
    assert(pow2n((t + 1) as nat) == pow2n(t) * 2);
    if t == 0 {
        lemma_pow0(2);
        assert(pow2n(0) == 1);
        lemma_pow1(gi);
        lemma_pow_multiplies(gi, 1, 2);
        assert(pow(pow(gi, 1), 2) == pow(gi, 2));
        assert(pow(y as int, 2) == pow(gi, pow2n(1)));
    } else {
        lemma_pow_mod_noop(pow(gi, pow2n(t)), 2, ni);
        lemma_pow_multiplies(gi, pow2n(t), 2);
        assert(pow(pow(gi, pow2n(t)), 2) == pow(gi, pow2n(t) * 2));
    }
}

/// `2^127` is large enough to bound a fresh cap away from the small cases
/// the proof constructor excludes.
proof fn lemma_pow_127_cap_bounds()
    ensures
        pow(2, 127) >= 2,
{
    lemma_pow1(2);
    vstd::arithmetic::power::lemma_pow_increases(2, 1, 127);
}

} // verus!
