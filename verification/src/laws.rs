//! The algebraic guarantees of the engine, stated and proved once over the
//! mathematical model that the executable contracts use.

use vstd::prelude::*;

verus! {

use vstd::arithmetic::power::{
    pow,
    lemma_pow_adds,
    lemma_pow_multiplies,
    lemma_pow_mod_noop,
};
use vstd::arithmetic::div_mod::{lemma_fundamental_div_mod, lemma_mul_mod_noop};
use crate::bignum::{BigNum, lemma_canonical_injective};
use crate::vdf::{
    VDF,
    VDFProof,
    InvalidCapError,
    pow2n,
    session_output,
    wesolowski_pi,
    verify_equation,
    verifies_spec,
    proof_matches,
    step_outcome,
};

/// Soundness of the construction: for `y = g^(2^t) mod n` and
/// `pi = g^(2^t / l) mod n`, the verification equation holds —
/// provided the verifier's compact exponent `t^2 mod l` raises `g` to the
/// same residue as the exact `2^t mod l`. The proviso is needed because the
/// two exponents genuinely differ on most inputs (already `t = 1`, `l = 5`,
/// `n = 7`, `g = 3` separates them); the wire format fixes the verifier's
/// formula, so soundness holds exactly on the sessions where they agree.
pub proof fn lemma_wesolowski_soundness(n: nat, g: nat, t: nat, l: nat)
    requires
        n >= 1,
        l >= 1,
        pow(g as int, ((t * t) % l) as nat) % (n as int) == pow(g as int, (pow2n(t) % l) as nat)
            % (n as int),
    ensures
        verify_equation(n, g, session_output(n, g, t), t, l, wesolowski_pi(n, g, t, l)),
{
    let ni = n as int;
    let gi = g as int;
    let e = pow2n(t);
    let q = e / l;
    let r = e % l;
    lemma_fundamental_div_mod(e as int, l as int);
    assert(e == q * l + r);
    lemma_pow_mod_noop(pow(gi, q), l, ni);
    lemma_pow_multiplies(gi, q, l);
    lemma_mul_mod_noop(pow(gi, q * l), pow(gi, r), ni);
    lemma_pow_adds(gi, q * l, r);
}

/// Soundness round-trip (on a finished proof): any proof the worker emits
/// for session `(n, g)` under cap `l` passes `verify`, on the sessions
/// where the verifier's compact exponent agrees with the exact one.
pub proof fn lemma_emitted_proof_verifies(p: VDFProof, n: nat, g: nat, t: nat, l: nat)
    requires
        proof_matches(p, n, g, t, l),
        n >= 1,
        l >= 1,
        pow(g as int, ((t * t) % l) as nat) % (n as int) == pow(g as int, (pow2n(t) % l) as nat)
            % (n as int),
    ensures
        verifies_spec(p),
{
    lemma_wesolowski_soundness(n, g, t, l);
}

/// Determinism: two emitted proofs for the same session parameters
/// `(n, g, t, l)` are equal field by field — byte-identical encodings and
/// the same iteration count, which is exactly what `==` on `VDFProof`
/// compares.
pub proof fn lemma_deterministic(p1: VDFProof, p2: VDFProof, n: nat, g: nat, t: nat, l: nat)
    requires
        proof_matches(p1, n, g, t, l),
        proof_matches(p2, n, g, t, l),
    ensures
        p1.modulus.bytes@ =~= p2.modulus.bytes@,
        p1.base.bytes@ =~= p2.base.bytes@,
        p1.output.result.bytes@ =~= p2.output.result.bytes@,
        p1.output.iterations == p2.output.iterations,
        p1.cap.bytes@ =~= p2.cap.bytes@,
        p1.pi.bytes@ =~= p2.pi.bytes@,
{
    lemma_canonical_injective(p1.modulus.bytes@, p2.modulus.bytes@);
    lemma_canonical_injective(p1.base.bytes@, p2.base.bytes@);
    lemma_canonical_injective(p1.output.result.bytes@, p2.output.result.bytes@);
    lemma_canonical_injective(p1.cap.bytes@, p2.cap.bytes@);
    lemma_canonical_injective(p1.pi.bytes@, p2.pi.bytes@);
}

/// Bounds: the emitted output and proof element lie in `[0, N)`.
pub proof fn lemma_output_bounds(p: VDFProof, n: nat, g: nat, t: nat, l: nat)
    requires
        proof_matches(p, n, g, t, l),
        n >= 1,
    ensures
        p.pi@ < n,
        p.output.result@ < n,
{
}

/// Monotonic iteration count: whatever a step emits reports at least one
/// and at most `upper_bound` iterations.
pub proof fn lemma_iteration_bounds(
    vdf: VDF,
    t1: nat,
    cap_msg: Option<BigNum>,
    r: Option<Result<VDFProof, InvalidCapError>>,
)
    requires
        step_outcome(vdf, t1, cap_msg, r),
        1 <= t1 <= vdf.upper_bound,
    ensures
        r matches Some(Ok(p)) ==> 1 <= p.output.iterations <= vdf.upper_bound,
{
}

} // verus!
