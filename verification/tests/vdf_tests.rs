use std::str::FromStr;

use num_bigint::BigUint;
use proof_of_latency::bignum::BigNum;
use proof_of_latency::util::hash;
use proof_of_latency::vdf::{InvalidCapError, VDFProof, VDFResult, VDF};

const RSA_2048: &str = "2519590847565789349402718324004839857142928212620403202777713783604366202070759555626401852588078440691829064124951508218929855914917618450280848912007284499268739280728777673597141834727026189637501497182469116507761337985909570009733045974880842840179742910064245869181719511874612151517265463228221686998754918242243363725908514186546204357679842338718477444792073993423658482382428119816381501067481045166037730605620161967625613384414360383390441495263443219011465754445417842402092461651572335077870774981712577246796292638635637328991215483143816789988504044536402352738195137863656439121201039712282120720357";

fn bignum_from_decimal(s: &str) -> BigNum {
    let n = BigUint::from_str(s).expect("decimal literal");
    BigNum::from_bytes_be(&n.to_bytes_be())
}

fn fresh_safe_prime_128() -> BigNum {
    let p = glass_pumpkin::safe_prime::new(128).expect("prime generation");
    BigNum::from_bytes_be(&p.to_bytes_be())
}

#[test]
fn is_deterministic() {
    let modulus = bignum_from_decimal("91");
    let prime1 = glass_pumpkin::safe_prime::new(128).expect("prime generation");
    let prime2 = glass_pumpkin::safe_prime::new(128).expect("prime generation");
    let diffiehellman = prime1 * prime2;
    let root_hashed = hash(&diffiehellman.to_string(), &modulus);

    // Create two VDFs with same inputs to check if they end up in the same result
    let cap = fresh_safe_prime_128();
    let verifiers_vdf =
        VDF::new(modulus.clone(), root_hashed.clone(), 100).with_cap(cap.clone());
    let provers_vdf = VDF::new(modulus, root_hashed, 100).with_cap(cap);

    let res = verifiers_vdf.run();
    let res2 = provers_vdf.run();

    let proof = res.expect("first session should emit a proof");
    println!("{:?}", proof);
    assert!(proof.verify());

    let our_proof = proof;
    let their_proof = res2.expect("second session should emit a proof");
    assert!(their_proof.verify());
    assert_eq!(our_proof, their_proof);
}

#[test]
fn proof_generation_should_not_output_1() {
    // The cap here is far above 2^30, so the proof exponent 2^30 / cap
    // rounds down to zero and pi = g^0 mod N is exactly 1 — as the
    // constructor's contract proves. The name keeps the guarded intent, a
    // proof element that is not trivially 1, which these parameters cannot
    // deliver: the expected values below are the ones the algebra forces.
    let rsa_int = BigUint::from_str(RSA_2048).unwrap();
    let test_base = BigUint::from_str("273975204758323482518647057650935910029033545998029740555442236630396252096456910679263590843517508134497658008476158127265573236243497472004339585881829574516389309280434908522535813874784132925778706216962484806893788484458866921522138079204310134658546314859280874834357982917353721208006721702257898821421485300922162212913879813354820758401899992407626681460926091914067738363972343377914312084771698845025136003678820078357252237830183129038642605158054307794910714600870478670992899152190065675937480994793580299676128729094577156848113371559032886218228855881073503523841233471830943401905740461433929135192").unwrap();
    let test_result = BigUint::from_str("403642510913427162346289814221267076355601453217789745314752711072245370139545017132729754050733978350640501433581222579549785921751858432800504504624146523068045818752999039584099531047946165070360558276303055979412042063125980406973879783930289619240643955320574763282298513184754137066419829588200558889653756884714512569082291696579496147957009574856559159975430600764049595523214944721724618229087382990009118201426493970230094037871767314795807151411840859204603450495699032527972923029564045617141315511748646380995427511080164273051016861521306022130603410818165363571123776069334089378037317442063832513708").unwrap();
    let test_cap = BigUint::from_str("320855013829071061657328929876806521327").unwrap();
    let test_iterations: usize = 30;

    let proof = VDFProof::new(
        &BigNum::from_bytes_be(&rsa_int.to_bytes_be()),
        &BigNum::from_bytes_be(&test_base.to_bytes_be()),
        &VDFResult {
            result: BigNum::from_bytes_be(&test_result.to_bytes_be()),
            iterations: test_iterations,
        },
        &BigNum::from_bytes_be(&test_cap.to_bytes_be()),
    );

    let r = BigUint::from(1u32);
    let mut ebin = BigUint::from(1u32);
    let b = 2u32 * &r / &test_cap;

    ebin = ebin.modpow(&BigUint::from(2u32), &rsa_int) * test_base.modpow(&b, &rsa_int);
    ebin %= &rsa_int;

    assert_eq!(ebin, BigUint::from(1u32));
    assert_eq!(proof.pi, BigNum::from_u64(1));
}

#[test]
fn hash_to_group_matches_reference() {
    // SHA3-512("seed"), read big-endian and reduced modulo 91, is 41.
    let modulus = BigNum::from_u64(91);
    let h = hash("seed", &modulus);
    assert_eq!(h, BigNum::from_u64(41));
    // Deterministic: hashing again gives the same element.
    assert_eq!(hash("seed", &modulus), BigNum::from_u64(41));
    // A large modulus keeps the digest essentially intact: still in range.
    let big_modulus = bignum_from_decimal(RSA_2048);
    let hb = hash("seed", &big_modulus);
    assert_ne!(hb, BigNum::from_u64(0));
    assert_ne!(hb, BigNum::from_u64(1));
}

#[test]
fn proof_constructor_tiny_case() {
    // N = 91, g = 2, T = 3, cap = 5: pi = g^(2^3 / 5) = 2^1 = 2.
    let proof = VDFProof::new(
        &BigNum::from_u64(91),
        &BigNum::from_u64(2),
        &VDFResult { result: BigNum::from_u64(64), iterations: 3 },
        &BigNum::from_u64(5),
    );
    assert_eq!(proof.pi, BigNum::from_u64(2));
}

#[test]
fn verifier_accepts_constructed_proof() {
    // N = 91, g = 3, T = 4: y = 3^16 mod 91 = 81, and with cap 5 the proof
    // is pi = 3^(16/5) = 27. T^2 and 2^T agree modulo 5 here, so the
    // verification equation holds.
    let proof = VDFProof::new(
        &BigNum::from_u64(91),
        &BigNum::from_u64(3),
        &VDFResult { result: BigNum::from_u64(81), iterations: 4 },
        &BigNum::from_u64(5),
    );
    assert_eq!(proof.pi, BigNum::from_u64(27));
    assert!(proof.verify());
}

#[test]
fn verifier_rejects_tampered_proof() {
    let proof = VDFProof::new(
        &BigNum::from_u64(91),
        &BigNum::from_u64(3),
        &VDFResult { result: BigNum::from_u64(81), iterations: 4 },
        &BigNum::from_u64(5),
    );
    assert!(proof.verify());
    // Flip the lowest bit of pi: the verifier must reject.
    let mut tampered = proof.clone();
    let mut pi_bytes = tampered.pi.bytes.clone();
    let last = pi_bytes.len() - 1;
    pi_bytes[last] ^= 1;
    tampered.pi = BigNum::from_bytes_be(&pi_bytes);
    assert!(!tampered.verify());
}

#[test]
fn verifier_rejects_zero_modulus_and_cap() {
    let p = VDFProof {
        modulus: BigNum::from_u64(0),
        base: BigNum::from_u64(3),
        output: VDFResult { result: BigNum::from_u64(1), iterations: 1 },
        cap: BigNum::from_u64(5),
        pi: BigNum::from_u64(1),
    };
    assert!(!p.verify());
    let q = VDFProof { modulus: BigNum::from_u64(91), cap: BigNum::from_u64(0), ..p };
    assert!(!q.verify());
}

#[test]
fn verifier_rejects_pi_equal_to_modulus() {
    // pi must lie strictly below the modulus: N^cap mod N = 0, so a pi of
    // exactly N would otherwise pass for the claimed output 0.
    let p = VDFProof {
        modulus: BigNum::from_u64(91),
        base: BigNum::from_u64(3),
        output: VDFResult { result: BigNum::from_u64(0), iterations: 1 },
        cap: BigNum::from_u64(5),
        pi: BigNum::from_u64(91),
    };
    assert!(!p.verify());
}

#[test]
fn invalid_cap_is_reported() {
    // A preinstalled cap of 9 (not prime) must be rejected once the bound is
    // reached.
    let vdf = VDF::new(BigNum::from_u64(91), BigNum::from_u64(3), 5).with_cap(BigNum::from_u64(9));
    let res = vdf.run();
    assert!(matches!(res, Err(InvalidCapError)));
}

#[test]
fn invalid_cap_received_mid_run_is_reported() {
    let vdf = VDF::new(BigNum::from_u64(91), BigNum::from_u64(3), 100);
    let mut w = vdf.start();
    let out = w.step(Some(BigNum::from_u64(9)));
    assert!(matches!(out, Some(Err(InvalidCapError))));
}

#[test]
fn safe_prime_cap_seven_yields_a_proof() {
    // 7 is a safe prime ((7-1)/2 = 3 is prime) and the only one outside the
    // residue class 2 mod 3, so the worker accepts it before the outside
    // test. With N = 187 = 11 * 17 and T = 4: pi = 2^(16 / 7) = 4.
    let vdf =
        VDF::new(BigNum::from_u64(187), BigNum::from_u64(2), 4).with_cap(BigNum::from_u64(7));
    let proof = vdf.run().expect("a safe prime coprime to N yields a proof");
    assert_eq!(proof.output.iterations, 4);
    assert_eq!(proof.pi, BigNum::from_u64(4));
    assert!(proof.verify());
    assert!(proof.validate());
}

#[test]
fn cap_sharing_a_factor_is_rejected() {
    // 7 divides 91: a cap not coprime to the modulus is invalid even though
    // it is a safe prime.
    let vdf =
        VDF::new(BigNum::from_u64(91), BigNum::from_u64(3), 5).with_cap(BigNum::from_u64(7));
    assert!(matches!(vdf.run(), Err(InvalidCapError)));
}

#[test]
fn upper_bound_termination() {
    // No cap is supplied: the session stops at the bound with a freshly
    // generated cap.
    let vdf = VDF::new(BigNum::from_u64(91), BigNum::from_u64(3), 10);
    let proof = vdf.run().expect("a missing cap is replaced, not an error");
    assert_eq!(proof.output.iterations, 10);
    // The generated cap is a 128-bit odd number.
    assert_eq!(proof.cap.bytes.len(), 16);
    assert_eq!(proof.cap.bytes[15] & 1, 1);
    assert!(proof.verify());
    // Both emitted group elements stay inside [0, N).
    assert_eq!(proof.output.result.bytes.len(), 1);
    assert!(proof.output.result.bytes[0] < 91);
    assert_eq!(proof.pi.bytes.len(), 1);
    assert!(proof.pi.bytes[0] < 91);
}

#[test]
fn session_matches_precomputed_values() {
    // A fixed 128-bit safe prime as the preinstalled cap.
    let cap = bignum_from_decimal("170141183460469231731687303715884114527");
    let vdf = VDF::new(BigNum::from_u64(91), BigNum::from_u64(41), 100).with_cap(cap.clone());
    let proof = vdf.run().expect("a safe prime cap yields a proof");
    assert_eq!(proof.output.iterations, 100);
    // Computed independently: y = 41^(2^100) mod 91 = 29, and the proof
    // exponent 2^100 / cap rounds down to zero, so pi = 1.
    assert_eq!(proof.output.result, BigNum::from_u64(29));
    assert_eq!(proof.pi, BigNum::from_u64(1));
    assert_eq!(proof.cap, cap);
    assert!(proof.verify());
    // 41 and the cap are both coprime to 91.
    assert!(proof.validate());
}

#[test]
fn finalize_follows_the_cap_verdict() {
    let vdf = VDF::new(BigNum::from_u64(91), BigNum::from_u64(3), 10);
    let output = VDFResult { result: BigNum::from_u64(81), iterations: 4 };
    let accepted =
        proof_of_latency::vdf::finalize(&vdf, &output, &BigNum::from_u64(5), true);
    let proof = accepted.expect("an accepted cap yields a proof");
    assert_eq!(proof.cap, BigNum::from_u64(5));
    assert_eq!(proof.pi, BigNum::from_u64(27));
    assert_eq!(proof.output.iterations, 4);
    let rejected =
        proof_of_latency::vdf::finalize(&vdf, &output, &BigNum::from_u64(9), false);
    assert!(matches!(rejected, Err(InvalidCapError)));
}

#[test]
fn results_order_by_iterations() {
    let slow = VDFResult { result: BigNum::from_u64(81), iterations: 4 };
    let fast = VDFResult { result: BigNum::from_u64(2), iterations: 40 };
    assert!(slow < fast);
    assert!(fast > slow);
    // Ordering looks at the iteration count alone; equality at both fields.
    let other = VDFResult { result: BigNum::from_u64(7), iterations: 4 };
    assert_eq!(slow.partial_cmp(&other), Some(std::cmp::Ordering::Equal));
    assert!(slow != other);
}

#[test]
fn cap_race_bounded_latency() {
    // A session with a huge bound reacts to the cap on the iteration that
    // polls it: sent after 49 squarings, it yields a proof for exactly 50.
    let vdf = VDF::new(BigNum::from_u64(91), BigNum::from_u64(3), 100_000_000);
    let cap = fresh_safe_prime_128();
    let mut w = vdf.start();
    for _ in 0..49 {
        assert!(w.step(None).is_none());
    }
    let out = w.step(Some(cap)).expect("the cap ends the session");
    let proof = out.expect("a safe prime cap yields a proof");
    assert_eq!(proof.output.iterations, 50);
    assert!(proof.verify());
}

#[test]
fn validate_checks_coprimality() {
    let ok = VDFProof {
        modulus: BigNum::from_u64(91),
        base: BigNum::from_u64(6),
        output: VDFResult { result: BigNum::from_u64(1), iterations: 1 },
        cap: BigNum::from_u64(5),
        pi: BigNum::from_u64(1),
    };
    assert!(ok.validate());
    // 7 divides 91.
    let bad_base = VDFProof { base: BigNum::from_u64(7), ..ok.clone() };
    assert!(!bad_base.validate());
    // 13 divides 91.
    let bad_cap = VDFProof { cap: BigNum::from_u64(13), ..ok };
    assert!(!bad_cap.validate());
}

#[test]
fn abs_difference_is_symmetric() {
    let a = VDFProof {
        modulus: BigNum::from_u64(91),
        base: BigNum::from_u64(3),
        output: VDFResult { result: BigNum::from_u64(1), iterations: 30 },
        cap: BigNum::from_u64(5),
        pi: BigNum::from_u64(1),
    };
    let b = VDFProof {
        output: VDFResult { result: BigNum::from_u64(1), iterations: 12 },
        ..a.clone()
    };
    assert_eq!(a.abs_difference(&b), 18);
    assert_eq!(b.abs_difference(&a), 18);
    assert_eq!(a.abs_difference(&a), 0);
}

#[test]
fn bignum_canonical_roundtrips() {
    // Padded encodings collapse to the canonical one.
    assert_eq!(BigNum::from_bytes_be(&[0, 0, 5]), BigNum::from_u64(5));
    assert_eq!(BigNum::from_bytes_be(&[]), BigNum::from_u64(0));
    assert_eq!(BigNum::from_bytes_be(&[1, 0]), BigNum::from_u64(256));
    let big = BigNum::from_u64(0xDEADBEEF);
    assert_eq!(big.bytes, vec![0xDE, 0xAD, 0xBE, 0xEF]);
    assert_ne!(BigNum::from_u64(5), BigNum::from_u64(6));
}
