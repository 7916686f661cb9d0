use chaum_pedersen::ZKP;
use num_bigint::BigUint;

fn n(v: u32) -> BigUint {
    BigUint::from(v)
}

fn toy() -> ZKP {
    ZKP { p: n(23), q: n(11), g: n(4), h: n(9) }
}

#[test]
fn test_toy_example() {
    let g = BigUint::from(4u32);
    let h = BigUint::from(9u32);
    let p = BigUint::from(23u32);
    let q = BigUint::from(11u32);

    let zkp = ZKP { p: p.clone(), q: q.clone(), g: g.clone(), h: h.clone() };

    let x = BigUint::from(6u32);
    let k = BigUint::from(7u32);

    let c = BigUint::from(4u32);

    let y1 = ZKP::exponentiate(&g, &x, &p);
    let y2 = ZKP::exponentiate(&h, &x, &p);
    assert_eq!(y1, BigUint::from(2u32));
    assert_eq!(y2, BigUint::from(3u32));

    let r1 = ZKP::exponentiate(&g, &k, &p);
    let r2 = ZKP::exponentiate(&h, &k, &p);
    assert_eq!(r1, BigUint::from(8u32));
    assert_eq!(r2, BigUint::from(4u32));

    let s = zkp.solve(&k, &c, &x);
    assert_eq!(s, BigUint::from(5u32));

    let result = zkp.verify(&r1, &r2, &y1, &y2, &c, &s);
    assert!(result);

    // fake secret
    let x_fake = BigUint::from(14u32);
    let s_fake = zkp.solve(&k, &c, &x_fake);
    let result = zkp.verify(&r1, &r2, &y1, &y2, &c, &s_fake);
    assert!(!result);
}

#[test]
fn test_toy_example_with_rand() {
    let g = BigUint::from(4u32);
    let h = BigUint::from(9u32);
    let p = BigUint::from(23u32);
    let q = BigUint::from(11u32);

    let zkp = ZKP { p: p.clone(), q: q.clone(), g: g.clone(), h: h.clone() };

    let x = BigUint::from(6u32);
    let k = ZKP::generate_random_below(&q);

    let c = ZKP::generate_random_below(&q);

    let y1 = ZKP::exponentiate(&g, &x, &p);
    let y2 = ZKP::exponentiate(&h, &x, &p);
    assert_eq!(y1, BigUint::from(2u32));
    assert_eq!(y2, BigUint::from(3u32));

    let r1 = ZKP::exponentiate(&g, &k, &p);
    let r2 = ZKP::exponentiate(&h, &k, &p);
    let s = zkp.solve(&k, &c, &x);

    let result = zkp.verify(&r1, &r2, &y1, &y2, &c, &s);
    assert!(result);
}

#[test]
fn toy_scenario_fake_witness_gives_another_response() {
    let zkp = toy();
    let s = zkp.solve(&n(7), &n(4), &n(6));
    let s_fake = zkp.solve(&n(7), &n(4), &n(14));
    assert_eq!(s, n(5));
    assert_eq!(s_fake, n(6));
    assert!(zkp.verify(&n(8), &n(4), &n(2), &n(3), &n(4), &n(5)));
    assert!(!zkp.verify(&n(8), &n(4), &n(2), &n(3), &n(4), &n(6)));
}

#[test]
fn honest_transcript_is_accepted_for_every_secret_commitment_and_challenge() {
    let zkp = toy();
    for x in 0..11u32 {
        let y1 = ZKP::exponentiate(&zkp.g, &n(x), &zkp.p);
        let y2 = ZKP::exponentiate(&zkp.h, &n(x), &zkp.p);
        for k in 0..11u32 {
            let r1 = ZKP::exponentiate(&zkp.g, &n(k), &zkp.p);
            let r2 = ZKP::exponentiate(&zkp.h, &n(k), &zkp.p);
            for c in 0..11u32 {
                let s = zkp.solve(&n(k), &n(c), &n(x));
                assert!(s < zkp.q, "response out of range for x={x} k={k} c={c}");
                assert!(zkp.verify(&r1, &r2, &y1, &y2, &n(c), &s), "rejected x={x} k={k} c={c}");
            }
        }
    }
}

#[test]
fn response_satisfies_both_equations_in_either_branch() {
    let zkp = toy();
    // (k, c, x): the first has k >= c*x, the second k < c*x.
    for (k, c, x) in [(10u32, 2u32, 3u32), (2u32, 7u32, 9u32)] {
        let s = zkp.solve(&n(k), &n(c), &n(x));
        for g in [&zkp.g, &zkp.h] {
            let y = ZKP::exponentiate(g, &n(x), &zkp.p);
            let r = ZKP::exponentiate(g, &n(k), &zkp.p);
            let lhs = (g.modpow(&s, &zkp.p) * y.modpow(&n(c), &zkp.p)) % &zkp.p;
            assert_eq!(lhs, r);
        }
    }
    assert_eq!(zkp.solve(&n(10), &n(2), &n(3)), n(4));
    assert_eq!(zkp.solve(&n(2), &n(7), &n(9)), n(5));
}

#[test]
fn exactly_the_congruent_responses_are_accepted() {
    let zkp = toy();
    for (x, k, c) in [(6u32, 7u32, 4u32), (0, 0, 0), (10, 3, 9), (1, 10, 10)] {
        let y1 = ZKP::exponentiate(&zkp.g, &n(x), &zkp.p);
        let y2 = ZKP::exponentiate(&zkp.h, &n(x), &zkp.p);
        let r1 = ZKP::exponentiate(&zkp.g, &n(k), &zkp.p);
        let r2 = ZKP::exponentiate(&zkp.h, &n(k), &zkp.p);
        let honest = zkp.solve(&n(k), &n(c), &n(x));
        for s in 0..33u32 {
            let congruent = n(s % 11) == honest;
            assert_eq!(zkp.verify(&r1, &r2, &y1, &y2, &n(c), &n(s)), congruent, "s={s}");
        }
    }
}

#[test]
fn wrong_witness_is_rejected_when_the_challenge_tells_it_apart() {
    let zkp = toy();
    let (x, k) = (6u32, 7u32);
    let y1 = ZKP::exponentiate(&zkp.g, &n(x), &zkp.p);
    let y2 = ZKP::exponentiate(&zkp.h, &n(x), &zkp.p);
    let r1 = ZKP::exponentiate(&zkp.g, &n(k), &zkp.p);
    let r2 = ZKP::exponentiate(&zkp.h, &n(k), &zkp.p);
    for c in 0..11u32 {
        for x_fake in 0..22u32 {
            let s_fake = zkp.solve(&n(k), &n(c), &n(x_fake));
            let told_apart = (c * (x + 22 - x_fake)) % 11 != 0;
            assert_eq!(
                zkp.verify(&r1, &r2, &y1, &y2, &n(c), &s_fake),
                !told_apart,
                "c={c} x_fake={x_fake}"
            );
        }
    }
}

#[test]
fn tampered_transcript_is_rejected() {
    let zkp = toy();
    assert!(zkp.verify(&n(8), &n(4), &n(2), &n(3), &n(4), &n(5)));
    assert!(!zkp.verify(&n(9), &n(4), &n(2), &n(3), &n(4), &n(5)));
    assert!(!zkp.verify(&n(8), &n(5), &n(2), &n(3), &n(4), &n(5)));
    assert!(!zkp.verify(&n(8), &n(4), &n(3), &n(3), &n(4), &n(5)));
    assert!(!zkp.verify(&n(8), &n(4), &n(2), &n(2), &n(4), &n(5)));
    assert!(!zkp.verify(&n(8), &n(4), &n(2), &n(3), &n(5), &n(5)));
    // The first equation alone does not suffice, nor the second.
    assert!(!zkp.verify(&n(8), &n(0), &n(2), &n(3), &n(4), &n(5)));
    assert!(!zkp.verify(&n(0), &n(4), &n(2), &n(3), &n(4), &n(5)));
    // For challenge 5 the right-hand sides are 16 and 12.
    assert!(zkp.verify(&n(16), &n(12), &n(2), &n(3), &n(5), &n(5)));
}

#[test]
fn commitment_values_must_be_reduced() {
    let zkp = toy();
    // 8 + 23 is congruent to 8 modulo p, but the comparison is on integers.
    assert!(!zkp.verify(&n(31), &n(4), &n(2), &n(3), &n(4), &n(5)));
    assert!(!zkp.verify(&n(8), &n(27), &n(2), &n(3), &n(4), &n(5)));
    // Public values are reduced by the exponentiation, so 2 + 23 stands for 2.
    assert!(zkp.verify(&n(8), &n(4), &n(25), &n(26), &n(4), &n(5)));
}

#[test]
fn verify_gives_the_same_verdict_when_repeated() {
    let zkp = toy();
    let again = toy();
    for s in 0..11u32 {
        let first = zkp.verify(&n(8), &n(4), &n(2), &n(3), &n(4), &n(s));
        let second = zkp.verify(&n(8), &n(4), &n(2), &n(3), &n(4), &n(s));
        let third = again.verify(&n(8), &n(4), &n(2), &n(3), &n(4), &n(s));
        assert_eq!(first, second);
        assert_eq!(first, third);
        assert_eq!(first, s == 5);
    }
}

#[test]
fn two_responses_for_one_commitment_fix_the_secret() {
    let zkp = toy();
    let (x, k, c1, c2) = (6u32, 7u32, 4u32, 9u32);
    let s1 = zkp.solve(&n(k), &n(c1), &n(x));
    let s2 = zkp.solve(&n(k), &n(c2), &n(x));
    assert_eq!(s1, n(5));
    assert_eq!(s2, n(8));
    for x_other in 0..11u32 {
        for k_other in 0..11u32 {
            let same = zkp.solve(&n(k_other), &n(c1), &n(x_other)) == s1
                && zkp.solve(&n(k_other), &n(c2), &n(x_other)) == s2;
            assert_eq!(same, x_other == x && k_other == k);
        }
    }
}
