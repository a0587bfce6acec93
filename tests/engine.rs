use zkp_auth::{ChaumPedersen, ChaumPedersenInterface, Natural, Parameters};
use zkp_auth::AuthError;

fn toy_engine() -> ChaumPedersen {
    let parameters = Parameters::new(
        8,
        Natural::from_u64(23),
        Natural::from_u64(11),
        Natural::from_u64(4),
        Natural::from_u64(9),
    );
    ChaumPedersen::new(parameters)
}

#[test]
fn test_chaum_pedersen_algorithm_in_success_case() {
    let cp = ChaumPedersen::default();

    let client_secret = cp.generate_random();
    let secret_commitment = cp.commit(&client_secret);
    let y1 = secret_commitment.get_first_exponent();
    let y2 = secret_commitment.get_second_exponent();
    let k = cp.generate_random();
    let commitment = cp.commit(&k);
    let (r1, r2) = (commitment.get_first_exponent(), commitment.get_second_exponent());
    let challenge = cp.generate_random();
    let solution = cp.solve_challenge(&client_secret, &k, &challenge);
    assert!(cp.verify(y1, y2, r1, r2, &solution, &challenge).is_ok());
}

#[test]
fn test_chaum_pedersen_algorithm_if_mismatched_secret() {
    let cp = ChaumPedersen::default();

    let client_secret1 = cp.generate_random();
    let client_secret2 = cp.generate_random();
    let first = cp.commit(&client_secret1);
    let second = cp.commit(&client_secret2);
    let y1 = first.get_first_exponent();
    let y2 = second.get_second_exponent();
    let k = cp.generate_random();
    let commitment = cp.commit(&k);
    let (r1, r2) = (commitment.get_first_exponent(), commitment.get_second_exponent());
    let challenge = cp.generate_random();
    let solution = cp.solve_challenge(&client_secret1, &k, &challenge);
    assert!(cp.verify(y1, y2, r1, r2, &solution, &challenge).is_err());
}

#[test]
fn commit_in_toy_group() {
    let cp = toy_engine();
    let exponents = cp.commit(&Natural::from_u64(3));
    // 4^3 = 64 = 18 mod 23 and 9^3 = 729 = 16 mod 23
    assert_eq!(exponents.get_first_exponent(), &Natural::from_u64(18));
    assert_eq!(exponents.get_second_exponent(), &Natural::from_u64(16));
}

#[test]
fn solve_challenge_wraps_negative_remainder() {
    let cp = toy_engine();
    // (3 - 5 * 7) mod 11 = -32 mod 11 = 1
    let s = cp.solve_challenge(&Natural::from_u64(7), &Natural::from_u64(3), &Natural::from_u64(5));
    assert_eq!(s, Natural::from_u64(1));
}

#[test]
fn solve_challenge_non_negative_remainder() {
    let cp = toy_engine();
    // (10 - 1 * 2) mod 11 = 8
    let s = cp.solve_challenge(&Natural::from_u64(2), &Natural::from_u64(10), &Natural::from_u64(1));
    assert_eq!(s, Natural::from_u64(8));
}

#[test]
fn solve_challenge_reduces_modulo_q_not_p() {
    let cp = toy_engine();
    // (40 - 0 * 7) mod 11 = 7, whereas mod 23 it would be 17
    let s = cp.solve_challenge(&Natural::from_u64(7), &Natural::from_u64(40), &Natural::zero());
    assert_eq!(s, Natural::from_u64(7));
}

#[test]
fn verify_honest_toy_round() {
    let cp = toy_engine();
    let x = Natural::from_u64(7);
    let k = Natural::from_u64(3);
    let c = Natural::from_u64(5);
    let y = cp.commit(&x);
    let r = cp.commit(&k);
    let s = cp.solve_challenge(&x, &k, &c);
    let outcome = cp.verify(
        y.get_first_exponent(),
        y.get_second_exponent(),
        r.get_first_exponent(),
        r.get_second_exponent(),
        &s,
        &c,
    );
    assert_eq!(outcome, Ok(()));
}

#[test]
fn verify_refuses_every_other_response() {
    let cp = toy_engine();
    let x = Natural::from_u64(7);
    let k = Natural::from_u64(3);
    let c = Natural::from_u64(5);
    let y = cp.commit(&x);
    let r = cp.commit(&k);
    let honest = cp.solve_challenge(&x, &k, &c);
    for candidate in 0u64..11 {
        let s = Natural::from_u64(candidate);
        let outcome = cp.verify(
            y.get_first_exponent(),
            y.get_second_exponent(),
            r.get_first_exponent(),
            r.get_second_exponent(),
            &s,
            &c,
        );
        if s == honest {
            assert_eq!(outcome, Ok(()));
        } else {
            assert_eq!(outcome, Err(AuthError::VerificationFailed));
        }
    }
}

#[test]
fn verify_refuses_response_from_other_secret() {
    let cp = toy_engine();
    let y = cp.commit(&Natural::from_u64(7));
    let k = Natural::from_u64(3);
    let r = cp.commit(&k);
    let c = Natural::from_u64(5);
    let s = cp.solve_challenge(&Natural::from_u64(8), &k, &c);
    let outcome = cp.verify(
        y.get_first_exponent(),
        y.get_second_exponent(),
        r.get_first_exponent(),
        r.get_second_exponent(),
        &s,
        &c,
    );
    assert_eq!(outcome, Err(AuthError::VerificationFailed));
}

#[test]
fn verify_twice_gives_same_outcome() {
    let cp = ChaumPedersen::default();
    let x = cp.generate_random();
    let k = cp.generate_random();
    let c = cp.generate_random();
    let y = cp.commit(&x);
    let r = cp.commit(&k);
    let s = cp.solve_challenge(&x, &k, &c);
    let first = cp.verify(
        y.get_first_exponent(),
        y.get_second_exponent(),
        r.get_first_exponent(),
        r.get_second_exponent(),
        &s,
        &c,
    );
    let second = cp.verify(
        y.get_first_exponent(),
        y.get_second_exponent(),
        r.get_first_exponent(),
        r.get_second_exponent(),
        &s,
        &c,
    );
    assert_eq!(first, Ok(()));
    assert_eq!(first, second);
}

#[test]
fn generate_random_stays_below_bit_size() {
    let cp = toy_engine();
    let bound = Natural::from_u64(256);
    for _ in 0..50 {
        let value = cp.generate_random();
        assert!(value.to_bytes_be().len() == 1);
        assert_ne!(value, bound);
    }
}

#[test]
fn default_group_constants() {
    let parameters = Parameters::default_group();
    let p = num_bigint::BigUint::parse_bytes(
        b"42765216643065397982265462252423826320512529931694366715111734768493812630447",
        10,
    )
    .unwrap();
    let q = num_bigint::BigUint::parse_bytes(
        b"21382608321532698991132731126211913160256264965847183357555867384246906315223",
        10,
    )
    .unwrap();
    assert_eq!(parameters.bit_size(), 256);
    assert_eq!(parameters.p().to_bytes_be(), p.to_bytes_be());
    assert_eq!(parameters.q().to_bytes_be(), q.to_bytes_be());
    assert_eq!(parameters.g(), &Natural::from_u64(4));
    assert_eq!(parameters.h(), &Natural::from_u64(9));
}

#[test]
fn built_in_generators_lie_in_subgroup() {
    assert!(Parameters::default_group().generators_in_subgroup());
}

#[test]
fn toy_generators_lie_in_subgroup() {
    let parameters = Parameters::new(
        8,
        Natural::from_u64(23),
        Natural::from_u64(11),
        Natural::from_u64(4),
        Natural::from_u64(9),
    );
    assert!(parameters.generators_in_subgroup());
}

#[test]
fn non_residue_generator_is_outside_subgroup() {
    // 5^11 = 22 mod 23
    let parameters = Parameters::new(
        8,
        Natural::from_u64(23),
        Natural::from_u64(11),
        Natural::from_u64(5),
        Natural::from_u64(9),
    );
    assert!(!parameters.generators_in_subgroup());
}
