use streamchat::exchange::{accept_private_key, draw_key_pair, draw_private_key, public_value, shared_secret, DhParams, KeyPair, G, P};
use streamchat::modexp::pow_mod;

#[test]
fn pow_mod_small_values() {
    assert_eq!(pow_mod(2, 10, 1000), 24);
    assert_eq!(pow_mod(3, 4, 5), 1);
    assert_eq!(pow_mod(7, 1, 5), 2);
    assert_eq!(pow_mod(10, 3, 7), 6);
}

#[test]
fn pow_mod_zero_exponent_is_one() {
    assert_eq!(pow_mod(0, 0, 2), 1);
    assert_eq!(pow_mod(12345, 0, 97), 1);
    assert_eq!(pow_mod(u64::MAX, 0, P), 1);
}

#[test]
fn pow_mod_modulus_one_is_zero() {
    assert_eq!(pow_mod(5, 0, 1), 0);
    assert_eq!(pow_mod(5, 3, 1), 0);
}

#[test]
fn pow_mod_large_operands_do_not_overflow() {
    // (p - 1)^2 = 1 mod p
    assert_eq!(pow_mod(P - 1, 2, P), 1);
    assert_eq!(pow_mod(G, P - 1, P), 6845408216469985230);
    assert_eq!(pow_mod(u64::MAX, u64::MAX, u64::MAX), 0);
}

#[test]
fn dh_agreement_on_fixed_scalars() {
    let a: u64 = 12345;
    let b: u64 = 67890;
    let ga = pow_mod(G, a, P);
    let gb = pow_mod(G, b, P);
    assert_eq!(pow_mod(ga, b, P), pow_mod(gb, a, P));
    assert_eq!(pow_mod(ga, b, P), pow_mod(G, a * b, P));
}

#[test]
fn standard_parameters() {
    let params = DhParams::standard();
    assert_eq!(params.p, 0xD87FA3E291B4C7F3);
    assert_eq!(params.g, 2);
}

#[test]
fn private_key_rejection() {
    let params = DhParams::standard();
    assert_eq!(accept_private_key(params, 0), None);
    assert_eq!(accept_private_key(params, P), None);
    assert_eq!(accept_private_key(params, 1), Some(1));
    assert_eq!(accept_private_key(params, P - 1), Some(P - 1));
    assert_eq!(accept_private_key(params, u64::MAX), Some(u64::MAX));
    let small = DhParams { p: 7, g: 3 };
    assert_eq!(accept_private_key(small, 14), None);
    assert_eq!(accept_private_key(small, 15), Some(15));
}

#[test]
fn drawn_private_keys_are_valid() {
    let params = DhParams::standard();
    for _ in 0..32 {
        if let Some(k) = draw_private_key(params) {
            assert_ne!(k % P, 0);
        }
        if let Some(kp) = draw_key_pair(params) {
            assert_ne!(kp.private % P, 0);
            assert_eq!(kp.public, pow_mod(G, kp.private, P));
        }
    }
}

#[test]
fn key_pairs_agree_on_secret() {
    let params = DhParams::standard();
    let a = KeyPair::from_private(params, 12345).unwrap();
    let b = KeyPair::from_private(params, 67890).unwrap();
    assert_eq!(a.public, public_value(params, 12345));
    assert_eq!(a.public, pow_mod(2, 12345, P));
    let sa = shared_secret(params, b.public, a.private);
    let sb = shared_secret(params, a.public, b.private);
    assert_eq!(sa, sb);
    assert_eq!(a.public, 9738017624642813618);
    assert_eq!(sa, 15257295215843822239);
    assert!(KeyPair::from_private(params, P).is_none());
    assert!(KeyPair::from_private(params, 0).is_none());
}
