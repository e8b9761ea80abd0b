use blood_compat::dealer::{BeaverTriple, Role, TripleShare, TrustedDealer};
use blood_compat::error::ProtocolError;
use blood_compat::predicate::{blood_function, translate_input, translate_input_back, truth_table};
use blood_compat::random::random_bit;
use blood_compat::share::SecretSharingPair;

const TABLE: [[u8; 8]; 8] = [
    [1, 0, 0, 0, 0, 0, 0, 0],
    [1, 1, 0, 0, 0, 0, 0, 0],
    [1, 0, 1, 0, 0, 0, 0, 0],
    [1, 1, 1, 1, 0, 0, 0, 0],
    [1, 0, 0, 0, 1, 0, 0, 0],
    [1, 1, 0, 0, 1, 1, 0, 0],
    [1, 0, 1, 0, 1, 0, 1, 0],
    [1, 1, 1, 1, 1, 1, 1, 1],
];

#[test]
fn split_reconstructs_both_bits() {
    for _ in 0..200 {
        assert_eq!(SecretSharingPair::split(false).value(), false);
        assert_eq!(SecretSharingPair::split(true).value(), true);
    }
}

#[test]
fn split_with_sets_the_other_half() {
    assert_eq!(SecretSharingPair::split_with(true, true), SecretSharingPair { own: true, peer: false });
    assert_eq!(SecretSharingPair::split_with(true, false), SecretSharingPair { own: false, peer: true });
    assert_eq!(SecretSharingPair::split_with(false, true), SecretSharingPair { own: true, peer: true });
    assert_eq!(SecretSharingPair::split_with(false, false), SecretSharingPair { own: false, peer: false });
}

#[test]
fn join_keeps_both_halves() {
    let pair = SecretSharingPair::join(true, false);
    assert_eq!(pair.own, true);
    assert_eq!(pair.peer, false);
    assert_eq!(pair.value(), true);
    assert_eq!(SecretSharingPair::join(true, true).value(), false);
}

#[test]
fn own_half_looks_uniform() {
    for value in [false, true] {
        let mut ones: u32 = 0;
        for _ in 0..10_000 {
            if SecretSharingPair::split(value).own {
                ones += 1;
            }
        }
        let zeros = 10_000 - ones;
        let expected = 5_000.0_f64;
        let chi_square = (f64::from(ones) - expected).powi(2) / expected
            + (f64::from(zeros) - expected).powi(2) / expected;
        assert!(chi_square < 30.0, "chi-square {} for {} ones", chi_square, ones);
    }
}

#[test]
fn random_bit_gives_both_values() {
    let mut seen_true = false;
    let mut seen_false = false;
    for _ in 0..1_000 {
        if random_bit() {
            seen_true = true;
        } else {
            seen_false = true;
        }
    }
    assert!(seen_true && seen_false);
}

#[test]
fn triple_from_bits_is_exact() {
    let triple = BeaverTriple::from_bits(true, true, true, false, false);
    assert_eq!(triple.alice, TripleShare { u: true, v: false, w: false });
    assert_eq!(triple.bob, TripleShare { u: false, v: true, w: true });
    let triple = BeaverTriple::from_bits(true, false, false, true, true);
    assert_eq!(triple.alice, TripleShare { u: false, v: true, w: true });
    assert_eq!(triple.bob, TripleShare { u: true, v: true, w: true });
}

#[test]
fn every_triple_from_bits_is_valid() {
    for bits in 0..32u8 {
        let b = |k: u8| bits & (1 << k) != 0;
        let t = BeaverTriple::from_bits(b(0), b(1), b(2), b(3), b(4));
        assert_eq!((t.alice.u ^ t.bob.u) & (t.alice.v ^ t.bob.v), t.alice.w ^ t.bob.w);
        assert_eq!(t.alice.u ^ t.bob.u, b(0));
        assert_eq!(t.alice.v ^ t.bob.v, b(1));
    }
}

#[test]
fn generated_triples_are_valid() {
    let mut dealer = TrustedDealer::new();
    assert_eq!(dealer.len(), 0);
    dealer.init(1_000);
    assert_eq!(dealer.len(), 1_000);
    let a = dealer.rand_a();
    let b = dealer.rand_b();
    assert_eq!(a.len(), 1_000);
    assert_eq!(b.len(), 1_000);
    for k in 0..1_000 {
        assert_eq!((a[k].u ^ b[k].u) & (a[k].v ^ b[k].v), a[k].w ^ b[k].w);
    }
    for _ in 0..1_000 {
        let t = BeaverTriple::generate();
        assert_eq!((t.alice.u ^ t.bob.u) & (t.alice.v ^ t.bob.v), t.alice.w ^ t.bob.w);
    }
}

#[test]
fn dealer_hands_out_halves_in_order() {
    let mut dealer = TrustedDealer::new();
    dealer.init(5);
    let a = dealer.rand_for(Role::Alice);
    let b = dealer.rand_for(Role::Bob);
    assert_eq!(a, dealer.rand_a());
    assert_eq!(b, dealer.rand_b());
    for gate in 0..5 {
        assert_eq!(dealer.triple_share(Role::Alice, gate), Ok(a[gate]));
        assert_eq!(dealer.triple_share(Role::Bob, gate), Ok(b[gate]));
    }
}

#[test]
fn dealer_runs_out_of_triples() {
    let mut dealer = TrustedDealer::new();
    assert_eq!(dealer.triple_share(Role::Alice, 0), Err(ProtocolError::DealerExhaustion));
    dealer.init(5);
    assert_eq!(dealer.triple_share(Role::Bob, 5), Err(ProtocolError::DealerExhaustion));
    assert!(dealer.triple_share(Role::Bob, 4).is_ok());
    dealer.init(2);
    assert_eq!(dealer.len(), 2);
    assert_eq!(dealer.triple_share(Role::Alice, 2), Err(ProtocolError::DealerExhaustion));
}

#[test]
fn share_of_picks_the_side() {
    let t = BeaverTriple::from_bits(true, true, true, false, false);
    assert_eq!(t.share_of(Role::Alice), t.alice);
    assert_eq!(t.share_of(Role::Bob), t.bob);
}

#[test]
fn translate_input_reads_three_bits() {
    assert_eq!(translate_input(0), (false, false, false));
    assert_eq!(translate_input(1), (false, false, true));
    assert_eq!(translate_input(2), (false, true, false));
    assert_eq!(translate_input(4), (true, false, false));
    assert_eq!(translate_input(6), (true, true, false));
    assert_eq!(translate_input(7), (true, true, true));
    assert_eq!(translate_input(8), (false, false, false));
    assert_eq!(translate_input(0xfd), (true, false, true));
}

#[test]
fn translate_input_back_packs_three_bits() {
    assert_eq!(translate_input_back(false, false, false), 0);
    assert_eq!(translate_input_back(true, false, false), 4);
    assert_eq!(translate_input_back(false, true, false), 2);
    assert_eq!(translate_input_back(false, false, true), 1);
    assert_eq!(translate_input_back(true, true, true), 7);
    for i in 0..8u8 {
        let (a, b, r) = translate_input(i);
        assert_eq!(translate_input_back(a, b, r), i);
    }
}

#[test]
fn blood_function_is_the_table() {
    for i in 0..8u8 {
        for j in 0..8u8 {
            let expected = TABLE[i as usize][j as usize] == 1;
            assert_eq!(blood_function(translate_input(i), translate_input(j)), expected);
            assert_eq!(truth_table(i, j), TABLE[i as usize][j as usize]);
        }
    }
    assert_eq!(blood_function((true, true, false), (true, true, true)), false);
    assert_eq!(truth_table(6, 7), 0);
    assert_eq!(truth_table(7, 6), 1);
}
