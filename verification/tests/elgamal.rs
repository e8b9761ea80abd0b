use blood_compat::elgamal::ElGamal;
use blood_compat::group::{
    accept_exponent, element_from_sample, generate_prime, generate_random_safe_prime_group_element,
    generate_safe_prime_group, Group,
};
use blood_compat::natural::Natural;
use blood_compat::transfer::{transfer_entry, Alice, Bob};
use num_bigint::BigUint;

const GENERATOR: &[u8] = b"7036482445218991984497536105058832961865208614140720443900993140572444986276332286696128264067261887944395793547676816255106569540556250830118276328421976";
const ORDER: &[u8] = b"6092088270061394072802068854355086862143382580686667587542277965029184896590586848962806674830703019619501721581038102563286372342103833673234173754185209";
const PRIME: &[u8] = b"12184176540122788145604137708710173724286765161373335175084555930058369793181173697925613349661406039239003443162076205126572744684207667346468347508370419";

fn natural(decimal: &[u8]) -> Natural {
    Natural::from_bytes_be(&BigUint::parse_bytes(decimal, 10).unwrap().to_bytes_be())
}

fn number(n: &Natural) -> BigUint {
    BigUint::from_bytes_be(&n.to_bytes_be())
}

fn small(value: u64) -> Natural {
    Natural::from_bytes_be(&BigUint::from(value).to_bytes_be())
}

fn common_group() -> Group {
    Group { g: natural(GENERATOR), q: natural(ORDER), p: natural(PRIME) }
}

fn small_group() -> Group {
    Group { g: small(4), q: small(11), p: small(23) }
}

#[test]
fn el_gamal_correctness_test() {
    let common_group = common_group();
    let elgamal = ElGamal::new(common_group.clone());
    let message = "Some small message"; //Note message must be smaller than q
    let m = BigUint::from_bytes_be(message.as_bytes()) % number(&common_group.p);
    let m = Natural::from_bytes_be(&m.to_bytes_be());

    let sk = elgamal.gen_sk().unwrap();
    let pk = elgamal.gen_pk(sk.clone());

    let c = elgamal.enc(pk, m.clone()).unwrap();
    let decrypted_message = elgamal.dec(sk.clone(), c).unwrap();

    assert_eq!(decrypted_message, m);
    assert_eq!(decrypted_message.to_bytes_be(), message.as_bytes().to_vec());
}

#[test]
fn full_truth_table_test() {
    let true_truth_table: [[u8; 8]; 8] = [
        [1, 0, 0, 0, 0, 0, 0, 0],
        [1, 1, 0, 0, 0, 0, 0, 0],
        [1, 0, 1, 0, 0, 0, 0, 0],
        [1, 1, 1, 1, 0, 0, 0, 0],
        [1, 0, 0, 0, 1, 0, 0, 0],
        [1, 1, 0, 0, 1, 1, 0, 0],
        [1, 0, 1, 0, 1, 0, 1, 0],
        [1, 1, 1, 1, 1, 1, 1, 1],
    ];

    let mut calculated_truth_table: [[u8; 8]; 8] = [[2; 8]; 8];

    let common_group = common_group();

    for i in 0..8 {
        for j in 0..8 {
            let mut alice = Alice::new(common_group.clone());
            let mut bob = Bob::new(common_group.clone());

            //m1 and m2 are the tuples for the different options in OT that Alice chooses between
            let m1 = alice.choose_keys(i).unwrap();
            let m2 = bob.transfer(j, m1).unwrap();
            let z = alice.retrieve(m2).unwrap();
            calculated_truth_table[i as usize][j as usize] = z;
        }
    }

    for i in 0..8 {
        for j in 0..8 {
            assert_eq!(
                calculated_truth_table[i as usize][j as usize],
                true_truth_table[i as usize][j as usize]
            );
        }
    }

    println!("All tests passed successfully!")
}

#[test]
fn natural_keeps_the_shortest_bytes() {
    assert_eq!(Natural::from_bytes_be(&vec![0, 0, 4, 101]).to_bytes_be(), vec![4, 101]);
    assert_eq!(Natural::from_bytes_be(&vec![4, 101]), Natural::from_bytes_be(&vec![0, 4, 101]));
    assert_eq!(Natural::from_bytes_be(&Vec::new()).to_bytes_be(), vec![0]);
    assert_eq!(Natural::from_bytes_be(&vec![0, 0]).to_bytes_be(), vec![0]);
    assert_eq!(Natural::from_u8(0).to_bytes_be(), vec![0]);
    assert_eq!(Natural::from_u8(200), small(200));
    assert_eq!(number(&Natural::from_bytes_be(&vec![1, 0, 0])), BigUint::from(65536u32));
    assert!(Natural::from_u8(0).is_zero());
    assert!(Natural::from_bytes_be(&vec![0, 0, 0]).is_zero());
    assert!(!Natural::from_u8(1).is_zero());
    assert!(!small(256).is_zero());
    assert_eq!(small(1125).duplicate(), small(1125));
}

#[test]
fn first_byte_leads_the_number() {
    assert_eq!(Natural::from_u8(0).first_byte(), 0);
    assert_eq!(Natural::from_u8(1).first_byte(), 1);
    assert_eq!(small(255).first_byte(), 255);
    assert_eq!(small(256).first_byte(), 1);
    assert_eq!(small(1125).first_byte(), 4);
    assert_eq!(Natural::from_bytes_be(&vec![0, 0, 9, 1, 2]).first_byte(), 9);
}

#[test]
fn encryption_with_a_fixed_exponent() {
    let elgamal = ElGamal::new(small_group());
    let pk = elgamal.gen_pk(small(3));
    assert_eq!(pk, small(18));
    let (c1, c2) = elgamal.enc_with(&pk, &small(5), &small(2));
    assert_eq!(c1, small(16));
    assert_eq!(c2, small(10));
    assert_eq!(elgamal.dec(small(3), (small(16), small(10))), Some(small(5)));
    let (c1, c2) = elgamal.enc_with(&pk, &small(28), &small(0));
    assert_eq!(c1, small(1));
    assert_eq!(c2, small(5));
    assert_eq!(elgamal.dec(small(3), (c1, c2)), Some(small(5)));
}

#[test]
fn decryption_undoes_encryption_in_a_small_group() {
    let elgamal = ElGamal::new(small_group());
    for sk in 0..11u64 {
        let pk = elgamal.gen_pk(small(sk));
        for r in 0..11u64 {
            for m in [0u64, 1, 7, 22, 23, 100] {
                let c = elgamal.enc_with(&pk, &small(m), &small(r));
                assert_eq!(elgamal.dec(small(sk), c), Some(small(m % 23)));
            }
        }
    }
}

#[test]
fn decryption_fails_without_an_inverse() {
    let elgamal = ElGamal::new(Group { g: small(2), q: small(3), p: small(4) });
    assert_eq!(elgamal.dec(small(1), (small(2), small(3))), None);
    assert_eq!(elgamal.dec(small(1), (small(3), small(3))), Some(small(1)));
    let elgamal = ElGamal::new(Group { g: small(2), q: small(3), p: small(1) });
    assert_eq!(elgamal.dec(small(5), (small(2), small(3))), Some(small(0)));
}

#[test]
fn random_encryption_decrypts() {
    let elgamal = ElGamal::new(small_group());
    for _ in 0..50 {
        let sk = elgamal.gen_sk().unwrap();
        assert!(number(&sk) < BigUint::from(11u8));
        let pk = elgamal.gen_pk(sk.clone());
        let c = elgamal.enc(pk, small(9)).unwrap();
        assert_eq!(elgamal.dec(sk, c), Some(small(9)));
    }
}

#[test]
fn no_exponent_for_the_order_zero() {
    let group = Group { g: small(2), q: small(0), p: small(23) };
    assert_eq!(group.gen_random_exponent(), None);
    let elgamal = ElGamal::new(group);
    assert_eq!(elgamal.gen_sk(), None);
    assert_eq!(elgamal.enc(small(2), small(1)), None);
    assert_eq!(generate_random_safe_prime_group_element(small(0)), None);
}

#[test]
fn exponents_lie_below_the_order() {
    let group = common_group();
    let order = number(&group.q);
    for _ in 0..20 {
        assert!(number(&group.gen_random_exponent().unwrap()) < order);
    }
    let tiny = Group { g: small(1), q: small(1), p: small(3) };
    assert_eq!(tiny.gen_random_exponent(), Some(small(0)));
    assert_eq!(group.duplicate(), group);
}

#[test]
fn accept_exponent_compares_with_the_order() {
    assert_eq!(accept_exponent(small(10), &small(11)), Some(small(10)));
    assert_eq!(accept_exponent(small(11), &small(11)), None);
    assert_eq!(accept_exponent(small(300), &small(11)), None);
    assert_eq!(accept_exponent(small(0), &small(0)), None);
    assert_eq!(accept_exponent(small(255), &small(256)), Some(small(255)));
}

#[test]
fn element_from_sample_takes_the_root() {
    assert_eq!(element_from_sample(&small(10), &small(23)), Some(small(3)));
    assert_eq!(element_from_sample(&small(16), &small(23)), Some(small(4)));
    assert_eq!(element_from_sample(&small(0), &small(23)), Some(small(0)));
    assert_eq!(element_from_sample(&small(23), &small(23)), None);
    assert_eq!(element_from_sample(&small(1_000_000), &small(1_000_001)), Some(small(1000)));
}

#[test]
fn random_elements_are_small_roots() {
    let p = natural(PRIME);
    for _ in 0..10 {
        let h = number(&generate_random_safe_prime_group_element(p.clone()).unwrap());
        assert!(&h * &h < number(&p));
    }
    let elgamal = ElGamal::new(small_group());
    for _ in 0..50 {
        let h = number(&elgamal.o_gen_pk().unwrap());
        assert!(&h * &h < BigUint::from(23u8));
    }
}

#[test]
fn generated_primes_fit_their_size() {
    for _ in 0..5 {
        let prime = number(&generate_prime(16).unwrap());
        assert!(prime > BigUint::from(0u8));
        assert!(prime < BigUint::from(65536u32));
    }
    let prime = number(&generate_prime(200).unwrap());
    assert!(prime.bits() <= 200);
}

#[test]
fn generated_group_has_the_shape_of_a_safe_prime_group() {
    for group in [generate_safe_prime_group(12).unwrap(), Group::new(10).unwrap()] {
        let q = number(&group.q);
        let p = number(&group.p);
        let g = number(&group.g);
        assert_eq!(p, &q * 2u8 + 1u8);
        assert!(q < BigUint::from(4096u32));
        assert!(q > BigUint::from(0u8));
        assert!(g < p);
    }
}

#[test]
fn transfer_answers_every_place() {
    let group = small_group();
    let mut alice = Alice::new(group.clone());
    let mut bob = Bob::new(group.clone());
    let keys = alice.choose_keys(5).unwrap();
    assert_eq!(keys.len(), 8);
    for key in &keys {
        assert!(number(key) < BigUint::from(23u8));
    }
    let answers = bob.transfer(4, keys).unwrap();
    assert_eq!(answers.len(), 8);
    assert_eq!(alice.retrieve(answers), Some(1));
}

#[test]
fn transfer_entry_is_the_table() {
    let true_truth_table: [[u8; 8]; 8] = [
        [1, 0, 0, 0, 0, 0, 0, 0],
        [1, 1, 0, 0, 0, 0, 0, 0],
        [1, 0, 1, 0, 0, 0, 0, 0],
        [1, 1, 1, 1, 0, 0, 0, 0],
        [1, 0, 0, 0, 1, 0, 0, 0],
        [1, 1, 0, 0, 1, 1, 0, 0],
        [1, 0, 1, 0, 1, 0, 1, 0],
        [1, 1, 1, 1, 1, 1, 1, 1],
    ];
    let group = small_group();
    for i in 0..8u8 {
        for j in 0..8u8 {
            assert_eq!(transfer_entry(&group, i, j), Some(true_truth_table[i as usize][j as usize]));
        }
    }
    assert_eq!(transfer_entry(&common_group(), 6, 7), Some(0));
    assert_eq!(transfer_entry(&common_group(), 7, 6), Some(1));
    let modulo_one = Group { g: small(0), q: small(3), p: small(1) };
    assert_eq!(transfer_entry(&modulo_one, 7, 0), None);
}
