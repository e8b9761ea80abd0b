use blood_compat::circuit::{Circuit, Gate};
use blood_compat::dealer::{BeaverTriple, Role, TripleShare, TrustedDealer};
use blood_compat::error::ProtocolError;
use blood_compat::party::Party;
use blood_compat::protocol::{decide_compatibility, exchange_round};

const TRUE_TRUTH_TABLE: [[u8; 8]; 8] = [
    [1, 0, 0, 0, 0, 0, 0, 0],
    [1, 1, 0, 0, 0, 0, 0, 0],
    [1, 0, 1, 0, 0, 0, 0, 0],
    [1, 1, 1, 1, 0, 0, 0, 0],
    [1, 0, 0, 0, 1, 0, 0, 0],
    [1, 1, 0, 0, 1, 1, 0, 0],
    [1, 0, 1, 0, 1, 0, 1, 0],
    [1, 1, 1, 1, 1, 1, 1, 1],
];

fn fresh_parties(i: u8, j: u8) -> (Party, Party) {
    let mut dealer = TrustedDealer::new();
    dealer.init(5);
    let alice = Party::init(Role::Alice, Circuit::compatibility(), i, dealer.rand_a()).unwrap();
    let bob = Party::init(Role::Bob, Circuit::compatibility(), j, dealer.rand_b()).unwrap();
    (alice, bob)
}

fn finished_parties(i: u8, j: u8) -> (Party, Party) {
    let (mut alice, mut bob) = fresh_parties(i, j);
    bob.receive_input_share(alice.send_input_share()).unwrap();
    alice.receive_input_share(bob.send_input_share()).unwrap();
    for _ in 0..10 {
        bob.receive(alice.send().unwrap()).unwrap();
        alice.receive(bob.send().unwrap()).unwrap();
    }
    (alice, bob)
}

fn fixed_triples() -> Vec<BeaverTriple> {
    vec![
        BeaverTriple::from_bits(true, false, true, true, false),
        BeaverTriple::from_bits(true, true, false, true, true),
        BeaverTriple::from_bits(false, true, true, false, true),
        BeaverTriple::from_bits(true, true, true, true, true),
        BeaverTriple::from_bits(false, false, false, true, false),
    ]
}

#[test]
fn week_3_tests_it_works() {
    let mut calculated_truth_table: [[u8; 8]; 8] = [[2; 8]; 8];

    let mut dealer = TrustedDealer::new();

    for i in 0..8 {
        for j in 0..8 {
            dealer.init(5);
            let mut alice =
                Party::init(Role::Alice, Circuit::compatibility(), i, dealer.rand_a()).unwrap();
            let mut bob =
                Party::init(Role::Bob, Circuit::compatibility(), j, dealer.rand_b()).unwrap();
            bob.receive_input_share(alice.send_input_share()).unwrap();
            alice.receive_input_share(bob.send_input_share()).unwrap();
            while !alice.is_finished() {
                bob.receive(alice.send().unwrap()).unwrap();
                alice.receive(bob.send().unwrap()).unwrap();
            }
            alice.receive_output_share(bob.send_output_share().unwrap()).unwrap();
            assert!(alice.has_output());
            let z = alice.output().unwrap();
            calculated_truth_table[i as usize][j as usize] = u8::from(z);
        }
    }

    for i in 0..8 {
        for j in 0..8 {
            assert_eq!(
                calculated_truth_table[i as usize][j as usize],
                TRUE_TRUTH_TABLE[i as usize][j as usize]
            );
        }
    }

    println!("All tests passed successfully!")
}

#[test]
fn example_pair_is_incompatible() {
    let (mut alice, mut bob) = finished_parties(0b110, 0b111);
    alice.receive_output_share(bob.send_output_share().unwrap()).unwrap();
    bob.receive_output_share(alice.send_output_share().unwrap()).unwrap();
    assert_eq!(alice.output(), Ok(false));
    assert_eq!(bob.output(), Ok(false));
}

#[test]
fn both_parties_learn_the_entry() {
    for i in 0..8u8 {
        for j in 0..8u8 {
            let (mut alice, mut bob) = finished_parties(i, j);
            alice.receive_output_share(bob.send_output_share().unwrap()).unwrap();
            bob.receive_output_share(alice.send_output_share().unwrap()).unwrap();
            let expected = TRUE_TRUTH_TABLE[i as usize][j as usize] == 1;
            assert_eq!(alice.output(), Ok(expected));
            assert_eq!(bob.output(), Ok(expected));
        }
    }
}

#[test]
fn decide_compatibility_is_the_table() {
    for i in 0..8u8 {
        for j in 0..8u8 {
            assert_eq!(decide_compatibility(i, j), Ok(TRUE_TRUTH_TABLE[i as usize][j as usize] == 1));
        }
    }
}

#[test]
fn transcript_with_fixed_draws() {
    let triples = fixed_triples();
    let for_alice: Vec<TripleShare> = triples.iter().map(|t| t.alice).collect();
    let for_bob: Vec<TripleShare> = triples.iter().map(|t| t.bob).collect();
    let mut alice = Party::with_halves(
        Role::Alice,
        Circuit::compatibility(),
        0b110,
        (true, false, true),
        for_alice,
    )
    .unwrap();
    let mut bob =
        Party::with_halves(Role::Bob, Circuit::compatibility(), 0b111, (false, true, true), for_bob)
            .unwrap();
    assert_eq!(alice.role(), Role::Alice);
    assert_eq!(bob.role(), Role::Bob);
    assert_eq!(alice.send_input_share(), (false, true, true));
    assert_eq!(bob.send_input_share(), (true, false, false));
    bob.receive_input_share(alice.send_input_share()).unwrap();
    alice.receive_input_share(bob.send_input_share()).unwrap();
    let expected_alice = [true, false, true, true, false, false, true, true, true, true];
    let expected_bob = [false, true, false, true, true, false, true, true, false, true];
    for round in 0..10 {
        let from_alice = alice.send().unwrap();
        assert_eq!(from_alice, expected_alice[round], "Alice, round {}", round);
        bob.receive(from_alice).unwrap();
        let from_bob = bob.send().unwrap();
        assert_eq!(from_bob, expected_bob[round], "Bob, round {}", round);
        alice.receive(from_bob).unwrap();
    }
    assert_eq!(alice.send_output_share(), Ok(false));
    assert_eq!(bob.send_output_share(), Ok(false));
    alice.receive_output_share(false).unwrap();
    assert_eq!(alice.output(), Ok(false));
}

#[test]
fn eleventh_message_is_refused() {
    let (mut alice, mut bob) = finished_parties(3, 5);
    assert!(alice.is_finished());
    assert!(bob.is_finished());
    assert_eq!(alice.progress(), 10);
    assert_eq!(bob.progress(), 10);
    assert_eq!(alice.send(), Err(ProtocolError::ProtocolSequenceViolation));
    assert_eq!(alice.receive(true), Err(ProtocolError::ProtocolSequenceViolation));
    assert_eq!(bob.send(), Err(ProtocolError::ProtocolSequenceViolation));
    assert_eq!(bob.receive(false), Err(ProtocolError::ProtocolSequenceViolation));
    assert_eq!(exchange_round(&mut alice, &mut bob), Err(ProtocolError::ProtocolSequenceViolation));
    alice.receive_output_share(bob.send_output_share().unwrap()).unwrap();
    assert_eq!(alice.output(), Ok(TRUE_TRUTH_TABLE[3][5] == 1));
}

#[test]
fn second_message_in_a_round_is_refused() {
    let (mut alice, mut bob) = fresh_parties(1, 2);
    bob.receive_input_share(alice.send_input_share()).unwrap();
    alice.receive_input_share(bob.send_input_share()).unwrap();
    let first = alice.send().unwrap();
    assert_eq!(alice.send(), Err(ProtocolError::ProtocolSequenceViolation));
    bob.receive(first).unwrap();
    assert_eq!(bob.receive(first), Err(ProtocolError::ProtocolSequenceViolation));
    alice.receive(bob.send().unwrap()).unwrap();
    assert!(alice.send().is_ok());
}

#[test]
fn no_round_before_the_inputs_are_shared() {
    let (mut alice, mut bob) = fresh_parties(1, 2);
    assert_eq!(alice.send(), Err(ProtocolError::ProtocolSequenceViolation));
    assert_eq!(bob.receive(true), Err(ProtocolError::ProtocolSequenceViolation));
    assert_eq!(alice.send_output_share(), Err(ProtocolError::ProtocolSequenceViolation));
    assert!(!alice.is_finished());
    bob.receive_input_share(alice.send_input_share()).unwrap();
    assert_eq!(
        bob.receive_input_share((true, true, true)),
        Err(ProtocolError::ProtocolSequenceViolation)
    );
}

#[test]
fn output_before_the_end_is_refused() {
    let (mut alice, mut bob) = fresh_parties(7, 0);
    assert!(!alice.has_output());
    assert_eq!(alice.output(), Err(ProtocolError::ProtocolSequenceViolation));
    assert_eq!(alice.receive_output_share(true), Err(ProtocolError::ProtocolSequenceViolation));
    bob.receive_input_share(alice.send_input_share()).unwrap();
    alice.receive_input_share(bob.send_input_share()).unwrap();
    for _ in 0..9 {
        exchange_round(&mut alice, &mut bob).unwrap();
    }
    assert_eq!(alice.output(), Err(ProtocolError::ProtocolSequenceViolation));
    assert_eq!(alice.send_output_share(), Err(ProtocolError::ProtocolSequenceViolation));
    exchange_round(&mut alice, &mut bob).unwrap();
    assert!(!alice.has_output());
    assert_eq!(alice.output(), Err(ProtocolError::ProtocolSequenceViolation));
    alice.receive_output_share(bob.send_output_share().unwrap()).unwrap();
    assert!(alice.has_output());
    assert_eq!(alice.output(), Ok(true));
    assert_eq!(alice.receive_output_share(true), Err(ProtocolError::ProtocolSequenceViolation));
    assert_eq!(alice.output(), Ok(true));
}

#[test]
fn output_can_be_read_again_and_again() {
    for (i, j) in [(0u8, 0u8), (6, 7), (5, 4), (2, 3)] {
        let (mut alice, bob) = finished_parties(i, j);
        alice.receive_output_share(bob.send_output_share().unwrap()).unwrap();
        let first = alice.output();
        for _ in 0..5 {
            assert_eq!(alice.output(), first);
            assert!(alice.has_output());
        }
        assert_eq!(first, Ok(TRUE_TRUTH_TABLE[i as usize][j as usize] == 1));
    }
}

#[test]
fn too_few_triples_are_refused() {
    let mut dealer = TrustedDealer::new();
    dealer.init(4);
    let refused = Party::init(Role::Alice, Circuit::compatibility(), 3, dealer.rand_a());
    assert!(matches!(refused, Err(ProtocolError::DealerExhaustion)));
    let refused =
        Party::with_halves(Role::Bob, Circuit::compatibility(), 3, (true, true, true), Vec::new());
    assert!(matches!(refused, Err(ProtocolError::DealerExhaustion)));
    dealer.init(6);
    assert!(Party::init(Role::Alice, Circuit::compatibility(), 3, dealer.rand_a()).is_ok());
}

#[test]
fn circuit_rejects_a_gate_that_reads_ahead() {
    assert!(Circuit::new(vec![Gate::And { left: 0, right: 6 }]).is_none());
    assert!(Circuit::new(vec![Gate::Not { input: 6 }]).is_none());
    assert!(Circuit::new(vec![Gate::Xor { left: 6, right: 0 }]).is_none());
    assert!(Circuit::new(vec![Gate::And { left: 0, right: 5 }, Gate::Not { input: 8 }]).is_none());
    assert!(Circuit::new(vec![Gate::And { left: 0, right: 5 }, Gate::Xor { left: 6, right: 6 }])
        .is_some());
    assert!(Circuit::new(Vec::new()).is_some());
}

#[test]
fn circuit_counts_its_and_gates() {
    let circuit = Circuit::compatibility();
    assert_eq!(circuit.len(), 11);
    assert_eq!(circuit.num_and_gates(), 5);
    assert_eq!(circuit.gate(0), Gate::Not { input: 0 });
    assert_eq!(circuit.gate(1), Gate::And { left: 6, right: 3 });
    assert_eq!(circuit.gate(10), Gate::And { left: 12, right: 15 });
    assert!(Gate::And { left: 0, right: 1 }.needs_triple());
    assert!(!Gate::Xor { left: 0, right: 1 }.needs_triple());
    assert!(!Gate::Not { input: 0 }.needs_triple());
    assert!(Gate::Not { input: 6 }.fits_at(1));
    assert!(!Gate::Not { input: 6 }.fits_at(0));
    let mixed = Circuit::new(vec![
        Gate::Xor { left: 0, right: 3 },
        Gate::And { left: 6, right: 1 },
        Gate::Not { input: 7 },
    ])
    .unwrap();
    assert_eq!(mixed.len(), 3);
    assert_eq!(mixed.num_and_gates(), 1);
    assert_eq!(Circuit::new(Vec::new()).unwrap().num_and_gates(), 0);
}

fn evaluate_jointly(gates: Vec<Gate>, i: u8, j: u8) -> (bool, usize) {
    let ands = Circuit::new(gates.clone()).unwrap().num_and_gates();
    let mut dealer = TrustedDealer::new();
    dealer.init(ands);
    let mut alice =
        Party::init(Role::Alice, Circuit::new(gates.clone()).unwrap(), i, dealer.rand_a()).unwrap();
    let mut bob = Party::init(Role::Bob, Circuit::new(gates).unwrap(), j, dealer.rand_b()).unwrap();
    bob.receive_input_share(alice.send_input_share()).unwrap();
    alice.receive_input_share(bob.send_input_share()).unwrap();
    let mut rounds = 0;
    while !alice.is_finished() {
        exchange_round(&mut alice, &mut bob).unwrap();
        rounds += 1;
    }
    assert!(bob.is_finished());
    alice.receive_output_share(bob.send_output_share().unwrap()).unwrap();
    bob.receive_output_share(alice.send_output_share().unwrap()).unwrap();
    assert_eq!(alice.output(), bob.output());
    (alice.output().unwrap(), rounds)
}

#[test]
fn a_plain_and_gate_multiplies() {
    for bits in 0..4u8 {
        let x = bits & 1 != 0;
        let y = bits & 2 != 0;
        let gates = vec![Gate::And { left: 0, right: 3 }];
        let out = evaluate_jointly(gates, if x { 4 } else { 0 }, if y { 4 } else { 0 });
        assert_eq!(out, (x & y, 2));
    }
}

#[test]
fn local_gates_take_no_round() {
    for i in 0..8u8 {
        for j in 0..8u8 {
            let a = i & 4 != 0;
            let b = j & 4 != 0;
            let r = j & 1 != 0;
            let xor = vec![Gate::Xor { left: 0, right: 3 }];
            assert_eq!(evaluate_jointly(xor, i, j), (a ^ b, 0));
            let not = vec![Gate::Not { input: 5 }, Gate::Not { input: 6 }, Gate::Not { input: 7 }];
            assert_eq!(evaluate_jointly(not, i, j), (!r, 0));
            assert_eq!(evaluate_jointly(Vec::new(), i, j), (r, 0));
        }
    }
}

#[test]
fn a_mixed_circuit_is_evaluated_gate_by_gate() {
    // (a_alice xor a_bob) and not (b_alice and b_bob)
    let gates = vec![
        Gate::Xor { left: 0, right: 3 },
        Gate::And { left: 1, right: 4 },
        Gate::Not { input: 7 },
        Gate::And { left: 6, right: 8 },
    ];
    for i in 0..8u8 {
        for j in 0..8u8 {
            let expected = ((i & 4 != 0) ^ (j & 4 != 0)) & !((i & 2 != 0) & (j & 2 != 0));
            assert_eq!(evaluate_jointly(gates.clone(), i, j), (expected, 4));
        }
    }
}

#[test]
fn messages_look_uniform_whatever_the_inputs() {
    for (i, j) in [(0u8, 0u8), (6, 7), (7, 0)] {
        let mut ones_from_alice = [0u32; 10];
        let mut ones_from_bob = [0u32; 10];
        for _ in 0..2_000 {
            let (mut alice, mut bob) = fresh_parties(i, j);
            bob.receive_input_share(alice.send_input_share()).unwrap();
            alice.receive_input_share(bob.send_input_share()).unwrap();
            for round in 0..10 {
                let from_alice = alice.send().unwrap();
                bob.receive(from_alice).unwrap();
                let from_bob = bob.send().unwrap();
                alice.receive(from_bob).unwrap();
                ones_from_alice[round] += u32::from(from_alice);
                ones_from_bob[round] += u32::from(from_bob);
            }
        }
        for round in 0..10 {
            assert!((800..=1_200).contains(&ones_from_alice[round]), "Alice, round {}", round);
            assert!((800..=1_200).contains(&ones_from_bob[round]), "Bob, round {}", round);
        }
    }
}

#[test]
fn progress_grows_by_one_a_round() {
    let (mut alice, mut bob) = fresh_parties(5, 1);
    assert_eq!(alice.progress(), 0);
    bob.receive_input_share(alice.send_input_share()).unwrap();
    alice.receive_input_share(bob.send_input_share()).unwrap();
    assert_eq!(alice.progress(), 0);
    for round in 0..10 {
        assert_eq!(alice.progress(), round);
        assert_eq!(bob.progress(), round);
        let from_alice = alice.send().unwrap();
        assert_eq!(alice.progress(), round);
        bob.receive(from_alice).unwrap();
        assert_eq!(bob.progress(), round);
        let from_bob = bob.send().unwrap();
        assert_eq!(bob.progress(), round + 1);
        alice.receive(from_bob).unwrap();
        assert_eq!(alice.progress(), round + 1);
        assert_eq!(alice.is_finished(), round == 9);
    }
    assert_eq!(alice.send(), Err(ProtocolError::ProtocolSequenceViolation));
    assert_eq!(alice.progress(), 10);
}
