//! The two parties together: what a run of the protocol computes.
//!
//! A run is written down as a function on the states of the two parties.
//! Alice sends first in every round, Bob answers. The laws of this file hold
//! for every circuit and for whatever the dealer and the parties drew.
use crate::circuit::{
    compatibility_gates, count_ands, evaluate, input_wires, lemma_compatibility_circuit_decides,
    lemma_compatibility_gates_well_formed, lemma_count_ands_grows, lemma_evaluate_len, result,
    well_formed, Circuit, Gate, INPUT_WIRES,
};
use crate::dealer::{all_valid, halves, BeaverTriple, Role, TrustedDealer};
use crate::error::ProtocolError;
use crate::party::{lemma_settle, lemma_settle_wf, lemma_triple_left, Party, PartyState};
use crate::predicate::{attributes, compatible, lemma_table_is_predicate, table_entry};
use vstd::prelude::*;

verus! {

/// The states after each party has taken the other's input halves.
pub open spec fn exchange_inputs(alice: PartyState, bob: PartyState) -> (PartyState, PartyState) {
    (alice.after_receive_input_share(bob.outgoing), bob.after_receive_input_share(alice.outgoing))
}

/// The states after one round: Alice sends, Bob receives and answers, Alice
/// receives.
pub open spec fn play_round(alice: PartyState, bob: PartyState) -> (PartyState, PartyState) {
    let bob_heard = bob.after_receive(alice.message());
    let alice_sent = alice.after_send();
    (alice_sent.after_receive(bob_heard.message()), bob_heard.after_send())
}

/// Whether each party may take its steps of a round: Alice may send, Bob may
/// receive and then send, and Alice may receive once she has sent.
pub open spec fn can_play_round(alice: PartyState, bob: PartyState) -> bool {
    &&& alice.can_send()
    &&& bob.can_receive()
    &&& bob.after_receive(alice.message()).can_send()
    &&& alice.after_send().can_receive()
}

/// The states after an attempt at a round: those of `play_round` when each
/// party may take its steps, else the states at the first step that was
/// refused.
pub open spec fn attempt_round(alice: PartyState, bob: PartyState) -> (PartyState, PartyState) {
    let bob_heard = bob.after_receive(alice.message());
    if !alice.can_send() {
        (alice, bob)
    } else if !bob.can_receive() {
        (alice.after_send(), bob)
    } else if !bob_heard.can_send() {
        (alice.after_send(), bob_heard)
    } else if !alice.after_send().can_receive() {
        (alice.after_send(), bob_heard.after_send())
    } else {
        play_round(alice, bob)
    }
}

/// The states after `n` rounds.
pub open spec fn play_rounds(alice: PartyState, bob: PartyState, n: nat) -> (PartyState, PartyState)
    decreases n,
{
    if n == 0 {
        (alice, bob)
    } else {
        let before = play_rounds(alice, bob, (n - 1) as nat);
        play_round(before.0, before.1)
    }
}

/// The states after each party has taken the other's half of the last wire.
pub open spec fn exchange_outputs(alice: PartyState, bob: PartyState) -> (PartyState, PartyState) {
    (
        alice.after_receive_output_share(bob.output_share()),
        bob.after_receive_output_share(alice.output_share()),
    )
}

/// The number of rounds that a circuit takes: two for each AND gate.
pub open spec fn rounds_of(gates: Seq<Gate>) -> nat {
    2 * count_ands(gates, gates.len())
}

/// The states after a whole run: the exchange of the input halves, two rounds
/// for each AND gate, the exchange of the output halves.
pub open spec fn run(alice: PartyState, bob: PartyState) -> (PartyState, PartyState) {
    let shared = exchange_inputs(alice, bob);
    let played = play_rounds(shared.0, shared.1, rounds_of(alice.gates));
    exchange_outputs(played.0, played.1)
}

/// Whether two sequences of halves share the sequence `plain`, wire by wire.
pub open spec fn shares_of(own: Seq<bool>, peer: Seq<bool>, plain: Seq<bool>) -> bool {
    &&& own.len() == plain.len()
    &&& peer.len() == plain.len()
    &&& forall|k: int| 0 <= k < plain.len() ==> (own[k] ^ peer[k]) == plain[k]
}

/// Whether the two parties stand together at the start of round `n` of a run
/// on the given inputs: both have finished the same rounds, and their halves
/// of every wire so far share the value that the wire has in the clear.
pub open spec fn in_step(
    alice: PartyState,
    bob: PartyState,
    gates: Seq<Gate>,
    triples: Seq<BeaverTriple>,
    inputs: Seq<bool>,
    n: nat,
) -> bool {
    &&& alice.wf() && bob.wf()
    &&& alice.role == Role::Alice && bob.role == Role::Bob
    &&& alice.gates == gates && bob.gates == gates
    &&& alice.triples == halves(triples, Role::Alice) && bob.triples == halves(triples, Role::Bob)
    &&& alice.inputs_ready && bob.inputs_ready
    &&& !alice.sent && !alice.received && !bob.sent && !bob.received
    &&& alice.gate == bob.gate
    &&& alice.progress() == n && bob.progress() == n
    &&& alice.result.is_none() && bob.result.is_none()
    &&& shares_of(alice.wires, bob.wires, evaluate(gates, inputs, alice.gate))
    &&& alice.second ==> alice.peer_d == bob.d_own() && bob.peer_d == alice.d_own()
}

/// Settling keeps the parties together. When the halves of two parties
/// share the wires so far, they still do once each party has evaluated the
/// local gates that it stands before, and both parties stop at the same
/// place.
pub proof fn lemma_settle_keeps_shares(alice: PartyState, bob: PartyState, inputs: Seq<bool>)
    requires
        alice.role == Role::Alice,
        bob.role == Role::Bob,
        alice.gates == bob.gates,
        well_formed(alice.gates),
        alice.gate == bob.gate,
        alice.gate <= alice.gates.len(),
        inputs.len() == INPUT_WIRES,
        shares_of(alice.wires, bob.wires, evaluate(alice.gates, inputs, alice.gate)),
    ensures
        alice.settle().gate == bob.settle().gate,
        shares_of(
            alice.settle().wires,
            bob.settle().wires,
            evaluate(alice.gates, inputs, alice.settle().gate),
        ),
    decreases alice.gates.len() - alice.gate,
{
    let gates = alice.gates;
    if alice.gate < gates.len() && !gates[alice.gate as int].is_and() {
        let gate = gates[alice.gate as int];
        let plain = evaluate(gates, inputs, alice.gate);
        lemma_evaluate_len(gates, inputs, alice.gate);
        assert(gate.fits(alice.gate as int));
        let alice_next = PartyState {
            wires: alice.wires.push(alice.local_own(gate)),
            gate: alice.gate + 1,
            ..alice
        };
        let bob_next = PartyState {
            wires: bob.wires.push(bob.local_own(gate)),
            gate: bob.gate + 1,
            ..bob
        };
        let after = evaluate(gates, inputs, alice.gate + 1);
        assert(after == plain.push(gate.output(plain)));
        assert((alice.local_own(gate) ^ bob.local_own(gate)) == gate.output(plain));
        assert(shares_of(alice_next.wires, bob_next.wires, after));
        lemma_settle_keeps_shares(alice_next, bob_next, inputs);
    }
}

/// Once the input halves are exchanged, the parties stand together at the
/// start of the first round.
pub proof fn lemma_inputs_shared(
    gates: Seq<Gate>,
    triples: Seq<BeaverTriple>,
    alice_input: (bool, bool, bool),
    bob_input: (bool, bool, bool),
    alice_kept: (bool, bool, bool),
    bob_kept: (bool, bool, bool),
)
    requires
        well_formed(gates),
        triples.len() >= count_ands(gates, gates.len()),
    ensures
        ({
            let alice = PartyState::initial(
                Role::Alice,
                gates,
                halves(triples, Role::Alice),
                alice_input,
                alice_kept,
            );
            let bob = PartyState::initial(
                Role::Bob,
                gates,
                halves(triples, Role::Bob),
                bob_input,
                bob_kept,
            );
            let shared = exchange_inputs(alice, bob);
            in_step(shared.0, shared.1, gates, triples, input_wires(alice_input, bob_input), 0)
        }),
{
    let alice = PartyState::initial(
        Role::Alice,
        gates,
        halves(triples, Role::Alice),
        alice_input,
        alice_kept,
    );
    let bob = PartyState::initial(Role::Bob, gates, halves(triples, Role::Bob), bob_input, bob_kept);
    let inputs = input_wires(alice_input, bob_input);
    let alice_ready = PartyState {
        wires: seq![
            alice.kept.0,
            alice.kept.1,
            alice.kept.2,
            bob.outgoing.0,
            bob.outgoing.1,
            bob.outgoing.2,
        ],
        inputs_ready: true,
        ..alice
    };
    let bob_ready = PartyState {
        wires: seq![
            alice.outgoing.0,
            alice.outgoing.1,
            alice.outgoing.2,
            bob.kept.0,
            bob.kept.1,
            bob.kept.2,
        ],
        inputs_ready: true,
        ..bob
    };
    assert(shares_of(alice_ready.wires, bob_ready.wires, evaluate(gates, inputs, 0)));
    lemma_settle_keeps_shares(alice_ready, bob_ready, inputs);
    lemma_settle(alice_ready);
    lemma_settle(bob_ready);
    lemma_settle_wf(alice_ready);
    lemma_settle_wf(bob_ready);
}

/// A round keeps the parties together: from the start of round `n` it takes
/// them to the start of round `n + 1`.
pub proof fn lemma_round_keeps_step(
    alice: PartyState,
    bob: PartyState,
    gates: Seq<Gate>,
    triples: Seq<BeaverTriple>,
    inputs: Seq<bool>,
    n: nat,
)
    requires
        in_step(alice, bob, gates, triples, inputs, n),
        all_valid(triples),
        inputs.len() == INPUT_WIRES,
        n < rounds_of(gates),
    ensures
        can_play_round(alice, bob),
        in_step(play_round(alice, bob).0, play_round(alice, bob).1, gates, triples, inputs, n + 1),
{
    let g = alice.gate as int;
    let t = alice.ands_done as int;
    assert(alice.gate < gates.len());
    lemma_triple_left(alice);
    lemma_triple_left(bob);
    let gate = gates[g];
    let plain = evaluate(gates, inputs, alice.gate);
    lemma_evaluate_len(gates, inputs, alice.gate);
    assert(gate.fits(g));
    assert(triples[t].valid());
    assert(alice.triple() == triples[t].alice);
    assert(bob.triple() == triples[t].bob);
    assert((alice.left_own() ^ bob.left_own()) == plain[gate->And_left as int]);
    assert((alice.right_own() ^ bob.right_own()) == plain[gate->And_right as int]);
    let next = play_round(alice, bob);
    if alice.second {
        let after = evaluate(gates, inputs, (alice.gate + 1) as nat);
        assert(after == plain.push(gate.output(plain)));
        let bob_heard = bob.after_receive(alice.message());
        let alice_heard = PartyState {
            sent: true,
            received: true,
            peer_e: bob_heard.message(),
            ..alice
        };
        assert(alice_heard.peer_e == bob.e_own());
        assert(bob_heard.peer_e == alice.e_own());
        assert((alice_heard.product_own() ^ bob_heard.product_own()) == gate.output(plain));
        let alice_pushed = PartyState {
            wires: alice.wires.push(alice_heard.product_own()),
            gate: alice.gate + 1,
            ands_done: alice.ands_done + 1,
            second: false,
            sent: false,
            received: false,
            ..alice_heard
        };
        let bob_pushed = PartyState {
            wires: bob.wires.push(bob_heard.product_own()),
            gate: bob.gate + 1,
            ands_done: bob.ands_done + 1,
            second: false,
            sent: false,
            received: false,
            ..bob_heard
        };
        assert(next.0 == alice_pushed.settle());
        assert(next.1 == bob_pushed.settle());
        assert(shares_of(alice_pushed.wires, bob_pushed.wires, after));
        lemma_settle_keeps_shares(alice_pushed, bob_pushed, inputs);
        lemma_settle(alice_pushed);
        lemma_settle(bob_pushed);
        lemma_settle_wf(alice_pushed);
        lemma_settle_wf(bob_pushed);
    }
}

/// Rounds keep the parties together: `n` rounds take them from the start of
/// the first round to the start of round `n`.
pub proof fn lemma_rounds_keep_step(
    alice: PartyState,
    bob: PartyState,
    gates: Seq<Gate>,
    triples: Seq<BeaverTriple>,
    inputs: Seq<bool>,
    n: nat,
)
    requires
        in_step(alice, bob, gates, triples, inputs, 0),
        all_valid(triples),
        inputs.len() == INPUT_WIRES,
        n <= rounds_of(gates),
    ensures
        in_step(
            play_rounds(alice, bob, n).0,
            play_rounds(alice, bob, n).1,
            gates,
            triples,
            inputs,
            n,
        ),
    decreases n,
{
    if n > 0 {
        lemma_rounds_keep_step(alice, bob, gates, triples, inputs, (n - 1) as nat);
        let before = play_rounds(alice, bob, (n - 1) as nat);
        lemma_round_keeps_step(before.0, before.1, gates, triples, inputs, (n - 1) as nat);
    }
}

/// A run of the protocol computes the circuit. For every well-formed
/// circuit, all inputs, all valid triples and all choices of the halves that
/// the parties keep, a whole run takes two rounds for each AND gate and leaves
/// both parties with the result that the circuit has in the clear.
pub proof fn lemma_run_computes_circuit(
    gates: Seq<Gate>,
    triples: Seq<BeaverTriple>,
    alice_input: (bool, bool, bool),
    bob_input: (bool, bool, bool),
    alice_kept: (bool, bool, bool),
    bob_kept: (bool, bool, bool),
)
    requires
        well_formed(gates),
        triples.len() >= count_ands(gates, gates.len()),
        all_valid(triples),
    ensures
        ({
            let alice = PartyState::initial(
                Role::Alice,
                gates,
                halves(triples, Role::Alice),
                alice_input,
                alice_kept,
            );
            let bob = PartyState::initial(
                Role::Bob,
                gates,
                halves(triples, Role::Bob),
                bob_input,
                bob_kept,
            );
            let done = run(alice, bob);
            let plain = result(gates, input_wires(alice_input, bob_input));
            &&& done.0.wf() && done.1.wf()
            &&& done.0.progress() == rounds_of(gates) && done.1.progress() == rounds_of(gates)
            &&& done.0.result matches Some(pair) && pair.secret() == plain
            &&& done.1.result matches Some(pair) && pair.secret() == plain
        }),
{
    let alice = PartyState::initial(
        Role::Alice,
        gates,
        halves(triples, Role::Alice),
        alice_input,
        alice_kept,
    );
    let bob = PartyState::initial(Role::Bob, gates, halves(triples, Role::Bob), bob_input, bob_kept);
    let inputs = input_wires(alice_input, bob_input);
    let shared = exchange_inputs(alice, bob);
    lemma_inputs_shared(gates, triples, alice_input, bob_input, alice_kept, bob_kept);
    lemma_rounds_keep_step(shared.0, shared.1, gates, triples, inputs, rounds_of(gates));
    let played = play_rounds(shared.0, shared.1, rounds_of(gates));
    lemma_all_rounds_finish(played.0);
    lemma_all_rounds_finish(played.1);
    lemma_evaluate_len(gates, inputs, gates.len());
    let plain = evaluate(gates, inputs, gates.len());
    assert((played.0.wires[plain.len() - 1] ^ played.1.wires[plain.len() - 1]) == plain[plain.len()
        - 1]);
}

/// A party that has played all rounds of its circuit has evaluated every
/// gate.
pub proof fn lemma_all_rounds_finish(party: PartyState)
    requires
        party.wf(),
        party.inputs_ready,
        party.progress() >= rounds_of(party.gates),
    ensures
        party.finished(),
        party.progress() == rounds_of(party.gates),
{
    lemma_count_ands_grows(party.gates, party.gate, party.gates.len());
    if party.gate < party.gates.len() {
        lemma_triple_left(party);
    }
}

/// A run on the compatibility circuit gives the entry of the truth table.
/// For all blood types `i` of the donor and `j` of the recipient, five valid
/// triples and all choices of the halves that the parties keep, both parties
/// end with the result 1 where the table has 1 and 0 where it has 0.
pub proof fn lemma_run_gives_table_entry(
    i: u8,
    j: u8,
    triples: Seq<BeaverTriple>,
    alice_kept: (bool, bool, bool),
    bob_kept: (bool, bool, bool),
)
    requires
        i < 8,
        j < 8,
        triples.len() >= 5,
        all_valid(triples),
    ensures
        ({
            let alice = PartyState::initial(
                Role::Alice,
                compatibility_gates(),
                halves(triples, Role::Alice),
                attributes(i),
                alice_kept,
            );
            let bob = PartyState::initial(
                Role::Bob,
                compatibility_gates(),
                halves(triples, Role::Bob),
                attributes(j),
                bob_kept,
            );
            let done = run(alice, bob);
            &&& done.0.progress() == 10 && done.1.progress() == 10
            &&& done.0.result matches Some(pair) && (pair.secret() <==> table_entry(i, j) == 1)
            &&& done.1.result matches Some(pair) && (pair.secret() <==> table_entry(i, j) == 1)
        }),
{
    lemma_compatibility_gates_well_formed();
    lemma_run_computes_circuit(
        compatibility_gates(),
        triples,
        attributes(i),
        attributes(j),
        alice_kept,
        bob_kept,
    );
    lemma_compatibility_circuit_decides(attributes(i), attributes(j));
    lemma_table_is_predicate(i, j);
}

/// No message after the last round: a party that has finished the rounds of
/// its circuit can neither send nor receive.
pub proof fn lemma_no_round_after_the_last(party: PartyState)
    requires
        party.wf(),
        party.progress() >= rounds_of(party.gates),
    ensures
        !party.can_send(),
        !party.can_receive(),
{
    if party.inputs_ready {
        lemma_all_rounds_finish(party);
    }
}

/// Plays one round between two parties in memory: Alice sends, Bob receives
/// and answers, Alice receives. Fails at the first step that a party
/// refuses, with the parties as far as they got.
pub fn exchange_round(alice: &mut Party, bob: &mut Party) -> (out: Result<(), ProtocolError>)
    requires
        old(alice).wf(),
        old(bob).wf(),
    ensures
        final(alice).wf(),
        final(bob).wf(),
        (final(alice)@, final(bob)@) == attempt_round(old(alice)@, old(bob)@),
        can_play_round(old(alice)@, old(bob)@) ==> out.is_ok() && (final(alice)@, final(bob)@)
            == play_round(old(alice)@, old(bob)@),
        !can_play_round(old(alice)@, old(bob)@) ==> out == Err::<(), ProtocolError>(
            ProtocolError::ProtocolSequenceViolation,
        ),
{
    let from_alice = match alice.send() {
        Ok(bit) => bit,
        Err(e) => {
            return Err(e);
        },
    };
    match bob.receive(from_alice) {
        Ok(()) => {},
        Err(e) => {
            return Err(e);
        },
    }
    let from_bob = match bob.send() {
        Ok(bit) => bit,
        Err(e) => {
            return Err(e);
        },
    };
    alice.receive(from_bob)
}

/// Runs the whole protocol in memory on the compatibility circuit, with a
/// fresh dealer: whether the donor with blood type `donor` suits the
/// recipient with blood type `recipient`. Whatever the dealer and the parties
/// draw, the run succeeds and gives the value of the predicate.
pub fn decide_compatibility(donor: u8, recipient: u8) -> (out: Result<bool, ProtocolError>)
    ensures
        out == Ok::<bool, ProtocolError>(compatible(attributes(donor), attributes(recipient))),
{
    let circuit = Circuit::compatibility();
    let mut dealer = TrustedDealer::new();
    dealer.init(circuit.num_and_gates());
    let ghost gates = compatibility_gates();
    let ghost triples = dealer@;
    let ghost inputs = input_wires(attributes(donor), attributes(recipient));
    let mut alice = match Party::init(Role::Alice, circuit, donor, dealer.rand_a()) {
        Ok(party) => party,
        Err(e) => {
            return Err(e);
        },
    };
    let mut bob = match Party::init(Role::Bob, Circuit::compatibility(), recipient, dealer.rand_b()) {
        Ok(party) => party,
        Err(e) => {
            return Err(e);
        },
    };
    proof {
        lemma_compatibility_gates_well_formed();
        let alice_kept = choose|kept: (bool, bool, bool)|
            alice@ == PartyState::initial(
                Role::Alice,
                gates,
                halves(triples, Role::Alice),
                attributes(donor),
                kept,
            );
        let bob_kept = choose|kept: (bool, bool, bool)|
            bob@ == PartyState::initial(
                Role::Bob,
                gates,
                halves(triples, Role::Bob),
                attributes(recipient),
                kept,
            );
        lemma_inputs_shared(
            gates,
            triples,
            attributes(donor),
            attributes(recipient),
            alice_kept,
            bob_kept,
        );
    }
    let to_bob = alice.send_input_share();
    let to_alice = bob.send_input_share();
    match bob.receive_input_share(to_bob) {
        Ok(()) => {},
        Err(e) => {
            return Err(e);
        },
    }
    match alice.receive_input_share(to_alice) {
        Ok(()) => {},
        Err(e) => {
            return Err(e);
        },
    }
    let mut round: usize = 0;
    while round < 10
        invariant
            round <= 10,
            gates == compatibility_gates(),
            all_valid(triples),
            inputs.len() == INPUT_WIRES,
            alice.wf(),
            bob.wf(),
            in_step(alice@, bob@, gates, triples, inputs, round as nat),
        decreases 10 - round,
    {
        proof {
            lemma_compatibility_gates_well_formed();
            lemma_round_keeps_step(alice@, bob@, gates, triples, inputs, round as nat);
        }
        match exchange_round(&mut alice, &mut bob) {
            Ok(()) => {},
            Err(e) => {
                return Err(e);
            },
        }
        round += 1;
    }
    proof {
        lemma_compatibility_gates_well_formed();
        lemma_all_rounds_finish(alice@);
        lemma_all_rounds_finish(bob@);
        lemma_evaluate_len(gates, inputs, 11);
        lemma_compatibility_circuit_decides(attributes(donor), attributes(recipient));
        let plain = evaluate(gates, inputs, 11);
        assert((alice@.wires[16] ^ bob@.wires[16]) == plain[16]);
    }
    let from_bob = match bob.send_output_share() {
        Ok(bit) => bit,
        Err(e) => {
            return Err(e);
        },
    };
    match alice.receive_output_share(from_bob) {
        Ok(()) => {},
        Err(e) => {
            return Err(e);
        },
    }
    alice.output()
}

} // verus!
