//! One party of the protocol: a state machine that evaluates a circuit on
//! shared wires, one message a round.
//!
//! A party evaluates exclusive or and negation on its own, as soon as their
//! inputs are there. Each AND gate takes two rounds. In the first the parties
//! open the masked left input `d`, in the second the masked right input `e`;
//! a round is over when the party has both sent its half and received the
//! other's. When the last gate is done the parties exchange their halves of
//! the last wire.
use crate::circuit::{count_ands, lemma_count_ands_grows, well_formed, Circuit, Gate, INPUT_WIRES};
use crate::dealer::{Role, TripleShare};
use crate::error::ProtocolError;
use crate::predicate::{attributes, translate_input};
use crate::random::random_bit;
use crate::share::SecretSharingPair;
use vstd::prelude::*;

verus! {

/// The state of a party as a mathematical value.
pub struct PartyState {
    /// The side that the party plays.
    pub role: Role,
    /// The gates of the circuit.
    pub gates: Seq<Gate>,
    /// The party's halves of the triples, one for each AND gate.
    pub triples: Seq<TripleShare>,
    /// The party's halves of the wires known so far; empty until the other
    /// party's input halves have arrived.
    pub wires: Seq<bool>,
    /// The halves of its own inputs that the party keeps.
    pub kept: (bool, bool, bool),
    /// The halves of its own inputs that go to the other party.
    pub outgoing: (bool, bool, bool),
    /// Whether the other party's input halves have arrived.
    pub inputs_ready: bool,
    /// The place of the AND gate that is being evaluated; the number of gates
    /// when all are done.
    pub gate: nat,
    /// The number of AND gates that are done.
    pub ands_done: nat,
    /// Whether the AND gate that is being evaluated is in its second round.
    pub second: bool,
    /// Whether the party has sent its message of the round.
    pub sent: bool,
    /// Whether the party has received the message of the round.
    pub received: bool,
    /// The other party's half of `d`, once received.
    pub peer_d: bool,
    /// The other party's half of `e`, once received.
    pub peer_e: bool,
    /// The last wire with both halves, once the other half has arrived.
    pub result: Option<SecretSharingPair>,
}

impl PartyState {
    /// The state of a party that has shared its inputs and heard nothing yet.
    pub open spec fn initial(
        role: Role,
        gates: Seq<Gate>,
        triples: Seq<TripleShare>,
        input: (bool, bool, bool),
        kept: (bool, bool, bool),
    ) -> PartyState {
        PartyState {
            role,
            gates,
            triples,
            wires: Seq::empty(),
            kept,
            outgoing: (input.0 ^ kept.0, input.1 ^ kept.1, input.2 ^ kept.2),
            inputs_ready: false,
            gate: 0,
            ands_done: 0,
            second: false,
            sent: false,
            received: false,
            peer_d: false,
            peer_e: false,
            result: None,
        }
    }

    /// The invariant but for one thing: the party may still stand before a
    /// local gate.
    pub open spec fn wf_unsettled(self) -> bool {
        &&& well_formed(self.gates)
        &&& self.triples.len() >= count_ands(self.gates, self.gates.len())
        &&& self.gate <= self.gates.len()
        &&& self.inputs_ready ==> self.wires.len() == INPUT_WIRES + self.gate && self.ands_done
            == count_ands(self.gates, self.gate)
        &&& !self.inputs_ready ==> self.wires.len() == 0 && self.gate == 0 && self.ands_done == 0
        &&& (!self.inputs_ready || self.gate == self.gates.len() || !self.gates[self.gate as int].is_and())
            ==> !self.second && !self.sent && !self.received
        &&& self.result matches Some(pair) ==> self.finished() && pair.own == self.wires.last()
    }

    /// Whether the party stands at an AND gate or at the end of the circuit.
    pub open spec fn settled(self) -> bool {
        self.gate < self.gates.len() ==> self.gates[self.gate as int].is_and()
    }

    /// The invariant that every step keeps.
    pub open spec fn wf(self) -> bool {
        self.wf_unsettled() && (self.inputs_ready ==> self.settled())
    }

    /// The number of rounds that are over.
    pub open spec fn progress(self) -> nat {
        2 * self.ands_done + if self.second { 1nat } else { 0nat }
    }

    /// Whether every gate is evaluated.
    pub open spec fn finished(self) -> bool {
        self.inputs_ready && self.gate == self.gates.len()
    }

    /// Whether the party may send in this round.
    pub open spec fn can_send(self) -> bool {
        self.inputs_ready && self.gate < self.gates.len() && !self.sent
    }

    /// Whether the party may receive in this round.
    pub open spec fn can_receive(self) -> bool {
        self.inputs_ready && self.gate < self.gates.len() && !self.received
    }

    /// The party's half of the triple for the current AND gate.
    pub open spec fn triple(self) -> TripleShare {
        self.triples[self.ands_done as int]
    }

    /// The party's half of the left input of the current AND gate.
    pub open spec fn left_own(self) -> bool {
        match self.gates[self.gate as int] {
            Gate::And { left, right } => self.wires[left as int],
            _ => false,
        }
    }

    /// The party's half of the right input of the current AND gate.
    pub open spec fn right_own(self) -> bool {
        match self.gates[self.gate as int] {
            Gate::And { left, right } => self.wires[right as int],
            _ => false,
        }
    }

    /// The party's half of the masked left input `d`.
    pub open spec fn d_own(self) -> bool {
        self.left_own() ^ self.triple().u
    }

    /// The party's half of the masked right input `e`.
    pub open spec fn e_own(self) -> bool {
        self.right_own() ^ self.triple().v
    }

    /// The party's half of the output of a local gate. The exclusive or of
    /// two wires is the exclusive or of the halves; a negation is counted
    /// once, on Alice's side.
    pub open spec fn local_own(self, gate: Gate) -> bool {
        match gate {
            Gate::Xor { left, right } => self.wires[left as int] ^ self.wires[right as int],
            Gate::Not { input } => self.wires[input as int] ^ (self.role == Role::Alice),
            Gate::And { left, right } => false,
        }
    }

    /// The state once the party has evaluated the local gates that it stands
    /// before, up to the next AND gate or the end of the circuit.
    pub open spec fn settle(self) -> PartyState
        decreases self.gates.len() - self.gate,
    {
        if self.gate < self.gates.len() && !self.gates[self.gate as int].is_and() {
            (PartyState {
                wires: self.wires.push(self.local_own(self.gates[self.gate as int])),
                gate: self.gate + 1,
                ..self
            }).settle()
        } else {
            self
        }
    }

    /// The message of the current round.
    pub open spec fn message(self) -> bool {
        if self.second {
            self.e_own()
        } else {
            self.d_own()
        }
    }

    /// The party's half of the output of the current AND gate, from the
    /// opened `d` and `e`. The cross term is counted once, on Alice's side.
    pub open spec fn product_own(self) -> bool {
        let d = self.d_own() ^ self.peer_d;
        let e = self.e_own() ^ self.peer_e;
        let both = self.triple().w ^ (e && self.left_own()) ^ (d && self.right_own());
        if self.role == Role::Alice {
            both ^ (e && d)
        } else {
            both
        }
    }

    /// The state when a round is over: the second round of the current AND
    /// gate begins, or its output becomes a wire and the party moves on to the
    /// next AND gate.
    pub open spec fn close_round(self) -> PartyState {
        if self.second {
            (PartyState {
                wires: self.wires.push(self.product_own()),
                gate: self.gate + 1,
                ands_done: self.ands_done + 1,
                second: false,
                sent: false,
                received: false,
                ..self
            }).settle()
        } else {
            PartyState { second: true, sent: false, received: false, ..self }
        }
    }

    /// The state after the other party's input halves have arrived.
    pub open spec fn after_receive_input_share(self, halves: (bool, bool, bool)) -> PartyState {
        let wires = match self.role {
            Role::Alice => seq![
                self.kept.0,
                self.kept.1,
                self.kept.2,
                halves.0,
                halves.1,
                halves.2,
            ],
            Role::Bob => seq![
                halves.0,
                halves.1,
                halves.2,
                self.kept.0,
                self.kept.1,
                self.kept.2,
            ],
        };
        (PartyState { wires, inputs_ready: true, ..self }).settle()
    }

    /// The state after sending the message of the round.
    pub open spec fn after_send(self) -> PartyState {
        let marked = PartyState { sent: true, ..self };
        if self.received {
            marked.close_round()
        } else {
            marked
        }
    }

    /// The state after receiving the other party's message of the round.
    pub open spec fn after_receive(self, bit: bool) -> PartyState {
        let marked = if self.second {
            PartyState { received: true, peer_e: bit, ..self }
        } else {
            PartyState { received: true, peer_d: bit, ..self }
        };
        if self.sent {
            marked.close_round()
        } else {
            marked
        }
    }

    /// The party's half of the last wire.
    pub open spec fn output_share(self) -> bool {
        self.wires.last()
    }

    /// What a reading of the result gives: the value of the last wire once
    /// both halves are there, a refusal before.
    pub open spec fn reading(self) -> Result<bool, ProtocolError> {
        match self.result {
            Some(pair) => Ok(pair.secret()),
            None => Err(ProtocolError::ProtocolSequenceViolation),
        }
    }

    /// The state after the other party's half of the last wire has arrived.
    pub open spec fn after_receive_output_share(self, bit: bool) -> PartyState {
        PartyState {
            result: Some(SecretSharingPair { own: self.output_share(), peer: bit }),
            ..self
        }
    }
}

/// Settling keeps everything but the wires and the place in the circuit,
/// ends at an AND gate or at the end of the circuit, and counts no AND gate.
pub proof fn lemma_settle(state: PartyState)
    requires
        state.gate <= state.gates.len(),
    ensures
        state.settle() == (PartyState {
            wires: state.settle().wires,
            gate: state.settle().gate,
            ..state
        }),
        state.gate <= state.settle().gate <= state.gates.len(),
        state.settle().settled(),
        state.settle().wires.len() == state.wires.len() + (state.settle().gate - state.gate),
        count_ands(state.gates, state.settle().gate) == count_ands(state.gates, state.gate),
        state.settled() ==> state.settle() == state,
    decreases state.gates.len() - state.gate,
{
    if state.gate < state.gates.len() && !state.gates[state.gate as int].is_and() {
        let next = PartyState {
            wires: state.wires.push(state.local_own(state.gates[state.gate as int])),
            gate: state.gate + 1,
            ..state
        };
        lemma_settle(next);
    }
}

/// Settling makes the invariant whole: a state that lacks nothing but to be
/// settled, and that is ready for the rounds, is well formed once settled.
pub proof fn lemma_settle_wf(state: PartyState)
    requires
        state.wf_unsettled(),
        state.inputs_ready,
        !state.second && !state.sent && !state.received,
        state.result.is_none(),
    ensures
        state.settle().wf(),
{
    lemma_settle(state);
}

/// At an AND gate there is a triple left for it.
pub proof fn lemma_triple_left(state: PartyState)
    requires
        state.wf(),
        state.inputs_ready,
        state.gate < state.gates.len(),
    ensures
        state.ands_done < count_ands(state.gates, state.gates.len()),
        state.ands_done < state.triples.len(),
        state.gates[state.gate as int].fits(state.gate as int),
{
    lemma_count_ands_grows(state.gates, state.gate + 1, state.gates.len());
}

/// One party of the protocol.
pub struct Party {
    role: Role,
    circuit: Circuit,
    triples: Vec<TripleShare>,
    wires: Vec<bool>,
    kept: (bool, bool, bool),
    outgoing: (bool, bool, bool),
    inputs_ready: bool,
    gate: usize,
    ands_done: usize,
    second: bool,
    sent: bool,
    received: bool,
    peer_d: bool,
    peer_e: bool,
    result: Option<SecretSharingPair>,
}

impl Party {
    /// The state of the party.
    pub closed spec fn view(&self) -> PartyState {
        PartyState {
            role: self.role,
            gates: self.circuit@,
            triples: self.triples@,
            wires: self.wires@,
            kept: self.kept,
            outgoing: self.outgoing,
            inputs_ready: self.inputs_ready,
            gate: self.gate as nat,
            ands_done: self.ands_done as nat,
            second: self.second,
            sent: self.sent,
            received: self.received,
            peer_d: self.peer_d,
            peer_e: self.peer_e,
            result: self.result,
        }
    }

    /// Whether the party's circuit keeps its own invariant.
    pub closed spec fn counted(&self) -> bool {
        self.circuit.wf()
    }

    /// The invariant of the type.
    pub open spec fn wf(&self) -> bool {
        self@.wf() && self.counted()
    }

    /// A party for `circuit` with the private input `private_input`, of which
    /// it keeps the halves `kept`. This is the whole of `init` but the draws.
    /// Fails with `DealerExhaustion` when `randomness` has fewer triples than
    /// the circuit has AND gates.
    pub fn with_halves(
        role: Role,
        circuit: Circuit,
        private_input: u8,
        kept: (bool, bool, bool),
        randomness: Vec<TripleShare>,
    ) -> (out: Result<Party, ProtocolError>)
        requires
            circuit.wf(),
        ensures
            randomness@.len() >= count_ands(circuit@, circuit@.len()) <==> out.is_ok(),
            out matches Ok(party) ==> party.wf() && party@ == PartyState::initial(
                role,
                circuit@,
                randomness@,
                attributes(private_input),
                kept,
            ),
            out matches Err(e) ==> e == ProtocolError::DealerExhaustion,
    {
        if randomness.len() < circuit.num_and_gates() {
            return Err(ProtocolError::DealerExhaustion);
        }
        let input = translate_input(private_input);
        let first = SecretSharingPair::split_with(input.0, kept.0);
        let second = SecretSharingPair::split_with(input.1, kept.1);
        let third = SecretSharingPair::split_with(input.2, kept.2);
        let wires: Vec<bool> = Vec::new();
        assert(wires@ =~= Seq::<bool>::empty());
        Ok(
            Party {
                role,
                circuit,
                triples: randomness,
                wires,
                kept: (first.own, second.own, third.own),
                outgoing: (first.peer, second.peer, third.peer),
                inputs_ready: false,
                gate: 0,
                ands_done: 0,
                second: false,
                sent: false,
                received: false,
                peer_d: false,
                peer_e: false,
                result: None,
            },
        )
    }

    /// A party for `circuit` with the private input `private_input`, each bit
    /// of which it shares with a fresh random half. Fails with
    /// `DealerExhaustion` when `randomness` has fewer triples than the circuit
    /// has AND gates.
    pub fn init(role: Role, circuit: Circuit, private_input: u8, randomness: Vec<TripleShare>) -> (out:
        Result<Party, ProtocolError>)
        requires
            circuit.wf(),
        ensures
            randomness@.len() >= count_ands(circuit@, circuit@.len()) <==> out.is_ok(),
            out matches Ok(party) ==> party.wf() && exists|kept: (bool, bool, bool)|
                party@ == PartyState::initial(
                    role,
                    circuit@,
                    randomness@,
                    attributes(private_input),
                    kept,
                ),
            out matches Err(e) ==> e == ProtocolError::DealerExhaustion,
    {
        let kept = (random_bit(), random_bit(), random_bit());
        Party::with_halves(role, circuit, private_input, kept, randomness)
    }

    /// The side that the party plays.
    pub fn role(&self) -> (role: Role)
        ensures
            role == self@.role,
    {
        self.role
    }

    /// The halves of the party's inputs that go to the other party.
    pub fn send_input_share(&self) -> (halves: (bool, bool, bool))
        ensures
            halves == self@.outgoing,
    {
        self.outgoing
    }

    /// Evaluates the local gates that the party stands before, up to the
    /// next AND gate or the end of the circuit.
    fn settle(&mut self)
        requires
            old(self)@.wf_unsettled(),
            old(self).counted(),
            old(self)@.inputs_ready,
            !old(self)@.second && !old(self)@.sent && !old(self)@.received,
            old(self)@.result.is_none(),
        ensures
            final(self).wf(),
            final(self)@ == old(self)@.settle(),
    {
        let gates = self.circuit.len();
        while self.gate < gates
            invariant
                gates == self@.gates.len(),
                self@.wf_unsettled(),
                self.counted(),
                self@.inputs_ready,
                !self@.second && !self@.sent && !self@.received,
                self@.result.is_none(),
                self@.settle() == old(self)@.settle(),
            ensures
                self@.settled(),
            decreases gates - self.gate,
        {
            let local = match self.circuit.gate(self.gate) {
                Gate::Xor { left, right } => self.wires[left] ^ self.wires[right],
                Gate::Not { input } => {
                    let flip = matches!(self.role, Role::Alice);
                    self.wires[input] ^ flip
                },
                Gate::And { .. } => {
                    break ;
                },
            };
            self.wires.push(local);
            self.gate = self.gate + 1;
        }
        proof {
            lemma_settle(self@);
        }
    }

    /// Takes the other party's input halves and evaluates the local gates
    /// before the first AND gate. Fails, and changes nothing, when the halves
    /// have arrived before.
    pub fn receive_input_share(&mut self, halves: (bool, bool, bool)) -> (out: Result<
        (),
        ProtocolError,
    >)
        requires
            old(self).wf(),
        ensures
            final(self).wf(),
            !old(self)@.inputs_ready ==> out.is_ok() && final(self)@ == old(
                self,
            )@.after_receive_input_share(halves),
            old(self)@.inputs_ready ==> out == Err::<(), ProtocolError>(
                ProtocolError::ProtocolSequenceViolation,
            ) && final(self)@ == old(self)@,
    {
        if self.inputs_ready {
            return Err(ProtocolError::ProtocolSequenceViolation);
        }
        let mut wires: Vec<bool> = Vec::new();
        match self.role {
            Role::Alice => {
                wires.push(self.kept.0);
                wires.push(self.kept.1);
                wires.push(self.kept.2);
                wires.push(halves.0);
                wires.push(halves.1);
                wires.push(halves.2);
            },
            Role::Bob => {
                wires.push(halves.0);
                wires.push(halves.1);
                wires.push(halves.2);
                wires.push(self.kept.0);
                wires.push(self.kept.1);
                wires.push(self.kept.2);
            },
        }
        let ghost ready = PartyState { wires: wires@, inputs_ready: true, ..old(self)@ };
        assert(ready.settle() == old(self)@.after_receive_input_share(halves)) by {
            assert(wires@ =~= match self.role {
                Role::Alice => seq![
                    self.kept.0,
                    self.kept.1,
                    self.kept.2,
                    halves.0,
                    halves.1,
                    halves.2,
                ],
                Role::Bob => seq![
                    halves.0,
                    halves.1,
                    halves.2,
                    self.kept.0,
                    self.kept.1,
                    self.kept.2,
                ],
            });
        }
        self.wires = wires;
        self.inputs_ready = true;
        self.settle();
        Ok(())
    }

    /// The party's halves of the two inputs of the current AND gate.
    fn operands(&self) -> (out: (bool, bool))
        requires
            self.wf(),
            self@.inputs_ready,
            self@.gate < self@.gates.len(),
        ensures
            out == (self@.left_own(), self@.right_own()),
    {
        proof {
            lemma_triple_left(self@);
        }
        match self.circuit.gate(self.gate) {
            Gate::And { left, right } => (self.wires[left], self.wires[right]),
            _ => (false, false),
        }
    }

    /// The party's half of the triple for the current AND gate.
    fn triple(&self) -> (out: TripleShare)
        requires
            self.wf(),
            self@.inputs_ready,
            self@.gate < self@.gates.len(),
        ensures
            out == self@.triple(),
    {
        proof {
            lemma_triple_left(self@);
        }
        self.triples[self.ands_done]
    }

    /// The message of the current round.
    fn message(&self) -> (out: bool)
        requires
            self.wf(),
            self@.inputs_ready,
            self@.gate < self@.gates.len(),
        ensures
            out == self@.message(),
    {
        let triple = self.triple();
        let (left, right) = self.operands();
        if self.second {
            right ^ triple.v
        } else {
            left ^ triple.u
        }
    }

    /// Ends the round: moves on to the second round of the current AND gate,
    /// or turns its output into a wire and moves on to the next AND gate.
    fn close_round(&mut self)
        requires
            old(self).wf(),
            old(self)@.inputs_ready,
            old(self)@.gate < old(self)@.gates.len(),
            old(self)@.result.is_none(),
        ensures
            final(self).wf(),
            final(self)@ == old(self)@.close_round(),
    {
        self.sent = false;
        self.received = false;
        if self.second {
            let triple = self.triple();
            let (left, right) = self.operands();
            let d = (left ^ triple.u) ^ self.peer_d;
            let e = (right ^ triple.v) ^ self.peer_e;
            let both = triple.w ^ (e && left) ^ (d && right);
            let product = match self.role {
                Role::Alice => both ^ (e && d),
                Role::Bob => both,
            };
            proof {
                lemma_triple_left(self@);
                assert(self.ands_done < self.triples.len());
                assert(self.gate < self.wires.len());
            }
            self.wires.push(product);
            self.gate = self.gate + 1;
            self.ands_done = self.ands_done + 1;
            self.second = false;
            self.settle();
        } else {
            self.second = true;
        }
    }

    /// Sends the message of the round: the party's half of `d` in the first
    /// round of an AND gate, of `e` in the second. Fails, and changes nothing,
    /// before the input halves have arrived, after the last round, and when
    /// the party has sent in this round already.
    pub fn send(&mut self) -> (out: Result<bool, ProtocolError>)
        requires
            old(self).wf(),
        ensures
            final(self).wf(),
            old(self)@.can_send() ==> out == Ok::<bool, ProtocolError>(old(self)@.message())
                && final(self)@ == old(self)@.after_send(),
            !old(self)@.can_send() ==> out == Err::<bool, ProtocolError>(
                ProtocolError::ProtocolSequenceViolation,
            ) && final(self)@ == old(self)@,
    {
        if !self.inputs_ready || self.gate >= self.circuit.len() || self.sent {
            return Err(ProtocolError::ProtocolSequenceViolation);
        }
        let bit = self.message();
        self.sent = true;
        if self.received {
            self.close_round();
        }
        Ok(bit)
    }

    /// Takes the other party's message of the round. Fails, and changes
    /// nothing, before the input halves have arrived, after the last round,
    /// and when the party has received in this round already.
    pub fn receive(&mut self, bit: bool) -> (out: Result<(), ProtocolError>)
        requires
            old(self).wf(),
        ensures
            final(self).wf(),
            old(self)@.can_receive() ==> out.is_ok() && final(self)@ == old(self)@.after_receive(
                bit,
            ),
            !old(self)@.can_receive() ==> out == Err::<(), ProtocolError>(
                ProtocolError::ProtocolSequenceViolation,
            ) && final(self)@ == old(self)@,
    {
        if !self.inputs_ready || self.gate >= self.circuit.len() || self.received {
            return Err(ProtocolError::ProtocolSequenceViolation);
        }
        if self.second {
            self.peer_e = bit;
        } else {
            self.peer_d = bit;
        }
        self.received = true;
        if self.sent {
            self.close_round();
        }
        Ok(())
    }

    /// The number of rounds that are over: two for each AND gate that is
    /// done, and one more in the second round of an AND gate.
    pub fn progress(&self) -> (out: usize)
        requires
            self.wf(),
        ensures
            out == self@.progress(),
    {
        proof {
            lemma_count_ands_grows(self@.gates, self@.gate, self@.gates.len());
            if self@.inputs_ready && self@.gate < self@.gates.len() {
                lemma_triple_left(self@);
            }
        }
        if self.second {
            2 * self.ands_done + 1
        } else {
            2 * self.ands_done
        }
    }

    /// Whether every gate is evaluated, so that the halves of the last wire
    /// can be exchanged.
    pub fn is_finished(&self) -> (out: bool)
        requires
            self.wf(),
        ensures
            out == self@.finished(),
    {
        self.inputs_ready && self.gate == self.circuit.len()
    }

    /// The party's half of the last wire, for the other party. Fails before
    /// every gate is evaluated.
    pub fn send_output_share(&self) -> (out: Result<bool, ProtocolError>)
        requires
            self.wf(),
        ensures
            self@.finished() ==> out == Ok::<bool, ProtocolError>(self@.output_share()),
            !self@.finished() ==> out == Err::<bool, ProtocolError>(
                ProtocolError::ProtocolSequenceViolation,
            ),
    {
        if !self.is_finished() {
            return Err(ProtocolError::ProtocolSequenceViolation);
        }
        Ok(self.wires[self.wires.len() - 1])
    }

    /// Takes the other party's half of the last wire, which makes the result
    /// readable. Fails, and changes nothing, before every gate is evaluated
    /// and when the half has arrived before.
    pub fn receive_output_share(&mut self, bit: bool) -> (out: Result<(), ProtocolError>)
        requires
            old(self).wf(),
        ensures
            final(self).wf(),
            (old(self)@.finished() && old(self)@.result.is_none()) ==> out.is_ok() && final(self)@
                == old(self)@.after_receive_output_share(bit),
            !(old(self)@.finished() && old(self)@.result.is_none()) ==> out == Err::<
                (),
                ProtocolError,
            >(ProtocolError::ProtocolSequenceViolation) && final(self)@ == old(self)@,
    {
        if !self.is_finished() || self.result.is_some() {
            return Err(ProtocolError::ProtocolSequenceViolation);
        }
        let own = self.wires[self.wires.len() - 1];
        self.result = Some(SecretSharingPair::join(own, bit));
        Ok(())
    }

    /// Whether the result is there.
    pub fn has_output(&self) -> (out: bool)
        ensures
            out == self@.result.is_some(),
    {
        self.result.is_some()
    }

    /// The result: the value of the last wire. Fails when the result is not
    /// there yet. It changes nothing, so every call gives the same.
    pub fn output(&self) -> (out: Result<bool, ProtocolError>)
        ensures
            out == self@.reading(),
    {
        match self.result {
            Some(pair) => Ok(pair.value()),
            None => Err(ProtocolError::ProtocolSequenceViolation),
        }
    }
}

} // verus!
