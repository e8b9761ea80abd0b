//! What a party gives away by its messages: nothing.
//!
//! Every message is a half of a wire masked with a half of a fresh triple.
//! The laws of this file say that the messages stand one to one for the
//! masks, whatever the wires hold, and that every sequence of messages fits
//! every state of a party under some masks. So for masks drawn evenly every
//! sequence of messages is as likely as any other, whatever the inputs are.
use crate::circuit::lemma_count_ands_grows;
use crate::dealer::TripleShare;
use crate::party::{lemma_settle, lemma_settle_wf, lemma_triple_left, PartyState};
use crate::protocol::rounds_of;
use vstd::prelude::*;

verus! {

/// Whether `party`, with `half` as its half of the triple for the current
/// AND gate, sends `d` in the first round of that gate and `e` in the second.
pub open spec fn sends(party: PartyState, half: TripleShare, d: bool, e: bool) -> bool {
    let masked = PartyState { triples: party.triples.update(party.ands_done as int, half), ..party };
    masked.d_own() == d && masked.e_own() == e
}

/// The messages of a gate stand one to one for the masks. Whatever halves
/// of the wires a party holds, for every pair of messages there is a half of
/// the triple under which it sends them, and every such half has the same
/// `u` and `v`. So masks drawn evenly make the messages even, and a pair of
/// messages alone fits every input.
pub proof fn lemma_messages_match_masks(party: PartyState, d: bool, e: bool)
    requires
        party.ands_done < party.triples.len(),
    ensures
        exists|half: TripleShare| #[trigger] sends(party, half, d, e),
        forall|first: TripleShare, second: TripleShare|
            #[trigger] sends(party, first, d, e) && #[trigger] sends(party, second, d, e)
                ==> first.u == second.u && first.v == second.v,
{
    let half = TripleShare { u: party.left_own() ^ d, v: party.right_own() ^ e, w: false };
    assert(sends(party, half, d, e));
}

/// The state of `party` with other halves of the triples.
pub open spec fn with_triples(party: PartyState, triples: Seq<TripleShare>) -> PartyState {
    PartyState { triples, ..party }
}

/// The state after a round in which the party sends its message and hears
/// `bit`.
pub open spec fn after_round(party: PartyState, bit: bool) -> PartyState {
    party.after_send().after_receive(bit)
}

/// The messages that the party sends in `n` rounds in which it hears the
/// bits of `heard`, one a round.
pub open spec fn transcript(party: PartyState, heard: Seq<bool>, n: nat) -> Seq<bool>
    decreases n,
{
    if n == 0 {
        Seq::empty()
    } else {
        seq![party.message()] + transcript(
            after_round(party, heard[0]),
            heard.skip(1),
            (n - 1) as nat,
        )
    }
}

/// Within a round the order does not matter: a party that hears before it
/// sends sends the same message and ends the round in the same state as one
/// that sends before it hears.
pub proof fn lemma_order_within_round(party: PartyState, bit: bool)
    requires
        party.can_send(),
        party.can_receive(),
    ensures
        party.after_receive(bit).message() == party.message(),
        party.after_receive(bit).after_send() == after_round(party, bit),
{
}

/// Whether a party stands at the start of a round that it can play.
pub open spec fn at_round(party: PartyState) -> bool {
    &&& party.wf()
    &&& party.inputs_ready
    &&& !party.sent
    &&& !party.received
    &&& party.result.is_none()
    &&& party.gate < party.gates.len()
}

/// A round takes a party from the start of a round to the start of the
/// next, or to the end of the circuit, and changes neither its circuit nor
/// its triples.
pub proof fn lemma_round_keeps_wf(party: PartyState, bit: bool)
    requires
        at_round(party),
    ensures
        ({
            let next = after_round(party, bit);
            &&& next.wf()
            &&& next.inputs_ready
            &&& !next.sent
            &&& !next.received
            &&& next.result.is_none()
            &&& next.gates == party.gates
            &&& next.triples == party.triples
            &&& next.progress() == party.progress() + 1
            &&& next.second == !party.second
            &&& next.ands_done == party.ands_done + if party.second { 1nat } else { 0nat }
        }),
{
    lemma_triple_left(party);
    if party.second {
        let heard = PartyState { sent: true, received: true, peer_e: bit, ..party };
        let pushed = PartyState {
            wires: party.wires.push(heard.product_own()),
            gate: party.gate + 1,
            ands_done: party.ands_done + 1,
            second: false,
            sent: false,
            received: false,
            ..heard
        };
        assert(after_round(party, bit) == pushed.settle());
        lemma_settle(pushed);
        lemma_settle_wf(pushed);
    }
}

/// Settling reads no triple.
pub proof fn lemma_settle_reads_no_triple(party: PartyState, triples: Seq<TripleShare>)
    requires
        party.gate <= party.gates.len(),
    ensures
        with_triples(party, triples).settle() == with_triples(party.settle(), triples),
    decreases party.gates.len() - party.gate,
{
    if party.gate < party.gates.len() && !party.gates[party.gate as int].is_and() {
        let next = PartyState {
            wires: party.wires.push(party.local_own(party.gates[party.gate as int])),
            gate: party.gate + 1,
            ..party
        };
        lemma_settle_reads_no_triple(next, triples);
    }
}

/// A round reads one triple: the first round of an AND gate reads its `u`,
/// the second all of it. With other triples that agree in that, the party
/// sends the same message and ends the round in the same state but for the
/// triples.
pub proof fn lemma_round_reads_one_triple(party: PartyState, triples: Seq<TripleShare>, bit: bool)
    requires
        at_round(party),
        triples.len() == party.triples.len(),
        triples[party.ands_done as int].u == party.triples[party.ands_done as int].u,
        party.second ==> triples[party.ands_done as int] == party.triples[party.ands_done as int],
    ensures
        with_triples(party, triples).message() == party.message(),
        after_round(with_triples(party, triples), bit) == with_triples(
            after_round(party, bit),
            triples,
        ),
{
    lemma_triple_left(party);
    if party.second {
        let heard = PartyState { sent: true, received: true, peer_e: bit, ..party };
        let pushed = PartyState {
            wires: party.wires.push(heard.product_own()),
            gate: party.gate + 1,
            ands_done: party.ands_done + 1,
            second: false,
            sent: false,
            received: false,
            ..heard
        };
        assert(after_round(party, bit) == pushed.settle());
        assert(after_round(with_triples(party, triples), bit) == with_triples(pushed, triples).settle());
        lemma_settle_reads_no_triple(pushed, triples);
    }
}

/// Every sequence of messages fits every state. Whatever a party holds at
/// the start of a round and whatever it hears, for every sequence of bits
/// `target` there are halves of the triples under which the party sends
/// that sequence. They differ from the party's own only in triples that are
/// still to be used.
pub proof fn lemma_transcript_fits(
    party: PartyState,
    heard: Seq<bool>,
    target: Seq<bool>,
    n: nat,
) -> (masks: Seq<TripleShare>)
    requires
        party.wf(),
        party.inputs_ready,
        !party.sent,
        !party.received,
        party.result.is_none(),
        heard.len() >= n,
        target.len() == n,
        party.progress() + n <= rounds_of(party.gates),
    ensures
        masks.len() == party.triples.len(),
        forall|j: int| 0 <= j < party.ands_done ==> masks[j] == party.triples[j],
        party.second ==> masks[party.ands_done as int].u == party.triples[party.ands_done as int].u,
        transcript(with_triples(party, masks), heard, n) == target,
    decreases n,
{
    if n == 0 {
        assert(transcript(with_triples(party, party.triples), heard, 0) =~= target);
        party.triples
    } else {
        lemma_count_ands_grows(party.gates, party.gate, party.gates.len());
        assert(party.gate < party.gates.len());
        lemma_triple_left(party);
        let k = party.ands_done as int;
        let own = party.triples[k];
        let mine = if party.second {
            TripleShare { v: party.right_own() ^ target[0], ..own }
        } else {
            TripleShare { u: party.left_own() ^ target[0], ..own }
        };
        let fitted = with_triples(party, party.triples.update(k, mine));
        assert(fitted.message() == target[0]);
        let next = after_round(fitted, heard[0]);
        lemma_round_keeps_wf(fitted, heard[0]);
        let masks = lemma_transcript_fits(next, heard.skip(1), target.skip(1), (n - 1) as nat);
        lemma_round_reads_one_triple(fitted, masks, heard[0]);
        assert(with_triples(fitted, masks) == with_triples(party, masks));
        assert(transcript(with_triples(party, masks), heard, n) =~= target);
        masks
    }
}

} // verus!
