//! Beaver triples and the dealer that hands them out.
use crate::error::ProtocolError;
use crate::random::random_bit;
use crate::share::SecretSharingPair;
use vstd::prelude::*;

verus! {

/// The two sides of the protocol.
#[derive(Clone, Copy, Debug, PartialEq, Eq, Structural)]
pub enum Role {
    /// The donor.
    Alice,
    /// The recipient.
    Bob,
}

impl Role {
    /// The other side.
    pub open spec fn other(self) -> Role {
        match self {
            Role::Alice => Role::Bob,
            Role::Bob => Role::Alice,
        }
    }
}

/// One party's half of a Beaver triple.
#[derive(Clone, Copy, Debug, PartialEq, Eq, Structural)]
pub struct TripleShare {
    /// The half of `u`.
    pub u: bool,
    /// The half of `v`.
    pub v: bool,
    /// The half of `w`.
    pub w: bool,
}

/// A Beaver triple `(u, v, w)`, each of the three shared between the parties.
#[derive(Clone, Copy, Debug, PartialEq, Eq, Structural)]
pub struct BeaverTriple {
    /// Alice's halves.
    pub alice: TripleShare,
    /// Bob's halves.
    pub bob: TripleShare,
}

impl BeaverTriple {
    /// The reconstructed `u`.
    pub open spec fn u(self) -> bool {
        self.alice.u ^ self.bob.u
    }

    /// The reconstructed `v`.
    pub open spec fn v(self) -> bool {
        self.alice.v ^ self.bob.v
    }

    /// The reconstructed `w`.
    pub open spec fn w(self) -> bool {
        self.alice.w ^ self.bob.w
    }

    /// The identity that makes the triple usable: on the reconstructed values
    /// `w` is the product of `u` and `v`.
    pub open spec fn valid(self) -> bool {
        self.w() == (self.u() && self.v())
    }

    /// The half of the triple that goes to `role`.
    pub open spec fn half(self, role: Role) -> TripleShare {
        match role {
            Role::Alice => self.alice,
            Role::Bob => self.bob,
        }
    }

    /// The triple with the factors `u` and `v`, and with the given bits as
    /// Alice's halves of `u`, `v` and of the product `w`. This is the whole of
    /// `generate` but the draws.
    pub fn from_bits(u: bool, v: bool, u_alice: bool, v_alice: bool, w_alice: bool) -> (triple:
        BeaverTriple)
        ensures
            triple.alice == (TripleShare { u: u_alice, v: v_alice, w: w_alice }),
            triple.bob == (TripleShare { u: u ^ u_alice, v: v ^ v_alice, w: (u && v) ^ w_alice }),
            triple.u() == u,
            triple.v() == v,
            triple.valid(),
    {
        let w = u && v;
        let shared_u = SecretSharingPair::split_with(u, u_alice);
        let shared_v = SecretSharingPair::split_with(v, v_alice);
        let shared_w = SecretSharingPair::split_with(w, w_alice);
        BeaverTriple {
            alice: TripleShare { u: shared_u.own, v: shared_v.own, w: shared_w.own },
            bob: TripleShare { u: shared_u.peer, v: shared_v.peer, w: shared_w.peer },
        }
    }

    /// A fresh triple: draws `u` and `v`, multiplies them, and shares each of
    /// the three with a fresh random half.
    pub fn generate() -> (triple: BeaverTriple)
        ensures
            triple.valid(),
    {
        let u = random_bit();
        let v = random_bit();
        let u_alice = random_bit();
        let v_alice = random_bit();
        let w_alice = random_bit();
        BeaverTriple::from_bits(u, v, u_alice, v_alice, w_alice)
    }

    /// Hands out the half of `role`.
    pub fn share_of(&self, role: Role) -> (share: TripleShare)
        ensures
            share == self.half(role),
    {
        match role {
            Role::Alice => self.alice,
            Role::Bob => self.bob,
        }
    }
}

/// The halves of `role` of a sequence of triples, in order.
pub open spec fn halves(triples: Seq<BeaverTriple>, role: Role) -> Seq<TripleShare> {
    Seq::new(triples.len(), |k: int| triples[k].half(role))
}

/// Whether every triple of a sequence is valid.
pub open spec fn all_valid(triples: Seq<BeaverTriple>) -> bool {
    forall|k: int| 0 <= k < triples.len() ==> (#[trigger] triples[k]).valid()
}

/// The dealer: makes one triple for each AND gate of a circuit and gives each
/// party its halves. It takes no part in the evaluation.
pub struct TrustedDealer {
    triples: Vec<BeaverTriple>,
}

impl TrustedDealer {
    /// The triples that the dealer holds, in the order of the gates.
    pub closed spec fn view(&self) -> Seq<BeaverTriple> {
        self.triples@
    }

    /// A dealer that has made no triple yet.
    pub fn new() -> (dealer: TrustedDealer)
        ensures
            dealer@.len() == 0,
    {
        TrustedDealer { triples: Vec::new() }
    }

    /// Throws away what the dealer held and makes `num_and_gates` fresh
    /// triples, every one of them valid.
    pub fn init(&mut self, num_and_gates: usize)
        ensures
            final(self)@.len() == num_and_gates,
            all_valid(final(self)@),
    {
        let mut triples: Vec<BeaverTriple> = Vec::new();
        let mut made: usize = 0;
        while made < num_and_gates
            invariant
                made <= num_and_gates,
                triples@.len() == made,
                all_valid(triples@),
            decreases num_and_gates - made,
        {
            triples.push(BeaverTriple::generate());
            made += 1;
        }
        self.triples = triples;
    }

    /// The number of triples that the dealer holds.
    pub fn len(&self) -> (n: usize)
        ensures
            n == self@.len(),
    {
        self.triples.len()
    }

    /// The half of `role` of the triple for the AND gate `gate`, or
    /// `DealerExhaustion` when the dealer made no triple for that gate.
    pub fn triple_share(&self, role: Role, gate: usize) -> (out: Result<TripleShare, ProtocolError>)
        ensures
            gate < self@.len() ==> out == Ok::<TripleShare, ProtocolError>(self@[gate as int].half(role)),
            gate >= self@.len() ==> out == Err::<TripleShare, ProtocolError>(
                ProtocolError::DealerExhaustion,
            ),
    {
        if gate < self.triples.len() {
            Ok(self.triples[gate].share_of(role))
        } else {
            Err(ProtocolError::DealerExhaustion)
        }
    }

    /// The halves of `role` of all triples, in the order of the gates.
    pub fn rand_for(&self, role: Role) -> (out: Vec<TripleShare>)
        ensures
            out@ == halves(self@, role),
    {
        let mut out: Vec<TripleShare> = Vec::new();
        let mut k: usize = 0;
        while k < self.triples.len()
            invariant
                k <= self.triples@.len(),
                out@.len() == k,
                forall|m: int| 0 <= m < k ==> out@[m] == (#[trigger] self.triples@[m]).half(role),
            decreases self.triples@.len() - k,
        {
            out.push(self.triples[k].share_of(role));
            k += 1;
        }
        assert(out@ =~= halves(self@, role));
        out
    }

    /// Alice's halves of all triples.
    pub fn rand_a(&self) -> (out: Vec<TripleShare>)
        ensures
            out@ == halves(self@, Role::Alice),
    {
        self.rand_for(Role::Alice)
    }

    /// Bob's halves of all triples.
    pub fn rand_b(&self) -> (out: Vec<TripleShare>)
        ensures
            out@ == halves(self@, Role::Bob),
    {
        self.rand_for(Role::Bob)
    }
}

} // verus!
