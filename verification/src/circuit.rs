//! Circuits over shared wires, and the circuit of the compatibility
//! predicate.
//!
//! Wires are numbered. Wires 0, 1, 2 carry Alice's attributes (A antigen,
//! B antigen, rhesus factor), wires 3, 4, 5 carry Bob's, and wire `6 + g`
//! carries the output of gate number `g`. Exclusive or and negation are
//! local: they cost no message. An AND gate costs one triple and two rounds.
use crate::predicate::compatible;
use vstd::prelude::*;

verus! {

/// The number of input wires: three attributes for each party.
pub const INPUT_WIRES: usize = 6;

/// A gate and the wires that it reads.
#[derive(Clone, Copy, Debug, PartialEq, Eq, Structural)]
pub enum Gate {
    /// The exclusive or of two wires.
    Xor {
        /// The wire of the left input.
        left: usize,
        /// The wire of the right input.
        right: usize,
    },
    /// The negation of a wire.
    Not {
        /// The wire of the input.
        input: usize,
    },
    /// The product of two wires.
    And {
        /// The wire of the left input.
        left: usize,
        /// The wire of the right input.
        right: usize,
    },
}

impl Gate {
    /// Whether this is an AND gate, which the parties evaluate together.
    pub open spec fn is_and(self) -> bool {
        self is And
    }

    /// Whether this gate, standing at place `index` of a circuit, reads only
    /// wires that exist by then.
    pub open spec fn fits(self, index: int) -> bool {
        match self {
            Gate::Xor { left, right } => left < INPUT_WIRES + index && right < INPUT_WIRES + index,
            Gate::Not { input } => input < INPUT_WIRES + index,
            Gate::And { left, right } => left < INPUT_WIRES + index && right < INPUT_WIRES + index,
        }
    }

    /// What this gate puts out, given the values of the wires so far.
    pub open spec fn output(self, wires: Seq<bool>) -> bool {
        match self {
            Gate::Xor { left, right } => wires[left as int] ^ wires[right as int],
            Gate::Not { input } => !wires[input as int],
            Gate::And { left, right } => wires[left as int] && wires[right as int],
        }
    }

    /// Whether this is an AND gate.
    pub fn needs_triple(&self) -> (out: bool)
        ensures
            out == self.is_and(),
    {
        match self {
            Gate::And { .. } => true,
            _ => false,
        }
    }

    /// Whether this gate fits at place `index`.
    pub fn fits_at(&self, index: usize) -> (out: bool)
        ensures
            out == self.fits(index as int),
    {
        if index > usize::MAX - INPUT_WIRES {
            return true;
        }
        let wires = INPUT_WIRES + index;
        match self {
            Gate::Xor { left, right } => *left < wires && *right < wires,
            Gate::Not { input } => *input < wires,
            Gate::And { left, right } => *left < wires && *right < wires,
        }
    }
}

/// Whether every gate reads only input wires and outputs of earlier gates.
pub open spec fn well_formed(gates: Seq<Gate>) -> bool {
    forall|g: int| 0 <= g < gates.len() ==> (#[trigger] gates[g]).fits(g)
}

/// The number of AND gates among the first `n` gates.
pub open spec fn count_ands(gates: Seq<Gate>, n: nat) -> nat
    decreases n,
{
    if n == 0 {
        0
    } else {
        count_ands(gates, (n - 1) as nat) + if gates[n - 1].is_and() {
            1nat
        } else {
            0nat
        }
    }
}

/// Whether the rounds of a circuit, two for each AND gate, can be counted
/// in a `usize`.
pub open spec fn rounds_fit(gates: Seq<Gate>) -> bool {
    2 * count_ands(gates, gates.len()) <= usize::MAX
}

/// The values of all wires once the first `n` gates are evaluated in the
/// clear on the given inputs.
pub open spec fn evaluate(gates: Seq<Gate>, inputs: Seq<bool>, n: nat) -> Seq<bool>
    decreases n,
{
    if n == 0 {
        inputs
    } else {
        let before = evaluate(gates, inputs, (n - 1) as nat);
        before.push(gates[n - 1].output(before))
    }
}

/// What the circuit computes in the clear: the value of its last wire.
pub open spec fn result(gates: Seq<Gate>, inputs: Seq<bool>) -> bool {
    evaluate(gates, inputs, gates.len()).last()
}

/// The input wires for a donor and a recipient with the given attributes.
pub open spec fn input_wires(alice: (bool, bool, bool), bob: (bool, bool, bool)) -> Seq<bool> {
    seq![alice.0, alice.1, alice.2, bob.0, bob.1, bob.2]
}

/// The gates of the compatibility predicate. For each attribute three gates
/// find out whether the donor lacks what the recipient has, and negate that;
/// two more AND gates join the three findings.
pub open spec fn compatibility_gates() -> Seq<Gate> {
    seq![
        Gate::Not { input: 0 },
        Gate::And { left: 6, right: 3 },
        Gate::Not { input: 7 },
        Gate::Not { input: 1 },
        Gate::And { left: 9, right: 4 },
        Gate::Not { input: 10 },
        Gate::And { left: 8, right: 11 },
        Gate::Not { input: 2 },
        Gate::And { left: 13, right: 5 },
        Gate::Not { input: 14 },
        Gate::And { left: 12, right: 15 },
    ]
}

/// The count of AND gates does not fall as more gates are counted.
pub proof fn lemma_count_ands_grows(gates: Seq<Gate>, m: nat, n: nat)
    requires
        m <= n,
    ensures
        count_ands(gates, m) <= count_ands(gates, n),
        count_ands(gates, n) <= count_ands(gates, m) + (n - m),
    decreases n,
{
    if m < n {
        lemma_count_ands_grows(gates, m, (n - 1) as nat);
    }
}

/// Evaluating `n` gates adds `n` wires to the inputs.
pub proof fn lemma_evaluate_len(gates: Seq<Gate>, inputs: Seq<bool>, n: nat)
    ensures
        evaluate(gates, inputs, n).len() == inputs.len() + n,
    decreases n,
{
    if n > 0 {
        lemma_evaluate_len(gates, inputs, (n - 1) as nat);
    }
}

/// A well-formed circuit.
pub struct Circuit {
    gates: Vec<Gate>,
    ands: usize,
}

impl Circuit {
    /// The gates in the order of their evaluation.
    pub closed spec fn view(&self) -> Seq<Gate> {
        self.gates@
    }

    /// The number of AND gates that the circuit has counted.
    pub closed spec fn ands(&self) -> nat {
        self.ands as nat
    }

    /// The invariant of the type: the gates are well formed, the AND gates
    /// are counted, and the rounds can be counted in a `usize`.
    pub open spec fn wf(&self) -> bool {
        &&& well_formed(self@)
        &&& self.ands() == count_ands(self@, self@.len())
        &&& rounds_fit(self@)
    }

    /// The circuit with the given gates, or `None` when a gate reads a wire
    /// that does not exist at its place, or when the circuit has so many AND
    /// gates that its rounds cannot be counted in a `usize`.
    pub fn new(gates: Vec<Gate>) -> (out: Option<Circuit>)
        ensures
            well_formed(gates@) && rounds_fit(gates@) <==> out.is_some(),
            out matches Some(circuit) ==> circuit.wf() && circuit@ == gates@,
    {
        let mut ands: usize = 0;
        let mut g: usize = 0;
        while g < gates.len()
            invariant
                g <= gates@.len(),
                ands == count_ands(gates@, g as nat),
                ands <= g,
                forall|k: int| 0 <= k < g ==> (#[trigger] gates@[k]).fits(k),
            decreases gates@.len() - g,
        {
            let gate = gates[g];
            if !gate.fits_at(g) {
                return None;
            }
            if gate.needs_triple() {
                ands += 1;
            }
            g += 1;
        }
        if ands > usize::MAX / 2 {
            return None;
        }
        Some(Circuit { gates, ands })
    }

    /// The circuit of the compatibility predicate: five AND gates, and the
    /// negations before and behind them.
    pub fn compatibility() -> (circuit: Circuit)
        ensures
            circuit.wf(),
            circuit@ == compatibility_gates(),
    {
        let mut gates: Vec<Gate> = Vec::new();
        gates.push(Gate::Not { input: 0 });
        gates.push(Gate::And { left: 6, right: 3 });
        gates.push(Gate::Not { input: 7 });
        gates.push(Gate::Not { input: 1 });
        gates.push(Gate::And { left: 9, right: 4 });
        gates.push(Gate::Not { input: 10 });
        gates.push(Gate::And { left: 8, right: 11 });
        gates.push(Gate::Not { input: 2 });
        gates.push(Gate::And { left: 13, right: 5 });
        gates.push(Gate::Not { input: 14 });
        gates.push(Gate::And { left: 12, right: 15 });
        proof {
            assert(gates@ =~= compatibility_gates());
            lemma_compatibility_gates_well_formed();
        }
        Circuit { gates, ands: 5 }
    }

    /// The number of gates.
    pub fn len(&self) -> (n: usize)
        ensures
            n == self@.len(),
    {
        self.gates.len()
    }

    /// The number of AND gates, each of which takes one triple and two
    /// rounds.
    pub fn num_and_gates(&self) -> (n: usize)
        requires
            self.wf(),
        ensures
            n == count_ands(self@, self@.len()),
    {
        self.ands
    }

    /// Gate number `index`.
    pub fn gate(&self, index: usize) -> (gate: Gate)
        requires
            self.wf(),
            index < self@.len(),
        ensures
            gate == self@[index as int],
            gate.fits(index as int),
    {
        self.gates[index]
    }
}

/// The gates of the compatibility predicate are well formed, and five of
/// them are AND gates.
pub proof fn lemma_compatibility_gates_well_formed()
    ensures
        well_formed(compatibility_gates()),
        compatibility_gates().len() == 11,
        count_ands(compatibility_gates(), 11) == 5,
{
    reveal_with_fuel(count_ands, 12);
}

/// Evaluated in the clear, the compatibility circuit decides the
/// compatibility predicate.
pub proof fn lemma_compatibility_circuit_decides(alice: (bool, bool, bool), bob: (bool, bool, bool))
    ensures
        result(compatibility_gates(), input_wires(alice, bob)) == compatible(alice, bob),
{
    let gates = compatibility_gates();
    let inputs = input_wires(alice, bob);
    reveal_with_fuel(evaluate, 12);
    let w2 = evaluate(gates, inputs, 2);
    let w3 = evaluate(gates, inputs, 3);
    let w5 = evaluate(gates, inputs, 5);
    let w6 = evaluate(gates, inputs, 6);
    let w7 = evaluate(gates, inputs, 7);
    let w9 = evaluate(gates, inputs, 9);
    let w10 = evaluate(gates, inputs, 10);
    let w11 = evaluate(gates, inputs, 11);
    assert(w2[7] == (!alice.0 && bob.0));
    assert(w3[8] == !(!alice.0 && bob.0));
    assert(w5[10] == (!alice.1 && bob.1));
    assert(w6[11] == !(!alice.1 && bob.1));
    assert(w7[12] == (w3[8] && w6[11]));
    assert(w9[14] == (!alice.2 && bob.2));
    assert(w10[15] == !(!alice.2 && bob.2));
    assert(w11[16] == (w7[12] && w10[15]));
}

} // verus!
