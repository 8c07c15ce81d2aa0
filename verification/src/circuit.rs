//! Boolean circuit descriptions.
//!
//! A circuit is an ordered, acyclic list of gates over a fixed set of input
//! wires.  Wires are numbered: first the garbler's input wires, then the
//! evaluator's, then one output wire per gate, in gate order.  A gate may
//! only read wires defined before its own output wire, so the list is
//! acyclic by construction.  Both parties must hold identical descriptions
//! before a session starts.

use vstd::prelude::*;

verus! {

/// One boolean gate.  The output wire index is implicit: the `i`-th gate
/// of a circuit drives wire `num_inputs + i`.
#[derive(Clone, Copy, PartialEq, Eq, Structural, Debug)]
pub enum Gate {
    /// Conjunction of wires `a` and `b`.
    And { a: usize, b: usize },
    /// Exclusive or of wires `a` and `b`.
    Xor { a: usize, b: usize },
    /// Negation of wire `a`.
    Not { a: usize },
}

/// An immutable circuit description shared by both parties.
#[derive(Clone, Debug)]
pub struct Circuit {
    /// Number of garbler-held input wires.
    pub garbler_width: usize,
    /// Number of evaluator-held input wires.
    pub evaluator_width: usize,
    /// Gates in evaluation order.
    pub gates: Vec<Gate>,
    /// Wire indices whose values are decoded at the end, least-significant
    /// position first.
    pub outputs: Vec<usize>,
}

impl Gate {
    /// The wires a gate reads all lie below `bound`.
    pub open spec fn inputs_below(self, bound: int) -> bool {
        match self {
            Gate::And { a, b } => a < bound && b < bound,
            Gate::Xor { a, b } => a < bound && b < bound,
            Gate::Not { a } => a < bound,
        }
    }

    /// The boolean function a gate computes over the wire values seen so far.
    pub open spec fn eval(self, vals: Seq<bool>) -> bool {
        match self {
            Gate::And { a, b } => vals[a as int] && vals[b as int],
            Gate::Xor { a, b } => vals[a as int] != vals[b as int],
            Gate::Not { a } => !vals[a as int],
        }
    }
}

/// The values of the first `inp.len() + k` wires of a gate list on input
/// assignment `inp`, obtained by evaluating the first `k` gates in order.
pub open spec fn vals_upto(gates: Seq<Gate>, inp: Seq<bool>, k: nat) -> Seq<bool>
    decreases k,
{
    if k == 0 {
        inp
    } else {
        let prev = vals_upto(gates, inp, (k - 1) as nat);
        prev.push(gates[k - 1].eval(prev))
    }
}

/// Wire values form a sequence of length `inp.len() + k`.
pub proof fn lemma_vals_len(gates: Seq<Gate>, inp: Seq<bool>, k: nat)
    ensures
        vals_upto(gates, inp, k).len() == inp.len() + k,
    decreases k,
{
    if k > 0 {
        lemma_vals_len(gates, inp, (k - 1) as nat);
    }
}

/// Evaluating more gates never changes the value of an already-defined wire.
pub proof fn lemma_vals_stable(gates: Seq<Gate>, inp: Seq<bool>, k1: nat, k2: nat, w: int)
    requires
        k1 <= k2,
        0 <= w < inp.len() + k1,
    ensures
        vals_upto(gates, inp, k2)[w] == vals_upto(gates, inp, k1)[w],
    decreases k2,
{
    if k2 > k1 {
        lemma_vals_len(gates, inp, (k2 - 1) as nat);
        lemma_vals_stable(gates, inp, k1, (k2 - 1) as nat, w);
    }
}

/// Two gate lists that agree on their first `k` gates assign the same
/// values to the wires those gates define.
pub proof fn lemma_vals_prefix(g1: Seq<Gate>, g2: Seq<Gate>, inp: Seq<bool>, k: nat)
    requires
        k <= g1.len(),
        k <= g2.len(),
        forall|i: int| 0 <= i < k ==> g1[i] == g2[i],
    ensures
        vals_upto(g1, inp, k) == vals_upto(g2, inp, k),
    decreases k,
{
    if k > 0 {
        lemma_vals_prefix(g1, g2, inp, (k - 1) as nat);
    }
}

/// Appending one gate to a list leaves every earlier wire value unchanged
/// and assigns to the new wire what the appended gate computes over them.
pub proof fn lemma_vals_push(gates: Seq<Gate>, g: Gate, inp: Seq<bool>)
    ensures
        vals_upto(gates.push(g), inp, (gates.len() + 1) as nat) == vals_upto(
            gates,
            inp,
            gates.len(),
        ).push(g.eval(vals_upto(gates, inp, gates.len()))),
{
    lemma_vals_prefix(gates, gates.push(g), inp, gates.len());
}

impl Circuit {
    /// Number of input wires.
    pub open spec fn num_inputs(self) -> nat {
        (self.garbler_width + self.evaluator_width) as nat
    }

    /// Total number of wires: inputs plus one per gate.
    pub open spec fn num_wires(self) -> nat {
        (self.num_inputs() + self.gates.len()) as nat
    }

    /// Well-formedness: every gate reads only wires defined before its own
    /// output wire, every designated output wire exists, and the wire count
    /// fits the machine.
    pub open spec fn wf(self) -> bool {
        &&& self.num_wires() <= usize::MAX
        &&& forall|i: int|
            0 <= i < self.gates.len() ==> (#[trigger] self.gates@[i]).inputs_below(
                self.num_inputs() + i,
            )
        &&& forall|j: int|
            0 <= j < self.outputs.len() ==> (#[trigger] self.outputs@[j]) < self.num_wires()
    }

    /// The values of the first `num_inputs + k` wires on input assignment
    /// `inp`.
    pub open spec fn wire_vals_upto(self, inp: Seq<bool>, k: nat) -> Seq<bool> {
        vals_upto(self.gates@, inp, k)
    }

    /// The values of all wires on input assignment `inp`.
    pub open spec fn wire_vals(self, inp: Seq<bool>) -> Seq<bool> {
        self.wire_vals_upto(inp, self.gates.len() as nat)
    }

    /// The plaintext result of the circuit: the values of the designated
    /// output wires, in order.
    pub open spec fn output_bits(self, inp: Seq<bool>) -> Seq<bool> {
        Seq::new(self.outputs.len() as nat, |j: int| self.wire_vals(inp)[self.outputs@[j] as int])
    }
}

/// Wire values of a circuit form a sequence of length `num_inputs + k`.
pub proof fn lemma_wire_vals_len(c: Circuit, inp: Seq<bool>, k: nat)
    requires
        inp.len() == c.num_inputs(),
    ensures
        c.wire_vals_upto(inp, k).len() == c.num_inputs() + k,
{
    lemma_vals_len(c.gates@, inp, k);
}

/// Evaluating more of a circuit never changes an already-defined wire.
pub proof fn lemma_wire_vals_stable(c: Circuit, inp: Seq<bool>, k1: nat, k2: nat, w: int)
    requires
        inp.len() == c.num_inputs(),
        k1 <= k2,
        0 <= w < c.num_inputs() + k1,
    ensures
        c.wire_vals_upto(inp, k2)[w] == c.wire_vals_upto(inp, k1)[w],
{
    lemma_vals_stable(c.gates@, inp, k1, k2, w);
}

} // verus!
