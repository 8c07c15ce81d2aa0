//! The two protocol roles and the session that joins them.
//!
//! The garbler draws fresh label pairs, garbles the shared circuit, sends
//! its own input labels directly and offers the evaluator's through
//! oblivious transfer; the evaluator obliviously selects its labels,
//! walks the garbled circuit and decodes the designated outputs.  The
//! protocol transcript is the fixed message sequence `Setup`, per-bit
//! `OtRequest`/`OtReply`, `Tables`, `Decode`, `Result`; each message type
//! here is one entry of that transcript, and a channel between two
//! processes carries them in this order.

use vstd::prelude::*;
use vstd::arithmetic::div_mod::lemma_small_mod;
use vstd::arithmetic::power2::pow2;
use crate::bits::bits_of;
use crate::bits::bits_to_nat;
use crate::bits::bits_to_u128;
use crate::bits::lemma_bits_of_value;
use crate::bits::lemma_pow2_128;
use crate::bits::u128_to_bits;
use crate::circuit::Circuit;
use crate::circuit::Gate;
use crate::errors::TwopcError;
use crate::gadgets::adder_circuit;
use crate::gadgets::comparator_circuit;
use crate::garble::GarbledGate;
use crate::garble::WirePair;
use crate::garble::correct_labels;
use crate::garble::decode_outputs;
use crate::garble::decode_with_pairs;
use crate::garble::eval_garbled;
use crate::garble::fresh_pair;
use crate::garble::garble_circuit;
use crate::garble::garbling_of;
use crate::garble::honest_session;
use crate::garble::lemma_decode_bit;
use crate::garble::perm_bit;
use crate::garble::select_label;
use crate::garble::tables_shaped;
use crate::ot::lemma_ot_correctness;
use crate::ot::GROUP_MOD;
use crate::ot::spec_big_a;
use crate::ot::spec_ot_reply;
use crate::ot::spec_ot_request;
use crate::ot::spec_ot_receive;
use crate::ot::ot_reply;
use crate::ot::ot_request;
use crate::ot::ot_receive;
use crate::ot::ot_sender_setup;
use crate::ot::random_group_element;

verus! {

/// First transcript message: the sender's oblivious-transfer commitment.
#[derive(Clone, Copy, PartialEq, Eq, Structural, Debug)]
pub struct SetupMsg {
    pub big_a: u64,
}

/// Per-bit transcript message from the evaluator: two group elements, one
/// per possible value of the hidden choice bit.
#[derive(Clone, Copy, PartialEq, Eq, Structural, Debug)]
pub struct OtRequestMsg {
    pub b0: u64,
    pub b1: u64,
}

/// Per-bit transcript message from the garbler: the two blinded labels.
#[derive(Clone, Copy, PartialEq, Eq, Structural, Debug)]
pub struct OtReplyMsg {
    pub e0: u128,
    pub e1: u128,
}

/// Third transcript message: the garbler's own input labels and the
/// garbled-gate table blob covering the whole circuit.
#[derive(Clone, Debug)]
pub struct TablesMsg {
    pub garbler_labels: Vec<u128>,
    pub tables: Vec<GarbledGate>,
}

/// Fourth transcript message: the output decode table, one permutation
/// bit per output wire.
#[derive(Clone, Debug)]
pub struct DecodeMsg {
    pub perms: Vec<bool>,
}

/// Final transcript message: the evaluator's output labels, so the
/// garbler decodes the result too.
#[derive(Clone, Debug)]
pub struct ResultMsg {
    pub out_labels: Vec<u128>,
}

/// Checks the shared circuit description before a session starts.
pub fn check_circuit(c: &Circuit) -> (r: bool)
    ensures
        r == c.wf(),
{
    let gw = c.garbler_width;
    let ew = c.evaluator_width;
    if (gw as u128) + (ew as u128) + (c.gates.len() as u128) > (usize::MAX as u128) {
        return false;
    }
    let nin = gw + ew;
    let mut i: usize = 0;
    while i < c.gates.len()
        invariant
            i <= c.gates@.len(),
            nin == c.num_inputs(),
            c.num_wires() <= usize::MAX,
            forall|k: int|
                0 <= k < i ==> (#[trigger] c.gates@[k]).inputs_below(c.num_inputs() + k),
        decreases c.gates@.len() - i,
    {
        let ok = match c.gates[i] {
            Gate::And { a, b } => a < nin + i && b < nin + i,
            Gate::Xor { a, b } => a < nin + i && b < nin + i,
            Gate::Not { a } => a < nin + i,
        };
        if !ok {
            return false;
        }
        i = i + 1;
    }
    let total = nin + c.gates.len();
    let mut j: usize = 0;
    while j < c.outputs.len()
        invariant
            j <= c.outputs@.len(),
            total == c.num_wires(),
            c.num_wires() <= usize::MAX,
            forall|k: int| 0 <= k < j ==> (#[trigger] c.outputs@[k]) < c.num_wires(),
        decreases c.outputs@.len() - j,
    {
        if c.outputs[j] >= total {
            return false;
        }
        j = j + 1;
    }
    true
}

/// The garbler role: owns every label pair until transfer, its own input
/// bits, and the oblivious-transfer secret.
pub struct Garbler {
    /// The garbler's plaintext input, least-significant bit first.
    pub input_bits: Vec<bool>,
    /// One fresh label pair per wire, session-local.
    pub pairs: Vec<WirePair>,
    /// The oblivious-transfer secret exponent.
    pub sk: u64,
}

impl Garbler {
    /// The garbler's state matches circuit `c`: one valid label pair per
    /// wire, one input bit per own input wire.
    pub open spec fn wf_for(self, c: Circuit) -> bool {
        &&& c.wf()
        &&& self.input_bits@.len() == c.garbler_width
        &&& self.pairs@.len() == c.num_wires()
        &&& forall|w: int| 0 <= w < self.pairs@.len() ==> (#[trigger] self.pairs@[w]).valid()
    }

    /// Starts a garbler for circuit `c` with the given input: checks the
    /// circuit and the input width, then draws fresh label pairs for
    /// every wire and a fresh transfer secret.
    pub fn new(c: &Circuit, input_bits: Vec<bool>) -> (r: Result<Garbler, TwopcError>)
        ensures
            match r {
                Ok(g) => {
                    &&& g.wf_for(*c)
                    &&& g.input_bits@ == input_bits@
                },
                Err(e) => {
                    ||| (e == TwopcError::MalformedCircuit && !c.wf())
                    ||| (e == TwopcError::WidthMismatch && c.wf() && input_bits@.len()
                        != c.garbler_width)
                },
            },
    {
        if !check_circuit(c) {
            return Err(TwopcError::MalformedCircuit);
        }
        if input_bits.len() != c.garbler_width {
            return Err(TwopcError::WidthMismatch);
        }
        let total = c.garbler_width + c.evaluator_width + c.gates.len();
        let mut pairs: Vec<WirePair> = Vec::new();
        let mut i: usize = 0;
        while i < total
            invariant
                i <= total,
                pairs@.len() == i,
                forall|w: int| 0 <= w < i ==> (#[trigger] pairs@[w]).valid(),
            decreases total - i,
        {
            pairs.push(fresh_pair());
            i = i + 1;
        }
        let sk = rand::random::<u64>();
        Ok(Garbler { input_bits, pairs, sk })
    }

    /// The transcript's setup message: the transfer commitment `g^sk`.
    pub fn setup_msg(&self) -> (m: SetupMsg)
        ensures
            m.big_a < GROUP_MOD,
            m.big_a as int == spec_big_a(self.sk),
    {
        SetupMsg { big_a: ot_sender_setup(self.sk) }
    }

    /// Answers one per-bit transfer request: blinds the two labels of the
    /// evaluator's input wire `i` so the evaluator can unblind exactly
    /// the one matching its hidden bit.  A malformed request aborts.
    pub fn ot_reply_msg(&self, c: &Circuit, i: usize, req: &OtRequestMsg) -> (r: Result<
        OtReplyMsg,
        TwopcError,
    >)
        requires
            self.wf_for(*c),
            i < c.evaluator_width,
        ensures
            match r {
                Ok(rep) => {
                    &&& req.b0 < GROUP_MOD
                    &&& req.b1 < GROUP_MOD
                    &&& (rep.e0, rep.e1) == spec_ot_reply(
                        self.sk,
                        req.b0,
                        req.b1,
                        self.pairs@[c.garbler_width + i].l0,
                        self.pairs@[c.garbler_width + i].l1,
                    )
                },
                Err(e) => {
                    &&& e == TwopcError::MalformedOtMessage
                    &&& (req.b0 >= GROUP_MOD || req.b1 >= GROUP_MOD)
                },
            },
    {
        let p = &self.pairs[c.garbler_width + i];
        match ot_reply(self.sk, req.b0, req.b1, p.l0, p.l1) {
            Ok(rep) => Ok(OtReplyMsg { e0: rep.0, e1: rep.1 }),
            Err(e) => Err(e),
        }
    }

    /// The transcript's table blob: the full garbling of the circuit,
    /// together with the labels of the garbler's own input bits (sent
    /// directly, since they need no secrecy from the garbler itself).
    pub fn tables_msg(&self, c: &Circuit) -> (m: TablesMsg)
        requires
            self.wf_for(*c),
        ensures
            garbling_of(*c, self.pairs@, m.tables@),
            m.garbler_labels@.len() == c.garbler_width,
            forall|w: int|
                0 <= w < c.garbler_width ==> (#[trigger] m.garbler_labels@[w])
                    == self.pairs@[w].select(self.input_bits@[w]),
    {
        let tables = garble_circuit(c, &self.pairs);
        let mut garbler_labels: Vec<u128> = Vec::new();
        let mut w: usize = 0;
        while w < c.garbler_width
            invariant
                w <= c.garbler_width,
                self.wf_for(*c),
                garbler_labels@.len() == w,
                forall|k: int|
                    0 <= k < w ==> (#[trigger] garbler_labels@[k]) == self.pairs@[k].select(
                        self.input_bits@[k],
                    ),
            decreases c.garbler_width - w,
        {
            garbler_labels.push(select_label(&self.pairs[w], self.input_bits[w]));
            w = w + 1;
        }
        TablesMsg { garbler_labels, tables }
    }

    /// The transcript's decode table: the permutation bit of each output
    /// wire's false-label, for output wires only.
    pub fn decode_msg(&self, c: &Circuit) -> (m: DecodeMsg)
        requires
            self.wf_for(*c),
        ensures
            m.perms@.len() == c.outputs@.len(),
            forall|j: int|
                0 <= j < c.outputs@.len() ==> (#[trigger] m.perms@[j]) == perm_bit(
                    self.pairs@[c.outputs@[j] as int].l0,
                ),
    {
        let mut perms: Vec<bool> = Vec::new();
        let mut j: usize = 0;
        while j < c.outputs.len()
            invariant
                j <= c.outputs@.len(),
                self.wf_for(*c),
                perms@.len() == j,
                forall|k: int|
                    0 <= k < j ==> (#[trigger] perms@[k]) == perm_bit(
                        self.pairs@[c.outputs@[k] as int].l0,
                    ),
            decreases c.outputs@.len() - j,
        {
            let ow = c.outputs[j];
            perms.push(self.pairs[ow].l0 & 1 == 1);
            j = j + 1;
        }
        DecodeMsg { perms }
    }

    /// Decodes the evaluator's output labels against the garbler's own
    /// label pairs; a label matching neither label of its wire is a fatal
    /// protocol error, never a default result.
    pub fn finish(&self, c: &Circuit, res: &ResultMsg) -> (r: Result<u128, TwopcError>)
        requires
            self.wf_for(*c),
            c.outputs@.len() <= 128,
        ensures
            match r {
                Ok(v) => {
                    &&& res.out_labels@.len() == c.outputs@.len()
                    &&& forall|bits: Seq<bool>|
                        (bits.len() == c.outputs@.len() && (forall|j: int|
                            0 <= j < bits.len() ==> res.out_labels@[j]
                                == self.pairs@[#[trigger] c.outputs@[j] as int].select(bits[j])))
                            ==> v as nat == #[trigger] bits_to_nat(bits)
                },
                Err(e) => {
                    &&& e == TwopcError::DecodeMismatch
                    &&& (res.out_labels@.len() != c.outputs@.len() || exists|j: int|
                        0 <= j < res.out_labels@.len() && #[trigger] res.out_labels@[j]
                            != self.pairs@[c.outputs@[j] as int].l0 && res.out_labels@[j]
                            != self.pairs@[c.outputs@[j] as int].l1)
                },
            },
    {
        if res.out_labels.len() != c.outputs.len() {
            return Err(TwopcError::DecodeMismatch);
        }
        let mut out_pairs: Vec<WirePair> = Vec::new();
        let mut j: usize = 0;
        while j < c.outputs.len()
            invariant
                j <= c.outputs@.len(),
                self.wf_for(*c),
                out_pairs@.len() == j,
                forall|k: int|
                    0 <= k < j ==> (#[trigger] out_pairs@[k])
                        == self.pairs@[c.outputs@[k] as int],
            decreases c.outputs@.len() - j,
        {
            let ow = c.outputs[j];
            out_pairs.push(self.pairs[ow]);
            j = j + 1;
        }
        let mybits = match decode_with_pairs(&res.out_labels, &out_pairs) {
            Ok(b) => b,
            Err(e) => {
                return Err(e);
            },
        };
        let v = crate::bits::bits_to_u128(&mybits);
        proof {
            assert forall|bits: Seq<bool>|
                (bits.len() == c.outputs@.len() && (forall|j: int|
                    0 <= j < bits.len() ==> res.out_labels@[j]
                        == self.pairs@[#[trigger] c.outputs@[j] as int].select(
                        bits[j],
                    ))) implies v as nat == #[trigger] bits_to_nat(bits) by {
                assert forall|k: int| 0 <= k < bits.len() implies bits[k] == mybits@[k] by {
                    let p = self.pairs@[c.outputs@[k] as int];
                    assert(res.out_labels@[k] == p.select(bits[k]));
                    assert(res.out_labels@[k] == p.select(mybits@[k]));
                    assert(p.valid());
                }
                assert(bits =~= mybits@);
            }
        }
        Ok(v)
    }
}

/// The evaluator role: its own input bits and the per-bit transfer
/// secrets; after a session it owns exactly one label per wire and never
/// learns the other.
pub struct Evaluator {
    /// The evaluator's plaintext input, least-significant bit first.
    pub input_bits: Vec<bool>,
    /// One secret exponent per own input bit.
    pub xs: Vec<u64>,
    /// One random group element per own input bit, filling the unchosen
    /// transfer slot.
    pub others: Vec<u64>,
    /// The garbler's transfer commitment, once received.
    pub big_a: u64,
}

impl Evaluator {
    /// The evaluator's state matches circuit `c`.
    pub open spec fn wf_for(self, c: Circuit) -> bool {
        &&& c.wf()
        &&& self.input_bits@.len() == c.evaluator_width
        &&& self.xs@.len() == c.evaluator_width
        &&& self.others@.len() == c.evaluator_width
        &&& forall|i: int| 0 <= i < self.others@.len() ==> (#[trigger] self.others@[i]) < GROUP_MOD
    }

    /// Starts an evaluator for circuit `c` with the given input: checks
    /// the circuit and the input width, then draws fresh transfer
    /// secrets.
    pub fn new(c: &Circuit, input_bits: Vec<bool>) -> (r: Result<Evaluator, TwopcError>)
        ensures
            match r {
                Ok(ev) => {
                    &&& ev.wf_for(*c)
                    &&& ev.input_bits@ == input_bits@
                },
                Err(e) => {
                    ||| (e == TwopcError::MalformedCircuit && !c.wf())
                    ||| (e == TwopcError::WidthMismatch && c.wf() && input_bits@.len()
                        != c.evaluator_width)
                },
            },
    {
        if !check_circuit(c) {
            return Err(TwopcError::MalformedCircuit);
        }
        if input_bits.len() != c.evaluator_width {
            return Err(TwopcError::WidthMismatch);
        }
        let ew = c.evaluator_width;
        let mut xs: Vec<u64> = Vec::new();
        let mut others: Vec<u64> = Vec::new();
        let mut i: usize = 0;
        while i < ew
            invariant
                i <= ew,
                xs@.len() == i,
                others@.len() == i,
                forall|k: int| 0 <= k < i ==> (#[trigger] others@[k]) < GROUP_MOD,
            decreases ew - i,
        {
            xs.push(rand::random::<u64>());
            others.push(random_group_element());
            i = i + 1;
        }
        Ok(Evaluator { input_bits, xs, others, big_a: 0 })
    }

    /// Records the garbler's setup commitment.
    pub fn set_setup(&mut self, m: &SetupMsg)
        ensures
            final(self).big_a == m.big_a,
            final(self).input_bits == old(self).input_bits,
            final(self).xs == old(self).xs,
            final(self).others == old(self).others,
    {
        self.big_a = m.big_a;
    }

    /// The per-bit transfer request for own input wire `i`: `g^x` in the
    /// slot of the wire's true bit, a random element in the other.
    pub fn ot_request_msg(&self, c: &Circuit, i: usize) -> (m: OtRequestMsg)
        requires
            self.wf_for(*c),
            i < c.evaluator_width,
        ensures
            m.b0 < GROUP_MOD,
            m.b1 < GROUP_MOD,
            (m.b0 as int, m.b1 as int) == spec_ot_request(
                self.input_bits@[i as int],
                self.xs@[i as int],
                self.others@[i as int],
            ),
    {
        let r = ot_request(self.input_bits[i], self.xs[i], self.others[i]);
        OtRequestMsg { b0: r.0, b1: r.1 }
    }

    /// Unblinds the label of own input wire `i` from the garbler's
    /// transfer reply.  A malformed commitment aborts.
    pub fn ot_receive_label(&self, c: &Circuit, i: usize, rep: &OtReplyMsg) -> (r: Result<
        u128,
        TwopcError,
    >)
        requires
            self.wf_for(*c),
            i < c.evaluator_width,
        ensures
            match r {
                Ok(l) => {
                    &&& self.big_a < GROUP_MOD
                    &&& l == spec_ot_receive(
                        self.big_a,
                        self.xs@[i as int],
                        self.input_bits@[i as int],
                        rep.e0,
                        rep.e1,
                    )
                },
                Err(e) => {
                    &&& e == TwopcError::MalformedOtMessage
                    &&& self.big_a >= GROUP_MOD
                },
            },
    {
        ot_receive(self.big_a, self.xs[i], self.input_bits[i], rep.e0, rep.e1)
    }

    /// Walks the garbled circuit with the received labels, in the fixed
    /// topological order, and returns one label per wire.  Whenever the
    /// blob is an honest garbling and the input labels are the true
    /// ones, the result is the true label of every wire.
    pub fn evaluate(&self, c: &Circuit, tm: &TablesMsg, my_labels: &Vec<u128>) -> (r: Result<
        Vec<u128>,
        TwopcError,
    >)
        requires
            self.wf_for(*c),
            my_labels@.len() == c.evaluator_width,
        ensures
            match r {
                Ok(labels) => {
                    &&& labels@.len() == c.num_wires()
                    &&& tm.garbler_labels@.len() == c.garbler_width
                    &&& tables_shaped(*c, tm.tables@)
                    &&& forall|pairs: Seq<WirePair>, inp: Seq<bool>|
                        #[trigger] honest_session(
                            *c,
                            pairs,
                            tm.tables@,
                            inp,
                            tm.garbler_labels@ + my_labels@,
                        ) ==> labels@ == correct_labels(*c, pairs, inp)
                },
                Err(e) => {
                    &&& e == TwopcError::MalformedTables
                    &&& (tm.garbler_labels@.len() != c.garbler_width || !tables_shaped(
                        *c,
                        tm.tables@,
                    ))
                },
            },
    {
        if tm.garbler_labels.len() != c.garbler_width {
            return Err(TwopcError::MalformedTables);
        }
        let mut in_labels: Vec<u128> = Vec::new();
        let mut j: usize = 0;
        while j < tm.garbler_labels.len()
            invariant
                j <= tm.garbler_labels@.len(),
                in_labels@ == tm.garbler_labels@.take(j as int),
            decreases tm.garbler_labels@.len() - j,
        {
            in_labels.push(tm.garbler_labels[j]);
            assert(in_labels@ =~= tm.garbler_labels@.take(j + 1));
            j = j + 1;
        }
        assert(in_labels@ =~= tm.garbler_labels@);
        let mut k: usize = 0;
        while k < my_labels.len()
            invariant
                k <= my_labels@.len(),
                in_labels@ == tm.garbler_labels@ + my_labels@.take(k as int),
            decreases my_labels@.len() - k,
        {
            in_labels.push(my_labels[k]);
            assert(in_labels@ =~= tm.garbler_labels@ + my_labels@.take(k + 1));
            k = k + 1;
        }
        assert(in_labels@ =~= tm.garbler_labels@ + my_labels@);
        eval_garbled(c, &tm.tables, &in_labels)
    }

    /// Picks the labels of the designated output wires out of the full
    /// wire-label assignment, for the result message.
    pub fn result_msg(&self, c: &Circuit, all_labels: &Vec<u128>) -> (m: ResultMsg)
        requires
            c.wf(),
            all_labels@.len() == c.num_wires(),
        ensures
            m.out_labels@.len() == c.outputs@.len(),
            forall|j: int|
                0 <= j < c.outputs@.len() ==> (#[trigger] m.out_labels@[j])
                    == all_labels@[c.outputs@[j] as int],
    {
        let mut out_labels: Vec<u128> = Vec::new();
        let mut j: usize = 0;
        while j < c.outputs.len()
            invariant
                j <= c.outputs@.len(),
                c.wf(),
                all_labels@.len() == c.num_wires(),
                out_labels@.len() == j,
                forall|k: int|
                    0 <= k < j ==> (#[trigger] out_labels@[k])
                        == all_labels@[c.outputs@[k] as int],
            decreases c.outputs@.len() - j,
        {
            let ow = c.outputs[j];
            out_labels.push(all_labels[ow]);
            j = j + 1;
        }
        ResultMsg { out_labels }
    }

    /// Converts output labels to the plaintext result through the decode
    /// table: one public permutation-bit comparison per output wire, no
    /// branching on any hidden value.
    pub fn decode_result(&self, m: &ResultMsg, dm: &DecodeMsg) -> (r: Result<u128, TwopcError>)
        ensures
            match r {
                Ok(v) => {
                    &&& m.out_labels@.len() == dm.perms@.len()
                    &&& m.out_labels@.len() <= 128
                    &&& v as nat == bits_to_nat(
                        Seq::new(
                            m.out_labels@.len(),
                            |j: int| perm_bit(m.out_labels@[j]) != dm.perms@[j],
                        ),
                    )
                },
                Err(e) => {
                    &&& e == TwopcError::DecodeMismatch
                    &&& (m.out_labels@.len() != dm.perms@.len() || m.out_labels@.len() > 128)
                },
            },
    {
        if m.out_labels.len() != dm.perms.len() || m.out_labels.len() > 128 {
            return Err(TwopcError::DecodeMismatch);
        }
        let bits = decode_outputs(&m.out_labels, &dm.perms);
        let v = bits_to_u128(&bits);
        proof {
            assert(bits@ =~= Seq::new(
                m.out_labels@.len(),
                |j: int| perm_bit(m.out_labels@[j]) != dm.perms@[j],
            ));
        }
        Ok(v)
    }
}

/// What one finished session yields: the decoded result as each party
/// sees it.
#[derive(Clone, Copy, PartialEq, Eq, Structural, Debug)]
pub struct SessionOutcome {
    /// The result as the garbler decodes it from the returned labels.
    pub garbler_value: u128,
    /// The result as the evaluator decodes it through the decode table.
    pub evaluator_value: u128,
}

/// Runs one complete session between a fresh garbler and a fresh
/// evaluator over the shared circuit: the whole transcript in protocol
/// order, both decodes at the end.  Input errors are reported before any
/// protocol step runs; on success both parties decode the circuit's true
/// output on the joined inputs.
#[verifier::rlimit(60)]
pub fn run_session(c: &Circuit, garbler_bits: Vec<bool>, evaluator_bits: Vec<bool>) -> (r: Result<
    SessionOutcome,
    TwopcError,
>)
    ensures
        match r {
            Ok(out) => {
                &&& c.wf()
                &&& garbler_bits@.len() == c.garbler_width
                &&& evaluator_bits@.len() == c.evaluator_width
                &&& c.outputs@.len() <= 128
                &&& out.evaluator_value as nat == bits_to_nat(
                    c.output_bits(garbler_bits@ + evaluator_bits@),
                )
                &&& out.garbler_value == out.evaluator_value
            },
            Err(e) => {
                ||| (e == TwopcError::MalformedCircuit && !c.wf())
                ||| (e == TwopcError::WidthMismatch && c.wf() && (garbler_bits@.len()
                    != c.garbler_width || evaluator_bits@.len() != c.evaluator_width))
                ||| (e == TwopcError::OutputTooWide && c.wf() && c.outputs@.len() > 128)
            },
        },
{
    if !check_circuit(c) {
        return Err(TwopcError::MalformedCircuit);
    }
    if garbler_bits.len() != c.garbler_width || evaluator_bits.len() != c.evaluator_width {
        return Err(TwopcError::WidthMismatch);
    }
    if c.outputs.len() > 128 {
        return Err(TwopcError::OutputTooWide);
    }
    let ghost gb_bits = garbler_bits@;
    let ghost ev_bits = evaluator_bits@;
    let gb = match Garbler::new(c, garbler_bits) {
        Ok(g) => g,
        Err(e) => {
            proof {
                assert(false);
            }
            return Err(e);
        },
    };
    let mut ev = match Evaluator::new(c, evaluator_bits) {
        Ok(e) => e,
        Err(e) => {
            proof {
                assert(false);
            }
            return Err(e);
        },
    };
    let setup = gb.setup_msg();
    ev.set_setup(&setup);
    let gw = c.garbler_width;
    let ew = c.evaluator_width;
    let mut my_labels: Vec<u128> = Vec::new();
    let mut i: usize = 0;
    while i < ew
        invariant
            i <= ew,
            gw == c.garbler_width,
            ew == c.evaluator_width,
            gb.wf_for(*c),
            ev.wf_for(*c),
            ev.input_bits@ == ev_bits,
            ev.big_a == setup.big_a,
            setup.big_a as int == spec_big_a(gb.sk),
            my_labels@.len() == i,
            forall|k: int|
                0 <= k < i ==> (#[trigger] my_labels@[k]) == gb.pairs@[gw + k].select(
                    ev.input_bits@[k],
                ),
        decreases ew - i,
    {
        let req = ev.ot_request_msg(c, i);
        let rep = match gb.ot_reply_msg(c, i, &req) {
            Ok(r) => r,
            Err(_) => {
                proof {
                    assert(false);
                }
                return Err(TwopcError::MalformedOtMessage);
            },
        };
        let lab = match ev.ot_receive_label(c, i, &rep) {
            Ok(l) => l,
            Err(_) => {
                proof {
                    assert(false);
                }
                return Err(TwopcError::MalformedOtMessage);
            },
        };
        proof {
            let pair = gb.pairs@[gw + i as int];
            lemma_ot_correctness(
                gb.sk,
                ev.xs@[i as int],
                ev.others@[i as int],
                ev.input_bits@[i as int],
                pair.l0,
                pair.l1,
            );
            assert(lab == pair.select(ev.input_bits@[i as int]));
        }
        my_labels.push(lab);
        i = i + 1;
    }
    let tm = gb.tables_msg(c);
    let all_labels = match ev.evaluate(c, &tm, &my_labels) {
        Ok(l) => l,
        Err(_) => {
            proof {
                assert forall|idx: int| 0 <= idx < tm.tables@.len() implies (
                #[trigger] tm.tables@[idx].rows)@.len() == (if c.gates@[idx] is Not {
                    2int
                } else {
                    4int
                }) by {
                    assert(tm.tables@[idx].rows@ == crate::garble::gate_table(
                        c.gates@[idx],
                        gb.pairs@,
                        c.num_inputs() + idx,
                        idx as u64,
                    ));
                }
                assert(tables_shaped(*c, tm.tables@));
                assert(false);
            }
            return Err(TwopcError::MalformedTables);
        },
    };
    let ghost inp = gb_bits + ev_bits;
    proof {
        assert forall|w: int|
            0 <= w < (tm.garbler_labels@ + my_labels@).len() implies (tm.garbler_labels@
            + my_labels@)[w] == gb.pairs@[w].select(inp[w]) by {
            if w < gw {
                assert((tm.garbler_labels@ + my_labels@)[w] == tm.garbler_labels@[w]);
            } else {
                assert((tm.garbler_labels@ + my_labels@)[w] == my_labels@[w - gw]);
            }
        }
        assert(honest_session(*c, gb.pairs@, tm.tables@, inp, tm.garbler_labels@ + my_labels@));
        assert(all_labels@ == correct_labels(*c, gb.pairs@, inp));
    }
    let dm = gb.decode_msg(c);
    let rm = ev.result_msg(c, &all_labels);
    proof {
        crate::circuit::lemma_wire_vals_len(*c, inp, c.gates@.len() as nat);
        assert forall|j: int| 0 <= j < c.outputs@.len() implies (perm_bit(rm.out_labels@[j])
            != dm.perms@[j]) == c.output_bits(inp)[j] by {
            let o = c.outputs@[j] as int;
            assert(all_labels@[o] == gb.pairs@[o].select(c.wire_vals(inp)[o]));
            lemma_decode_bit(gb.pairs@[o], c.wire_vals(inp)[o]);
        }
    }
    let evaluator_value = match ev.decode_result(&rm, &dm) {
        Ok(v) => v,
        Err(_) => {
            proof {
                assert(false);
            }
            return Err(TwopcError::DecodeMismatch);
        },
    };
    proof {
        assert(Seq::new(
            rm.out_labels@.len(),
            |j: int| perm_bit(rm.out_labels@[j]) != dm.perms@[j],
        ) =~= c.output_bits(inp));
    }
    let garbler_value = match gb.finish(c, &rm) {
        Ok(v) => v,
        Err(_) => {
            proof {
                assert forall|j: int| 0 <= j < rm.out_labels@.len() implies !(rm.out_labels@[j]
                    != gb.pairs@[c.outputs@[j] as int].l0 && rm.out_labels@[j]
                    != gb.pairs@[c.outputs@[j] as int].l1) by {
                    let o = c.outputs@[j] as int;
                    assert(rm.out_labels@[j] == gb.pairs@[o].select(c.wire_vals(inp)[o]));
                }
                assert(false);
            }
            return Err(TwopcError::DecodeMismatch);
        },
    };
    proof {
        let obits = c.output_bits(inp);
        assert forall|j: int| 0 <= j < obits.len() implies rm.out_labels@[j]
            == gb.pairs@[#[trigger] c.outputs@[j] as int].select(obits[j]) by {
            let o = c.outputs@[j] as int;
            assert(rm.out_labels@[j] == gb.pairs@[o].select(c.wire_vals(inp)[o]));
        }
        assert(garbler_value as nat == bits_to_nat(obits));
    }
    Ok(SessionOutcome { garbler_value, evaluator_value })
}

/// Computes the garbled-circuit sum of the selected values: the garbler
/// holds their plain sum, the evaluator holds zero, and a 128-bit adder
/// session produces the total.
pub fn garbled_sum(selected_data: Vec<u16>) -> (r: Result<u128, TwopcError>)
    ensures
        r is Ok,
        r matches Ok(v) ==> v as nat == crate::aggregate::spec_sum(selected_data@),
{
    let s = crate::aggregate::sum_values(&selected_data);
    let garbler_input_bits = u128_to_bits(s, 128);
    let evaluator_input_bits = u128_to_bits(0, 128);
    let c = adder_circuit(128);
    let out = match run_session(&c, garbler_input_bits, evaluator_input_bits) {
        Ok(o) => o,
        Err(_) => {
            proof {
                assert(false);
            }
            return Err(TwopcError::MalformedCircuit);
        },
    };
    proof {
        let inp = bits_of(s, 128) + bits_of(0, 128);
        assert(inp.take(128) =~= bits_of(s, 128));
        assert(inp.skip(128) =~= bits_of(0, 128));
        lemma_bits_of_value(s, 128);
        lemma_bits_of_value(0, 128);
        lemma_pow2_128();
        lemma_small_mod(s as nat, pow2(128));
        lemma_small_mod(0, pow2(128));
        lemma_small_mod((s as nat + 0) as nat, pow2(128));
    }
    Ok(out.evaluator_value)
}

/// Adds the two parties' values through a garbled adder session: the
/// result is the sum of both values, each reduced to the agreed bit
/// width, modulo `2^width`.
pub fn garbled_add(garbler_value: u64, evaluator_value: u64, width: usize) -> (r: Result<
    u128,
    TwopcError,
>)
    requires
        1 <= width <= 64,
    ensures
        r is Ok,
        r matches Ok(v) ==> v as nat == ((garbler_value as nat) % pow2(width as nat) + (
        evaluator_value as nat) % pow2(width as nat)) % pow2(width as nat),
{
    let garbler_input_bits = u128_to_bits(garbler_value as u128, width);
    let evaluator_input_bits = u128_to_bits(evaluator_value as u128, width);
    let c = adder_circuit(width);
    let out = match run_session(&c, garbler_input_bits, evaluator_input_bits) {
        Ok(o) => o,
        Err(_) => {
            proof {
                assert(false);
            }
            return Err(TwopcError::MalformedCircuit);
        },
    };
    proof {
        let inp = bits_of(garbler_value as u128, width as nat) + bits_of(
            evaluator_value as u128,
            width as nat,
        );
        assert(inp.take(width as int) =~= bits_of(garbler_value as u128, width as nat));
        assert(inp.skip(width as int) =~= bits_of(evaluator_value as u128, width as nat));
        lemma_bits_of_value(garbler_value as u128, width as nat);
        lemma_bits_of_value(evaluator_value as u128, width as nat);
    }
    Ok(out.evaluator_value)
}

/// Compares the two parties' values through a garbled comparator
/// session: true exactly when the garbler's value, reduced to the agreed
/// bit width, is at least the evaluator's.
pub fn garbled_compare(garbler_value: u64, evaluator_value: u64, width: usize) -> (r: Result<
    bool,
    TwopcError,
>)
    requires
        1 <= width <= 64,
    ensures
        r is Ok,
        r matches Ok(v) ==> v == ((garbler_value as nat) % pow2(width as nat) >= (
        evaluator_value as nat) % pow2(width as nat)),
{
    let garbler_input_bits = u128_to_bits(garbler_value as u128, width);
    let evaluator_input_bits = u128_to_bits(evaluator_value as u128, width);
    let c = comparator_circuit(width);
    let out = match run_session(&c, garbler_input_bits, evaluator_input_bits) {
        Ok(o) => o,
        Err(_) => {
            proof {
                assert(false);
            }
            return Err(TwopcError::MalformedCircuit);
        },
    };
    proof {
        let inp = bits_of(garbler_value as u128, width as nat) + bits_of(
            evaluator_value as u128,
            width as nat,
        );
        assert(inp.take(width as int) =~= bits_of(garbler_value as u128, width as nat));
        assert(inp.skip(width as int) =~= bits_of(evaluator_value as u128, width as nat));
        lemma_bits_of_value(garbler_value as u128, width as nat);
        lemma_bits_of_value(evaluator_value as u128, width as nat);
        let obits = c.output_bits(inp);
        assert(obits.len() == 1);
        assert(obits.subrange(1, 1) =~= Seq::<bool>::empty());
        assert(bits_to_nat(Seq::<bool>::empty()) == 0);
        assert(bits_to_nat(obits) == (if obits[0] {
            1nat
        } else {
            0nat
        }));
    }
    Ok(out.evaluator_value == 1)
}

} // verus!
