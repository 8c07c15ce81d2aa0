//! Garbled gates: construction and evaluation.
//!
//! Every wire carries one of two pseudorandom labels, one per boolean
//! value; the low-order bit of a label is its public permutation bit, and
//! the two labels of a wire always disagree on it.  A garbled gate is a
//! table of ciphertexts, one per combination of input-label permutation
//! bits, each encrypting the correct output label under a pad derived from
//! the two input labels (point-and-permute: the evaluator selects a row by
//! the permutation bits alone and never branches on a hidden value).

use vstd::prelude::*;
use crate::circuit::Circuit;
use crate::circuit::Gate;
use crate::errors::TwopcError;
use crate::prim::aes_of;
use crate::prim::aes_encrypt;

verus! {

/// The cipher key under which gate pads are derived.
pub const GATE_KEY: u128 = 0x9e3779b97f4a7c15f39cc0605cedc834;

/// The public permutation bit of a label: its low-order bit.
pub open spec fn perm_bit(l: u128) -> bool {
    l & 1 == 1
}

/// The permutation bit as a row offset.
pub open spec fn perm_i(l: u128) -> int {
    if perm_bit(l) {
        1
    } else {
        0
    }
}

/// The two labels of one wire: `l0` stands for false, `l1` for true.
#[derive(Clone, Copy, PartialEq, Eq, Structural, Debug)]
pub struct WirePair {
    pub l0: u128,
    pub l1: u128,
}

impl WirePair {
    /// The labels of a wire must disagree on the permutation bit, so that
    /// the bit indexes garbled-table rows unambiguously.
    pub open spec fn valid(self) -> bool {
        perm_bit(self.l0) != perm_bit(self.l1)
    }

    /// The label that stands for value `v`.
    pub open spec fn select(self, v: bool) -> u128 {
        if v {
            self.l1
        } else {
            self.l0
        }
    }
}

/// The label that stands for value `v` on wire pair `p`.
pub fn select_label(p: &WirePair, v: bool) -> (r: u128)
    ensures
        r == p.select(v),
{
    if v {
        p.l1
    } else {
        p.l0
    }
}

/// Draws a fresh label pair for one wire: both labels pseudorandom, with
/// opposite permutation bits.
pub fn fresh_pair() -> (p: WirePair)
    ensures
        p.valid(),
{
    let r0: u128 = rand::random::<u128>();
    let r1: u128 = rand::random::<u128>();
    let l1 = (r1 & !1u128) | ((r0 & 1) ^ 1);
    proof {
        assert(((r1 & !1u128) | ((r0 & 1) ^ 1)) & 1 == (r0 & 1) ^ 1) by (bit_vector);
        assert((r0 & 1) ^ 1 == (if r0 & 1 == 1 {
            0u128
        } else {
            1u128
        })) by (bit_vector);
    }
    WirePair { l0: r0, l1 }
}

/// Mixes two labels and a gate-position tweak into one cipher block.
pub open spec fn spec_mix(la: u128, lb: u128, t: u64) -> u128 {
    la ^ ((lb << 53u128) | (lb >> 75u128)) ^ ((t as u128) << 64u128)
}

/// The encryption pad for one garbled-table row: a block-cipher hash of
/// the two input labels and of the position of that gate.
pub open spec fn pad_spec(la: u128, lb: u128, t: u64) -> u128 {
    aes_of(GATE_KEY, spec_mix(la, lb, t)) ^ spec_mix(la, lb, t)
}

/// Computes the row pad for input labels `la`, `lb` at gate position `t`.
pub fn gate_pad(la: u128, lb: u128, t: u64) -> (r: u128)
    ensures
        r == pad_spec(la, lb, t),
{
    let m = la ^ ((lb << 53u128) | (lb >> 75u128)) ^ ((t as u128) << 64u128);
    let c = aes_encrypt(GATE_KEY, m);
    c ^ m
}

/// The boolean function of a gate on explicit argument values (the second
/// argument is ignored by `Not`).
pub open spec fn gate_fun(g: Gate, va: bool, vb: bool) -> bool {
    match g {
        Gate::And { .. } => va && vb,
        Gate::Xor { .. } => va != vb,
        Gate::Not { .. } => !va,
    }
}

/// The value whose label on wire pair `p` carries permutation bit `bit`.
pub open spec fn val_for_perm(p: WirePair, bit: bool) -> bool {
    perm_bit(p.l1) == bit
}

/// Row `idx` of the garbled table of a binary gate: the pad for the two
/// labels whose permutation bits spell `idx`, xored with the output label
/// for what that gate computes on the values those labels stand for.
pub open spec fn garbled_row_bin(
    g: Gate,
    pa: WirePair,
    pb: WirePair,
    po: WirePair,
    t: u64,
    idx: int,
) -> u128 {
    let va = val_for_perm(pa, idx >= 2);
    let vb = val_for_perm(pb, idx % 2 == 1);
    pad_spec(pa.select(va), pb.select(vb), t) ^ po.select(gate_fun(g, va, vb))
}

/// Row `idx` of the garbled table of a negation gate.
pub open spec fn garbled_row_not(pa: WirePair, po: WirePair, t: u64, idx: int) -> u128 {
    let va = val_for_perm(pa, idx == 1);
    pad_spec(pa.select(va), 0, t) ^ po.select(!va)
}

/// One garbled gate: four ciphertext rows for a binary gate, two for a
/// negation.
#[derive(Clone, Debug)]
pub struct GarbledGate {
    pub rows: Vec<u128>,
}

/// The full garbled table of gate `g`, whose inputs and output wire are
/// looked up in `pairs`.
pub open spec fn gate_table(g: Gate, pairs: Seq<WirePair>, out_wire: int, t: u64) -> Seq<u128> {
    match g {
        Gate::And { a, b } => Seq::new(
            4,
            |idx: int| garbled_row_bin(g, pairs[a as int], pairs[b as int], pairs[out_wire], t, idx),
        ),
        Gate::Xor { a, b } => Seq::new(
            4,
            |idx: int| garbled_row_bin(g, pairs[a as int], pairs[b as int], pairs[out_wire], t, idx),
        ),
        Gate::Not { a } => Seq::new(
            2,
            |idx: int| garbled_row_not(pairs[a as int], pairs[out_wire], t, idx),
        ),
    }
}

/// `tables` is exactly the garbling of circuit `c` under label assignment
/// `pairs`.
pub open spec fn garbling_of(c: Circuit, pairs: Seq<WirePair>, tables: Seq<GarbledGate>) -> bool {
    &&& tables.len() == c.gates.len()
    &&& forall|i: int|
        0 <= i < c.gates.len() ==> (#[trigger] tables[i].rows)@ == gate_table(
            c.gates@[i],
            pairs,
            c.num_inputs() + i,
            i as u64,
        )
}

/// Garbles one binary gate.
fn garble_bin(g: Gate, pa: &WirePair, pb: &WirePair, po: &WirePair, t: u64) -> (r: GarbledGate)
    requires
        g is And || g is Xor,
    ensures
        r.rows@ == Seq::new(4, |idx: int| garbled_row_bin(g, *pa, *pb, *po, t, idx)),
{
    let mut rows: Vec<u128> = Vec::new();
    let mut idx: usize = 0;
    while idx < 4
        invariant
            idx <= 4,
            g is And || g is Xor,
            rows@.len() == idx,
            forall|k: int| 0 <= k < idx ==> rows@[k] == garbled_row_bin(g, *pa, *pb, *po, t, k),
        decreases 4 - idx,
    {
        let ba = idx >= 2;
        let bb = idx % 2 == 1;
        let va = (pa.l1 & 1 == 1) == ba;
        let vb = (pb.l1 & 1 == 1) == bb;
        let la = select_label(pa, va);
        let lb = select_label(pb, vb);
        let f = match g {
            Gate::And { .. } => va && vb,
            Gate::Xor { .. } => va != vb,
            Gate::Not { .. } => false,
        };
        let lo = select_label(po, f);
        rows.push(gate_pad(la, lb, t) ^ lo);
        idx = idx + 1;
    }
    assert(rows@ =~= Seq::new(4, |idx: int| garbled_row_bin(g, *pa, *pb, *po, t, idx)));
    GarbledGate { rows }
}

/// Garbles one negation gate.
fn garble_not(pa: &WirePair, po: &WirePair, t: u64) -> (r: GarbledGate)
    ensures
        r.rows@ == Seq::new(2, |idx: int| garbled_row_not(*pa, *po, t, idx)),
{
    let mut rows: Vec<u128> = Vec::new();
    let mut idx: usize = 0;
    while idx < 2
        invariant
            idx <= 2,
            rows@.len() == idx,
            forall|k: int| 0 <= k < idx ==> rows@[k] == garbled_row_not(*pa, *po, t, k),
        decreases 2 - idx,
    {
        let va = (pa.l1 & 1 == 1) == (idx == 1);
        let la = select_label(pa, va);
        let lo = select_label(po, !va);
        rows.push(gate_pad(la, 0, t) ^ lo);
        idx = idx + 1;
    }
    assert(rows@ =~= Seq::new(2, |idx: int| garbled_row_not(*pa, *po, t, idx)));
    GarbledGate { rows }
}

/// Garbles a whole circuit in evaluation order, so that the label pairs a
/// gate reads exist before that gate is garbled.
pub fn garble_circuit(c: &Circuit, pairs: &Vec<WirePair>) -> (r: Vec<GarbledGate>)
    requires
        c.wf(),
        pairs@.len() == c.num_wires(),
    ensures
        garbling_of(*c, pairs@, r@),
{
    let nin = c.garbler_width + c.evaluator_width;
    let mut tables: Vec<GarbledGate> = Vec::new();
    let mut i: usize = 0;
    while i < c.gates.len()
        invariant
            i <= c.gates.len(),
            c.wf(),
            pairs@.len() == c.num_wires(),
            nin == c.num_inputs(),
            tables@.len() == i,
            forall|k: int|
                0 <= k < i ==> (#[trigger] tables@[k].rows)@ == gate_table(
                    c.gates@[k],
                    pairs@,
                    c.num_inputs() + k,
                    k as u64,
                ),
        decreases c.gates.len() - i,
    {
        let g = c.gates[i];
        let po = pairs[nin + i];
        let gg = match g {
            Gate::And { a, b } => garble_bin(g, &pairs[a], &pairs[b], &po, i as u64),
            Gate::Xor { a, b } => garble_bin(g, &pairs[a], &pairs[b], &po, i as u64),
            Gate::Not { a } => garble_not(&pairs[a], &po, i as u64),
        };
        tables.push(gg);
        i = i + 1;
    }
    tables
}

/// Decrypts the row of a binary garbled gate selected by the permutation
/// bits of the two known input labels.
pub fn eval_gate_bin(rows: &Vec<u128>, la: u128, lb: u128, t: u64) -> (r: u128)
    requires
        rows@.len() == 4,
    ensures
        r == rows@[2 * perm_i(la) + perm_i(lb)] ^ pad_spec(la, lb, t),
{
    let ia: usize = if la & 1 == 1 {
        2
    } else {
        0
    };
    let ib: usize = if lb & 1 == 1 {
        1
    } else {
        0
    };
    rows[ia + ib] ^ gate_pad(la, lb, t)
}

/// Decrypts the row of a garbled negation gate selected by the permutation
/// bit of the known input label.
pub fn eval_gate_not(rows: &Vec<u128>, la: u128, t: u64) -> (r: u128)
    requires
        rows@.len() == 2,
    ensures
        r == rows@[perm_i(la)] ^ pad_spec(la, 0, t),
{
    let ia: usize = if la & 1 == 1 {
        1
    } else {
        0
    };
    rows[ia] ^ gate_pad(la, 0, t)
}

/// Garbling correctness for a binary gate: decrypting the row selected by
/// the true input labels yields the label of the true output value, for
/// every gate type and every input-value combination.
pub proof fn lemma_gate_correct_bin(
    g: Gate,
    pa: WirePair,
    pb: WirePair,
    po: WirePair,
    t: u64,
    va: bool,
    vb: bool,
)
    requires
        pa.valid(),
        pb.valid(),
    ensures
        garbled_row_bin(g, pa, pb, po, t, 2 * perm_i(pa.select(va)) + perm_i(pb.select(vb)))
            ^ pad_spec(pa.select(va), pb.select(vb), t) == po.select(gate_fun(g, va, vb)),
{
    let idx = 2 * perm_i(pa.select(va)) + perm_i(pb.select(vb));
    assert(val_for_perm(pa, idx >= 2) == va);
    assert(val_for_perm(pb, idx % 2 == 1) == vb);
    let p = pad_spec(pa.select(va), pb.select(vb), t);
    let o = po.select(gate_fun(g, va, vb));
    assert((p ^ o) ^ p == o) by (bit_vector);
}

/// Garbling correctness for a negation gate.
pub proof fn lemma_gate_correct_not(pa: WirePair, po: WirePair, t: u64, va: bool)
    requires
        pa.valid(),
    ensures
        garbled_row_not(pa, po, t, perm_i(pa.select(va))) ^ pad_spec(pa.select(va), 0, t)
            == po.select(!va),
{
    let idx = perm_i(pa.select(va));
    assert(val_for_perm(pa, idx == 1) == va);
    let p = pad_spec(pa.select(va), 0, t);
    let o = po.select(!va);
    assert((p ^ o) ^ p == o) by (bit_vector);
}

/// The garbled-table blob has the shape the circuit demands: one table per
/// gate, four rows for a binary gate, two for a negation.
pub open spec fn tables_shaped(c: Circuit, tables: Seq<GarbledGate>) -> bool {
    &&& tables.len() == c.gates.len()
    &&& forall|i: int|
        0 <= i < tables.len() ==> (#[trigger] tables[i].rows)@.len() == (if c.gates@[i] is Not {
            2int
        } else {
            4int
        })
}

/// The evaluator's view of an honest session: the label pairs the garbler
/// drew, the plaintext input assignment, the tables as a true garbling and
/// the received input labels as the labels of the true input values.
pub open spec fn honest_session(
    c: Circuit,
    pairs: Seq<WirePair>,
    tables: Seq<GarbledGate>,
    inp: Seq<bool>,
    in_labels: Seq<u128>,
) -> bool {
    &&& pairs.len() == c.num_wires()
    &&& (forall|w: int| 0 <= w < pairs.len() ==> (#[trigger] pairs[w]).valid())
    &&& inp.len() == c.num_inputs()
    &&& in_labels.len() == c.num_inputs()
    &&& (forall|w: int| 0 <= w < in_labels.len() ==> in_labels[w] == pairs[w].select(inp[w]))
    &&& garbling_of(c, pairs, tables)
}

/// The labels an honest evaluation must produce: for every wire, the label
/// of the wire's true plaintext value.
pub open spec fn correct_labels(c: Circuit, pairs: Seq<WirePair>, inp: Seq<bool>) -> Seq<u128> {
    Seq::new(c.num_wires(), |w: int| pairs[w].select(c.wire_vals(inp)[w]))
}

/// Evaluates a garbled circuit gate by gate, in circuit order, decrypting
/// at each gate the single row selected by the permutation bits of its
/// known input labels.  The result is one label per wire.
///
/// Whatever the peer sent, a malformed table blob is rejected; and
/// whenever the tables are an honest garbling and the input labels are the
/// true ones, the output labels are exactly the true ones.
pub fn eval_garbled(c: &Circuit, tables: &Vec<GarbledGate>, in_labels: &Vec<u128>) -> (r: Result<
    Vec<u128>,
    TwopcError,
>)
    requires
        c.wf(),
        in_labels@.len() == c.num_inputs(),
    ensures
        match r {
            Ok(labels) => {
                &&& labels@.len() == c.num_wires()
                &&& tables_shaped(*c, tables@)
                &&& forall|pairs: Seq<WirePair>, inp: Seq<bool>|
                    #[trigger] honest_session(*c, pairs, tables@, inp, in_labels@) ==> labels@
                        == correct_labels(*c, pairs, inp)
            },
            Err(e) => {
                &&& e == TwopcError::MalformedTables
                &&& !tables_shaped(*c, tables@)
            },
        },
{
    let nin = c.garbler_width + c.evaluator_width;
    if tables.len() != c.gates.len() {
        return Err(TwopcError::MalformedTables);
    }
    let mut labels: Vec<u128> = Vec::new();
    let mut j: usize = 0;
    while j < in_labels.len()
        invariant
            j <= in_labels@.len(),
            labels@ == in_labels@.take(j as int),
        decreases in_labels@.len() - j,
    {
        labels.push(in_labels[j]);
        assert(labels@ =~= in_labels@.take(j + 1));
        j = j + 1;
    }
    assert(labels@ =~= in_labels@);
    proof {
        assert forall|pairs: Seq<WirePair>, inp: Seq<bool>|
            #[trigger] honest_session(*c, pairs, tables@, inp, in_labels@) implies labels@
            == correct_labels(*c, pairs, inp).take(nin as int) by {
            crate::circuit::lemma_wire_vals_len(*c, inp, c.gates.len() as nat);
            assert forall|w: int| 0 <= w < nin implies correct_labels(*c, pairs, inp)[w]
                == in_labels@[w] by {
                crate::circuit::lemma_wire_vals_stable(*c, inp, 0, c.gates.len() as nat, w);
            }
            assert(labels@ =~= correct_labels(*c, pairs, inp).take(nin as int));
        }
    }
    let mut i: usize = 0;
    while i < c.gates.len()
        invariant
            i <= c.gates.len(),
            c.wf(),
            in_labels@.len() == c.num_inputs(),
            nin == c.num_inputs(),
            tables@.len() == c.gates.len(),
            labels@.len() == nin + i,
            forall|k: int|
                0 <= k < i ==> (#[trigger] tables@[k].rows)@.len() == (if c.gates@[k] is Not {
                    2int
                } else {
                    4int
                }),
            forall|pairs: Seq<WirePair>, inp: Seq<bool>|
                #[trigger] honest_session(*c, pairs, tables@, inp, in_labels@) ==> labels@
                    == correct_labels(*c, pairs, inp).take(nin + i as int),
        decreases c.gates.len() - i,
    {
        let g = c.gates[i];
        let ghost old_labels = labels@;
        let out: u128;
        match g {
            Gate::And { a, b } => {
                if tables[i].rows.len() != 4 {
                    return Err(TwopcError::MalformedTables);
                }
                out = eval_gate_bin(&tables[i].rows, labels[a], labels[b], i as u64);
            },
            Gate::Xor { a, b } => {
                if tables[i].rows.len() != 4 {
                    return Err(TwopcError::MalformedTables);
                }
                out = eval_gate_bin(&tables[i].rows, labels[a], labels[b], i as u64);
            },
            Gate::Not { a } => {
                if tables[i].rows.len() != 2 {
                    return Err(TwopcError::MalformedTables);
                }
                out = eval_gate_not(&tables[i].rows, labels[a], i as u64);
            },
        }
        labels.push(out);
        proof {
            assert forall|pairs: Seq<WirePair>, inp: Seq<bool>|
                #[trigger] honest_session(*c, pairs, tables@, inp, in_labels@) implies labels@
                == correct_labels(*c, pairs, inp).take(nin + (i + 1) as int) by {
            let full = c.wire_vals(inp);
                crate::circuit::lemma_wire_vals_len(*c, inp, c.gates.len() as nat);
                let prev = c.wire_vals_upto(inp, i as nat);
                crate::circuit::lemma_wire_vals_len(*c, inp, i as nat);
                crate::circuit::lemma_wire_vals_len(*c, inp, (i + 1) as nat);
                crate::circuit::lemma_wire_vals_stable(
                    *c,
                    inp,
                    (i + 1) as nat,
                    c.gates.len() as nat,
                    nin + i as int,
                );
                let t = i as u64;
                let po = pairs[nin + i as int];
                match g {
                    Gate::And { a, b } => {
                        crate::circuit::lemma_wire_vals_stable(
                            *c,
                            inp,
                            i as nat,
                            c.gates.len() as nat,
                            a as int,
                        );
                        crate::circuit::lemma_wire_vals_stable(
                            *c,
                            inp,
                            i as nat,
                            c.gates.len() as nat,
                            b as int,
                        );
                        assert(full[nin + i as int] == gate_fun(g, full[a as int], full[b as int]));
                        lemma_gate_correct_bin(
                            g,
                            pairs[a as int],
                            pairs[b as int],
                            po,
                            t,
                            full[a as int],
                            full[b as int],
                        );
                        assert(out == po.select(full[nin + i as int]));
                    },
                    Gate::Xor { a, b } => {
                        crate::circuit::lemma_wire_vals_stable(
                            *c,
                            inp,
                            i as nat,
                            c.gates.len() as nat,
                            a as int,
                        );
                        crate::circuit::lemma_wire_vals_stable(
                            *c,
                            inp,
                            i as nat,
                            c.gates.len() as nat,
                            b as int,
                        );
                        assert(full[nin + i as int] == gate_fun(g, full[a as int], full[b as int]));
                        lemma_gate_correct_bin(
                            g,
                            pairs[a as int],
                            pairs[b as int],
                            po,
                            t,
                            full[a as int],
                            full[b as int],
                        );
                        assert(out == po.select(full[nin + i as int]));
                    },
                    Gate::Not { a } => {
                        crate::circuit::lemma_wire_vals_stable(
                            *c,
                            inp,
                            i as nat,
                            c.gates.len() as nat,
                            a as int,
                        );
                        assert(full[nin + i as int] == gate_fun(g, full[a as int], full[a as int]));
                        lemma_gate_correct_not(pairs[a as int], po, t, full[a as int]);
                        assert(out == po.select(full[nin + i as int]));
                    },
                }
                assert(labels@ =~= correct_labels(*c, pairs, inp).take(nin + (i + 1) as int));
            }
        }
        i = i + 1;
    }
    proof {
        assert forall|pairs: Seq<WirePair>, inp: Seq<bool>|
            #[trigger] honest_session(*c, pairs, tables@, inp, in_labels@) implies labels@
            == correct_labels(*c, pairs, inp) by {
            assert(correct_labels(*c, pairs, inp).take(nin + c.gates.len() as int)
                =~= correct_labels(*c, pairs, inp));
        }
    }
    Ok(labels)
}

/// Turns output labels into plaintext bits with the garbler's decode
/// table, which holds the permutation bit of each output wire's
/// false-label.
pub fn decode_outputs(out_labels: &Vec<u128>, perm_table: &Vec<bool>) -> (r: Vec<bool>)
    requires
        out_labels@.len() == perm_table@.len(),
    ensures
        r@.len() == out_labels@.len(),
        forall|j: int|
            0 <= j < r@.len() ==> r@[j] == (perm_bit(#[trigger] out_labels@[j])
                != perm_table@[j]),
{
    let mut r: Vec<bool> = Vec::new();
    let mut j: usize = 0;
    while j < out_labels.len()
        invariant
            j <= out_labels@.len(),
            out_labels@.len() == perm_table@.len(),
            r@.len() == j,
            forall|k: int|
                0 <= k < j ==> r@[k] == (perm_bit(#[trigger] out_labels@[k]) != perm_table@[k]),
        decreases out_labels@.len() - j,
    {
        r.push((out_labels[j] & 1 == 1) != perm_table[j]);
        j = j + 1;
    }
    r
}

/// A label decodes through the permutation-bit table to the value it
/// stands for.
pub proof fn lemma_decode_bit(p: WirePair, v: bool)
    requires
        p.valid(),
    ensures
        (perm_bit(p.select(v)) != perm_bit(p.l0)) == v,
{
}

/// Decodes output labels against the full label pairs, as the garbler
/// does: a label that matches neither label of its wire is a fatal
/// protocol error, never a default value.
pub fn decode_with_pairs(out_labels: &Vec<u128>, out_pairs: &Vec<WirePair>) -> (r: Result<
    Vec<bool>,
    TwopcError,
>)
    requires
        out_labels@.len() == out_pairs@.len(),
        forall|j: int| 0 <= j < out_pairs@.len() ==> (#[trigger] out_pairs@[j]).valid(),
    ensures
        match r {
            Ok(bits) => {
                &&& bits@.len() == out_labels@.len()
                &&& forall|j: int|
                    0 <= j < bits@.len() ==> #[trigger] out_labels@[j] == out_pairs@[j].select(
                        bits@[j],
                    )
            },
            Err(e) => {
                &&& e == TwopcError::DecodeMismatch
                &&& exists|j: int|
                    0 <= j < out_labels@.len() && #[trigger] out_labels@[j] != out_pairs@[j].l0
                        && out_labels@[j] != out_pairs@[j].l1
            },
        },
{
    let mut bits: Vec<bool> = Vec::new();
    let mut j: usize = 0;
    while j < out_labels.len()
        invariant
            j <= out_labels@.len(),
            out_labels@.len() == out_pairs@.len(),
            forall|k: int| 0 <= k < out_pairs@.len() ==> (#[trigger] out_pairs@[k]).valid(),
            bits@.len() == j,
            forall|k: int|
                0 <= k < j ==> #[trigger] out_labels@[k] == out_pairs@[k].select(bits@[k]),
        decreases out_labels@.len() - j,
    {
        let l = out_labels[j];
        if l == out_pairs[j].l0 {
            bits.push(false);
        } else if l == out_pairs[j].l1 {
            bits.push(true);
        } else {
            return Err(TwopcError::DecodeMismatch);
        }
        j = j + 1;
    }
    Ok(bits)
}

} // verus!
