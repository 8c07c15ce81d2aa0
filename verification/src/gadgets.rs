//! Fixed-purpose circuit assembly: an N-bit ripple-carry adder and an
//! N-bit greater-or-equal comparator, over the minimal gate set AND, XOR,
//! NOT.
//!
//! Wire layout of both builders: wires `0..n-1` carry the garbler's input
//! bits, wires `n..2n-1` the evaluator's, both least-significant bit
//! first; every gate drives the next fresh wire.

use vstd::prelude::*;
use vstd::arithmetic::div_mod::lemma_mod_multiples_vanish;
use vstd::arithmetic::div_mod::lemma_small_mod;
use vstd::arithmetic::power2::lemma_pow2_unfold;
use vstd::arithmetic::power2::pow2;
use crate::bits::bits_to_nat;
use crate::bits::lemma_bits_to_nat_bound;
use crate::bits::lemma_bits_to_nat_push;
use crate::circuit::Circuit;
use crate::circuit::Gate;
use crate::circuit::lemma_vals_len;
use crate::circuit::lemma_vals_push;
use crate::circuit::lemma_vals_stable;
use crate::circuit::vals_upto;

verus! {

/// One as a weight for a true bit.
pub open spec fn bool_to_nat(x: bool) -> nat {
    if x {
        1
    } else {
        0
    }
}

/// The carry into bit position `i` of the ripple-carry sum of `a` and
/// `b`: generated where both bits below are set, propagated where they
/// differ.
pub open spec fn carry(a: Seq<bool>, b: Seq<bool>, i: nat) -> bool
    decreases i,
{
    if i == 0 {
        false
    } else {
        let p = a[i - 1] != b[i - 1];
        let g = a[i - 1] && b[i - 1];
        g != (p && carry(a, b, (i - 1) as nat))
    }
}

/// Bit `i` of the ripple-carry sum.
pub open spec fn sum_bit(a: Seq<bool>, b: Seq<bool>, i: nat) -> bool {
    (a[i as int] != b[i as int]) != carry(a, b, i)
}

/// The low `n` bits of the ripple-carry sum.
pub open spec fn sum_bits(a: Seq<bool>, b: Seq<bool>, n: nat) -> Seq<bool> {
    Seq::new(n, |i: int| sum_bit(a, b, i as nat))
}

/// The ripple-carry sum together with its carry-out is exact integer
/// addition of the low `n` bits.
pub proof fn lemma_adder_value(a: Seq<bool>, b: Seq<bool>, n: nat)
    requires
        n <= a.len(),
        n <= b.len(),
    ensures
        bits_to_nat(sum_bits(a, b, n)) + pow2(n) * bool_to_nat(carry(a, b, n)) == bits_to_nat(
            a.take(n as int),
        ) + bits_to_nat(b.take(n as int)),
    decreases n,
{
    if n == 0 {
        assert(sum_bits(a, b, 0) =~= Seq::<bool>::empty());
        assert(a.take(0) =~= Seq::<bool>::empty());
        assert(b.take(0) =~= Seq::<bool>::empty());
        assert(bits_to_nat(Seq::<bool>::empty()) == 0);
    } else {
        let m = (n - 1) as nat;
        lemma_adder_value(a, b, m);
        assert(sum_bits(a, b, n) =~= sum_bits(a, b, m).push(sum_bit(a, b, m)));
        assert(a.take(n as int) =~= a.take(m as int).push(a[m as int]));
        assert(b.take(n as int) =~= b.take(m as int).push(b[m as int]));
        lemma_bits_to_nat_push(sum_bits(a, b, m), sum_bit(a, b, m));
        lemma_bits_to_nat_push(a.take(m as int), a[m as int]);
        lemma_bits_to_nat_push(b.take(m as int), b[m as int]);
        lemma_pow2_unfold(n);
        let p2 = pow2(m);
        let av = bool_to_nat(a[m as int]);
        let bv = bool_to_nat(b[m as int]);
        let cv = bool_to_nat(carry(a, b, m));
        let sv = bool_to_nat(sum_bit(a, b, m));
        let cv2 = bool_to_nat(carry(a, b, n));
        assert(sv + 2 * cv2 == av + bv + cv);
        assert(p2 * sv + (2 * p2) * cv2 == p2 * av + p2 * bv + p2 * cv) by (nonlinear_arith)
            requires
                sv + 2 * cv2 == av + bv + cv,
        ;
    }
}

/// The wire carrying sum bit `i` in the adder circuit.
pub open spec fn adder_sum_wire(n: nat, i: nat) -> int {
    if i == 0 {
        2 * (n as int)
    } else {
        2 * (n as int) + 5 * (i as int) - 2
    }
}

/// The wire carrying the carry into bit `i` (for `1 <= i <= n`) in the
/// adder circuit.
pub open spec fn adder_carry_wire(n: nat, i: nat) -> int {
    2 * (n as int) + 5 * (i as int) - 4
}

/// After the adder builder has processed bit positions `0..i`, the built
/// gates compute every finished sum bit and the running carry.
pub open spec fn adder_partial_ok(gates: Seq<Gate>, n: nat, i: nat, inp: Seq<bool>) -> bool {
    let a = inp.take(n as int);
    let b = inp.skip(n as int);
    let vals = vals_upto(gates, inp, gates.len());
    &&& vals[adder_carry_wire(n, i)] == carry(a, b, i)
    &&& forall|j: int|
        0 <= j < i ==> vals[#[trigger] adder_sum_wire(n, j as nat)] == sum_bit(a, b, j as nat)
}

/// Builds the `n`-bit ripple-carry adder: both parties contribute an
/// `n`-bit input, the `n` output wires carry the sum modulo `2^n`,
/// least-significant bit first.  The carry chain is present in full, so
/// the circuit computes true integer addition, not a bitwise combination.
#[verifier::rlimit(60)]
pub fn adder_circuit(n: usize) -> (c: Circuit)
    requires
        1 <= n <= 128,
    ensures
        c.wf(),
        c.garbler_width == n,
        c.evaluator_width == n,
        c.outputs@.len() == n,
        forall|inp: Seq<bool>|
            inp.len() == 2 * n ==> bits_to_nat(#[trigger] c.output_bits(inp)) == (bits_to_nat(
                inp.take(n as int),
            ) + bits_to_nat(inp.skip(n as int))) % pow2(n as nat),
{
    let mut gates: Vec<Gate> = Vec::new();
    gates.push(Gate::Xor { a: 0, b: n });
    gates.push(Gate::And { a: 0, b: n });
    proof {
        assert forall|inp: Seq<bool>| inp.len() == 2 * n implies adder_partial_ok(
            gates@,
            n as nat,
            1,
            inp,
        ) by {
            let a = inp.take(n as int);
            let b = inp.skip(n as int);
            let g0 = Seq::<Gate>::empty();
            let g1 = g0.push(Gate::Xor { a: 0, b: n });
            let g2 = g1.push(Gate::And { a: 0, b: n });
            assert(gates@ =~= g2);
            lemma_vals_push(g0, Gate::Xor { a: 0, b: n }, inp);
            lemma_vals_push(g1, Gate::And { a: 0, b: n }, inp);
            lemma_vals_len(g1, inp, g1.len());
            assert(vals_upto(g1, inp, 1) == inp.push(inp[0] != inp[n as int]));
            assert(carry(a, b, 0) == false);
            assert(carry(a, b, 1) == (a[0] && b[0]));
            assert(sum_bit(a, b, 0) == (a[0] != b[0]));
        }
    }
    let mut i: usize = 1;
    while i < n
        invariant
            1 <= i <= n,
            n <= 128,
            gates@.len() == 5 * i - 3,
            forall|k: int|
                0 <= k < gates@.len() ==> (#[trigger] gates@[k]).inputs_below(2 * n + k),
            forall|inp: Seq<bool>|
                inp.len() == 2 * n ==> #[trigger] adder_partial_ok(gates@, n as nat, i as nat, inp),
        decreases n - i,
    {
        let ghost g0 = gates@;
        let w = 2 * n + 5 * i - 3;
        let cw = 2 * n + 5 * i - 4;
        gates.push(Gate::Xor { a: i, b: n + i });
        let ghost g1 = gates@;
        gates.push(Gate::Xor { a: w, b: cw });
        let ghost g2 = gates@;
        gates.push(Gate::And { a: i, b: n + i });
        let ghost g3 = gates@;
        gates.push(Gate::And { a: w, b: cw });
        let ghost g4 = gates@;
        gates.push(Gate::Xor { a: w + 2, b: w + 3 });
        proof {
            assert forall|inp: Seq<bool>| inp.len() == 2 * n implies adder_partial_ok(
                gates@,
                n as nat,
                (i + 1) as nat,
                inp,
            ) by {
                let a = inp.take(n as int);
                let b = inp.skip(n as int);
                assert(adder_partial_ok(g0, n as nat, i as nat, inp));
                let v0 = vals_upto(g0, inp, g0.len());
                lemma_vals_len(g0, inp, g0.len());
                lemma_vals_stable(g0, inp, 0, g0.len(), i as int);
                lemma_vals_stable(g0, inp, 0, g0.len(), (n + i) as int);
                lemma_vals_push(g0, Gate::Xor { a: i, b: (n + i) as usize }, inp);
                lemma_vals_push(g1, Gate::Xor { a: w, b: cw }, inp);
                lemma_vals_push(g2, Gate::And { a: i, b: (n + i) as usize }, inp);
                lemma_vals_push(g3, Gate::And { a: w, b: cw }, inp);
                lemma_vals_push(g4, Gate::Xor { a: (w + 2) as usize, b: (w + 3) as usize }, inp);
                lemma_vals_len(g1, inp, g1.len());
                lemma_vals_len(g2, inp, g2.len());
                lemma_vals_len(g3, inp, g3.len());
                lemma_vals_len(g4, inp, g4.len());
                let pv = a[i as int] != b[i as int];
                let cvv = carry(a, b, i as nat);
                assert(vals_upto(g1, inp, g1.len())[w as int] == pv);
                assert(carry(a, b, (i + 1) as nat) == ((a[i as int] && b[i as int]) != (pv
                    && cvv)));
                assert(sum_bit(a, b, i as nat) == (pv != cvv));
            }
        }
        i = i + 1;
    }
    let mut outputs: Vec<usize> = Vec::new();
    let mut j: usize = 0;
    while j < n
        invariant
            j <= n,
            1 <= n <= 128,
            outputs@.len() == j,
            forall|k: int| 0 <= k < j ==> outputs@[k] == adder_sum_wire(n as nat, k as nat),
        decreases n - j,
    {
        let sw: usize = if j == 0 {
            2 * n
        } else {
            2 * n + 5 * j - 2
        };
        outputs.push(sw);
        j = j + 1;
    }
    let c = Circuit { garbler_width: n, evaluator_width: n, gates, outputs };
    proof {
        assert forall|inp: Seq<bool>| inp.len() == 2 * n implies bits_to_nat(
            #[trigger] c.output_bits(inp),
        ) == (bits_to_nat(inp.take(n as int)) + bits_to_nat(inp.skip(n as int))) % pow2(
            n as nat,
        ) by {
            let a = inp.take(n as int);
            let b = inp.skip(n as int);
            assert(adder_partial_ok(c.gates@, n as nat, n as nat, inp));
            lemma_vals_len(c.gates@, inp, c.gates@.len());
            assert(c.output_bits(inp) =~= sum_bits(a, b, n as nat));
            assert(a.take(n as int) =~= a);
            assert(b.take(n as int) =~= b);
            lemma_adder_value(a, b, n as nat);
            lemma_bits_to_nat_bound(sum_bits(a, b, n as nat));
            let s = bits_to_nat(sum_bits(a, b, n as nat));
            let total = bits_to_nat(a) + bits_to_nat(b);
            if carry(a, b, n as nat) {
                assert(total == pow2(n as nat) * 1 + s);
                lemma_mod_multiples_vanish(1, s as int, pow2(n as nat) as int);
                lemma_small_mod(s, pow2(n as nat));
            } else {
                lemma_small_mod(s, pow2(n as nat));
            }
        }
    }
    c
}

/// The top `k` bit positions of `a` and `b` agree (`a` and `b` read
/// least-significant bit first and have equal length).
pub open spec fn eq_hi(a: Seq<bool>, b: Seq<bool>, k: nat) -> bool
    decreases k,
{
    if k == 0 {
        true
    } else {
        eq_hi(a, b, (k - 1) as nat) && (a[a.len() - k] == b[a.len() - k])
    }
}

/// Within the top `k` bit positions, `a` is strictly greater than `b`:
/// some position has `a` set and `b` clear while all positions above it
/// agree.
pub open spec fn gt_hi(a: Seq<bool>, b: Seq<bool>, k: nat) -> bool
    decreases k,
{
    if k == 0 {
        false
    } else {
        gt_hi(a, b, (k - 1) as nat) || (eq_hi(a, b, (k - 1) as nat) && a[a.len() - k] && !b[a.len()
            - k])
    }
}

/// The bit-serial scan from the most significant position decides exactly
/// the numeric order of the top `k` bits.
pub proof fn lemma_cmp_value(a: Seq<bool>, b: Seq<bool>, k: nat)
    requires
        a.len() == b.len(),
        k <= a.len(),
    ensures
        eq_hi(a, b, k) == (bits_to_nat(a.skip(a.len() - k)) == bits_to_nat(b.skip(b.len() - k))),
        gt_hi(a, b, k) == (bits_to_nat(a.skip(a.len() - k)) > bits_to_nat(b.skip(b.len() - k))),
    decreases k,
{
    if k == 0 {
        assert(a.skip(a.len() as int) =~= Seq::<bool>::empty());
        assert(b.skip(b.len() as int) =~= Seq::<bool>::empty());
        assert(bits_to_nat(Seq::<bool>::empty()) == 0);
    } else {
        lemma_cmp_value(a, b, (k - 1) as nat);
        let idx = a.len() - k;
        let sa = a.skip(idx);
        let sb = b.skip(idx);
        let pa = a.skip(idx + 1);
        let pb = b.skip(idx + 1);
        assert(sa.subrange(1, sa.len() as int) =~= pa);
        assert(sb.subrange(1, sb.len() as int) =~= pb);
        assert(bits_to_nat(sa) == bool_to_nat(a[idx]) + 2 * bits_to_nat(pa));
        assert(bits_to_nat(sb) == bool_to_nat(b[idx]) + 2 * bits_to_nat(pb));
    }
}

/// The wire carrying the strictly-greater flag after the top `k` bits.
pub open spec fn cmp_gt_wire(n: nat, k: nat) -> int {
    if k == 1 {
        2 * (n as int) + 1
    } else {
        2 * (n as int) + 10 * ((k as int) - 1)
    }
}

/// The wire carrying the all-equal flag after the top `k` bits.
pub open spec fn cmp_eq_wire(n: nat, k: nat) -> int {
    2 * (n as int) + 10 * ((k as int) - 1) + 3
}

/// After the comparator builder has processed the top `k` bit positions,
/// the built gates compute the two scan flags.
pub open spec fn cmp_partial_ok(gates: Seq<Gate>, n: nat, k: nat, inp: Seq<bool>) -> bool {
    let a = inp.take(n as int);
    let b = inp.skip(n as int);
    let vals = vals_upto(gates, inp, gates.len());
    &&& vals[cmp_gt_wire(n, k)] == gt_hi(a, b, k)
    &&& vals[cmp_eq_wire(n, k)] == eq_hi(a, b, k)
}


/// One step of the comparator builder: appending the ten gates for bit
/// position `n - k` extends the scan flags from the top `k - 1` bits to
/// the top `k`.
#[verifier::rlimit(60)]
proof fn lemma_cmp_step(
    g0: Seq<Gate>,
    n: nat,
    k: nat,
    inp: Seq<bool>,
    i: usize,
    w: usize,
    gtw: usize,
    eqw: usize,
)
    requires
        2 <= k <= n,
        n <= 128,
        inp.len() == 2 * n,
        i as int == n - k,
        g0.len() == 4 + 10 * ((k as int) - 2),
        w as int == 2 * (n as int) + 4 + 10 * ((k as int) - 2),
        gtw as int == cmp_gt_wire(n, (k - 1) as nat),
        eqw as int == cmp_eq_wire(n, (k - 1) as nat),
        cmp_partial_ok(g0, n, (k - 1) as nat, inp),
    ensures
        cmp_partial_ok(
            g0.push(Gate::Not { a: (i + n) as usize }).push(Gate::And { a: i, b: w }).push(
                Gate::And { a: eqw, b: (w + 1) as usize },
            ).push(Gate::Not { a: gtw }).push(Gate::Not { a: (w + 2) as usize }).push(
                Gate::And { a: (w + 3) as usize, b: (w + 4) as usize },
            ).push(Gate::Not { a: (w + 5) as usize }).push(
                Gate::Xor { a: i, b: (i + n) as usize },
            ).push(Gate::Not { a: (w + 7) as usize }).push(
                Gate::And { a: eqw, b: (w + 8) as usize },
            ),
            n,
            k,
            inp,
        ),
{
    let a = inp.take(n as int);
    let b = inp.skip(n as int);
    let g1 = g0.push(Gate::Not { a: (i + n) as usize });
    let g2 = g1.push(Gate::And { a: i, b: w });
    let g3 = g2.push(Gate::And { a: eqw, b: (w + 1) as usize });
    let g4 = g3.push(Gate::Not { a: gtw });
    let g5 = g4.push(Gate::Not { a: (w + 2) as usize });
    let g6 = g5.push(Gate::And { a: (w + 3) as usize, b: (w + 4) as usize });
    let g7 = g6.push(Gate::Not { a: (w + 5) as usize });
    let g8 = g7.push(Gate::Xor { a: i, b: (i + n) as usize });
    let g9 = g8.push(Gate::Not { a: (w + 7) as usize });
    let v0 = vals_upto(g0, inp, g0.len());
    lemma_vals_len(g0, inp, g0.len());
    lemma_vals_stable(g0, inp, 0, g0.len(), i as int);
    lemma_vals_stable(g0, inp, 0, g0.len(), i + n as int);
    lemma_vals_push(g0, Gate::Not { a: (i + n) as usize }, inp);
    lemma_vals_push(g1, Gate::And { a: i, b: w }, inp);
    lemma_vals_push(g2, Gate::And { a: eqw, b: (w + 1) as usize }, inp);
    lemma_vals_push(g3, Gate::Not { a: gtw }, inp);
    lemma_vals_push(g4, Gate::Not { a: (w + 2) as usize }, inp);
    lemma_vals_push(g5, Gate::And { a: (w + 3) as usize, b: (w + 4) as usize }, inp);
    lemma_vals_push(g6, Gate::Not { a: (w + 5) as usize }, inp);
    lemma_vals_push(g7, Gate::Xor { a: i, b: (i + n) as usize }, inp);
    lemma_vals_push(g8, Gate::Not { a: (w + 7) as usize }, inp);
    lemma_vals_push(g9, Gate::And { a: eqw, b: (w + 8) as usize }, inp);
    lemma_vals_len(g1, inp, g1.len());
    lemma_vals_len(g2, inp, g2.len());
    lemma_vals_len(g3, inp, g3.len());
    lemma_vals_len(g4, inp, g4.len());
    lemma_vals_len(g5, inp, g5.len());
    lemma_vals_len(g6, inp, g6.len());
    lemma_vals_len(g7, inp, g7.len());
    lemma_vals_len(g8, inp, g8.len());
    lemma_vals_len(g9, inp, g9.len());
    let gtp = gt_hi(a, b, (k - 1) as nat);
    let eqp = eq_hi(a, b, (k - 1) as nat);
    assert(a.len() == n && b.len() == n);
    assert(a[a.len() - k] == inp[i as int]);
    assert(b[b.len() - k] == inp[i + n as int]);
    assert(gt_hi(a, b, k) == (gtp || (eqp && a[a.len() - k] && !b[b.len() - k])));
    assert(eq_hi(a, b, k) == (eqp && (a[a.len() - k] == b[b.len() - k])));
}

/// Builds the `n`-bit greater-or-equal comparator: the single output wire
/// is true exactly when the garbler's input is numerically at least the
/// evaluator's; a tie at every bit decides to true.  The scan runs from
/// the most significant bit to the least.
#[verifier::rlimit(100)]
pub fn comparator_circuit(n: usize) -> (c: Circuit)
    requires
        1 <= n <= 128,
    ensures
        c.wf(),
        c.garbler_width == n,
        c.evaluator_width == n,
        c.outputs@.len() == 1,
        forall|inp: Seq<bool>|
            inp.len() == 2 * n ==> (#[trigger] c.output_bits(inp))[0] == (bits_to_nat(
                inp.take(n as int),
            ) >= bits_to_nat(inp.skip(n as int))),
{
    let mut gates: Vec<Gate> = Vec::new();
    gates.push(Gate::Not { a: 2 * n - 1 });
    gates.push(Gate::And { a: n - 1, b: 2 * n });
    gates.push(Gate::Xor { a: n - 1, b: 2 * n - 1 });
    gates.push(Gate::Not { a: 2 * n + 2 });
    proof {
        assert forall|inp: Seq<bool>| inp.len() == 2 * n implies cmp_partial_ok(
            gates@,
            n as nat,
            1,
            inp,
        ) by {
            let a = inp.take(n as int);
            let b = inp.skip(n as int);
            let g0 = Seq::<Gate>::empty();
            let g1 = g0.push(Gate::Not { a: (2 * n - 1) as usize });
            let g2 = g1.push(Gate::And { a: (n - 1) as usize, b: (2 * n) as usize });
            let g3 = g2.push(Gate::Xor { a: (n - 1) as usize, b: (2 * n - 1) as usize });
            let g4 = g3.push(Gate::Not { a: (2 * n + 2) as usize });
            assert(gates@ =~= g4);
            lemma_vals_push(g0, Gate::Not { a: (2 * n - 1) as usize }, inp);
            lemma_vals_push(g1, Gate::And { a: (n - 1) as usize, b: (2 * n) as usize }, inp);
            lemma_vals_push(g2, Gate::Xor { a: (n - 1) as usize, b: (2 * n - 1) as usize }, inp);
            lemma_vals_push(g3, Gate::Not { a: (2 * n + 2) as usize }, inp);
            lemma_vals_len(g1, inp, g1.len());
            lemma_vals_len(g2, inp, g2.len());
            lemma_vals_len(g3, inp, g3.len());
            assert(eq_hi(a, b, 0) && !gt_hi(a, b, 0));
            assert(gt_hi(a, b, 1) == (a[n - 1] && !b[n - 1]));
            assert(eq_hi(a, b, 1) == (a[n - 1] == b[n - 1]));
        }
    }
    let mut k: usize = 2;
    while k <= n
        invariant
            2 <= k <= n + 1,
            1 <= n <= 128,
            gates@.len() == 4 + 10 * (k - 2),
            forall|j: int|
                0 <= j < gates@.len() ==> (#[trigger] gates@[j]).inputs_below(2 * n + j),
            forall|inp: Seq<bool>|
                inp.len() == 2 * n ==> #[trigger] cmp_partial_ok(
                    gates@,
                    n as nat,
                    (k - 1) as nat,
                    inp,
                ),
        decreases n + 1 - k,
    {
        let ghost g0 = gates@;
        let i = n - k;
        let w = 2 * n + 4 + 10 * (k - 2);
        let gtw: usize = if k == 2 {
            2 * n + 1
        } else {
            2 * n + 10 * (k - 2)
        };
        let eqw: usize = 2 * n + 10 * (k - 2) + 3;
        gates.push(Gate::Not { a: n + i });
        let ghost g1 = gates@;
        gates.push(Gate::And { a: i, b: w });
        let ghost g2 = gates@;
        gates.push(Gate::And { a: eqw, b: w + 1 });
        let ghost g3 = gates@;
        gates.push(Gate::Not { a: gtw });
        let ghost g4 = gates@;
        gates.push(Gate::Not { a: w + 2 });
        let ghost g5 = gates@;
        gates.push(Gate::And { a: w + 3, b: w + 4 });
        let ghost g6 = gates@;
        gates.push(Gate::Not { a: w + 5 });
        let ghost g7 = gates@;
        gates.push(Gate::Xor { a: i, b: n + i });
        let ghost g8 = gates@;
        gates.push(Gate::Not { a: w + 7 });
        let ghost g9 = gates@;
        gates.push(Gate::And { a: eqw, b: w + 8 });
        proof {
            assert forall|inp: Seq<bool>| inp.len() == 2 * n implies cmp_partial_ok(
                gates@,
                n as nat,
                k as nat,
                inp,
            ) by {
                assert(cmp_partial_ok(g0, n as nat, (k - 1) as nat, inp));
                lemma_cmp_step(g0, n as nat, k as nat, inp, i, w, gtw, eqw);
            }
        }
        k = k + 1;
    }
    let ghost gn = gates@;
    let gtw: usize = if n == 1 {
        2 * n + 1
    } else {
        2 * n + 10 * (n - 1)
    };
    let eqw: usize = 2 * n + 10 * (n - 1) + 3;
    let fw = 2 * n + 4 + 10 * (n - 1);
    gates.push(Gate::Not { a: gtw });
    let ghost h1 = gates@;
    gates.push(Gate::Not { a: eqw });
    let ghost h2 = gates@;
    gates.push(Gate::And { a: fw, b: fw + 1 });
    let ghost h3 = gates@;
    gates.push(Gate::Not { a: fw + 2 });
    let mut outputs: Vec<usize> = Vec::new();
    outputs.push(fw + 3);
    let c = Circuit { garbler_width: n, evaluator_width: n, gates, outputs };
    proof {
        assert forall|inp: Seq<bool>| inp.len() == 2 * n implies (#[trigger] c.output_bits(
            inp,
        ))[0] == (bits_to_nat(inp.take(n as int)) >= bits_to_nat(inp.skip(n as int))) by {
            let a = inp.take(n as int);
            let b = inp.skip(n as int);
            assert(cmp_partial_ok(gn, n as nat, (k - 1) as nat, inp));
            assert((k - 1) as nat == n as nat);
            assert(cmp_partial_ok(gn, n as nat, n as nat, inp));
            let v0 = vals_upto(gn, inp, gn.len());
            lemma_vals_len(gn, inp, gn.len());
            lemma_vals_push(gn, Gate::Not { a: gtw }, inp);
            lemma_vals_push(h1, Gate::Not { a: eqw }, inp);
            lemma_vals_push(h2, Gate::And { a: fw, b: (fw + 1) as usize }, inp);
            lemma_vals_push(h3, Gate::Not { a: (fw + 2) as usize }, inp);
            lemma_vals_len(h1, inp, h1.len());
            lemma_vals_len(h2, inp, h2.len());
            lemma_vals_len(h3, inp, h3.len());
            lemma_vals_len(c.gates@, inp, c.gates@.len());
            let ge = gt_hi(a, b, n as nat) || eq_hi(a, b, n as nat);
            assert(c.wire_vals(inp)[fw + 3] == ge);
            lemma_cmp_value(a, b, n as nat);
            assert(a.skip(0) =~= a);
            assert(b.skip(0) =~= b);
        }
    }
    c
}

} // verus!
