//! Bit-vector encoding of machine integers.
//!
//! Every value exchanged through the protocol is first decomposed into a
//! fixed-width sequence of booleans, least-significant bit first.  Both
//! parties must use this same convention, so it is fixed here once.

use vstd::prelude::*;
use vstd::arithmetic::div_mod::lemma_breakdown;
use vstd::arithmetic::div_mod::lemma_small_mod;
use vstd::arithmetic::power2::lemma_pow2_adds;
use vstd::arithmetic::power2::lemma_pow2_pos;
use vstd::arithmetic::power2::lemma_pow2_unfold;
use vstd::arithmetic::power2::pow2;

verus! {

/// The numeric value of a bit sequence, least-significant bit first.
pub open spec fn bits_to_nat(s: Seq<bool>) -> nat
    decreases s.len(),
{
    if s.len() == 0 {
        0
    } else {
        (if s[0] { 1nat } else { 0nat }) + 2 * bits_to_nat(s.subrange(1, s.len() as int))
    }
}

/// Bit `i` of `x`.
pub open spec fn spec_bit(x: u128, i: nat) -> bool {
    (x >> (i as u128)) & 1 == 1
}

/// The low `n` bits of `x`, least-significant first.
pub open spec fn bits_of(x: u128, n: nat) -> Seq<bool> {
    Seq::new(n, |i: int| spec_bit(x, i as nat))
}

/// A bit sequence of length `n` denotes a value below `2^n`.
pub proof fn lemma_bits_to_nat_bound(s: Seq<bool>)
    ensures
        bits_to_nat(s) < pow2(s.len()),
    decreases s.len(),
{
    lemma_pow2_pos(s.len());
    if s.len() == 0 {
    } else {
        let rest = s.subrange(1, s.len() as int);
        lemma_bits_to_nat_bound(rest);
        lemma_pow2_unfold(s.len());
    }
}

/// Decomposing `x` to `n` bits and reading the bits back yields `x mod 2^n`.
pub proof fn lemma_bits_of_value(x: u128, n: nat)
    requires
        n <= 128,
    ensures
        bits_to_nat(bits_of(x, n)) == (x as nat) % pow2(n),
    decreases n,
{
    lemma_pow2_pos(n);
    if n == 0 {
        vstd::arithmetic::power2::lemma2_to64();
        assert((x as int) % 1 == 0) by (nonlinear_arith);
    } else {
        let half = x >> 1;
        lemma_bits_of_value(half, (n - 1) as nat);
        let s = bits_of(x, n);
        let rest = s.subrange(1, s.len() as int);
        assert(rest =~= bits_of(half, (n - 1) as nat)) by {
            assert forall|i: int| 0 <= i < n - 1 implies rest[i] == spec_bit(half, i as nat) by {
                let j = i as u128;
                let jj = (i + 1) as u128;
                assert(((x >> 1u128) >> j) & 1 == (x >> jj) & 1) by (bit_vector)
                    requires
                        j < 127u128,
                        jj == j + 1,
                ;
            }
        };
        assert(s[0] == spec_bit(x, 0));
        assert(((x >> 0u128) & 1 == 1) == (x % 2 == 1)) by (bit_vector);
        assert(half as nat == (x as nat) / 2) by {
            assert(x >> 1u128 == x / 2) by (bit_vector);
        };
        lemma_pow2_unfold(n);
        lemma_pow2_pos((n - 1) as nat);
        lemma_breakdown(x as int, 2, pow2((n - 1) as nat) as int);
        assert(bits_to_nat(s) == (if s[0] { 1nat } else { 0nat }) + 2 * bits_to_nat(rest));
        assert((x as nat) % 2 == (if spec_bit(x, 0) { 1nat } else { 0nat })) by {
            assert(x % 2 == ((x >> 0u128) & 1)) by (bit_vector);
        };
    }
}

/// The weight just above the widest machine integer used here.
pub proof fn lemma_pow2_128()
    ensures
        pow2(128) == 0x100000000000000000000000000000000,
{
    vstd::arithmetic::power2::lemma2_to64();
    vstd::arithmetic::power2::lemma2_to64_rest();
    lemma_pow2_adds(64, 64);
}

/// Appending a bit at the top end adds its value at the top weight.
pub proof fn lemma_bits_to_nat_push(s: Seq<bool>, x: bool)
    ensures
        bits_to_nat(s.push(x)) == bits_to_nat(s) + pow2(s.len()) * (if x {
            1nat
        } else {
            0nat
        }),
    decreases s.len(),
{
    vstd::arithmetic::power2::lemma2_to64();
    if s.len() == 0 {
        assert(s.push(x)[0] == x);
        assert(s.push(x).subrange(1, 1) =~= Seq::<bool>::empty());
        assert(bits_to_nat(Seq::<bool>::empty()) == 0);
    } else {
        let rest = s.subrange(1, s.len() as int);
        lemma_bits_to_nat_push(rest, x);
        assert(s.push(x).subrange(1, s.len() as int + 1) =~= rest.push(x));
        assert(s.push(x)[0] == s[0]);
        lemma_pow2_unfold(s.len());
        let v: nat = if x {
            1nat
        } else {
            0nat
        };
        assert(2 * (pow2(rest.len()) * v) == pow2(s.len()) * v) by (nonlinear_arith)
            requires
                pow2(s.len()) == 2 * pow2(rest.len()),
        ;
    }
}

/// Decomposes `x` into its low `n` bits, least-significant first.
pub fn u128_to_bits(x: u128, n: usize) -> (r: Vec<bool>)
    requires
        n <= 128,
    ensures
        r@ == bits_of(x, n as nat),
        r@.len() == n,
{
    let mut r: Vec<bool> = Vec::new();
    let mut i: usize = 0;
    while i < n
        invariant
            i <= n,
            n <= 128,
            r@.len() == i,
            forall|j: int| 0 <= j < i ==> r@[j] == spec_bit(x, j as nat),
        decreases n - i,
    {
        r.push((x >> (i as u32)) & 1 == 1);
        i = i + 1;
    }
    assert(r@ =~= bits_of(x, n as nat));
    r
}

/// Reassembles a bit sequence (least-significant first) into an integer.
pub fn bits_to_u128(bits: &Vec<bool>) -> (r: u128)
    requires
        bits@.len() <= 128,
    ensures
        r as nat == bits_to_nat(bits@),
{
    let n = bits.len();
    let mut acc: u128 = 0;
    let mut i: usize = n;
    proof {
        vstd::arithmetic::power2::lemma2_to64();
    }
    while i > 0
        invariant
            i <= n,
            n == bits@.len() <= 128,
            acc as nat == bits_to_nat(bits@.subrange(i as int, n as int)),
            acc < pow2((n - i) as nat),
        decreases i,
    {
        proof {
            lemma_bits_to_nat_bound(bits@.subrange(i - 1, n as int));
            lemma_pow2_unfold((n - i + 1) as nat);
            assert(pow2((n - (i - 1)) as nat) <= pow2(128nat)) by {
                if ((n - i + 1) as nat) < 128 {
                    vstd::arithmetic::power2::lemma_pow2_strictly_increases(
                        (n - i + 1) as nat,
                        128,
                    );
                }
            };
            lemma_pow2_128();
            assert(bits@.subrange(i - 1, n as int).subrange(
                1,
                bits@.subrange(i - 1, n as int).len() as int,
            ) =~= bits@.subrange(i as int, n as int));
        }
        i = i - 1;
        acc = 2 * acc + (if bits[i] { 1 } else { 0 });
    }
    proof {
        assert(bits@.subrange(0, n as int) =~= bits@);
    }
    acc
}

} // verus!
