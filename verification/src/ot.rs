//! One-of-two oblivious transfer.
//!
//! The sender holds two messages, the receiver a choice bit; the receiver
//! learns exactly the chosen message and the sender learns nothing of the
//! choice.  The realization is Diffie-Hellman style over the
//! multiplicative group modulo a fixed prime, chosen by the group
//! configuration constants below: the sender publishes `A = g^sk`; the
//! receiver answers with two group elements, `g^x` in the chosen slot and
//! a random element (of unknown discrete logarithm) in the other; the
//! sender blinds each message with a pad derived from the matching element
//! raised to `sk`; the receiver can rebuild only the chosen pad, as
//! `A^x`.  A malformed, out-of-group message aborts the transfer.

use vstd::prelude::*;
use vstd::arithmetic::power::pow;
use vstd::arithmetic::power::lemma_pow_multiplies;
use vstd::arithmetic::power::lemma_pow_mod_noop;
use vstd::arithmetic::power::lemma_square_is_pow2;
use vstd::arithmetic::div_mod::lemma_mul_mod_noop_general;
use vstd::arithmetic::div_mod::lemma_small_mod;
use crate::errors::TwopcError;
use crate::prim::aes_of;
use crate::prim::aes_encrypt;

verus! {

/// The group modulus: the Mersenne prime `2^61 - 1`.
pub const GROUP_MOD: u64 = 0x1FFF_FFFF_FFFF_FFFF;

/// The generator of the blinding group.
pub const GROUP_GEN: u64 = 5;

/// The cipher key under which transfer pads are derived.
pub const OT_KEY: u128 = 0x2545f4914f6cdd1d27d4eb2f165667c5;

/// `b^e` in the group: exponentiation modulo `GROUP_MOD`.
pub open spec fn spec_pow_mod(b: int, e: nat) -> int {
    pow(b, e) % (GROUP_MOD as int)
}

/// The sender's public element `g^sk`.
pub open spec fn spec_big_a(sk: u64) -> int {
    spec_pow_mod(GROUP_GEN as int, sk as nat)
}

/// The blinding pad derived from group element `elem` raised to secret
/// exponent `sk`.
pub open spec fn ot_pad(elem: u64, sk: u64) -> u128 {
    aes_of(OT_KEY, spec_pow_mod(elem as int, sk as nat) as u128)
}

/// Modular product of two group elements.
pub fn mul_mod(a: u64, b: u64) -> (r: u64)
    requires
        a < GROUP_MOD,
        b < GROUP_MOD,
    ensures
        r < GROUP_MOD,
        r as int == (a as int * b as int) % (GROUP_MOD as int),
{
    proof {
        assert((a as int) * (b as int) <= (GROUP_MOD as int) * (GROUP_MOD as int))
            by (nonlinear_arith)
            requires
                a < GROUP_MOD,
                b < GROUP_MOD,
        ;
    }
    let p = (a as u128) * (b as u128);
    (p % (GROUP_MOD as u128)) as u64
}

/// Modular exponentiation by square and multiply.
pub fn pow_mod(base: u64, e: u64) -> (r: u64)
    requires
        base < GROUP_MOD,
    ensures
        r < GROUP_MOD,
        r as int == spec_pow_mod(base as int, e as nat),
{
    let m = GROUP_MOD;
    let mut result: u64 = 1;
    let mut b: u64 = base;
    let mut k: u64 = e;
    proof {
        vstd::arithmetic::power::lemma_pow1(b as int);
    }
    while k > 0
        invariant
            result < m,
            b < m,
            m == GROUP_MOD,
            (result as int * pow(b as int, k as nat)) % (GROUP_MOD as int) == pow(base as int, e as nat)
                % (GROUP_MOD as int),
        decreases k,
    {
        let ghost r0 = result as int;
        let ghost b0 = b as int;
        let ghost k0 = k as nat;
        proof {
            lemma_square_is_pow2(b0);
            lemma_pow_multiplies(b0, 2, (k0 / 2) as nat);
            lemma_pow_mod_noop(b0 * b0, (k0 / 2) as nat, (GROUP_MOD as int));
            if k0 % 2 == 1 {
                // pow(b, k) == b * pow(b * b, k / 2)
                assert(pow(b0, k0) == pow(b0, 1nat) * pow(b0, (k0 - 1) as nat)) by {
                    vstd::arithmetic::power::lemma_pow_adds(b0, 1nat, (k0 - 1) as nat);
                };
                vstd::arithmetic::power::lemma_pow1(b0);
                assert(2 * (k0 / 2) == (k0 - 1) as nat);
            } else {
                assert(2 * (k0 / 2) == k0);
            }
        }
        if k & 1 == 1 {
            proof {
                assert(k & 1 == k % 2) by (bit_vector);
            }
            result = mul_mod(result, b);
            proof {
                // (r0 * b0 % m) * pow(b0 * b0 % m, k0 / 2) is congruent to
                // r0 * pow(b0, k0) modulo m
                let bb = (b0 * b0) % (GROUP_MOD as int);
                lemma_mul_mod_noop_general(r0 * b0, pow(bb, (k0 / 2) as nat), (GROUP_MOD as int));
                lemma_mul_mod_noop_general(r0 * b0, pow(b0 * b0, (k0 / 2) as nat), (GROUP_MOD as int));
                assert(r0 * b0 * pow(b0 * b0, (k0 / 2) as nat) == r0 * pow(b0, k0)) by (nonlinear_arith)
                    requires
                        pow(b0, k0) == b0 * pow(b0 * b0, (k0 / 2) as nat),
                ;
                lemma_mul_mod_noop_general(r0, pow(b0, k0), (GROUP_MOD as int));
            }
        } else {
            proof {
                assert((k & 1 != 1) ==> k % 2 == 0) by (bit_vector);
                let bb = (b0 * b0) % (GROUP_MOD as int);
                lemma_mul_mod_noop_general(r0, pow(bb, (k0 / 2) as nat), (GROUP_MOD as int));
                lemma_mul_mod_noop_general(r0, pow(b0 * b0, (k0 / 2) as nat), (GROUP_MOD as int));
            }
        }
        b = mul_mod(b, b);
        proof {
            assert(k >> 1 == k / 2) by (bit_vector);
        }
        k = k >> 1;
    }
    proof {
        vstd::arithmetic::power::lemma_pow0(b as int);
        lemma_small_mod(result as nat, GROUP_MOD as nat);
    }
    result
}

/// Draws a uniformly random group element.
pub fn random_group_element() -> (r: u64)
    ensures
        r < GROUP_MOD,
{
    rand::random::<u64>() % GROUP_MOD
}

/// The sender's public commitment: `A = g^sk`.
pub fn ot_sender_setup(sk: u64) -> (big_a: u64)
    ensures
        big_a < GROUP_MOD,
        big_a as int == spec_big_a(sk),
{
    pow_mod(GROUP_GEN, sk)
}

/// The receiver's two elements for one transfer, as a pair
/// `(slot for value false, slot for value true)`.
pub open spec fn spec_ot_request(choice: bool, x: u64, other: u64) -> (int, int) {
    if choice {
        (other as int, spec_pow_mod(GROUP_GEN as int, x as nat))
    } else {
        (spec_pow_mod(GROUP_GEN as int, x as nat), other as int)
    }
}

/// The receiver's request: `g^x` in the chosen slot, the random element
/// `other` in the unchosen one, so the request reveals nothing of the
/// choice.
pub fn ot_request(choice: bool, x: u64, other: u64) -> (r: (u64, u64))
    requires
        other < GROUP_MOD,
    ensures
        r.0 < GROUP_MOD,
        r.1 < GROUP_MOD,
        (r.0 as int, r.1 as int) == spec_ot_request(choice, x, other),
{
    let gx = pow_mod(GROUP_GEN, x);
    if choice {
        (other, gx)
    } else {
        (gx, other)
    }
}

/// The sender's blinded messages for one transfer.
pub open spec fn spec_ot_reply(sk: u64, b0: u64, b1: u64, m0: u128, m1: u128) -> (u128, u128) {
    (m0 ^ ot_pad(b0, sk), m1 ^ ot_pad(b1, sk))
}

/// The sender's round: each message is blinded with the pad of the
/// matching receiver element raised to the sender's secret.  An
/// out-of-group element is a malformed message and aborts the transfer.
pub fn ot_reply(sk: u64, b0: u64, b1: u64, m0: u128, m1: u128) -> (r: Result<
    (u128, u128),
    TwopcError,
>)
    ensures
        match r {
            Ok(rep) => {
                &&& b0 < GROUP_MOD
                &&& b1 < GROUP_MOD
                &&& (rep.0, rep.1) == spec_ot_reply(sk, b0, b1, m0, m1)
            },
            Err(e) => {
                &&& e == TwopcError::MalformedOtMessage
                &&& (b0 >= GROUP_MOD || b1 >= GROUP_MOD)
            },
        },
{
    if b0 >= GROUP_MOD || b1 >= GROUP_MOD {
        return Err(TwopcError::MalformedOtMessage);
    }
    let s0 = pow_mod(b0, sk);
    let s1 = pow_mod(b1, sk);
    let p0 = aes_encrypt(OT_KEY, s0 as u128);
    let p1 = aes_encrypt(OT_KEY, s1 as u128);
    Ok((m0 ^ p0, m1 ^ p1))
}

/// What the receiver unblinds: the chosen ciphertext, xored with the pad
/// of `A^x`.
pub open spec fn spec_ot_receive(big_a: u64, x: u64, choice: bool, e0: u128, e1: u128) -> u128 {
    (if choice {
        e1
    } else {
        e0
    }) ^ ot_pad(big_a, x)
}

/// The receiver's final step: unblinds the chosen ciphertext with the one
/// pad it can derive.  An out-of-group commitment aborts the transfer.
pub fn ot_receive(big_a: u64, x: u64, choice: bool, e0: u128, e1: u128) -> (r: Result<
    u128,
    TwopcError,
>)
    ensures
        match r {
            Ok(m) => {
                &&& big_a < GROUP_MOD
                &&& m == spec_ot_receive(big_a, x, choice, e0, e1)
            },
            Err(e) => {
                &&& e == TwopcError::MalformedOtMessage
                &&& big_a >= GROUP_MOD
            },
        },
{
    if big_a >= GROUP_MOD {
        return Err(TwopcError::MalformedOtMessage);
    }
    let s = pow_mod(big_a, x);
    let p = aes_encrypt(OT_KEY, s as u128);
    if choice {
        Ok(e1 ^ p)
    } else {
        Ok(e0 ^ p)
    }
}

/// Raising `g^x` to `sk` and raising `g^sk` to `x` meet in the same group
/// element, so sender and receiver derive the same pad for the chosen
/// slot.
pub proof fn lemma_dh_commutes(x: u64, sk: u64)
    ensures
        spec_pow_mod(spec_pow_mod(GROUP_GEN as int, x as nat), sk as nat) == spec_pow_mod(
            spec_pow_mod(GROUP_GEN as int, sk as nat),
            x as nat,
        ),
{
    let g = GROUP_GEN as int;
    let m = GROUP_MOD as int;
    lemma_pow_mod_noop(pow(g, x as nat), sk as nat, m);
    lemma_pow_multiplies(g, x as nat, sk as nat);
    lemma_pow_mod_noop(pow(g, sk as nat), x as nat, m);
    lemma_pow_multiplies(g, sk as nat, x as nat);
    assert((x as nat) * (sk as nat) == (sk as nat) * (x as nat));
}

/// Oblivious-transfer correctness: for any two messages and any choice
/// bit, running a transfer end to end hands the receiver exactly the
/// chosen message.
pub proof fn lemma_ot_correctness(sk: u64, x: u64, other: u64, choice: bool, m0: u128, m1: u128)
    requires
        other < GROUP_MOD,
    ensures
        ({
            let req = spec_ot_request(choice, x, other);
            let rep = spec_ot_reply(sk, req.0 as u64, req.1 as u64, m0, m1);
            spec_ot_receive(spec_big_a(sk) as u64, x, choice, rep.0, rep.1) == (if choice {
                m1
            } else {
                m0
            })
        }),
{
    let m = GROUP_MOD as int;
    let g = GROUP_GEN as int;
    vstd::arithmetic::div_mod::lemma_mod_bound(pow(g, x as nat), m);
    vstd::arithmetic::div_mod::lemma_mod_bound(pow(g, sk as nat), m);
    assert(pow(g, x as nat) >= 0 && pow(g, sk as nat) >= 0) by {
        vstd::arithmetic::power::lemma_pow_positive(g, x as nat);
        vstd::arithmetic::power::lemma_pow_positive(g, sk as nat);
    };
    lemma_dh_commutes(x, sk);
    let chosen_elem = spec_pow_mod(g, x as nat) as u64;
    let pad_sender = ot_pad(chosen_elem, sk);
    let pad_receiver = ot_pad(spec_big_a(sk) as u64, x);
    assert(pad_sender == pad_receiver);
    let mb = if choice {
        m1
    } else {
        m0
    };
    assert((mb ^ pad_sender) ^ pad_receiver == mb) by (bit_vector)
        requires
            pad_sender == pad_receiver,
    ;
}

/// What the transcript leaves the receiver for the unselected slot:
/// unblinding the other ciphertext with the one pad the receiver holds
/// yields the unselected message only if the two slots' pads collide.
/// With distinct pads the unselected message stays hidden.
pub proof fn lemma_ot_unselected_hidden(
    sk: u64,
    x: u64,
    other: u64,
    choice: bool,
    m0: u128,
    m1: u128,
)
    requires
        other < GROUP_MOD,
        ot_pad(other, sk) != ot_pad((spec_pow_mod(GROUP_GEN as int, x as nat)) as u64, sk),
    ensures
        ({
            let req = spec_ot_request(choice, x, other);
            let rep = spec_ot_reply(sk, req.0 as u64, req.1 as u64, m0, m1);
            let unselected_cipher = if choice {
                rep.0
            } else {
                rep.1
            };
            let receiver_pad = ot_pad(spec_big_a(sk) as u64, x);
            unselected_cipher ^ receiver_pad != (if choice {
                m0
            } else {
                m1
            })
        }),
{
    let m = GROUP_MOD as int;
    let g = GROUP_GEN as int;
    vstd::arithmetic::div_mod::lemma_mod_bound(pow(g, x as nat), m);
    vstd::arithmetic::div_mod::lemma_mod_bound(pow(g, sk as nat), m);
    assert(pow(g, x as nat) >= 0 && pow(g, sk as nat) >= 0) by {
        vstd::arithmetic::power::lemma_pow_positive(g, x as nat);
        vstd::arithmetic::power::lemma_pow_positive(g, sk as nat);
    };
    lemma_dh_commutes(x, sk);
    let pad_other = ot_pad(other, sk);
    let receiver_pad = ot_pad(spec_big_a(sk) as u64, x);
    let mu = if choice {
        m0
    } else {
        m1
    };
    assert((mu ^ pad_other) ^ receiver_pad != mu) by (bit_vector)
        requires
            pad_other != receiver_pad,
    ;
}

} // verus!
