//! Arithmetic modulo the order of the group, and the algebraic laws of it
//! that the protocol's contracts and proofs are stated over.

use vstd::arithmetic::div_mod::{
    lemma_add_mod_noop, lemma_add_mod_noop_right, lemma_mod_multiples_vanish, lemma_mod_twice,
    lemma_mul_mod_noop_general, lemma_small_mod,
};
use vstd::arithmetic::mul::{
    lemma_mul_is_associative, lemma_mul_is_commutative, lemma_mul_is_distributive_add,
};
use vstd::prelude::*;

verus! {

/// The order of the group: the prime
/// 2^252 + 27742317777372353535851937790883648493.
pub open spec fn group_order() -> nat {
    7237005577332262213973186563042994240857116359379907606001950938285454250989nat
}

/// Addition modulo the group order.
pub open spec fn madd(a: nat, b: nat) -> nat {
    (a + b) % group_order()
}

/// Multiplication modulo the group order.
pub open spec fn mmul(a: nat, b: nat) -> nat {
    (a * b) % group_order()
}

/// Additive inverse modulo the group order.
pub open spec fn mneg(a: nat) -> nat {
    ((group_order() as int - a as int) % (group_order() as int)) as nat
}

/// The residue a signed integer maps to modulo the group order: a
/// non-negative `x` maps to `x`, a negative `x` to its magnitude's inverse.
pub open spec fn scalar_of_int(x: int) -> nat {
    (x % (group_order() as int)) as nat
}

/// Reducing either addend first does not change a sum's residue.
pub proof fn lemma_madd_noop(a: nat, b: nat)
    ensures
        madd(a % group_order(), b) == madd(a, b),
        madd(a, b % group_order()) == madd(a, b),
        madd(a, b) < group_order(),
{
    let l = group_order() as int;
    lemma_add_mod_noop(a as int, b as int, l);
    lemma_add_mod_noop_right(a as int % l, b as int, l);
    lemma_add_mod_noop_right(a as int, b as int, l);
    lemma_mod_twice(a as int, l);
    lemma_mod_twice(b as int, l);
    lemma_add_mod_noop((a % group_order()) as int, b as int, l);
    lemma_add_mod_noop_right((a % group_order()) as int, b as int, l);
}

/// Reducing either factor first does not change a product's residue.
pub proof fn lemma_mmul_noop(a: nat, b: nat)
    ensures
        mmul(a % group_order(), b) == mmul(a, b),
        mmul(a, b % group_order()) == mmul(a, b),
        mmul(a, b) < group_order(),
{
    let l = group_order() as int;
    lemma_mul_mod_noop_general(a as int, b as int, l);
}

/// Residues below the group order are their own reduction.
pub proof fn lemma_msmall(a: nat)
    requires
        a < group_order(),
    ensures
        a % group_order() == a,
{
    lemma_small_mod(a, group_order());
}

/// Modular addition is commutative and associative.
pub proof fn lemma_madd_assoc(a: nat, b: nat, c: nat)
    ensures
        madd(madd(a, b), c) == madd(a, madd(b, c)),
        madd(a, b) == madd(b, a),
{
    lemma_madd_noop((a + b) as nat, c);
    lemma_madd_noop(a, (b + c) as nat);
}

/// Modular multiplication is commutative and associative.
pub proof fn lemma_mmul_assoc(a: nat, b: nat, c: nat)
    ensures
        mmul(mmul(a, b), c) == mmul(a, mmul(b, c)),
        mmul(a, b) == mmul(b, a),
{
    lemma_mul_is_commutative(a as int, b as int);
    lemma_mul_is_associative(a as int, b as int, c as int);
    lemma_mmul_noop((a * b) as nat, c);
    lemma_mmul_noop(a, (b * c) as nat);
    assert(mmul(mmul(a, b), c) == ((a * b) * c) % group_order());
    assert(mmul(a, mmul(b, c)) == (a * (b * c)) % group_order());
}

/// Modular multiplication distributes over modular addition.
pub proof fn lemma_mmul_distrib(a: nat, b: nat, c: nat)
    ensures
        mmul(a, madd(b, c)) == madd(mmul(a, b), mmul(a, c)),
{
    lemma_mul_is_distributive_add(a as int, b as int, c as int);
    lemma_mmul_noop(a, (b + c) as nat);
    assert(mmul(a, madd(b, c)) == (a * b + a * c) % group_order());
    lemma_madd_noop((a * b) as nat, (a * c) as nat);
    lemma_madd_noop(mmul(a, b), (a * c) as nat);
}

/// A residue plus its additive inverse vanishes.
pub proof fn lemma_madd_mneg(a: nat)
    requires
        a < group_order(),
    ensures
        madd(a, mneg(a)) == 0,
        mneg(a) < group_order(),
{
    let l = group_order() as int;
    if a == 0 {
        lemma_small_mod(0, group_order());
    } else {
        lemma_small_mod((l - a) as nat, group_order());
        assert(mneg(a) == l - a);
        assert(madd(a, mneg(a)) == (l as nat) % group_order());
        lemma_mod_multiples_vanish(1, 0, l);
        lemma_small_mod(0, group_order());
    }
}

/// Multiplying by zero vanishes.
pub proof fn lemma_mmul_zero(a: nat)
    ensures
        mmul(a, 0) == 0,
        mmul(0, a) == 0,
{
    lemma_small_mod(0, group_order());
    lemma_mul_is_commutative(a as int, 0);
}

/// Adding zero leaves a reduced residue unchanged.
pub proof fn lemma_madd_zero(a: nat)
    requires
        a < group_order(),
    ensures
        madd(a, 0) == a,
        madd(0, a) == a,
{
    lemma_small_mod(a, group_order());
}

/// The exact value of subtracting `t` from a reduced residue `d`: plain
/// subtraction when `t` fits under `d`, a wrap past the order otherwise.
pub proof fn lemma_step_value(d: nat, t: nat)
    requires
        d < group_order(),
        t < group_order(),
    ensures
        t <= d ==> madd(d, mneg(t)) == d - t,
        d < t ==> madd(d, mneg(t)) == d + group_order() - t,
{
    let l = group_order() as int;
    if t == 0 {
        lemma_small_mod(0, group_order());
        lemma_small_mod(d, group_order());
    } else {
        lemma_small_mod((l - t) as nat, group_order());
        assert(mneg(t) == l - t);
        if t <= d {
            lemma_mod_multiples_vanish(1, d - t, l);
            lemma_small_mod((d - t) as nat, group_order());
        } else {
            lemma_small_mod((d + l - t) as nat, group_order());
        }
    }
}

/// Four summed residues reduce as one sum.
pub proof fn lemma_madd4(a: nat, b: nat, c: nat, d: nat)
    ensures
        madd(madd(a, b), madd(c, d)) == ((a + b + c + d) as nat) % group_order(),
{
    lemma_madd_noop((a + b) as nat, madd(c, d));
    lemma_madd_noop((a + b) as nat, (c + d) as nat);
}

/// Multiplication from the right distributes over modular addition.
pub proof fn lemma_mmul_distrib_right(a: nat, b: nat, c: nat)
    ensures
        mmul(madd(a, b), c) == madd(mmul(a, c), mmul(b, c)),
{
    lemma_mmul_distrib(c, a, b);
    lemma_mmul_assoc(c, madd(a, b), 0);
    lemma_mmul_assoc(c, a, 0);
    lemma_mmul_assoc(c, b, 0);
}

/// The response equation of a Schnorr-style proof, seen through a fixed
/// base: raising the base to `wt + w*c` splits into the blinded commitment
/// and `c` times the committed element.
pub proof fn lemma_sigma_linear(base: nat, w: nat, wt: nat, c: nat)
    ensures
        mmul(base, madd(wt, mmul(w, c))) == madd(mmul(base, wt), mmul(mmul(base, w), c)),
{
    lemma_mmul_distrib(base, wt, mmul(w, c));
    lemma_mmul_noop(base, (w * c) as nat);
    // base * (w*c) == (base*w) * c
    lemma_mmul_assoc(base, w, c);
    assert(mmul(base, mmul(w, c)) == mmul(mmul(base, w), c));
}

/// The same response equation for a two-base commitment `u^w1 * g^w2`.
pub proof fn lemma_sigma_affine(u: nat, g: nat, w1: nat, w1t: nat, w2: nat, w2t: nat, c: nat)
    ensures
        madd(mmul(u, madd(w1t, mmul(w1, c))), mmul(g, madd(w2t, mmul(w2, c)))) == madd(
            madd(mmul(u, w1t), mmul(g, w2t)),
            mmul(madd(mmul(u, w1), mmul(g, w2)), c),
        ),
{
    lemma_sigma_linear(u, w1, w1t, c);
    lemma_sigma_linear(g, w2, w2t, c);
    lemma_madd4(mmul(u, w1t), mmul(mmul(u, w1), c), mmul(g, w2t), mmul(mmul(g, w2), c));
    lemma_mmul_distrib_right(mmul(u, w1), mmul(g, w2), c);
    lemma_madd4(mmul(u, w1t), mmul(g, w2t), mmul(mmul(u, w1), c), mmul(mmul(g, w2), c));
}

/// A factor may move between the outer and inner position of a nested
/// product.
pub proof fn lemma_mmul_xchg(a: nat, b: nat, c: nat)
    ensures
        mmul(mmul(a, b), c) == mmul(a, mmul(c, b)),
{
    lemma_mmul_assoc(a, b, c);
    lemma_mmul_assoc(b, c, 0);
    lemma_mmul_noop(a, (b * c) as nat);
    lemma_mmul_noop(a, (c * b) as nat);
    lemma_mul_is_commutative(b as int, c as int);
}

/// Negation moves out of a product.
pub proof fn lemma_mmul_mneg(a: nat, b: nat)
    requires
        b < group_order(),
    ensures
        mmul(a, mneg(b)) == mneg(mmul(a, b)),
{
    let l = group_order() as int;
    if b == 0 {
        lemma_small_mod(0, group_order());
        lemma_mmul_zero(a);
        assert(mneg(0nat) == 0);
    } else {
        lemma_small_mod((l - b) as nat, group_order());
        assert(mneg(b) == l - b);
        // a * (l - b) == l * a - a * b
        assert(a * (l - b) == l * a + (-(a as int) * (b as int))) by (nonlinear_arith);
        lemma_mod_multiples_vanish(a as int, -(a as int) * (b as int), l);
        assert(mmul(a, mneg(b)) == (-(a as int) * (b as int)) % l);
        // mneg(a*b % l) == (-(a*b)) % l
        let p = (a * b) as int;
        lemma_mod_twice(p, l);
        vstd::arithmetic::div_mod::lemma_sub_mod_noop(0, p, l);
        lemma_small_mod(0, group_order());
        assert((0 - (p % l)) % l == (0 - p) % l);
        assert(mneg(mmul(a, b)) == (l - (p % l)) % l);
        lemma_mod_multiples_vanish(1, 0 - (p % l), l);
        assert((l + (0 - (p % l))) % l == (0 - (p % l)) % l);
        assert(-(a as int) * (b as int) == 0 - p) by (nonlinear_arith)
            requires
                p == a * b,
        ;
    }
}

/// The two-part response equation when one of the two bases is the fixed
/// basepoint itself.
pub proof fn lemma_sigma_affine_one(g: nat, w1: nat, w1t: nat, w2: nat, w2t: nat, c: nat)
    ensures
        madd(madd(w1t, mmul(w1, c)), mmul(g, madd(w2t, mmul(w2, c)))) == madd(
            madd(w1t, mmul(g, w2t)),
            mmul(madd(w1, mmul(g, w2)), c),
        ),
{
    lemma_sigma_linear(g, w2, w2t, c);
    lemma_madd4(w1t, mmul(w1, c), mmul(g, w2t), mmul(mmul(g, w2), c));
    lemma_mmul_distrib_right(w1, mmul(g, w2), c);
    lemma_madd4(w1t, mmul(g, w2t), mmul(w1, c), mmul(mmul(g, w2), c));
}

/// Negating an integer negates its residue.
pub proof fn lemma_mneg_of_int(x: int)
    ensures
        mneg(scalar_of_int(x)) == scalar_of_int(-x),
{
    let l = group_order() as int;
    let a = x % l;
    lemma_mod_twice(x, l);
    vstd::arithmetic::div_mod::lemma_sub_mod_noop(0, x, l);
    lemma_small_mod(0, group_order());
    assert((0 - a) % l == (0 - x) % l);
    if a == 0 {
        assert(mneg(scalar_of_int(x)) == 0);
        assert((0 - a) % l == 0) by {
            assert(0 - a == 0);
        }
    } else {
        assert(0 <= a < l);
        lemma_small_mod((l - a) as nat, group_order());
        assert(mneg(scalar_of_int(x)) == l - a);
        lemma_mod_multiples_vanish(1, 0 - a, l);
        assert((l + (0 - a)) % l == (0 - a) % l);
        lemma_small_mod((l - a) as nat, group_order());
    }
}

/// The residue of a sum is the modular sum of the residues.
pub proof fn lemma_scalar_of_int_add(a: int, b: int)
    ensures
        scalar_of_int(a + b) == madd(scalar_of_int(a), scalar_of_int(b)),
{
    let l = group_order() as int;
    lemma_add_mod_noop(a, b, l);
}

/// Subtracting a residue and subtracting the difference back are inverse:
/// from `u = a - b` one recovers `b = a - u`.
pub proof fn lemma_msub_inverse(a: nat, b: nat)
    requires
        a < group_order(),
        b < group_order(),
    ensures
        madd(a, mneg(madd(a, mneg(b)))) == b,
{
    let u = madd(a, mneg(b));
    lemma_step_value(a, b);
    if b <= a {
        assert(u == a - b);
        lemma_step_value(a, u);
        assert(madd(a, mneg(u)) == a - u);
    } else {
        assert(u == a + group_order() - b);
        assert(a < u < group_order());
        lemma_step_value(a, u);
        assert(madd(a, mneg(u)) == a + group_order() - u);
    }
}

} // verus!
