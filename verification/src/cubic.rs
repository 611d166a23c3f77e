//! Degree-3 extension of the base field, used for challenges and digests.
//!
//! The extension is the quotient by X^3 - 2 (2 is not a cube in the base
//! field, so the quotient is a field).  A value is a triple of base-field
//! coordinates; spec-level operations act on triples of integers, with each
//! coordinate reduced mod the field order.

use crate::field::{
    fadd, fmul, fneg, fsub, lemma_cong_add, lemma_cong_mul, p, Fp,
};
use vstd::arithmetic::div_mod::{
    lemma_add_mod_noop, lemma_mod_twice, lemma_mul_mod_noop_right, lemma_small_mod,
    lemma_sub_mod_noop,
};
use vstd::arithmetic::mul::{lemma_mul_is_associative, lemma_mul_is_distributive_add};
use vstd::prelude::*;

verus! {

/// An element of the cubic extension, each coordinate canonical.
#[derive(Clone, Copy, PartialEq, Eq, Structural, Debug)]
pub struct CubicValue {
    pub c0: Fp,
    pub c1: Fp,
    pub c2: Fp,
}

impl View for CubicValue {
    type V = (int, int, int);

    open spec fn view(&self) -> (int, int, int) {
        (self.c0@, self.c1@, self.c2@)
    }
}

/// Canonical-form invariant for a spec-level triple.
pub open spec fn cwf(a: (int, int, int)) -> bool {
    &&& 0 <= a.0 < p()
    &&& 0 <= a.1 < p()
    &&& 0 <= a.2 < p()
}

/// The zero of the extension.
pub open spec fn czero() -> (int, int, int) {
    (0, 0, 0)
}

/// The one of the extension.
pub open spec fn cone() -> (int, int, int) {
    (1, 0, 0)
}

/// Embedding of a base-field representative into the extension.
pub open spec fn cembed(x: int) -> (int, int, int) {
    (x % p(), 0, 0)
}

/// Coordinatewise addition.
pub open spec fn cadd(a: (int, int, int), b: (int, int, int)) -> (int, int, int) {
    (fadd(a.0, b.0), fadd(a.1, b.1), fadd(a.2, b.2))
}

/// Coordinatewise subtraction.
pub open spec fn csub(a: (int, int, int), b: (int, int, int)) -> (int, int, int) {
    (fsub(a.0, b.0), fsub(a.1, b.1), fsub(a.2, b.2))
}

/// Coordinatewise negation.
pub open spec fn cneg(a: (int, int, int)) -> (int, int, int) {
    (fneg(a.0), fneg(a.1), fneg(a.2))
}

/// First coordinate of the polynomial product, before reduction mod the
/// field order (X^3 is rewritten to 2).
pub open spec fn pmul0(a: (int, int, int), b: (int, int, int)) -> int {
    a.0 * b.0 + 2 * (a.1 * b.2 + a.2 * b.1)
}

/// Second coordinate of the unreduced polynomial product.
pub open spec fn pmul1(a: (int, int, int), b: (int, int, int)) -> int {
    a.0 * b.1 + a.1 * b.0 + 2 * (a.2 * b.2)
}

/// Third coordinate of the unreduced polynomial product.
pub open spec fn pmul2(a: (int, int, int), b: (int, int, int)) -> int {
    a.0 * b.2 + a.1 * b.1 + a.2 * b.0
}

/// Multiplication in the extension.
pub open spec fn cmul(a: (int, int, int), b: (int, int, int)) -> (int, int, int) {
    (pmul0(a, b) % p(), pmul1(a, b) % p(), pmul2(a, b) % p())
}

/// The unreduced product respects congruence mod the field order, in both
/// arguments and in every coordinate.
proof fn lemma_pmul_cong(
    a1: (int, int, int),
    a2: (int, int, int),
    b1: (int, int, int),
    b2: (int, int, int),
)
    requires
        a1.0 % p() == a2.0 % p(),
        a1.1 % p() == a2.1 % p(),
        a1.2 % p() == a2.2 % p(),
        b1.0 % p() == b2.0 % p(),
        b1.1 % p() == b2.1 % p(),
        b1.2 % p() == b2.2 % p(),
    ensures
        pmul0(a1, b1) % p() == pmul0(a2, b2) % p(),
        pmul1(a1, b1) % p() == pmul1(a2, b2) % p(),
        pmul2(a1, b1) % p() == pmul2(a2, b2) % p(),
{
    lemma_cong_mul(a1.0, a2.0, b1.0, b2.0);
    lemma_cong_mul(a1.1, a2.1, b1.2, b2.2);
    lemma_cong_mul(a1.2, a2.2, b1.1, b2.1);
    lemma_cong_add(a1.1 * b1.2, a2.1 * b2.2, a1.2 * b1.1, a2.2 * b2.1);
    lemma_cong_mul(2, 2, a1.1 * b1.2 + a1.2 * b1.1, a2.1 * b2.2 + a2.2 * b2.1);
    lemma_cong_add(
        a1.0 * b1.0,
        a2.0 * b2.0,
        2 * (a1.1 * b1.2 + a1.2 * b1.1),
        2 * (a2.1 * b2.2 + a2.2 * b2.1),
    );
    lemma_cong_mul(a1.0, a2.0, b1.1, b2.1);
    lemma_cong_mul(a1.1, a2.1, b1.0, b2.0);
    lemma_cong_mul(a1.2, a2.2, b1.2, b2.2);
    lemma_cong_add(a1.0 * b1.1, a2.0 * b2.1, a1.1 * b1.0, a2.1 * b2.0);
    lemma_cong_mul(2, 2, a1.2 * b1.2, a2.2 * b2.2);
    lemma_cong_add(
        a1.0 * b1.1 + a1.1 * b1.0,
        a2.0 * b2.1 + a2.1 * b2.0,
        2 * (a1.2 * b1.2),
        2 * (a2.2 * b2.2),
    );
    lemma_cong_mul(a1.0, a2.0, b1.2, b2.2);
    lemma_cong_mul(a1.1, a2.1, b1.1, b2.1);
    lemma_cong_mul(a1.2, a2.2, b1.0, b2.0);
    lemma_cong_add(a1.0 * b1.2, a2.0 * b2.2, a1.1 * b1.1, a2.1 * b2.1);
    lemma_cong_add(
        a1.0 * b1.2 + a1.1 * b1.1,
        a2.0 * b2.2 + a2.1 * b2.1,
        a1.2 * b1.0,
        a2.2 * b2.0,
    );
}

/// Distributes a factor over a three-term sum.
proof fn lemma_mul_sum3(x: int, q: int, r: int, s: int)
    ensures
        x * (q + r + s) == x * q + x * r + x * s,
{
    lemma_mul_is_distributive_add(x, q + r, s);
    lemma_mul_is_distributive_add(x, q, r);
}

/// Distributes a factor over a sum whose tail is doubled.
proof fn lemma_mul_q2rs(x: int, q: int, r: int, s: int)
    ensures
        x * (q + 2 * (r + s)) == x * q + 2 * (x * r) + 2 * (x * s),
{
    lemma_mul_is_distributive_add(x, q, 2 * (r + s));
    lemma_mul_is_associative(x, 2, r + s);
    lemma_mul_is_associative(2, x, r + s);
    lemma_mul_is_distributive_add(x, r, s);
}

/// Distributes a factor over a sum whose last term is doubled.
proof fn lemma_mul_qr2s(x: int, q: int, r: int, s: int)
    ensures
        x * (q + r + 2 * s) == x * q + x * r + 2 * (x * s),
{
    lemma_mul_is_distributive_add(x, q + r, 2 * s);
    lemma_mul_is_distributive_add(x, q, r);
    lemma_mul_is_associative(x, 2, s);
    lemma_mul_is_associative(2, x, s);
}

/// Associativity of the unreduced product, first coordinate.
proof fn lemma_pmul_assoc_0(
    a0: int, a1: int, a2: int,
    b0: int, b1: int, b2: int,
    c0: int, c1: int, c2: int,
)
    ensures
        (a0 * b0 + 2 * (a1 * b2 + a2 * b1)) * c0
            + 2 * ((a0 * b1 + a1 * b0 + 2 * (a2 * b2)) * c2
                + (a0 * b2 + a1 * b1 + a2 * b0) * c1)
        == a0 * (b0 * c0 + 2 * (b1 * c2 + b2 * c1))
            + 2 * (a1 * (b0 * c2 + b1 * c1 + b2 * c0)
                + a2 * (b0 * c1 + b1 * c0 + 2 * (b2 * c2))),
{
    assert((a0 * b0 + 2 * (a1 * b2 + a2 * b1)) * c0
        == a0 * b0 * c0 + 2 * (a1 * b2 * c0) + 2 * (a2 * b1 * c0)) by (nonlinear_arith);
    assert((a0 * b1 + a1 * b0 + 2 * (a2 * b2)) * c2
        == a0 * b1 * c2 + a1 * b0 * c2 + 2 * (a2 * b2 * c2)) by (nonlinear_arith);
    assert((a0 * b2 + a1 * b1 + a2 * b0) * c1
        == a0 * b2 * c1 + a1 * b1 * c1 + a2 * b0 * c1) by (nonlinear_arith);
    lemma_mul_q2rs(a0, b0 * c0, b1 * c2, b2 * c1);
    lemma_mul_is_associative(a0, b0, c0);
    lemma_mul_is_associative(a0, b1, c2);
    lemma_mul_is_associative(a0, b2, c1);
    lemma_mul_sum3(a1, b0 * c2, b1 * c1, b2 * c0);
    lemma_mul_is_associative(a1, b0, c2);
    lemma_mul_is_associative(a1, b1, c1);
    lemma_mul_is_associative(a1, b2, c0);
    lemma_mul_qr2s(a2, b0 * c1, b1 * c0, b2 * c2);
    lemma_mul_is_associative(a2, b0, c1);
    lemma_mul_is_associative(a2, b1, c0);
    lemma_mul_is_associative(a2, b2, c2);
}

/// Associativity of the unreduced product, second coordinate.
proof fn lemma_pmul_assoc_1(
    a0: int, a1: int, a2: int,
    b0: int, b1: int, b2: int,
    c0: int, c1: int, c2: int,
)
    ensures
        (a0 * b0 + 2 * (a1 * b2 + a2 * b1)) * c1
            + (a0 * b1 + a1 * b0 + 2 * (a2 * b2)) * c0
            + 2 * ((a0 * b2 + a1 * b1 + a2 * b0) * c2)
        == a0 * (b0 * c1 + b1 * c0 + 2 * (b2 * c2))
            + a1 * (b0 * c0 + 2 * (b1 * c2 + b2 * c1))
            + 2 * (a2 * (b0 * c2 + b1 * c1 + b2 * c0)),
{
    assert((a0 * b0 + 2 * (a1 * b2 + a2 * b1)) * c1
        == a0 * b0 * c1 + 2 * (a1 * b2 * c1) + 2 * (a2 * b1 * c1)) by (nonlinear_arith);
    assert((a0 * b1 + a1 * b0 + 2 * (a2 * b2)) * c0
        == a0 * b1 * c0 + a1 * b0 * c0 + 2 * (a2 * b2 * c0)) by (nonlinear_arith);
    assert((a0 * b2 + a1 * b1 + a2 * b0) * c2
        == a0 * b2 * c2 + a1 * b1 * c2 + a2 * b0 * c2) by (nonlinear_arith);
    lemma_mul_qr2s(a0, b0 * c1, b1 * c0, b2 * c2);
    lemma_mul_is_associative(a0, b0, c1);
    lemma_mul_is_associative(a0, b1, c0);
    lemma_mul_is_associative(a0, b2, c2);
    lemma_mul_q2rs(a1, b0 * c0, b1 * c2, b2 * c1);
    lemma_mul_is_associative(a1, b0, c0);
    lemma_mul_is_associative(a1, b1, c2);
    lemma_mul_is_associative(a1, b2, c1);
    lemma_mul_sum3(a2, b0 * c2, b1 * c1, b2 * c0);
    lemma_mul_is_associative(a2, b0, c2);
    lemma_mul_is_associative(a2, b1, c1);
    lemma_mul_is_associative(a2, b2, c0);
}

/// Associativity of the unreduced product, third coordinate.
proof fn lemma_pmul_assoc_2(
    a0: int, a1: int, a2: int,
    b0: int, b1: int, b2: int,
    c0: int, c1: int, c2: int,
)
    ensures
        (a0 * b0 + 2 * (a1 * b2 + a2 * b1)) * c2
            + (a0 * b1 + a1 * b0 + 2 * (a2 * b2)) * c1
            + (a0 * b2 + a1 * b1 + a2 * b0) * c0
        == a0 * (b0 * c2 + b1 * c1 + b2 * c0)
            + a1 * (b0 * c1 + b1 * c0 + 2 * (b2 * c2))
            + a2 * (b0 * c0 + 2 * (b1 * c2 + b2 * c1)),
{
    assert((a0 * b0 + 2 * (a1 * b2 + a2 * b1)) * c2
        == a0 * b0 * c2 + 2 * (a1 * b2 * c2) + 2 * (a2 * b1 * c2)) by (nonlinear_arith);
    assert((a0 * b1 + a1 * b0 + 2 * (a2 * b2)) * c1
        == a0 * b1 * c1 + a1 * b0 * c1 + 2 * (a2 * b2 * c1)) by (nonlinear_arith);
    assert((a0 * b2 + a1 * b1 + a2 * b0) * c0
        == a0 * b2 * c0 + a1 * b1 * c0 + a2 * b0 * c0) by (nonlinear_arith);
    lemma_mul_sum3(a0, b0 * c2, b1 * c1, b2 * c0);
    lemma_mul_is_associative(a0, b0, c2);
    lemma_mul_is_associative(a0, b1, c1);
    lemma_mul_is_associative(a0, b2, c0);
    lemma_mul_qr2s(a1, b0 * c1, b1 * c0, b2 * c2);
    lemma_mul_is_associative(a1, b0, c1);
    lemma_mul_is_associative(a1, b1, c0);
    lemma_mul_is_associative(a1, b2, c2);
    lemma_mul_q2rs(a2, b0 * c0, b1 * c2, b2 * c1);
    lemma_mul_is_associative(a2, b0, c0);
    lemma_mul_is_associative(a2, b1, c2);
    lemma_mul_is_associative(a2, b2, c1);
}

/// Commutativity of the unreduced product, all coordinates.
proof fn lemma_pmul_comm_int(
    a0: int, a1: int, a2: int,
    b0: int, b1: int, b2: int,
)
    by (nonlinear_arith)
    ensures
        a0 * b0 + 2 * (a1 * b2 + a2 * b1) == b0 * a0 + 2 * (b1 * a2 + b2 * a1),
        a0 * b1 + a1 * b0 + 2 * (a2 * b2) == b0 * a1 + b1 * a0 + 2 * (b2 * a2),
        a0 * b2 + a1 * b1 + a2 * b0 == b0 * a2 + b1 * a1 + b2 * a0,
{
}

/// Distributivity of the unreduced product over addition, all coordinates.
proof fn lemma_pmul_distrib_int(
    a0: int, a1: int, a2: int,
    b0: int, b1: int, b2: int,
    c0: int, c1: int, c2: int,
)
    by (nonlinear_arith)
    ensures
        (a0 + b0) * c0 + 2 * ((a1 + b1) * c2 + (a2 + b2) * c1)
            == (a0 * c0 + 2 * (a1 * c2 + a2 * c1)) + (b0 * c0 + 2 * (b1 * c2 + b2 * c1)),
        (a0 + b0) * c1 + (a1 + b1) * c0 + 2 * ((a2 + b2) * c2)
            == (a0 * c1 + a1 * c0 + 2 * (a2 * c2)) + (b0 * c1 + b1 * c0 + 2 * (b2 * c2)),
        (a0 + b0) * c2 + (a1 + b1) * c1 + (a2 + b2) * c0
            == (a0 * c2 + a1 * c1 + a2 * c0) + (b0 * c2 + b1 * c1 + b2 * c0),
{
}

/// A product is always canonical.
pub proof fn lemma_cmul_wf(a: (int, int, int), b: (int, int, int))
    ensures
        cwf(cmul(a, b)),
{
}

/// Commutativity of extension multiplication.
pub proof fn lemma_cmul_comm(a: (int, int, int), b: (int, int, int))
    ensures
        cmul(a, b) == cmul(b, a),
{
    lemma_pmul_comm_int(a.0, a.1, a.2, b.0, b.1, b.2);
}

/// Associativity of extension multiplication.
pub proof fn lemma_cmul_assoc(a: (int, int, int), b: (int, int, int), c: (int, int, int))
    ensures
        cmul(cmul(a, b), c) == cmul(a, cmul(b, c)),
{
    let ab = (pmul0(a, b), pmul1(a, b), pmul2(a, b));
    let bc = (pmul0(b, c), pmul1(b, c), pmul2(b, c));
    lemma_mod_twice(ab.0, p());
    lemma_mod_twice(ab.1, p());
    lemma_mod_twice(ab.2, p());
    lemma_mod_twice(bc.0, p());
    lemma_mod_twice(bc.1, p());
    lemma_mod_twice(bc.2, p());
    lemma_pmul_cong(cmul(a, b), ab, c, c);
    lemma_pmul_cong(a, a, cmul(b, c), bc);
    lemma_pmul_assoc_0(a.0, a.1, a.2, b.0, b.1, b.2, c.0, c.1, c.2);
    lemma_pmul_assoc_1(a.0, a.1, a.2, b.0, b.1, b.2, c.0, c.1, c.2);
    lemma_pmul_assoc_2(a.0, a.1, a.2, b.0, b.1, b.2, c.0, c.1, c.2);
}

/// Multiplication distributes over addition in the extension.
pub proof fn lemma_cmul_distrib(a: (int, int, int), b: (int, int, int), c: (int, int, int))
    ensures
        cmul(cadd(a, b), c) == cadd(cmul(a, c), cmul(b, c)),
{
    let s = (a.0 + b.0, a.1 + b.1, a.2 + b.2);
    lemma_mod_twice(s.0, p());
    lemma_mod_twice(s.1, p());
    lemma_mod_twice(s.2, p());
    lemma_pmul_cong(cadd(a, b), s, c, c);
    lemma_pmul_distrib_int(a.0, a.1, a.2, b.0, b.1, b.2, c.0, c.1, c.2);
    lemma_add_mod_noop(pmul0(a, c), pmul0(b, c), p());
    lemma_add_mod_noop(pmul1(a, c), pmul1(b, c), p());
    lemma_add_mod_noop(pmul2(a, c), pmul2(b, c), p());
}

/// Adding zero changes nothing for a canonical value.
pub proof fn lemma_cadd_zero(a: (int, int, int))
    requires
        cwf(a),
    ensures
        cadd(a, czero()) == a,
        cadd(czero(), a) == a,
{
    lemma_small_mod(a.0 as nat, p() as nat);
    lemma_small_mod(a.1 as nat, p() as nat);
    lemma_small_mod(a.2 as nat, p() as nat);
}

/// Zero absorbs extension multiplication.
pub proof fn lemma_cmul_zero(w: (int, int, int))
    ensures
        cmul(czero(), w) == czero(),
{
    lemma_small_mod(0, p() as nat);
}

/// A difference vanishes only for equal canonical values.
pub proof fn lemma_csub_eq(a: (int, int, int), b: (int, int, int))
    requires
        cwf(a),
        cwf(b),
    ensures
        (csub(a, b) == czero()) <==> (a == b),
{
    crate::field::lemma_fsub_zero(a.0, b.0);
    crate::field::lemma_fsub_zero(a.1, b.1);
    crate::field::lemma_fsub_zero(a.2, b.2);
}

/// Subtraction of sums splits into a sum of differences.
pub proof fn lemma_csub_of_adds(
    x1: (int, int, int),
    y1: (int, int, int),
    x2: (int, int, int),
    y2: (int, int, int),
)
    ensures
        csub(cadd(x1, y1), cadd(x2, y2)) == cadd(csub(x1, x2), csub(y1, y2)),
{
    lemma_sub_mod_noop(x1.0 + y1.0, x2.0 + y2.0, p());
    lemma_sub_mod_noop(x1.1 + y1.1, x2.1 + y2.1, p());
    lemma_sub_mod_noop(x1.2 + y1.2, x2.2 + y2.2, p());
    lemma_add_mod_noop(x1.0 - x2.0, y1.0 - y2.0, p());
    lemma_add_mod_noop(x1.1 - x2.1, y1.1 - y2.1, p());
    lemma_add_mod_noop(x1.2 - x2.2, y1.2 - y2.2, p());
}

/// Distributivity of the unreduced product over subtraction.
proof fn lemma_pmul_distrib_sub_int(
    a0: int, a1: int, a2: int,
    b0: int, b1: int, b2: int,
    c0: int, c1: int, c2: int,
)
    by (nonlinear_arith)
    ensures
        (a0 - b0) * c0 + 2 * ((a1 - b1) * c2 + (a2 - b2) * c1)
            == (a0 * c0 + 2 * (a1 * c2 + a2 * c1)) - (b0 * c0 + 2 * (b1 * c2 + b2 * c1)),
        (a0 - b0) * c1 + (a1 - b1) * c0 + 2 * ((a2 - b2) * c2)
            == (a0 * c1 + a1 * c0 + 2 * (a2 * c2)) - (b0 * c1 + b1 * c0 + 2 * (b2 * c2)),
        (a0 - b0) * c2 + (a1 - b1) * c1 + (a2 - b2) * c0
            == (a0 * c2 + a1 * c1 + a2 * c0) - (b0 * c2 + b1 * c1 + b2 * c0),
{
}

/// Multiplication distributes over subtraction in the extension.
pub proof fn lemma_cmul_distrib_sub(a: (int, int, int), b: (int, int, int), c: (int, int, int))
    ensures
        cmul(csub(a, b), c) == csub(cmul(a, c), cmul(b, c)),
{
    let s = (a.0 - b.0, a.1 - b.1, a.2 - b.2);
    lemma_mod_twice(s.0, p());
    lemma_mod_twice(s.1, p());
    lemma_mod_twice(s.2, p());
    lemma_pmul_cong(csub(a, b), s, c, c);
    lemma_pmul_distrib_sub_int(a.0, a.1, a.2, b.0, b.1, b.2, c.0, c.1, c.2);
    lemma_sub_mod_noop(pmul0(a, c), pmul0(b, c), p());
    lemma_sub_mod_noop(pmul1(a, c), pmul1(b, c), p());
    lemma_sub_mod_noop(pmul2(a, c), pmul2(b, c), p());
}

/// A product with an invertible factor vanishes only if the other factor
/// vanishes.
pub proof fn lemma_cmul_by_invertible_zero(
    s: (int, int, int),
    d: (int, int, int),
    w: (int, int, int),
)
    requires
        cwf(s),
        cmul(d, w) == cone(),
        cmul(s, d) == czero(),
    ensures
        s == czero(),
{
    lemma_cmul_assoc(s, d, w);
    lemma_cmul_zero(w);
    lemma_cmul_comm(czero(), w);
    lemma_cmul_one(s);
    assert(cmul(cmul(s, d), w) == cmul(czero(), w));
}

/// One is an identity for extension multiplication of a canonical value.
pub proof fn lemma_cmul_one(a: (int, int, int))
    requires
        cwf(a),
    ensures
        cmul(cone(), a) == a,
        cmul(a, cone()) == a,
{
    lemma_small_mod(a.0 as nat, p() as nat);
    lemma_small_mod(a.1 as nat, p() as nat);
    lemma_small_mod(a.2 as nat, p() as nat);
    lemma_cmul_comm(a, cone());
}

/// Multiplication by an invertible element is cancellable.
pub proof fn lemma_cmul_cancel(
    a: (int, int, int),
    w: (int, int, int),
    x: (int, int, int),
    y: (int, int, int),
)
    requires
        cmul(a, w) == cone(),
        cmul(a, x) == cmul(a, y),
        cwf(x),
        cwf(y),
    ensures
        x == y,
{
    lemma_cmul_one(x);
    lemma_cmul_one(y);
    lemma_cmul_comm(a, w);
    lemma_cmul_assoc(w, a, x);
    lemma_cmul_assoc(w, a, y);
    assert(cmul(cmul(w, a), x) == x);
    assert(cmul(cmul(w, a), y) == y);
}

/// Inverses are unique in the extension.
pub proof fn lemma_inverse_unique(a: (int, int, int), w1: (int, int, int), w2: (int, int, int))
    requires
        cmul(a, w1) == cone(),
        cmul(a, w2) == cone(),
        cwf(w1),
        cwf(w2),
    ensures
        w1 == w2,
{
    lemma_cmul_cancel(a, w1, w1, w2);
}

/// Repeated extension multiplication: `a` to the power `e`.
pub open spec fn cpow(a: (int, int, int), e: nat) -> (int, int, int)
    decreases e,
{
    if e == 0 {
        cone()
    } else {
        cmul(cpow(a, (e - 1) as nat), a)
    }
}

/// A power is always canonical.
pub proof fn lemma_cpow_wf(a: (int, int, int), e: nat)
    ensures
        cwf(cpow(a, e)),
{
    if e == 0 {
    }
}

/// Powers multiply by adding exponents.
pub proof fn lemma_cpow_add(a: (int, int, int), m: nat, n: nat)
    ensures
        cpow(a, m + n) == cmul(cpow(a, m), cpow(a, n)),
    decreases n,
{
    lemma_cpow_wf(a, m);
    if n == 0 {
        lemma_cmul_one(cpow(a, m));
    } else {
        lemma_cpow_add(a, m, (n - 1) as nat);
        lemma_cmul_assoc(cpow(a, m), cpow(a, (n - 1) as nat), a);
    }
}

/// Powers compose by multiplying exponents.
pub proof fn lemma_cpow_mul(a: (int, int, int), m: nat, n: nat)
    ensures
        cpow(a, m * n) == cpow(cpow(a, m), n),
    decreases n,
{
    if n == 0 {
        assert(m * n == 0);
    } else {
        lemma_cpow_mul(a, m, (n - 1) as nat);
        assert(m * n == m * (n - 1) + m) by {
            vstd::arithmetic::mul::lemma_mul_is_distributive_sub(m as int, n as int, 1);
        }
        lemma_cpow_add(a, (m * ((n - 1) as nat)) as nat, m);
        assert(cpow(a, (m * n) as nat) == cmul(cpow(a, (m * ((n - 1) as nat)) as nat), cpow(a, m)));
    }
}

/// The exponent whose power is the multiplicative inverse in the
/// extension: the extension-field order minus two.
pub open spec fn inverse_exponent() -> nat {
    6277101731002175853884774869567645561244584131361410908159nat
}

impl CubicValue {
    /// Canonical-form invariant.
    pub open spec fn wf(self) -> bool {
        self.c0.wf() && self.c1.wf() && self.c2.wf()
    }

    /// The zero of the extension.
    pub fn zero() -> (r: CubicValue)
        ensures
            r.wf(),
            r@ == czero(),
    {
        CubicValue { c0: Fp::zero(), c1: Fp::zero(), c2: Fp::zero() }
    }

    /// The one of the extension.
    pub fn one() -> (r: CubicValue)
        ensures
            r.wf(),
            r@ == cone(),
    {
        CubicValue { c0: Fp::one(), c1: Fp::zero(), c2: Fp::zero() }
    }

    /// Embeds a base-field element as an extension element with zero
    /// non-constant coordinates.
    pub fn from_base(x: Fp) -> (r: CubicValue)
        requires
            x.wf(),
        ensures
            r.wf(),
            r@ == cembed(x@),
    {
        proof {
            lemma_small_mod(x@ as nat, p() as nat);
        }
        CubicValue { c0: x, c1: Fp::zero(), c2: Fp::zero() }
    }

    /// Extension addition.
    pub fn add(self, other: CubicValue) -> (r: CubicValue)
        requires
            self.wf(),
            other.wf(),
        ensures
            r.wf(),
            r@ == cadd(self@, other@),
    {
        CubicValue {
            c0: self.c0.add(other.c0),
            c1: self.c1.add(other.c1),
            c2: self.c2.add(other.c2),
        }
    }

    /// Extension subtraction.
    pub fn sub(self, other: CubicValue) -> (r: CubicValue)
        requires
            self.wf(),
            other.wf(),
        ensures
            r.wf(),
            r@ == csub(self@, other@),
    {
        CubicValue {
            c0: self.c0.sub(other.c0),
            c1: self.c1.sub(other.c1),
            c2: self.c2.sub(other.c2),
        }
    }

    /// Extension negation.
    pub fn neg(self) -> (r: CubicValue)
        requires
            self.wf(),
        ensures
            r.wf(),
            r@ == cneg(self@),
    {
        CubicValue { c0: self.c0.neg(), c1: self.c1.neg(), c2: self.c2.neg() }
    }

    /// Extension multiplication: schoolbook product reduced by X^3 = 2.
    pub fn mul(self, other: CubicValue) -> (r: CubicValue)
        requires
            self.wf(),
            other.wf(),
        ensures
            r.wf(),
            r@ == cmul(self@, other@),
    {
        let two = Fp { v: 2 };
        let a0 = self.c0;
        let a1 = self.c1;
        let a2 = self.c2;
        let b0 = other.c0;
        let b1 = other.c1;
        let b2 = other.c2;
        let cross0 = a1.mul(b2).add(a2.mul(b1));
        let r0 = a0.mul(b0).add(two.mul(cross0));
        let r1 = a0.mul(b1).add(a1.mul(b0)).add(two.mul(a2.mul(b2)));
        let r2 = a0.mul(b2).add(a1.mul(b1)).add(a2.mul(b0));
        proof {
            lemma_add_mod_noop(a1@ * b2@, a2@ * b1@, p());
            lemma_mul_mod_noop_right(2, a1@ * b2@ + a2@ * b1@, p());
            lemma_add_mod_noop(a0@ * b0@, 2 * (a1@ * b2@ + a2@ * b1@), p());
            lemma_add_mod_noop(a0@ * b1@, a1@ * b0@, p());
            lemma_mul_mod_noop_right(2, a2@ * b2@, p());
            lemma_add_mod_noop(a0@ * b1@ + a1@ * b0@, 2 * (a2@ * b2@), p());
            lemma_add_mod_noop(a0@ * b2@, a1@ * b1@, p());
            lemma_add_mod_noop(a0@ * b2@ + a1@ * b1@, a2@ * b0@, p());
        }
        CubicValue { c0: r0, c1: r1, c2: r2 }
    }

    /// Raises the element to a 64-bit power by binary exponentiation.
    pub fn cpow_u64(self, e: u64) -> (r: CubicValue)
        requires
            self.wf(),
        ensures
            r.wf(),
            r@ == cpow(self@, e as nat),
    {
        let mut base = self;
        let mut acc = CubicValue::one();
        let mut exp: u64 = e;
        proof {
            lemma_cpow_wf(self@, e as nat);
            lemma_cmul_one(cpow(self@, e as nat));
        }
        while exp > 0
            invariant
                base.wf(),
                acc.wf(),
                cmul(acc@, cpow(base@, exp as nat)) == cpow(self@, e as nat),
            decreases exp,
        {
            let ghost acc0 = acc@;
            let ghost base0 = base@;
            let ghost exp0 = exp as nat;
            if exp % 2 == 1 {
                acc = acc.mul(base);
                proof {
                    lemma_cmul_assoc(acc0, base0, cpow(base0, (exp0 - 1) as nat));
                    lemma_cmul_comm(base0, cpow(base0, (exp0 - 1) as nat));
                    assert(cpow(base0, exp0) == cmul(cpow(base0, (exp0 - 1) as nat), base0));
                }
            }
            let ghost acc1 = acc@;
            let ghost exp1: nat = if exp0 % 2 == 1 { (exp0 - 1) as nat } else { exp0 };
            proof {
                assert(cmul(acc1, cpow(base0, exp1)) == cpow(self@, e as nat));
            }
            base = base.mul(base);
            proof {
                assert(cpow(base0, 0) == cone());
                assert(cpow(base0, 1) == cmul(cpow(base0, 0), base0));
                lemma_cmul_one(base0);
                assert(cpow(base0, 1) == base0);
                assert(cpow(base0, 2) == cmul(cpow(base0, 1), base0));
                lemma_cpow_mul(base0, 2, (exp1 / 2) as nat);
                assert(2 * (exp1 / 2) == exp1);
                assert(cpow(base@, (exp1 / 2) as nat) == cpow(base0, exp1));
            }
            exp = exp / 2;
        }
        proof {
            lemma_cmul_one(acc@);
        }
        acc
    }

    /// Raises the element to a 192-bit power given as three 64-bit limbs,
    /// least significant first: the limbs are recombined exactly as the
    /// contract's exponent says.
    pub fn pow_limbs(self, limb0: u64, limb1: u64, limb2: u64) -> (r: CubicValue)
        requires
            self.wf(),
        ensures
            r.wf(),
            r@ == cpow(
                self@,
                (limb0 + 0x1_0000_0000_0000_0000nat * limb1
                    + 0x1_0000_0000_0000_0000_0000_0000_0000_0000nat * limb2) as nat,
            ),
    {
        let b32 = self.cpow_u64(0x1_0000_0000);
        let b64 = b32.cpow_u64(0x1_0000_0000);
        let b96 = b64.cpow_u64(0x1_0000_0000);
        let b128 = b96.cpow_u64(0x1_0000_0000);
        proof {
            lemma_cpow_mul(self@, 0x1_0000_0000nat, 0x1_0000_0000nat);
            assert(b64@ == cpow(self@, 0x1_0000_0000_0000_0000nat));
            lemma_cpow_mul(self@, 0x1_0000_0000_0000_0000nat, 0x1_0000_0000nat);
            assert(b96@ == cpow(self@, 0x1_0000_0000_0000_0000_0000_0000nat));
            lemma_cpow_mul(self@, 0x1_0000_0000_0000_0000_0000_0000nat, 0x1_0000_0000nat);
            assert(b128@ == cpow(self@, 0x1_0000_0000_0000_0000_0000_0000_0000_0000nat));
        }
        let part0 = self.cpow_u64(limb0);
        let part1 = b64.cpow_u64(limb1);
        let part2 = b128.cpow_u64(limb2);
        proof {
            lemma_cpow_mul(self@, 0x1_0000_0000_0000_0000nat, limb1 as nat);
            lemma_cpow_mul(self@, 0x1_0000_0000_0000_0000_0000_0000_0000_0000nat, limb2 as nat);
            lemma_cpow_add(self@, limb0 as nat, (0x1_0000_0000_0000_0000nat * limb1) as nat);
            lemma_cpow_add(
                self@,
                (limb0 + 0x1_0000_0000_0000_0000nat * limb1) as nat,
                (0x1_0000_0000_0000_0000_0000_0000_0000_0000nat * limb2) as nat,
            );
        }
        part0.mul(part1).mul(part2)
    }

    /// Multiplicative inverse, when one exists: the Fermat candidate
    /// `self` to the power of the extension-field order minus two,
    /// re-checked by a multiplication.
    ///
    /// The contract pins the result exactly: `Some` holds that candidate
    /// and only when the check multiplies to one, `None` comes only when
    /// it does not.  That the check succeeds on every nonzero element is
    /// Fermat's little theorem for the extension field; it is not
    /// formalized here, so no clause promises `Some` on all nonzero
    /// inputs.
    pub fn try_inverse(self) -> (r: Option<CubicValue>)
        requires
            self.wf(),
        ensures
            r matches Some(w) ==> w.wf() && cmul(self@, w@) == cone() && w@ == cpow(
                self@,
                inverse_exponent(),
            ),
            r is None ==> cmul(self@, cpow(self@, inverse_exponent())) != cone(),
            self@ == czero() ==> r is None,
    {
        let candidate = self.pow_limbs(
            0xffff_fffc_ffff_ffff,
            0xffff_fff9_0000_0005,
            0xffff_fffd_0000_0005,
        );
        let check = self.mul(candidate);
        let one = CubicValue::one();
        proof {
            assert(candidate@ == cpow(self@, inverse_exponent()));
            if self@ == czero() {
                lemma_cmul_zero(candidate@);
                lemma_cmul_comm(czero(), candidate@);
            }
        }
        if check.c0.v == one.c0.v && check.c1.v == one.c1.v && check.c2.v == one.c2.v {
            Some(candidate)
        } else {
            None
        }
    }
}

} // verus!
