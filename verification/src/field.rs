//! The base field: integers modulo the prime 2^64 - 2^32 + 1.
//!
//! Every element is kept in canonical (fully reduced) form, so equality of
//! representatives is equality of field elements.  The spec-level operations
//! `fadd`, `fsub`, `fmul` and `fneg` act on mathematical integers and are the
//! vocabulary all higher-level contracts are written in.

use vstd::arithmetic::div_mod::{
    lemma_add_mod_noop, lemma_add_mod_noop_right, lemma_mod_add_multiples_vanish,
    lemma_mul_mod_noop_general, lemma_mul_mod_noop_left, lemma_mul_mod_noop_right,
    lemma_small_mod, lemma_sub_mod_noop,
};
use vstd::arithmetic::mul::lemma_mul_upper_bound;
use vstd::arithmetic::power::{lemma_pow_mod_noop, lemma_pow_multiplies, pow};
use vstd::prelude::*;

verus! {

/// Order of the base field: the prime 2^64 - 2^32 + 1.
pub const FIELD_ORDER: u64 = 18446744069414584321;

/// The field order as a mathematical integer.
pub open spec fn p() -> int {
    FIELD_ORDER as int
}

/// Addition in the field, on integer representatives.
pub open spec fn fadd(a: int, b: int) -> int {
    (a + b) % p()
}

/// Subtraction in the field, on integer representatives.
pub open spec fn fsub(a: int, b: int) -> int {
    (a - b) % p()
}

/// Multiplication in the field, on integer representatives.
pub open spec fn fmul(a: int, b: int) -> int {
    (a * b) % p()
}

/// Negation in the field, on integer representatives.
pub open spec fn fneg(a: int) -> int {
    (0 - a) % p()
}

/// An element of the base field, held as its canonical representative.
#[derive(Clone, Copy, PartialEq, Eq, Structural, Debug, Hash)]
pub struct Fp {
    pub v: u64,
}

impl View for Fp {
    type V = int;

    open spec fn view(&self) -> int {
        self.v as int
    }
}

impl Fp {
    /// Canonical-form invariant: the representative is reduced.
    pub open spec fn wf(self) -> bool {
        self.v < FIELD_ORDER
    }

    /// The zero of the field.
    pub fn zero() -> (r: Fp)
        ensures
            r.wf(),
            r@ == 0,
    {
        Fp { v: 0 }
    }

    /// The one of the field.
    pub fn one() -> (r: Fp)
        ensures
            r.wf(),
            r@ == 1,
    {
        Fp { v: 1 }
    }

    /// Canonical embedding of a machine word, reducing mod the field order.
    pub fn from_u64(x: u64) -> (r: Fp)
        ensures
            r.wf(),
            r@ == x as int % p(),
    {
        Fp { v: x % FIELD_ORDER }
    }

    /// Embedding of a 32-bit value; always already canonical.
    pub fn from_u32(x: u32) -> (r: Fp)
        ensures
            r.wf(),
            r@ == x as int,
    {
        Fp { v: x as u64 }
    }

    /// Field addition.
    pub fn add(self, other: Fp) -> (r: Fp)
        requires
            self.wf(),
            other.wf(),
        ensures
            r.wf(),
            r@ == fadd(self@, other@),
    {
        let s: u128 = self.v as u128 + other.v as u128;
        let m: u128 = s % (FIELD_ORDER as u128);
        Fp { v: m as u64 }
    }

    /// Field subtraction.
    pub fn sub(self, other: Fp) -> (r: Fp)
        requires
            self.wf(),
            other.wf(),
        ensures
            r.wf(),
            r@ == fsub(self@, other@),
    {
        let s: u128 = self.v as u128 + FIELD_ORDER as u128 - other.v as u128;
        let m: u128 = s % (FIELD_ORDER as u128);
        proof {
            lemma_mod_add_multiples_vanish(self@ - other@, p());
        }
        Fp { v: m as u64 }
    }

    /// Field negation.
    pub fn neg(self) -> (r: Fp)
        requires
            self.wf(),
        ensures
            r.wf(),
            r@ == fneg(self@),
    {
        proof {
            lemma_mod_add_multiples_vanish(0 - self@, p());
            if self.v > 0 {
                lemma_small_mod((FIELD_ORDER - self.v) as nat, FIELD_ORDER as nat);
            }
        }
        if self.v == 0 {
            Fp { v: 0 }
        } else {
            Fp { v: FIELD_ORDER - self.v }
        }
    }

    /// Field multiplication.
    pub fn mul(self, other: Fp) -> (r: Fp)
        requires
            self.wf(),
            other.wf(),
        ensures
            r.wf(),
            r@ == fmul(self@, other@),
    {
        proof {
            lemma_mul_upper_bound(self@, 0xffff_ffff_ffff_ffff, other@, 0xffff_ffff_ffff_ffff);
        }
        let prod: u128 = self.v as u128 * other.v as u128;
        let m: u128 = prod % (FIELD_ORDER as u128);
        Fp { v: m as u64 }
    }

    /// Raises the element to the power `e` by binary exponentiation.
    pub fn pow(self, e: u64) -> (r: Fp)
        requires
            self.wf(),
        ensures
            r.wf(),
            r@ == pow(self@, e as nat) % p(),
    {
        let mut base = self;
        let mut acc = Fp::one();
        let mut exp: u64 = e;
        proof {
            lemma_small_mod(1, p() as nat);
        }
        while exp > 0
            invariant
                base.wf(),
                acc.wf(),
                (acc@ * pow(base@, exp as nat)) % p() == pow(self@, e as nat) % p(),
            decreases exp,
        {
            let ghost acc0 = acc@;
            let ghost base0 = base@;
            let ghost exp0 = exp as nat;
            if exp % 2 == 1 {
                acc = acc.mul(base);
                proof {
                    lemma_pow_step(acc0, base0, exp0);
                }
            }
            let ghost acc1 = acc@;
            let ghost exp1 = if exp0 % 2 == 1 { (exp0 - 1) as nat } else { exp0 };
            proof {
                assert((acc1 * pow(base0, exp1)) % p() == pow(self@, e as nat) % p());
            }
            base = base.mul(base);
            proof {
                lemma_pow_square(acc1, base0, exp1);
            }
            exp = exp / 2;
        }
        proof {
            assert(pow(base@, 0) == 1) by {
                vstd::arithmetic::power::lemma_pow0(base@);
            }
            lemma_small_mod(acc@ as nat, p() as nat);
        }
        acc
    }

    /// Multiplicative inverse, when one exists: the Fermat candidate
    /// `self^(p - 2)`, re-checked by a multiplication.
    ///
    /// The contract pins the result exactly: `Some` holds that candidate
    /// and only when the check multiplies to one, `None` comes only when
    /// it does not.  That the check succeeds on every nonzero element is
    /// Fermat's little theorem for the field; it is not formalized here,
    /// so no clause promises `Some` on all nonzero inputs.
    pub fn try_inverse(self) -> (r: Option<Fp>)
        requires
            self.wf(),
        ensures
            r matches Some(w) ==> w.wf() && fmul(self@, w@) == 1 && w@ == pow(
                self@,
                (FIELD_ORDER - 2) as nat,
            ) % p(),
            r is None ==> (self@ * pow(self@, (FIELD_ORDER - 2) as nat)) % p() != 1,
            self@ == 0 ==> r is None,
    {
        let candidate = self.pow(FIELD_ORDER - 2);
        let check = self.mul(candidate);
        proof {
            lemma_mul_mod_noop_right(self@, pow(self@, (FIELD_ORDER - 2) as nat), p());
            if self@ == 0 {
                assert(0 * candidate@ == 0) by (nonlinear_arith);
                lemma_small_mod(0, p() as nat);
            }
        }
        if check.v == 1 {
            Some(candidate)
        } else {
            None
        }
    }
}

/// One multiply-in step of binary exponentiation: folding the base into
/// the accumulator absorbs one factor of the exponent.
proof fn lemma_pow_step(acc: int, base: int, exp: nat)
    requires
        exp % 2 == 1,
    ensures
        (((acc * base) % p()) * pow(base, (exp - 1) as nat)) % p() == (acc * pow(base, exp))
            % p(),
{
    reveal(vstd::arithmetic::power::pow);
    assert(pow(base, exp) == base * pow(base, (exp - 1) as nat));
    lemma_mul_mod_noop_left(acc * base, pow(base, (exp - 1) as nat), p());
    assert((acc * base) * pow(base, (exp - 1) as nat) == acc * (base * pow(
        base,
        (exp - 1) as nat,
    ))) by {
        vstd::arithmetic::mul::lemma_mul_is_associative(acc, base, pow(base, (exp - 1) as nat));
    }
}

/// One squaring step of binary exponentiation: squaring the base halves
/// the (even) exponent.
proof fn lemma_pow_square(acc: int, base: int, exp: nat)
    requires
        exp % 2 == 0,
    ensures
        (acc * pow((base * base) % p(), (exp / 2) as nat)) % p() == (acc * pow(base, exp)) % p(),
{
    lemma_pow_mod_noop(base * base, (exp / 2) as nat, p());
    assert(pow(base * base, (exp / 2) as nat) == pow(base, exp)) by {
        vstd::arithmetic::power::lemma_square_is_pow2(base);
        lemma_pow_multiplies(base, 2, (exp / 2) as nat);
        assert(2 * (exp / 2) == exp);
    }
    lemma_mul_mod_noop_right(acc, pow((base * base) % p(), (exp / 2) as nat), p());
    lemma_mul_mod_noop_right(acc, pow(base * base, (exp / 2) as nat), p());
}

/// Associativity of field addition.
pub proof fn lemma_fadd_assoc(a: int, b: int, c: int)
    ensures
        fadd(fadd(a, b), c) == fadd(a, fadd(b, c)),
{
    lemma_add_mod_noop(a + b, c, p());
    lemma_small_mod((c % p()) as nat, p() as nat);
    lemma_add_mod_noop_right(a, b + c, p());
    lemma_add_mod_noop(a, b + c, p());
    lemma_small_mod((a % p()) as nat, p() as nat);
    assert(fadd(fadd(a, b), c) == (a + b + c) % p()) by {
        lemma_add_mod_noop((a + b) % p(), c, p());
        assert(((a + b) % p()) % p() == (a + b) % p()) by {
            lemma_small_mod(((a + b) % p()) as nat, p() as nat);
        }
        lemma_add_mod_noop(a + b, c, p());
    }
    assert(fadd(a, fadd(b, c)) == (a + b + c) % p()) by {
        lemma_add_mod_noop_right(a, b + c, p());
    }
}

/// Adding zero changes nothing for a canonical value.
pub proof fn lemma_fadd_zero(a: int)
    requires
        0 <= a < p(),
    ensures
        fadd(a, 0) == a,
        fadd(0, a) == a,
{
    lemma_small_mod(a as nat, p() as nat);
}

/// A difference vanishes mod the field order only for equal canonical
/// values.
pub proof fn lemma_fsub_zero(a: int, b: int)
    requires
        0 <= a < p(),
        0 <= b < p(),
    ensures
        (fsub(a, b) == 0) <==> (a == b),
{
    if a == b {
        lemma_small_mod(0, p() as nat);
    } else if a > b {
        lemma_small_mod((a - b) as nat, p() as nat);
    } else {
        lemma_mod_add_multiples_vanish(a - b, p());
        lemma_small_mod((a - b + p()) as nat, p() as nat);
    }
}

/// Addition of a common term is cancellable on canonical values.
pub proof fn lemma_fadd_cancel(a: int, x: int, y: int)
    requires
        0 <= x < p(),
        0 <= y < p(),
        fadd(a, x) == fadd(a, y),
    ensures
        x == y,
{
    lemma_sub_mod_noop(a + x, a + y, p());
    lemma_fsub_zero(x, y);
    assert((x - y) % p() == 0) by {
        assert(((a + x) - (a + y)) % p() == (x - y) % p());
    }
}

/// Congruence: multiplication respects equality mod the field order.
pub proof fn lemma_cong_mul(x1: int, x2: int, y1: int, y2: int)
    requires
        x1 % p() == x2 % p(),
        y1 % p() == y2 % p(),
    ensures
        (x1 * y1) % p() == (x2 * y2) % p(),
{
    lemma_mul_mod_noop_general(x1, y1, p());
    lemma_mul_mod_noop_general(x2, y2, p());
}

/// Congruence: addition respects equality mod the field order.
pub proof fn lemma_cong_add(x1: int, x2: int, y1: int, y2: int)
    requires
        x1 % p() == x2 % p(),
        y1 % p() == y2 % p(),
    ensures
        (x1 + y1) % p() == (x2 + y2) % p(),
{
    lemma_add_mod_noop(x1, y1, p());
    lemma_add_mod_noop(x2, y2, p());
}

} // verus!
