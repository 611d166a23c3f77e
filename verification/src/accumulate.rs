//! The accumulation step: folding one access's address and compressed
//! value into a single extension-field digest.
//!
//! The fold is fixed once and used everywhere: for address `a` and
//! compressed value `v`, the digest is `a * v + v`.  Equal
//! (address, value, time) triples yield identical digests on every
//! evaluation path, and the injectivity lemmas below pin down exactly when
//! two accesses can collide.

use crate::cubic::{
    cadd, cembed, cmul, cneg, cone, csub, cwf, czero, lemma_cadd_zero, lemma_cmul_by_invertible_zero,
    lemma_cmul_comm, lemma_cmul_distrib, lemma_cmul_distrib_sub, lemma_cmul_one, lemma_csub_eq,
    lemma_csub_of_adds, CubicValue,
};
use crate::expression::{expr_eval, expr_wf, ArithmeticExpression};
use crate::field::{fadd, p, Fp};
use crate::pointer::{
    key_address, pointer_address, pointer_wf, shift_val, RawPointer, RawPointerKey,
};
use crate::register::CubicRegister;
use crate::trace::{cubic_val, env_wf, slice_in_env, AirParser, EnvView};
use vstd::arithmetic::div_mod::{lemma_mod_add_multiples_vanish, lemma_small_mod};
use vstd::prelude::*;

verus! {

/// A symbolic extension-field expression: three coordinate expressions.
#[derive(Debug)]
pub struct CubicExpression {
    pub c0: ArithmeticExpression,
    pub c1: ArithmeticExpression,
    pub c2: ArithmeticExpression,
}

/// Value of a cubic expression under an environment.
pub open spec fn cubic_expr_eval(e: CubicExpression, env: EnvView) -> (int, int, int) {
    (expr_eval(e.c0, env), expr_eval(e.c1, env), expr_eval(e.c2, env))
}

/// All three coordinate expressions are well formed for the environment.
pub open spec fn cubic_expr_wf(e: CubicExpression, env: EnvView) -> bool {
    expr_wf(e.c0, env) && expr_wf(e.c1, env) && expr_wf(e.c2, env)
}

impl CubicExpression {
    /// Whether any coordinate reads a row-local register.
    pub fn is_trace(&self) -> (r: bool)
        ensures
            r == (crate::expression::spec_is_trace(self.c0) || crate::expression::spec_is_trace(
                self.c1,
            ) || crate::expression::spec_is_trace(self.c2)),
    {
        self.c0.is_trace() || self.c1.is_trace() || self.c2.is_trace()
    }

    /// Evaluates all three coordinates under a row context.
    pub fn eval(&self, parser: &AirParser) -> (r: CubicValue)
        requires
            parser.wf(),
            cubic_expr_wf(*self, parser@),
        ensures
            r.wf(),
            r@ == cubic_expr_eval(*self, parser@),
    {
        CubicValue { c0: self.c0.eval(parser), c1: self.c1.eval(parser), c2: self.c2.eval(parser) }
    }
}

/// The pre-accumulation payload: a scalar expression or a natively
/// extension-valued one, sharing a single accumulation path.
#[derive(Debug)]
pub enum CompressedValue {
    /// A single base-field expression, embedded into the extension.
    Element(ArithmeticExpression),
    /// An extension-valued expression.
    Cubic(CubicExpression),
}

/// Value of a compressed value under an environment, as an extension
/// element.
pub open spec fn compressed_eval(v: CompressedValue, env: EnvView) -> (int, int, int) {
    match v {
        CompressedValue::Element(e) => cembed(expr_eval(e, env)),
        CompressedValue::Cubic(c) => cubic_expr_eval(c, env),
    }
}

/// The payload's expressions are well formed for the environment.
pub open spec fn compressed_wf(v: CompressedValue, env: EnvView) -> bool {
    match v {
        CompressedValue::Element(e) => expr_wf(e, env),
        CompressedValue::Cubic(c) => cubic_expr_wf(c, env),
    }
}

impl CompressedValue {
    /// Whether the payload reads any row-local register.
    pub fn is_trace(&self) -> (r: bool)
        ensures
            r == match *self {
                CompressedValue::Element(e) => crate::expression::spec_is_trace(e),
                CompressedValue::Cubic(c) => crate::expression::spec_is_trace(c.c0)
                    || crate::expression::spec_is_trace(c.c1) || crate::expression::spec_is_trace(
                    c.c2,
                ),
            },
    {
        match self {
            CompressedValue::Element(e) => e.is_trace(),
            CompressedValue::Cubic(c) => c.is_trace(),
        }
    }

    /// Evaluates the payload to an extension element.
    pub fn eval(&self, parser: &AirParser) -> (r: CubicValue)
        requires
            parser.wf(),
            compressed_wf(*self, parser@),
        ensures
            r.wf(),
            r@ == compressed_eval(*self, parser@),
    {
        match self {
            CompressedValue::Element(e) => {
                let x = e.eval(parser);
                CubicValue::from_base(x)
            },
            CompressedValue::Cubic(c) => c.eval(parser),
        }
    }
}

/// The fixed accumulation fold: `address * value + value`.
pub open spec fn digest_fold(addr: (int, int, int), value: (int, int, int)) -> (int, int, int) {
    cadd(cmul(addr, value), value)
}

/// A fold is always canonical.
pub proof fn lemma_digest_fold_wf(addr: (int, int, int), value: (int, int, int))
    ensures
        cwf(digest_fold(addr, value)),
{
}

/// Binds (pointer, compressed value) to a digest register: the registered
/// constraint ties the digest to the fold of the pointer's address and the
/// value.
#[derive(Debug)]
pub struct PointerAccumulator {
    pub ptr: RawPointer,
    pub value: CompressedValue,
    pub digest: CubicRegister,
}

/// What the accumulation constraint asserts of an environment.
pub open spec fn accumulator_holds(acc: PointerAccumulator, env: EnvView) -> bool {
    cubic_val(acc.digest, env) == digest_fold(
        pointer_address(acc.ptr, env),
        compressed_eval(acc.value, env),
    )
}

/// The accumulator's registers and expressions fit the environment.
pub open spec fn accumulator_wf(acc: PointerAccumulator, env: EnvView) -> bool {
    &&& pointer_wf(acc.ptr, env)
    &&& compressed_wf(acc.value, env)
    &&& slice_in_env(acc.digest.slice, env)
    &&& acc.digest.slice.len == 3
}

impl PointerAccumulator {
    /// Packs a pointer, a payload and a digest register.
    pub fn new(ptr: RawPointer, value: CompressedValue, digest: CubicRegister) -> (r:
        PointerAccumulator)
        ensures
            r.ptr == ptr,
            r.value == value,
            r.digest == digest,
    {
        PointerAccumulator { ptr, value, digest }
    }

    /// The residue this accumulator emits: the fold of address and value,
    /// minus the digest register's value.
    pub open spec fn spec_residue(self, env: EnvView) -> (int, int, int) {
        csub(
            digest_fold(pointer_address(self.ptr, env), compressed_eval(self.value, env)),
            cubic_val(self.digest, env),
        )
    }

    /// Emits the accumulation constraint's value at this row: the fold
    /// minus the digest register.  Exactly that residue is pushed, and it
    /// vanishes exactly when the digest register holds the fold of address
    /// and value.
    pub fn eval(&self, parser: &mut AirParser)
        requires
            old(parser).wf(),
            accumulator_wf(*self, old(parser)@),
        ensures
            final(parser).same_spaces(*old(parser)),
            crate::lookup::cubic_views(final(parser).emitted@) == crate::lookup::cubic_views(
                old(parser).emitted@,
            ).push(self.spec_residue(old(parser)@)),
            ({
                let r = final(parser).emitted@.last();
                &&& final(parser).emitted@ == old(parser).emitted@.push(r)
                &&& (r@ == czero() <==> accumulator_holds(*self, old(parser)@))
            }),
    {
        let addr = self.ptr.eval(parser);
        let value = self.value.eval(parser);
        let fold = addr.mul(value).add(value);
        let digest_value = parser.read_cubic(&self.digest);
        let residue = fold.sub(digest_value);
        proof {
            lemma_digest_fold_wf(pointer_address(self.ptr, parser@), compressed_eval(
                self.value,
                parser@,
            ));
            crate::pointer::lemma_cubic_val_wf(self.digest, parser@);
            lemma_csub_eq(
                digest_fold(pointer_address(self.ptr, parser@), compressed_eval(
                    self.value,
                    parser@,
                )),
                cubic_val(self.digest, parser@),
            );
        }
        let pre = Ghost(parser.emitted@);
        parser.constraint(residue);
        proof {
            assert(crate::lookup::cubic_views(pre@.push(residue)) =~= crate::lookup::cubic_views(
                pre@,
            ).push(residue@));
        }
    }
}

/// Registers the accumulation constraint with the builder.
impl PointerAccumulator {
    /// Hands this accumulator's constraint to the builder.
    pub fn register(self, builder: &mut crate::builder::AirBuilder)
        ensures
            final(builder).constraints@ == old(builder).constraints@.push(
                crate::builder::Constraint::Accumulation(self),
            ),
            final(builder).same_counters(*old(builder)),
            final(builder).same_memory(*old(builder)),
    {
        builder.register_constraint(crate::builder::Constraint::Accumulation(self));
    }
}

/// Determinism across evaluation paths: the digest folded over the
/// build-path address equals the digest folded over the witness-path key's
/// address, for the same environment and value.
pub proof fn lemma_digest_deterministic(
    ptr: RawPointer,
    env: EnvView,
    key: RawPointerKey,
    value: (int, int, int),
)
    requires
        env_wf(env),
        pointer_wf(ptr, env),
        key.challenge == ptr.challenge,
        key.shift@ == shift_val(ptr, env),
    ensures
        digest_fold(pointer_address(ptr, env), value) == digest_fold(key_address(key, env), value),
{
    if ptr.element_shift is None && ptr.constant_shift is None {
        lemma_small_mod(0, p() as nat);
        crate::pointer::lemma_cubic_val_wf(ptr.challenge, env);
        lemma_cadd_zero(cubic_val(ptr.challenge, env));
        assert(cembed(0) == czero());
    }
}

/// Injectivity in the value: two accesses at the same address with
/// different compressed values collide only at a single bad address.  Any
/// invertibility witness for the difference pins the colliding address to
/// minus one, so over a random challenge draw a collision has probability
/// one in the extension-field order.
pub proof fn lemma_digest_injective_value(
    addr: (int, int, int),
    v1: (int, int, int),
    v2: (int, int, int),
    w: (int, int, int),
)
    requires
        cwf(addr),
        cwf(v1),
        cwf(v2),
        cmul(csub(v1, v2), w) == cone(),
    ensures
        digest_fold(addr, v1) == digest_fold(addr, v2) ==> addr == cneg(cone()),
{
    if digest_fold(addr, v1) == digest_fold(addr, v2) {
        let dv = csub(v1, v2);
        let s = cadd(addr, cone());
        lemma_digest_fold_wf(addr, v1);
        lemma_digest_fold_wf(addr, v2);
        lemma_csub_eq(digest_fold(addr, v1), digest_fold(addr, v2));
        lemma_csub_of_adds(cmul(addr, v1), v1, cmul(addr, v2), v2);
        lemma_cmul_distrib_sub(v1, v2, addr);
        lemma_cmul_comm(addr, v1);
        lemma_cmul_comm(addr, v2);
        lemma_cmul_comm(addr, dv);
        lemma_cmul_distrib(addr, cone(), dv);
        lemma_cmul_one(dv);
        assert(cmul(s, dv) == czero());
        lemma_cmul_by_invertible_zero(s, dv, w);
        assert(fadd(addr.0, 1) == 0);
        assert(fadd(addr.1, 0) == 0);
        assert(fadd(addr.2, 0) == 0);
        crate::field::lemma_fadd_zero(addr.1);
        crate::field::lemma_fadd_zero(addr.2);
        if addr.0 + 1 < p() {
            lemma_small_mod((addr.0 + 1) as nat, p() as nat);
        }
        lemma_mod_add_multiples_vanish(-1, p());
        lemma_small_mod((p() - 1) as nat, p() as nat);
        lemma_small_mod(0, p() as nat);
        assert(addr == cneg(cone()));
    }
}

/// Injectivity in the address: two accesses with the same invertible
/// compressed value collide only if the addresses are equal, so distinct
/// addresses always separate the digests.
pub proof fn lemma_digest_injective_address(
    a1: (int, int, int),
    a2: (int, int, int),
    v: (int, int, int),
    w: (int, int, int),
)
    requires
        cwf(a1),
        cwf(a2),
        cwf(v),
        cmul(v, w) == cone(),
    ensures
        digest_fold(a1, v) == digest_fold(a2, v) ==> a1 == a2,
{
    if digest_fold(a1, v) == digest_fold(a2, v) {
        let da = csub(a1, a2);
        lemma_digest_fold_wf(a1, v);
        lemma_digest_fold_wf(a2, v);
        lemma_csub_eq(digest_fold(a1, v), digest_fold(a2, v));
        lemma_csub_of_adds(cmul(a1, v), v, cmul(a2, v), v);
        lemma_cmul_distrib_sub(a1, a2, v);
        lemma_csub_eq(v, v);
        lemma_cadd_zero(cmul(da, v));
        assert(cmul(da, v) == czero());
        lemma_cmul_by_invertible_zero(da, v, w);
        lemma_csub_eq(a1, a2);
    }
}

} // verus!
