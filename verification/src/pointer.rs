//! Symbolic pointers: a per-circuit random challenge plus an optional
//! linear shift, and the timestamps that order accesses to one address.
//!
//! A pointer's algebraic address is `challenge + embed(shift)`; two
//! evaluation paths compute it.  `eval` is the build/verification path,
//! working on a constraint-evaluation context; `read` is the witness path,
//! producing a concrete key used to index a host-side map during trace
//! generation.  The two paths agree: see `lemma_digest_deterministic` in
//! the accumulation module.

use crate::cubic::{cadd, cembed, cwf, CubicValue};
use crate::expression::{expr_eval, expr_wf, ArithmeticExpression};
use crate::field::{fadd, p, Fp};
use crate::register::{CubicRegister, ElementRegister};
use crate::trace::{
    cubic_val, elem_val, env_wf, slice_in_env, AirParser, EnvView, TraceWriter,
};
use vstd::prelude::*;

verus! {

/// A symbolic address: a challenge register and an optional linear shift.
#[derive(Clone, Copy, PartialEq, Eq, Structural, Debug)]
pub struct RawPointer {
    pub challenge: CubicRegister,
    pub element_shift: Option<ElementRegister>,
    pub constant_shift: Option<u32>,
}

/// A concrete witness-time key: the same logical address always maps to the
/// same key, however it was expressed.
#[derive(Clone, Copy, PartialEq, Eq, Structural, Debug)]
pub struct RawPointerKey {
    pub challenge: CubicRegister,
    pub shift: Fp,
}

impl RawPointerKey {
    /// Packs a challenge register and a combined shift into a key.
    pub fn new(challenge: CubicRegister, shift: Fp) -> (r: RawPointerKey)
        ensures
            r.challenge == challenge,
            r.shift == shift,
    {
        RawPointerKey { challenge, shift }
    }
}

/// A logical ordering tag for one access: a compile-time constant or a
/// runtime element register.
#[derive(Clone, Copy, PartialEq, Eq, Structural, Debug)]
pub enum Time {
    /// A compile-time timestamp.
    Constant(u32),
    /// A runtime timestamp read from a register.
    Register(ElementRegister),
}

/// Value of a timestamp under an environment.
pub open spec fn time_val(t: Time, env: EnvView) -> int {
    match t {
        Time::Constant(c) => c as int,
        Time::Register(r) => elem_val(r, env),
    }
}

/// The timestamp's register, if any, lies inside the environment.
pub open spec fn time_wf(t: Time, env: EnvView) -> bool {
    match t {
        Time::Constant(_) => true,
        Time::Register(r) => slice_in_env(r.slice, env) && r.slice.len == 1,
    }
}

impl Time {
    /// The zero timestamp.
    pub fn zero() -> (r: Time)
        ensures
            r == Time::Constant(0u32),
    {
        Time::Constant(0)
    }

    /// A compile-time timestamp.
    pub fn constant(c: u32) -> (r: Time)
        ensures
            r == Time::Constant(c),
    {
        Time::Constant(c)
    }

    /// A runtime timestamp.
    pub fn from_element(r: ElementRegister) -> (t: Time)
        ensures
            t == Time::Register(r),
    {
        Time::Register(r)
    }

    /// The expression reading this timestamp.
    pub fn expr(&self) -> (r: ArithmeticExpression)
        ensures
            forall|env: EnvView| #[trigger] expr_eval(r, env) == time_val(*self, env),
            forall|env: EnvView| time_wf(*self, env) ==> #[trigger] expr_wf(r, env),
    {
        match self {
            Time::Constant(c) => ArithmeticExpression::from_constant(Fp::from_u32(*c)),
            Time::Register(reg) => reg.expr(),
        }
    }

    /// Reads the timestamp's concrete value.
    pub fn value(&self, parser: &AirParser) -> (v: Fp)
        requires
            parser.wf(),
            time_wf(*self, parser@),
        ensures
            v.wf(),
            v@ == time_val(*self, parser@),
    {
        match self {
            Time::Constant(c) => Fp::from_u32(*c),
            Time::Register(r) => parser.read_element(r),
        }
    }
}

/// The combined shift of a pointer: element shift plus constant shift,
/// with absent parts read as zero.
pub open spec fn shift_val(ptr: RawPointer, env: EnvView) -> int {
    match (ptr.element_shift, ptr.constant_shift) {
        (Option::None, Option::None) => 0,
        (Option::Some(e), Option::None) => elem_val(e, env),
        (Option::None, Option::Some(c)) => c as int,
        (Option::Some(e), Option::Some(c)) => fadd(elem_val(e, env), c as int),
    }
}

/// The pointer's algebraic address: the challenge, shifted if any shift is
/// present.
pub open spec fn pointer_address(ptr: RawPointer, env: EnvView) -> (int, int, int) {
    if ptr.element_shift is None && ptr.constant_shift is None {
        cubic_val(ptr.challenge, env)
    } else {
        cadd(cubic_val(ptr.challenge, env), cembed(shift_val(ptr, env)))
    }
}

/// The address a witness-time key denotes.
pub open spec fn key_address(key: RawPointerKey, env: EnvView) -> (int, int, int) {
    cadd(cubic_val(key.challenge, env), cembed(key.shift@))
}

/// The pointer's registers all lie inside the environment.
pub open spec fn pointer_wf(ptr: RawPointer, env: EnvView) -> bool {
    &&& slice_in_env(ptr.challenge.slice, env)
    &&& ptr.challenge.slice.len == 3
    &&& match ptr.element_shift {
        Option::Some(e) => slice_in_env(e.slice, env) && e.slice.len == 1,
        Option::None => true,
    }
}

impl RawPointer {
    /// Builds a pointer from a challenge and optional shifts.
    pub fn new(
        challenge: CubicRegister,
        element_shift: Option<ElementRegister>,
        constant_shift: Option<u32>,
    ) -> (r: RawPointer)
        ensures
            r == (RawPointer { challenge, element_shift, constant_shift }),
    {
        RawPointer { challenge, element_shift, constant_shift }
    }

    /// A bare pointer: challenge only, no shift.
    pub fn from_challenge(challenge: CubicRegister) -> (r: RawPointer)
        ensures
            r == (RawPointer { challenge, element_shift: Option::None, constant_shift: Option::None }),
    {
        RawPointer { challenge, element_shift: None, constant_shift: None }
    }

    /// Build/verification-path address: combine the shifts, embed into the
    /// extension, add to the challenge.
    pub fn eval(&self, parser: &AirParser) -> (r: CubicValue)
        requires
            parser.wf(),
            pointer_wf(*self, parser@),
        ensures
            r.wf(),
            r@ == pointer_address(*self, parser@),
    {
        let challenge = parser.read_cubic(&self.challenge);
        let shift: Option<Fp> = match (self.element_shift, self.constant_shift) {
            (Some(e), None) => Some(parser.read_element(&e)),
            (None, Some(c)) => Some(parser.constant(Fp::from_u32(c))),
            (Some(e), Some(c)) => {
                let element = parser.read_element(&e);
                Some(element.add(Fp::from_u32(c)))
            },
            (None, None) => None,
        };
        match shift {
            Some(s) => {
                let shift_ext = CubicValue::from_base(s);
                challenge.add(shift_ext)
            },
            None => challenge,
        }
    }

    /// Witness-path address key: the same combination of shifts, as a
    /// concrete field value beside the challenge register.
    pub fn read(&self, writer: &TraceWriter, row_index: usize) -> (r: RawPointerKey)
        requires
            writer.wf(),
            row_index < writer.spec_num_rows(),
            pointer_wf(*self, writer.env_at(row_index as int)),
        ensures
            r.challenge == self.challenge,
            r.shift.wf(),
            r.shift@ == shift_val(*self, writer.env_at(row_index as int)),
    {
        let element_shift = match self.element_shift {
            Some(s) => writer.read(&s, row_index),
            None => Fp::zero(),
        };
        let constant_shift = match self.constant_shift {
            Some(c) => Fp::from_u32(c),
            None => Fp::zero(),
        };
        let shift = element_shift.add(constant_shift);
        proof {
            let env = writer.env_at(row_index as int);
            match (self.element_shift, self.constant_shift) {
                (Option::None, Option::None) => {
                    crate::field::lemma_fadd_zero(0);
                },
                (Option::Some(e), Option::None) => {
                    crate::field::lemma_fadd_zero(elem_val(e, env));
                },
                (Option::None, Option::Some(c)) => {
                    crate::field::lemma_fadd_zero(c as int);
                },
                (Option::Some(e), Option::Some(c)) => {},
            }
        }
        RawPointerKey::new(self.challenge, shift)
    }
}

impl RawPointer {
    /// Accumulates a scalar expression at this pointer: allocates the
    /// digest register (row-local exactly when the value is
    /// trace-dependent, an optimization that cannot change the constraint)
    /// and registers the accumulation constraint.
    pub fn accumulate(
        &self,
        builder: &mut crate::builder::AirBuilder,
        value: crate::expression::ArithmeticExpression,
    ) -> (digest: CubicRegister)
        requires
            old(builder).next_trace + 3 <= usize::MAX,
            old(builder).next_global + 3 <= usize::MAX,
        ensures
            digest.slice.len == 3,
            digest.slice.space == (if crate::expression::spec_is_trace(value) {
                crate::register::RegisterSpace::Trace
            } else {
                crate::register::RegisterSpace::Global
            }),
            final(builder).constraints@ == old(builder).constraints@.push(
                crate::builder::Constraint::Accumulation(
                    crate::accumulate::PointerAccumulator {
                        ptr: *self,
                        value: crate::accumulate::CompressedValue::Element(value),
                        digest,
                    },
                ),
            ),
            final(builder).next_trace + final(builder).next_global == old(builder).next_trace
                + old(builder).next_global + 3,
            final(builder).next_public == old(builder).next_public,
            final(builder).next_challenge == old(builder).next_challenge,
            final(builder).same_memory(*old(builder)),
    {
        let digest = if value.is_trace() {
            builder.alloc_extended()
        } else {
            builder.alloc_global()
        };
        let value = crate::accumulate::CompressedValue::Element(value);
        let accumulator = crate::accumulate::PointerAccumulator::new(*self, value, digest);
        accumulator.register(builder);
        digest
    }

    /// Accumulates an extension-valued expression at this pointer, through
    /// the same single fold as the scalar path.
    pub fn accumulate_cubic(
        &self,
        builder: &mut crate::builder::AirBuilder,
        value: crate::accumulate::CubicExpression,
    ) -> (digest: CubicRegister)
        requires
            old(builder).next_trace + 3 <= usize::MAX,
            old(builder).next_global + 3 <= usize::MAX,
        ensures
            digest.slice.len == 3,
            digest.slice.space == (if crate::expression::spec_is_trace(value.c0)
                || crate::expression::spec_is_trace(value.c1) || crate::expression::spec_is_trace(
                value.c2,
            ) {
                crate::register::RegisterSpace::Trace
            } else {
                crate::register::RegisterSpace::Global
            }),
            final(builder).constraints@ == old(builder).constraints@.push(
                crate::builder::Constraint::Accumulation(
                    crate::accumulate::PointerAccumulator {
                        ptr: *self,
                        value: crate::accumulate::CompressedValue::Cubic(value),
                        digest,
                    },
                ),
            ),
            final(builder).next_trace + final(builder).next_global == old(builder).next_trace
                + old(builder).next_global + 3,
            final(builder).next_public == old(builder).next_public,
            final(builder).next_challenge == old(builder).next_challenge,
            final(builder).same_memory(*old(builder)),
    {
        let digest = if value.is_trace() {
            builder.alloc_extended()
        } else {
            builder.alloc_global()
        };
        let value = crate::accumulate::CompressedValue::Cubic(value);
        let accumulator = crate::accumulate::PointerAccumulator::new(*self, value, digest);
        accumulator.register(builder);
        digest
    }
}

/// Distinct shifts at one challenge denote distinct addresses, for every
/// value of the challenge: the shift always participates in address
/// uniqueness.
pub proof fn lemma_shift_separates_addresses(ch: (int, int, int), s1: int, s2: int)
    requires
        0 <= s1 < p(),
        0 <= s2 < p(),
        s1 != s2,
    ensures
        cadd(ch, cembed(s1)) != cadd(ch, cembed(s2)),
{
    vstd::arithmetic::div_mod::lemma_small_mod(s1 as nat, p() as nat);
    vstd::arithmetic::div_mod::lemma_small_mod(s2 as nat, p() as nat);
    if cadd(ch, cembed(s1)) == cadd(ch, cembed(s2)) {
        crate::field::lemma_fadd_cancel(ch.0, s1, s2);
    }
}

/// The value a cubic register holds is canonical under a well-formed
/// environment.
pub proof fn lemma_cubic_val_wf(r: CubicRegister, env: EnvView)
    requires
        env_wf(env),
        slice_in_env(r.slice, env),
        r.slice.len == 3,
    ensures
        cwf(cubic_val(r, env)),
{
}

} // verus!
