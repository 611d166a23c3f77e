//! Byte-array registers and the canonical value encoding.
//!
//! A `W`-bit unsigned value is stored as `W/8` little-endian byte cells.
//! For accumulation, the value's bytes are folded at base 256 and the
//! timestamp is weighted by 2^32, so value bits and timestamp bits never
//! alias: a later write to the same address stays algebraically distinct
//! from an earlier one even when the raw value bits coincide.

use crate::builder::{AirBuilder, Constraint};
use crate::expression::{expr_eval, expr_wf, ArithmeticExpression};
use crate::field::{fadd, fmul, p, Fp};
use crate::pointer::{time_val, time_wf, RawPointer, Time};
use crate::register::{
    ArrayRegister, ByteRegister, CubicRegister, ElementRegister, MemorySlice, RegisterSerializable,
};
use crate::trace::{elem_val, env_read, slice_in_env, space_len, EnvView};
use vstd::arithmetic::div_mod::{
    lemma_fundamental_div_mod_converse, lemma_small_mod,
};
use vstd::prelude::*;

verus! {

/// A register of `N` little-endian byte cells.
#[derive(Clone, Copy, Debug)]
pub struct ByteArrayRegister<const N: usize>(pub MemorySlice);

/// One byte.
pub type U8Register = ByteArrayRegister<1>;

/// Two little-endian bytes.
pub type U16Register = ByteArrayRegister<2>;

/// Four little-endian bytes.
pub type U32Register = ByteArrayRegister<4>;

/// Eight little-endian bytes.
pub type U64Register = ByteArrayRegister<8>;

impl<const N: usize> RegisterSerializable for ByteArrayRegister<N> {
    open spec fn spec_register(self) -> MemorySlice {
        self.0
    }

    fn register(&self) -> (r: &MemorySlice) {
        &self.0
    }

    fn from_register_unsafe(slice: MemorySlice) -> (r: Self) {
        ByteArrayRegister(slice)
    }
}

impl<const N: usize> ByteArrayRegister<N> {
    /// The same cells, viewed as individual bytes.
    pub fn to_le_bytes(&self) -> (r: ArrayRegister<ByteRegister>)
        ensures
            r.slice == self.0,
    {
        ArrayRegister { slice: self.0, element: core::marker::PhantomData }
    }

    /// The same cells, viewed as `N/M` limbs of `M` bytes each.
    pub fn to_le_limbs<const M: usize>(&self) -> (r: ArrayRegister<ByteArrayRegister<M>>)
        requires
            M > 0,
            N % M == 0,
        ensures
            r.slice == self.0,
    {
        ArrayRegister { slice: self.0, element: core::marker::PhantomData }
    }

    /// Reassembles a register from its limb view; the inverse of
    /// `to_le_limbs` on the same slice.
    pub fn from_limbs<const M: usize>(register: &ArrayRegister<ByteArrayRegister<M>>) -> (r: Self)
        requires
            M > 0,
            N % M == 0,
        ensures
            r.0 == register.slice,
    {
        Self::from_register_unsafe(register.slice)
    }
}

impl ArrayRegister<ByteArrayRegister<8>> {
    /// How many 64-bit registers fit in this array register.
    pub fn len_u64(&self) -> (n: usize)
        ensures
            n == self.slice.len / 8,
    {
        self.slice.len / 8
    }

    /// The `i`-th 64-bit register of the array.
    pub fn get_u64(&self, i: usize) -> (r: ByteArrayRegister<8>)
        requires
            i * 8 + 8 <= self.slice.len,
            self.slice.start + self.slice.len <= usize::MAX,
        ensures
            r.0 == (MemorySlice {
                space: self.slice.space,
                start: (self.slice.start + i * 8) as usize,
                len: 8,
            }),
    {
        let start = self.slice.start + i * 8;
        ByteArrayRegister(MemorySlice { space: self.slice.space, start, len: 8 })
    }
}

impl ByteRegister {
    /// The same cell as an element register.
    pub fn element(&self) -> (r: ElementRegister)
        ensures
            r.slice == self.slice,
    {
        ElementRegister { slice: self.slice }
    }
}

/// Folds a 32-bit value and its timestamp into one field element: the
/// value in the low 32 bits, the timestamp above it.
pub fn encode_u32(value: u32, time: u32) -> (r: Fp)
    requires
        time < 0xffff_ffffu32,
    ensures
        r.wf(),
        r@ == value + 0x1_0000_0000 * (time as int),
{
    let x: u64 = value as u64 + (time as u64) * 0x1_0000_0000;
    Fp { v: x }
}

/// Splits an encoded field element back into value and timestamp.
pub fn decode_u32(x: Fp) -> (r: (u32, u32))
    requires
        x.wf(),
    ensures
        r.0 == x@ % 0x1_0000_0000,
        r.1 == x@ / 0x1_0000_0000,
{
    let value = (x.v % 0x1_0000_0000) as u32;
    let time = (x.v / 0x1_0000_0000) as u32;
    (value, time)
}

/// Round trip of the value encoding: decoding an encoded in-range
/// (value, timestamp) pair recovers exactly the original pair.
pub proof fn lemma_encode_round_trip(value: u32, time: u32)
    requires
        time < 0xffff_ffffu32,
    ensures
        (value + 0x1_0000_0000 * (time as int)) % 0x1_0000_0000 == value,
        (value + 0x1_0000_0000 * (time as int)) / 0x1_0000_0000 == time,
{
    lemma_fundamental_div_mod_converse(
        value + 0x1_0000_0000 * (time as int),
        0x1_0000_0000,
        time as int,
        value as int,
    );
}

/// Four little-endian bytes folded at base 256, exactly as the compress
/// expressions evaluate.
pub open spec fn byte_fold4(b0: int, b1: int, b2: int, b3: int) -> int {
    fadd(
        fadd(fadd(fadd(0, fmul(1, b0)), fmul(0x100, b1)), fmul(0x10000, b2)),
        fmul(0x1000000, b3),
    )
}

/// The circuit-side encoding of a 32-bit value: its bytes folded at base
/// 256, then the timestamp weighted by 2^32.
pub open spec fn u32_encoding(b0: int, b1: int, b2: int, b3: int, t: int) -> int {
    fadd(byte_fold4(b0, b1, b2, b3), fmul(0x1_0000_0000, t))
}

/// On in-range bytes and timestamps the circuit encoding is the exact
/// integer `b0 + 256 b1 + 2^16 b2 + 2^24 b3 + 2^32 t`: no reduction
/// happens, so the circuit encodes the same element `encode_u32` does.
pub proof fn lemma_u32_encoding_value(b0: int, b1: int, b2: int, b3: int, t: int)
    requires
        0 <= b0 < 256,
        0 <= b1 < 256,
        0 <= b2 < 256,
        0 <= b3 < 256,
        0 <= t < 0xffff_ffff,
    ensures
        u32_encoding(b0, b1, b2, b3, t) == b0 + 0x100 * b1 + 0x10000 * b2 + 0x1000000 * b3
            + 0x1_0000_0000 * t,
{
    lemma_small_mod(b0 as nat, p() as nat);
    lemma_small_mod((0x100 * b1) as nat, p() as nat);
    lemma_small_mod((0x10000 * b2) as nat, p() as nat);
    lemma_small_mod((0x1000000 * b3) as nat, p() as nat);
    lemma_small_mod((0x1_0000_0000 * t) as nat, p() as nat);
    lemma_small_mod((b0 + 0x100 * b1) as nat, p() as nat);
    lemma_small_mod((b0 + 0x100 * b1 + 0x10000 * b2) as nat, p() as nat);
    lemma_small_mod((b0 + 0x100 * b1 + 0x10000 * b2 + 0x1000000 * b3) as nat, p() as nat);
    lemma_small_mod(
        (b0 + 0x100 * b1 + 0x10000 * b2 + 0x1000000 * b3 + 0x1_0000_0000 * t) as nat,
        p() as nat,
    );
}

impl ByteArrayRegister<8> {
    /// Canonically encodes this 64-bit register's value and its timestamp
    /// as an extension-valued payload — the two 32-bit halves in the first
    /// two coordinates, the timestamp in the third — and routes it through
    /// the pointer's extension accumulation entry point.
    pub fn compress(
        &self,
        builder: &mut AirBuilder,
        ptr: RawPointer,
        time: &Time,
    ) -> (digest: CubicRegister)
        requires
            old(builder).next_trace + 3 <= usize::MAX,
            old(builder).next_global + 3 <= usize::MAX,
            self.0.len == 8,
            self.0.start + 8 <= usize::MAX,
        ensures
            digest.slice.len == 3,
            final(builder).constraints@.len() == old(builder).constraints@.len() + 1,
            final(builder).constraints@.drop_last() == old(builder).constraints@,
            final(builder).same_memory(*old(builder)),
            final(builder).next_trace + final(builder).next_global == old(builder).next_trace
                + old(builder).next_global + 3,
            final(builder).next_public == old(builder).next_public,
            final(builder).next_challenge == old(builder).next_challenge,
            ({
                let c = final(builder).constraints@.last();
                &&& c matches Constraint::Accumulation(acc)
                &&& acc.ptr == ptr
                &&& acc.digest == digest
                &&& acc.value matches crate::accumulate::CompressedValue::Cubic(e)
                &&& forall|env: EnvView|
                    #[trigger] crate::accumulate::cubic_expr_eval(e, env) == (
                        byte_fold4(
                            env_read(env, self.0.space, self.0.start as int),
                            env_read(env, self.0.space, self.0.start + 1),
                            env_read(env, self.0.space, self.0.start + 2),
                            env_read(env, self.0.space, self.0.start + 3),
                        ),
                        byte_fold4(
                            env_read(env, self.0.space, self.0.start + 4),
                            env_read(env, self.0.space, self.0.start + 5),
                            env_read(env, self.0.space, self.0.start + 6),
                            env_read(env, self.0.space, self.0.start + 7),
                        ),
                        time_val(*time, env),
                    )
                &&& forall|env: EnvView|
                    self.0.start + 8 <= space_len(env, self.0.space) && time_wf(*time, env)
                        ==> #[trigger] crate::accumulate::cubic_expr_wf(e, env)
            }),
    {
        let bytes = self.to_le_bytes();
        let b0 = bytes.get(0).element();
        let b1 = bytes.get(1).element();
        let b2 = bytes.get(2).element();
        let b3 = bytes.get(3).element();
        let b4 = bytes.get(4).element();
        let b5 = bytes.get(5).element();
        let b6 = bytes.get(6).element();
        let b7 = bytes.get(7).element();
        let lo = fold4_expr(b0, b1, b2, b3);
        let hi = fold4_expr(b4, b5, b6, b7);
        let te = time.expr();
        let value = crate::accumulate::CubicExpression { c0: lo, c1: hi, c2: te };
        ptr.accumulate_cubic(builder, value)
    }
}

/// Builds the base-256 fold expression of four byte registers.
fn fold4_expr(
    b0: ElementRegister,
    b1: ElementRegister,
    b2: ElementRegister,
    b3: ElementRegister,
) -> (e: ArithmeticExpression)
    ensures
        forall|env: EnvView|
            #[trigger] expr_eval(e, env) == byte_fold4(
                elem_val(b0, env),
                elem_val(b1, env),
                elem_val(b2, env),
                elem_val(b3, env),
            ),
        forall|env: EnvView|
            slice_in_env(b0.slice, env) && b0.slice.len == 1 && slice_in_env(b1.slice, env)
                && b1.slice.len == 1 && slice_in_env(b2.slice, env) && b2.slice.len == 1
                && slice_in_env(b3.slice, env) && b3.slice.len == 1 ==> #[trigger] expr_wf(e, env),
{
    let m0 = ArithmeticExpression::from_constant(Fp::from_u32(1)).mul(b0.expr());
    let ghost gm0 = m0;
    let m1 = ArithmeticExpression::from_constant(Fp::from_u32(0x100)).mul(b1.expr());
    let ghost gm1 = m1;
    let m2 = ArithmeticExpression::from_constant(Fp::from_u32(0x10000)).mul(b2.expr());
    let ghost gm2 = m2;
    let m3 = ArithmeticExpression::from_constant(Fp::from_u32(0x1000000)).mul(b3.expr());
    let ghost gm3 = m3;
    let mut acc_expression = ArithmeticExpression::zero();
    acc_expression = acc_expression.add(m0);
    let ghost ge1 = acc_expression;
    acc_expression = acc_expression.add(m1);
    let ghost ge2 = acc_expression;
    acc_expression = acc_expression.add(m2);
    let ghost ge3 = acc_expression;
    acc_expression = acc_expression.add(m3);
    let ghost ge4 = acc_expression;
    proof {
        assert forall|env: EnvView| #[trigger] expr_eval(ge4, env) == byte_fold4(
            elem_val(b0, env),
            elem_val(b1, env),
            elem_val(b2, env),
            elem_val(b3, env),
        ) by {
            assert(expr_eval(ArithmeticExpression::Const(Fp { v: 0 }), env) == 0);
            assert(expr_eval(ArithmeticExpression::Const(Fp { v: 1 }), env) == 1);
            assert(expr_eval(ArithmeticExpression::Const(Fp { v: 0x100 }), env) == 0x100);
            assert(expr_eval(ArithmeticExpression::Const(Fp { v: 0x10000 }), env) == 0x10000);
            assert(expr_eval(ArithmeticExpression::Const(Fp { v: 0x1000000 }), env) == 0x1000000);
            assert(expr_eval(ArithmeticExpression::Reg(b0), env) == elem_val(b0, env));
            assert(expr_eval(ArithmeticExpression::Reg(b1), env) == elem_val(b1, env));
            assert(expr_eval(ArithmeticExpression::Reg(b2), env) == elem_val(b2, env));
            assert(expr_eval(ArithmeticExpression::Reg(b3), env) == elem_val(b3, env));
            assert(expr_eval(gm0, env) == fmul(1, elem_val(b0, env)));
            assert(expr_eval(gm1, env) == fmul(0x100, elem_val(b1, env)));
            assert(expr_eval(gm2, env) == fmul(0x10000, elem_val(b2, env)));
            assert(expr_eval(gm3, env) == fmul(0x1000000, elem_val(b3, env)));
            assert(expr_eval(ge1, env) == fadd(0, expr_eval(gm0, env)));
            assert(expr_eval(ge2, env) == fadd(expr_eval(ge1, env), expr_eval(gm1, env)));
            assert(expr_eval(ge3, env) == fadd(expr_eval(ge2, env), expr_eval(gm2, env)));
            assert(expr_eval(ge4, env) == fadd(expr_eval(ge3, env), expr_eval(gm3, env)));
        }
        assert forall|env: EnvView|
            slice_in_env(b0.slice, env) && b0.slice.len == 1 && slice_in_env(b1.slice, env)
                && b1.slice.len == 1 && slice_in_env(b2.slice, env) && b2.slice.len == 1
                && slice_in_env(b3.slice, env) && b3.slice.len == 1
                implies #[trigger] expr_wf(ge4, env) by {
            assert(expr_wf(ArithmeticExpression::Const(Fp { v: 0 }), env));
            assert(expr_wf(ArithmeticExpression::Const(Fp { v: 1 }), env));
            assert(expr_wf(ArithmeticExpression::Const(Fp { v: 0x100 }), env));
            assert(expr_wf(ArithmeticExpression::Const(Fp { v: 0x10000 }), env));
            assert(expr_wf(ArithmeticExpression::Const(Fp { v: 0x1000000 }), env));
            assert(expr_wf(ArithmeticExpression::Reg(b0), env));
            assert(expr_wf(ArithmeticExpression::Reg(b1), env));
            assert(expr_wf(ArithmeticExpression::Reg(b2), env));
            assert(expr_wf(ArithmeticExpression::Reg(b3), env));
            assert(expr_wf(gm0, env));
            assert(expr_wf(gm1, env));
            assert(expr_wf(gm2, env));
            assert(expr_wf(gm3, env));
            assert(expr_wf(ge1, env));
            assert(expr_wf(ge2, env));
            assert(expr_wf(ge3, env));
            assert(expr_wf(ge4, env));
        }
    }
    acc_expression
}

impl ByteArrayRegister<4> {
    /// Canonically encodes this register's value and its timestamp into
    /// one base-field expression and routes it through the pointer's
    /// accumulation entry point, never a bespoke accumulation rule.
    ///
    /// The registered constraint carries an expression that evaluates, on
    /// every environment, to the canonical encoding of the four bytes and
    /// the timestamp.
    pub fn compress(
        &self,
        builder: &mut AirBuilder,
        ptr: RawPointer,
        time: &Time,
    ) -> (digest: CubicRegister)
        requires
            old(builder).next_trace + 3 <= usize::MAX,
            old(builder).next_global + 3 <= usize::MAX,
            self.0.len == 4,
            self.0.start + 4 <= usize::MAX,
        ensures
            digest.slice.len == 3,
            final(builder).constraints@.len() == old(builder).constraints@.len() + 1,
            final(builder).constraints@.drop_last() == old(builder).constraints@,
            final(builder).same_memory(*old(builder)),
            final(builder).next_trace + final(builder).next_global == old(builder).next_trace
                + old(builder).next_global + 3,
            final(builder).next_public == old(builder).next_public,
            final(builder).next_challenge == old(builder).next_challenge,
            ({
                let c = final(builder).constraints@.last();
                &&& c matches Constraint::Accumulation(acc)
                &&& acc.ptr == ptr
                &&& acc.digest == digest
                &&& acc.value matches crate::accumulate::CompressedValue::Element(e)
                &&& forall|env: EnvView|
                    #[trigger] expr_eval(e, env) == u32_encoding(
                        env_read(env, self.0.space, self.0.start as int),
                        env_read(env, self.0.space, self.0.start + 1),
                        env_read(env, self.0.space, self.0.start + 2),
                        env_read(env, self.0.space, self.0.start + 3),
                        time_val(*time, env),
                    )
                &&& forall|env: EnvView|
                    self.0.start + 4 <= space_len(env, self.0.space) && time_wf(*time, env)
                        ==> #[trigger] expr_wf(e, env)
            }),
    {
        let bytes = self.to_le_bytes();
        let b0 = bytes.get(0).element();
        let b1 = bytes.get(1).element();
        let b2 = bytes.get(2).element();
        let b3 = bytes.get(3).element();
        let m0 = ArithmeticExpression::from_constant(Fp::from_u32(1)).mul(b0.expr());
        let ghost gm0 = m0;
        let m1 = ArithmeticExpression::from_constant(Fp::from_u32(0x100)).mul(b1.expr());
        let ghost gm1 = m1;
        let m2 = ArithmeticExpression::from_constant(Fp::from_u32(0x10000)).mul(b2.expr());
        let ghost gm2 = m2;
        let m3 = ArithmeticExpression::from_constant(Fp::from_u32(0x1000000)).mul(b3.expr());
        let ghost gm3 = m3;
        let two_32 = Fp { v: 0x1_0000_0000 };
        let m4 = ArithmeticExpression::from_constant(two_32).mul(time.expr());
        let ghost gm4 = m4;
        let ghost gtime_expr = match gm4 {
            ArithmeticExpression::Mul(_, t) => *t,
            _ => gm4,
        };
        let mut acc_expression = ArithmeticExpression::zero();
        acc_expression = acc_expression.add(m0);
        let ghost ge1 = acc_expression;
        acc_expression = acc_expression.add(m1);
        let ghost ge2 = acc_expression;
        acc_expression = acc_expression.add(m2);
        let ghost ge3 = acc_expression;
        acc_expression = acc_expression.add(m3);
        let ghost ge4 = acc_expression;
        acc_expression = acc_expression.add(m4);
        let ghost ge5 = acc_expression;
        proof {
            assert forall|env: EnvView| #[trigger] expr_eval(acc_expression, env) == u32_encoding(
                env_read(env, self.0.space, self.0.start as int),
                env_read(env, self.0.space, self.0.start + 1),
                env_read(env, self.0.space, self.0.start + 2),
                env_read(env, self.0.space, self.0.start + 3),
                time_val(*time, env),
            ) by {
                assert(expr_eval(ArithmeticExpression::Const(Fp { v: 0 }), env) == 0);
                assert(expr_eval(ArithmeticExpression::Const(Fp { v: 1 }), env) == 1);
                assert(expr_eval(ArithmeticExpression::Const(Fp { v: 0x100 }), env) == 0x100);
                assert(expr_eval(ArithmeticExpression::Const(Fp { v: 0x10000 }), env) == 0x10000);
                assert(expr_eval(ArithmeticExpression::Const(Fp { v: 0x1000000 }), env) == 0x1000000);
                assert(expr_eval(ArithmeticExpression::Const(Fp { v: 0x1_0000_0000 }), env)
                    == 0x1_0000_0000);
                assert(expr_eval(ArithmeticExpression::Reg(b0), env) == env_read(
                    env,
                    self.0.space,
                    self.0.start as int,
                ));
                assert(expr_eval(ArithmeticExpression::Reg(b1), env) == env_read(
                    env,
                    self.0.space,
                    self.0.start + 1,
                ));
                assert(expr_eval(ArithmeticExpression::Reg(b2), env) == env_read(
                    env,
                    self.0.space,
                    self.0.start + 2,
                ));
                assert(expr_eval(ArithmeticExpression::Reg(b3), env) == env_read(
                    env,
                    self.0.space,
                    self.0.start + 3,
                ));
                assert(expr_eval(gtime_expr, env) == time_val(*time, env));
                assert(expr_eval(gm0, env) == fmul(1, env_read(env, self.0.space, self.0.start as int)));
                assert(expr_eval(gm1, env) == fmul(0x100, env_read(env, self.0.space, self.0.start + 1)));
                assert(expr_eval(gm2, env) == fmul(0x10000, env_read(env, self.0.space, self.0.start + 2)));
                assert(expr_eval(gm3, env) == fmul(0x1000000, env_read(env, self.0.space, self.0.start + 3)));
                assert(expr_eval(gtime_expr, env) == time_val(*time, env));
                assert(expr_eval(gm4, env) == fmul(0x1_0000_0000, time_val(*time, env)));
                assert(expr_eval(ge1, env) == fadd(0, expr_eval(gm0, env)));
                assert(expr_eval(ge2, env) == fadd(expr_eval(ge1, env), expr_eval(gm1, env)));
                assert(expr_eval(ge3, env) == fadd(expr_eval(ge2, env), expr_eval(gm2, env)));
                assert(expr_eval(ge4, env) == fadd(expr_eval(ge3, env), expr_eval(gm3, env)));
                assert(expr_eval(ge5, env) == fadd(expr_eval(ge4, env), expr_eval(gm4, env)));
            }
            assert forall|env: EnvView|
                self.0.start + 4 <= space_len(env, self.0.space) && time_wf(*time, env)
                    implies #[trigger] expr_wf(acc_expression, env) by {
                assert(expr_wf(ArithmeticExpression::Const(Fp { v: 0 }), env));
                assert(expr_wf(ArithmeticExpression::Const(Fp { v: 1 }), env));
                assert(expr_wf(ArithmeticExpression::Const(Fp { v: 0x100 }), env));
                assert(expr_wf(ArithmeticExpression::Const(Fp { v: 0x10000 }), env));
                assert(expr_wf(ArithmeticExpression::Const(Fp { v: 0x1000000 }), env));
                assert(expr_wf(ArithmeticExpression::Const(Fp { v: 0x1_0000_0000 }), env));
                assert(expr_wf(ArithmeticExpression::Reg(b0), env));
                assert(expr_wf(ArithmeticExpression::Reg(b1), env));
                assert(expr_wf(ArithmeticExpression::Reg(b2), env));
                assert(expr_wf(ArithmeticExpression::Reg(b3), env));
                assert(expr_wf(gtime_expr, env));
                assert(expr_wf(gm0, env));
                assert(expr_wf(gm1, env));
                assert(expr_wf(gm2, env));
                assert(expr_wf(gm3, env));
                assert(expr_wf(gm4, env));
                assert(expr_wf(ge1, env));
                assert(expr_wf(ge2, env));
                assert(expr_wf(ge3, env));
                assert(expr_wf(ge4, env));
                assert(expr_wf(ge5, env));
            }
        }
        ptr.accumulate(builder, acc_expression)
    }
}

} // verus!
