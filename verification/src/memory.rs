//! The memory layer's builder API: unbounded slices addressed through
//! symbolic pointers, stores and loads that register their digests on the
//! two sides of the memory lookup table, and the table's registration.
//!
//! A store encodes (value, timestamp) canonically, accumulates it at the
//! pointer's address, and appends the digest to the looked-up side with a
//! multiplicity; a load appends its digest to the looking side.  The
//! registered lookup constraint then proves every load matches some store.

use crate::builder::{AirBuilder, Constraint};
use crate::expression::{expr_eval, expr_wf, ArithmeticExpression};
use crate::field::{fadd, fmul, Fp};
use crate::lookup::{LookupChipConstraint, LookupConstraint};
use crate::pointer::{time_val, time_wf, RawPointer, Time};
use crate::register::{CubicRegister, ElementRegister, RegisterSpace};
use crate::trace::{elem_val, slice_in_env, EnvView};
use vstd::prelude::*;

verus! {

/// An unbounded run of memory cells behind one pointer challenge; cells
/// are addressed by constant or register offsets from the challenge.
#[derive(Debug)]
pub struct Slice<T> {
    pub challenge: CubicRegister,
    pub element: core::marker::PhantomData<T>,
}

impl<T> Slice<T> {
    /// The pointer to the cell at a compile-time offset.
    pub fn get(&self, i: usize) -> (r: RawPointer)
        requires
            i <= u32::MAX,
        ensures
            r == (RawPointer {
                challenge: self.challenge,
                element_shift: Option::None,
                constant_shift: Option::Some(i as u32),
            }),
    {
        RawPointer::new(self.challenge, None, Some(i as u32))
    }

    /// The pointer to the cell at a runtime offset.
    pub fn get_at(&self, idx: ElementRegister) -> (r: RawPointer)
        ensures
            r == (RawPointer {
                challenge: self.challenge,
                element_shift: Option::Some(idx),
                constant_shift: Option::None,
            }),
    {
        RawPointer::new(self.challenge, Some(idx), None)
    }
}

impl AirBuilder {
    /// A fresh uninitialized memory slice: draws the slice's pointer
    /// challenge.
    pub fn uninit_slice<T>(&mut self) -> (r: Slice<T>)
        requires
            old(self).next_challenge + 3 <= usize::MAX,
        ensures
            r.challenge.slice == (crate::register::MemorySlice {
                space: RegisterSpace::Challenge,
                start: old(self).next_challenge,
                len: 3,
            }),
            final(self).allocated(*old(self), RegisterSpace::Challenge, 3),
    {
        let challenge = self.alloc_challenge();
        Slice { challenge, element: core::marker::PhantomData }
    }

    /// A public register constrained to hold a fixed field constant.
    pub fn constant(&mut self, v: Fp) -> (r: ElementRegister)
        requires
            old(self).next_public + 1 <= usize::MAX,
            v.wf(),
        ensures
            r.slice == (crate::register::MemorySlice {
                space: RegisterSpace::Public,
                start: old(self).next_public,
                len: 1,
            }),
            final(self).next_public == old(self).next_public + 1,
            final(self).next_trace == old(self).next_trace,
            final(self).next_global == old(self).next_global,
            final(self).next_challenge == old(self).next_challenge,
            final(self).same_memory(*old(self)),
            final(self).constraints@ == old(self).constraints@.push(Constraint::Const(r, v)),
    {
        let slice = self.allocate(RegisterSpace::Public, 1);
        let r = ElementRegister { slice };
        self.register_constraint(Constraint::Const(r, v));
        r
    }

    /// A public 64-bit register constrained, byte by byte, to hold a fixed
    /// constant.
    pub fn constant_u64(&mut self, v: u64) -> (r: crate::uint::ByteArrayRegister<8>)
        requires
            old(self).next_public + 8 <= usize::MAX,
        ensures
            r.0 == (crate::register::MemorySlice {
                space: RegisterSpace::Public,
                start: old(self).next_public,
                len: 8,
            }),
            final(self).next_public == old(self).next_public + 8,
            final(self).next_trace == old(self).next_trace,
            final(self).next_global == old(self).next_global,
            final(self).next_challenge == old(self).next_challenge,
            final(self).same_memory(*old(self)),
            final(self).constraints@.len() == old(self).constraints@.len() + 8,
            forall|k: int|
                0 <= k < old(self).constraints@.len() ==> final(self).constraints@[k] == old(
                    self,
                ).constraints@[k],
            forall|i: int|
                0 <= i < 8 ==> #[trigger] final(self).constraints@[old(self).constraints@.len()
                    + i] == Constraint::Const(
                    ElementRegister {
                        slice: crate::register::MemorySlice {
                            space: RegisterSpace::Public,
                            start: (old(self).next_public + i) as usize,
                            len: 1,
                        },
                    },
                    Fp { v: (v >> ((8 * i) as u64)) & 0xff },
                ),
    {
        let start = self.next_public;
        let mut i: usize = 0;
        while i < 8
            invariant
                start == old(self).next_public,
                start + 8 <= usize::MAX,
                i <= 8,
                self.next_public == start + i,
                self.next_trace == old(self).next_trace,
                self.next_global == old(self).next_global,
                self.next_challenge == old(self).next_challenge,
                self.same_memory(*old(self)),
                self.constraints@.len() == old(self).constraints@.len() + i,
                forall|k: int|
                    0 <= k < old(self).constraints@.len() ==> self.constraints@[k] == old(
                        self,
                    ).constraints@[k],
                forall|k: int|
                    0 <= k < i ==> #[trigger] self.constraints@[old(self).constraints@.len() + k]
                        == Constraint::Const(
                        ElementRegister {
                            slice: crate::register::MemorySlice {
                                space: RegisterSpace::Public,
                                start: (start + k) as usize,
                                len: 1,
                            },
                        },
                        Fp { v: (v >> ((8 * k) as u64)) & 0xff },
                    ),
            decreases 8 - i,
        {
            let byte: u64 = (v >> ((8 * i) as u64)) & 0xff;
            let slice = self.allocate(RegisterSpace::Public, 1);
            let reg = ElementRegister { slice };
            self.register_constraint(Constraint::Const(reg, Fp { v: byte }));
            i = i + 1;
        }
        crate::uint::ByteArrayRegister(
            crate::register::MemorySlice { space: RegisterSpace::Public, start, len: 8 },
        )
    }

    /// Stores a value at a pointer and timestamp: the encoded digest joins
    /// the looked-up side of the memory table, with the given multiplicity
    /// (one store serves that many loads; a missing multiplicity means
    /// exactly one).
    pub fn store(
        &mut self,
        ptr: &RawPointer,
        value: ElementRegister,
        time: &Time,
        multiplicity: Option<ElementRegister>,
    ) -> (digest: CubicRegister)
        requires
            old(self).next_trace + 3 <= usize::MAX,
            old(self).next_global + 3 <= usize::MAX,
            multiplicity is None ==> old(self).next_public + 1 <= usize::MAX,
        ensures
            final(self).mem_looking == old(self).mem_looking,
            final(self).mem_looked_up@ == old(self).mem_looked_up@.push(digest),
            final(self).mem_multiplicities@.len() == old(self).mem_multiplicities@.len() + 1,
            multiplicity matches Some(m) ==> final(self).mem_multiplicities@.last() == m,
            final(self).constraints@.len() >= old(self).constraints@.len() + 1,
            ({
                let c = final(self).constraints@.last();
                &&& c matches Constraint::Accumulation(acc)
                &&& acc.ptr == *ptr
                &&& acc.digest == digest
                &&& acc.value matches crate::accumulate::CompressedValue::Element(e)
                &&& forall|env: EnvView|
                    #[trigger] expr_eval(e, env) == fadd(
                        elem_val(value, env),
                        fmul(0x1_0000_0000, time_val(*time, env)),
                    )
                &&& forall|env: EnvView|
                    slice_in_env(value.slice, env) && value.slice.len == 1 && time_wf(*time, env)
                        ==> #[trigger] expr_wf(e, env)
            }),
    {
        let mult = match multiplicity {
            Some(m) => m,
            None => self.constant(Fp::one()),
        };
        let two_32 = Fp { v: 0x1_0000_0000 };
        let e = value.expr().add(ArithmeticExpression::from_constant(two_32).mul(time.expr()));
        let ghost ge = e;
        let ghost gmul = match ge {
            ArithmeticExpression::Add(_, m4) => *m4,
            _ => ge,
        };
        let ghost gtime_expr = match gmul {
            ArithmeticExpression::Mul(_, t) => *t,
            _ => ge,
        };
        proof {
            assert forall|env: EnvView| #[trigger] expr_eval(ge, env) == fadd(
                elem_val(value, env),
                fmul(0x1_0000_0000, time_val(*time, env)),
            ) by {
                assert(expr_eval(ArithmeticExpression::Reg(value), env) == elem_val(value, env));
                assert(expr_eval(
                    ArithmeticExpression::Const(Fp { v: 0x1_0000_0000 }),
                    env,
                ) == 0x1_0000_0000);
                assert(expr_eval(gtime_expr, env) == time_val(*time, env));
                assert(expr_eval(gmul, env) == fmul(0x1_0000_0000, time_val(*time, env)));
            }
            assert forall|env: EnvView|
                slice_in_env(value.slice, env) && value.slice.len == 1 && time_wf(*time, env)
                    implies #[trigger] expr_wf(ge, env) by {
                assert(expr_wf(ArithmeticExpression::Reg(value), env));
                assert(expr_wf(ArithmeticExpression::Const(Fp { v: 0x1_0000_0000 }), env));
                assert(expr_wf(gtime_expr, env));
                assert(expr_wf(gmul, env));
            }
        }
        let digest = ptr.accumulate(self, e);
        self.mem_looked_up.push(digest);
        self.mem_multiplicities.push(mult);
        digest
    }

    /// Loads the value at a pointer and timestamp: the digest of the value
    /// register that receives the result joins the looking side of the
    /// memory table, so the read must match some prior store.
    pub fn load(&mut self, ptr: &RawPointer, value: ElementRegister, time: &Time) -> (digest:
        CubicRegister)
        requires
            old(self).next_trace + 3 <= usize::MAX,
            old(self).next_global + 3 <= usize::MAX,
        ensures
            final(self).mem_looked_up == old(self).mem_looked_up,
            final(self).mem_multiplicities == old(self).mem_multiplicities,
            final(self).mem_looking@ == old(self).mem_looking@.push(digest),
            final(self).constraints@.len() == old(self).constraints@.len() + 1,
            ({
                let c = final(self).constraints@.last();
                &&& c matches Constraint::Accumulation(acc)
                &&& acc.ptr == *ptr
                &&& acc.digest == digest
                &&& acc.value matches crate::accumulate::CompressedValue::Element(e)
                &&& forall|env: EnvView|
                    #[trigger] expr_eval(e, env) == fadd(
                        elem_val(value, env),
                        fmul(0x1_0000_0000, time_val(*time, env)),
                    )
                &&& forall|env: EnvView|
                    slice_in_env(value.slice, env) && value.slice.len == 1 && time_wf(*time, env)
                        ==> #[trigger] expr_wf(e, env)
            }),
    {
        let two_32 = Fp { v: 0x1_0000_0000 };
        let e = value.expr().add(ArithmeticExpression::from_constant(two_32).mul(time.expr()));
        let ghost ge = e;
        let ghost gmul = match ge {
            ArithmeticExpression::Add(_, m4) => *m4,
            _ => ge,
        };
        let ghost gtime_expr = match gmul {
            ArithmeticExpression::Mul(_, t) => *t,
            _ => ge,
        };
        proof {
            assert forall|env: EnvView| #[trigger] expr_eval(ge, env) == fadd(
                elem_val(value, env),
                fmul(0x1_0000_0000, time_val(*time, env)),
            ) by {
                assert(expr_eval(ArithmeticExpression::Reg(value), env) == elem_val(value, env));
                assert(expr_eval(
                    ArithmeticExpression::Const(Fp { v: 0x1_0000_0000 }),
                    env,
                ) == 0x1_0000_0000);
                assert(expr_eval(gtime_expr, env) == time_val(*time, env));
                assert(expr_eval(gmul, env) == fmul(0x1_0000_0000, time_val(*time, env)));
            }
            assert forall|env: EnvView|
                slice_in_env(value.slice, env) && value.slice.len == 1 && time_wf(*time, env)
                    implies #[trigger] expr_wf(ge, env) by {
                assert(expr_wf(ArithmeticExpression::Reg(value), env));
                assert(expr_wf(ArithmeticExpression::Const(Fp { v: 0x1_0000_0000 }), env));
                assert(expr_wf(gtime_expr, env));
                assert(expr_wf(gmul, env));
            }
        }
        let digest = ptr.accumulate(self, e);
        self.mem_looking.push(digest);
        digest
    }

    /// Stores a 64-bit value at a pointer and timestamp, through the
    /// extension-valued accumulation path; the digest joins the looked-up
    /// side with the given multiplicity.
    pub fn store_u64(
        &mut self,
        ptr: &RawPointer,
        value: crate::uint::ByteArrayRegister<8>,
        time: &Time,
        multiplicity: Option<ElementRegister>,
    ) -> (digest: CubicRegister)
        requires
            old(self).next_trace + 3 <= usize::MAX,
            old(self).next_global + 3 <= usize::MAX,
            multiplicity is None ==> old(self).next_public + 1 <= usize::MAX,
            value.0.len == 8,
            value.0.start + 8 <= usize::MAX,
        ensures
            final(self).mem_looking == old(self).mem_looking,
            final(self).mem_looked_up@ == old(self).mem_looked_up@.push(digest),
            final(self).mem_multiplicities@.len() == old(self).mem_multiplicities@.len() + 1,
            forall|k: int|
                0 <= k < old(self).mem_multiplicities@.len()
                    ==> #[trigger] final(self).mem_multiplicities@[k]
                    == old(self).mem_multiplicities@[k],
            multiplicity matches Some(m) ==> final(self).mem_multiplicities@.last() == m,
            final(self).next_trace + final(self).next_global == old(self).next_trace + old(
                self,
            ).next_global + 3,
            final(self).next_challenge == old(self).next_challenge,
            multiplicity is Some ==> final(self).next_public == old(self).next_public,
            final(self).next_public <= old(self).next_public + 1,
            forall|k: int|
                0 <= k < old(self).constraints@.len() ==> #[trigger] final(self).constraints@[k]
                    == old(self).constraints@[k],
            final(self).constraints@.len() > old(self).constraints@.len(),
            ({
                let c = final(self).constraints@.last();
                &&& c matches Constraint::Accumulation(acc)
                &&& acc.ptr == *ptr
                &&& acc.digest == digest
            }),
    {
        let mult = match multiplicity {
            Some(m) => m,
            None => self.constant(Fp::one()),
        };
        let digest = value.compress(self, *ptr, time);
        proof {
            assert forall|k: int| 0 <= k < old(self).constraints@.len() implies #[trigger] self
                .constraints@[k] == old(self).constraints@[k] by {
                assert(self.constraints@.drop_last()[k] == self.constraints@[k]);
            }
        }
        self.mem_looked_up.push(digest);
        self.mem_multiplicities.push(mult);
        digest
    }

    /// Loads a 64-bit value at a pointer and timestamp: the digest of the
    /// receiving register joins the looking side.
    pub fn load_u64(
        &mut self,
        ptr: &RawPointer,
        value: crate::uint::ByteArrayRegister<8>,
        time: &Time,
    ) -> (digest: CubicRegister)
        requires
            old(self).next_trace + 3 <= usize::MAX,
            old(self).next_global + 3 <= usize::MAX,
            value.0.len == 8,
            value.0.start + 8 <= usize::MAX,
        ensures
            final(self).mem_looked_up == old(self).mem_looked_up,
            final(self).mem_multiplicities == old(self).mem_multiplicities,
            final(self).mem_looking@ == old(self).mem_looking@.push(digest),
            final(self).next_trace + final(self).next_global == old(self).next_trace + old(
                self,
            ).next_global + 3,
            final(self).next_public == old(self).next_public,
            final(self).next_challenge == old(self).next_challenge,
            ({
                let c = final(self).constraints@.last();
                &&& c matches Constraint::Accumulation(acc)
                &&& acc.ptr == *ptr
                &&& acc.digest == digest
            }),
    {
        let digest = value.compress(self, *ptr, time);
        self.mem_looking.push(digest);
        digest
    }

    /// Closes the memory table: allocates the post-commitment challenge,
    /// one aux register per digest on either side, and the running-sum
    /// register, and registers the lookup constraint binding the looking
    /// digests against the looked-up digests with their multiplicities.
    pub fn register_memory_lookup(&mut self)
        requires
            old(self).next_challenge + 3 <= usize::MAX,
            old(self).next_trace + 3 * old(self).mem_looking@.len() + 3 * old(
                self,
            ).mem_looked_up@.len() + 3 <= usize::MAX,
            old(self).mem_looked_up@.len() == old(self).mem_multiplicities@.len(),
        ensures
            final(self).constraints@.len() == old(self).constraints@.len() + 1,
            ({
                let c = final(self).constraints@.last();
                &&& c matches Constraint::Lookup(LookupChipConstraint::CubicElement(lc))
                &&& lc.looking@ == old(self).mem_looking@
                &&& lc.looked_up@ == old(self).mem_looked_up@
                &&& lc.multiplicities@ == old(self).mem_multiplicities@
                &&& lc.looking_aux@.len() == lc.looking@.len()
                &&& lc.looked_up_aux@.len() == lc.looked_up@.len()
            }),
    {
        let challenge = self.alloc_challenge();
        let mut looking: Vec<CubicRegister> = Vec::new();
        let mut looking_aux: Vec<CubicRegister> = Vec::new();
        let mut i: usize = 0;
        let n_looking = self.mem_looking.len();
        let n_looked = self.mem_looked_up.len();
        while i < n_looking
            invariant
                i <= n_looking,
                n_looking == self.mem_looking@.len(),
                n_looked == self.mem_looked_up@.len(),
                self.constraints == old(self).constraints,
                self.same_memory(*old(self)),
                self.next_trace + 3 * (n_looking - i) + 3 * n_looked + 3 <= usize::MAX,
                looking@ == self.mem_looking@.take(i as int),
                looking_aux@.len() == i,
            decreases n_looking - i,
        {
            proof {
                assert(self.mem_looking@.take(i + 1) =~= self.mem_looking@.take(i as int).push(
                    self.mem_looking@[i as int],
                ));
            }
            looking.push(self.mem_looking[i]);
            looking_aux.push(self.alloc_extended());
            i = i + 1;
        }
        proof {
            assert(self.mem_looking@.take(n_looking as int) =~= self.mem_looking@);
        }
        let mut looked_up: Vec<CubicRegister> = Vec::new();
        let mut multiplicities: Vec<ElementRegister> = Vec::new();
        let mut looked_up_aux: Vec<CubicRegister> = Vec::new();
        let mut j: usize = 0;
        while j < n_looked
            invariant
                j <= n_looked,
                n_looked == self.mem_looked_up@.len(),
                self.mem_looked_up@.len() == self.mem_multiplicities@.len(),
                self.constraints == old(self).constraints,
                self.same_memory(*old(self)),
                self.next_trace + 3 * (n_looked - j) + 3 <= usize::MAX,
                looked_up@ == self.mem_looked_up@.take(j as int),
                multiplicities@ == self.mem_multiplicities@.take(j as int),
                looked_up_aux@.len() == j,
            decreases n_looked - j,
        {
            proof {
                assert(self.mem_looked_up@.take(j + 1) =~= self.mem_looked_up@.take(
                    j as int,
                ).push(self.mem_looked_up@[j as int]));
                assert(self.mem_multiplicities@.take(j + 1) =~= self.mem_multiplicities@.take(
                    j as int,
                ).push(self.mem_multiplicities@[j as int]));
            }
            looked_up.push(self.mem_looked_up[j]);
            multiplicities.push(self.mem_multiplicities[j]);
            looked_up_aux.push(self.alloc_extended());
            j = j + 1;
        }
        proof {
            assert(self.mem_looked_up@.take(n_looked as int) =~= self.mem_looked_up@);
            assert(self.mem_multiplicities@.take(n_looked as int) =~= self.mem_multiplicities@);
        }
        let running_sum = self.alloc_extended();
        let lc = LookupConstraint {
            challenge,
            looking,
            looking_aux,
            looked_up,
            multiplicities,
            looked_up_aux,
            running_sum,
        };
        self.register_constraint(Constraint::Lookup(LookupChipConstraint::CubicElement(lc)));
    }
}

} // verus!
