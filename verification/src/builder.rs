//! The circuit builder: the exclusively owned, single-phase context that
//! allocates registers and collects constraints.
//!
//! Ownership of the finished constraint set transfers to the evaluation
//! phase when the build ends; nothing here is mutated afterwards.

use crate::accumulate::PointerAccumulator;
use crate::lookup::LookupChipConstraint;
use crate::register::{
    ArrayRegister, CubicRegister, ElementRegister, MemorySlice, RegisterSerializable,
    RegisterSized, RegisterSpace,
};
use vstd::prelude::*;

verus! {

/// One registered constraint.
#[derive(Debug)]
pub enum Constraint {
    /// A digest is the fold of a pointer's address and a compressed value.
    Accumulation(PointerAccumulator),
    /// A log-derivative lookup table.
    Lookup(LookupChipConstraint),
    /// Two register slices hold equal values.
    Equal(MemorySlice, MemorySlice),
    /// A register holds a fixed field constant.
    Const(ElementRegister, crate::field::Fp),
}

/// The build-phase allocator and constraint list, with the memory lookup
/// table under construction: every load appends its digest to the looking
/// side, every store to the looked-up side beside its multiplicity.
#[derive(Debug)]
pub struct AirBuilder {
    pub next_trace: usize,
    pub next_global: usize,
    pub next_public: usize,
    pub next_challenge: usize,
    pub constraints: Vec<Constraint>,
    pub mem_looking: Vec<CubicRegister>,
    pub mem_looked_up: Vec<CubicRegister>,
    pub mem_multiplicities: Vec<ElementRegister>,
}

impl AirBuilder {
    /// A fresh builder: no cells allocated, no constraints.
    pub fn new() -> (r: AirBuilder)
        ensures
            r.next_trace == 0,
            r.next_global == 0,
            r.next_public == 0,
            r.next_challenge == 0,
            r.constraints@.len() == 0,
            r.mem_looking@.len() == 0,
            r.mem_looked_up@.len() == 0,
            r.mem_multiplicities@.len() == 0,
    {
        AirBuilder {
            next_trace: 0,
            next_global: 0,
            next_public: 0,
            next_challenge: 0,
            constraints: Vec::new(),
            mem_looking: Vec::new(),
            mem_looked_up: Vec::new(),
            mem_multiplicities: Vec::new(),
        }
    }

    /// Only the named space's counter moved, by `len`, and the constraints
    /// are unchanged.
    pub open spec fn allocated(self, pre: AirBuilder, space: RegisterSpace, len: usize) -> bool {
        &&& self.constraints == pre.constraints
        &&& self.same_memory(pre)
        &&& self.next_trace == if space == RegisterSpace::Trace {
            pre.next_trace + len
        } else {
            pre.next_trace as int
        }
        &&& self.next_global == if space == RegisterSpace::Global {
            pre.next_global + len
        } else {
            pre.next_global as int
        }
        &&& self.next_public == if space == RegisterSpace::Public {
            pre.next_public + len
        } else {
            pre.next_public as int
        }
        &&& self.next_challenge == if space == RegisterSpace::Challenge {
            pre.next_challenge + len
        } else {
            pre.next_challenge as int
        }
    }

    /// The memory table under construction agrees with another builder's.
    pub open spec fn same_memory(self, other: AirBuilder) -> bool {
        &&& self.mem_looking == other.mem_looking
        &&& self.mem_looked_up == other.mem_looked_up
        &&& self.mem_multiplicities == other.mem_multiplicities
    }

    /// The space counters agree with another builder's.
    pub open spec fn same_counters(self, other: AirBuilder) -> bool {
        &&& self.next_trace == other.next_trace
        &&& self.next_global == other.next_global
        &&& self.next_public == other.next_public
        &&& self.next_challenge == other.next_challenge
    }

    /// The next free cell of a space.
    pub open spec fn spec_counter(self, space: RegisterSpace) -> usize {
        match space {
            RegisterSpace::Trace => self.next_trace,
            RegisterSpace::Global => self.next_global,
            RegisterSpace::Public => self.next_public,
            RegisterSpace::Challenge => self.next_challenge,
        }
    }

    /// Claims `len` fresh cells of one space.
    pub fn allocate(&mut self, space: RegisterSpace, len: usize) -> (r: MemorySlice)
        requires
            old(self).spec_counter(space) + len <= usize::MAX,
        ensures
            r.space == space,
            r.start == old(self).spec_counter(space),
            r.len == len,
            final(self).allocated(*old(self), space, len),
    {
        let start: usize = match space {
            RegisterSpace::Trace => {
                let s = self.next_trace;
                self.next_trace = s + len;
                s
            },
            RegisterSpace::Global => {
                let s = self.next_global;
                self.next_global = s + len;
                s
            },
            RegisterSpace::Public => {
                let s = self.next_public;
                self.next_public = s + len;
                s
            },
            RegisterSpace::Challenge => {
                let s = self.next_challenge;
                self.next_challenge = s + len;
                s
            },
        };
        MemorySlice { space, start, len }
    }

    /// Allocates a row-local extension register.
    pub fn alloc_extended(&mut self) -> (r: CubicRegister)
        requires
            old(self).next_trace + 3 <= usize::MAX,
        ensures
            r.slice == (MemorySlice {
                space: RegisterSpace::Trace,
                start: old(self).next_trace,
                len: 3,
            }),
            final(self).allocated(*old(self), RegisterSpace::Trace, 3),
    {
        let slice = self.allocate(RegisterSpace::Trace, 3);
        CubicRegister { slice }
    }

    /// Allocates a once-per-proof extension register.
    pub fn alloc_global(&mut self) -> (r: CubicRegister)
        requires
            old(self).next_global + 3 <= usize::MAX,
        ensures
            r.slice == (MemorySlice {
                space: RegisterSpace::Global,
                start: old(self).next_global,
                len: 3,
            }),
            final(self).allocated(*old(self), RegisterSpace::Global, 3),
    {
        let slice = self.allocate(RegisterSpace::Global, 3);
        CubicRegister { slice }
    }

    /// Allocates a row-local element register.
    pub fn alloc_element(&mut self) -> (r: ElementRegister)
        requires
            old(self).next_trace + 1 <= usize::MAX,
        ensures
            r.slice == (MemorySlice {
                space: RegisterSpace::Trace,
                start: old(self).next_trace,
                len: 1,
            }),
            final(self).allocated(*old(self), RegisterSpace::Trace, 1),
    {
        let slice = self.allocate(RegisterSpace::Trace, 1);
        ElementRegister { slice }
    }

    /// Allocates a post-commitment random challenge register.  Challenges
    /// must be drawn only after the columns they touch are committed; this
    /// core consumes that discipline, the surrounding driver enforces it.
    pub fn alloc_challenge(&mut self) -> (r: CubicRegister)
        requires
            old(self).next_challenge + 3 <= usize::MAX,
        ensures
            r.slice == (MemorySlice {
                space: RegisterSpace::Challenge,
                start: old(self).next_challenge,
                len: 3,
            }),
            final(self).allocated(*old(self), RegisterSpace::Challenge, 3),
    {
        let slice = self.allocate(RegisterSpace::Challenge, 3);
        CubicRegister { slice }
    }

    /// Allocates a row-local register of any statically sized type.
    pub fn alloc_register<T: RegisterSerializable + RegisterSized>(&mut self) -> (r: T)
        requires
            old(self).next_trace + T::spec_size() <= usize::MAX,
        ensures
            r.spec_register() == (MemorySlice {
                space: RegisterSpace::Trace,
                start: old(self).next_trace,
                len: T::spec_size(),
            }),
            final(self).allocated(*old(self), RegisterSpace::Trace, T::spec_size()),
    {
        let size = T::size_of();
        let slice = self.allocate(RegisterSpace::Trace, size);
        T::from_register_unsafe(slice)
    }

    /// Allocates a row-local array of `n` same-typed registers.
    pub fn alloc_array<T: RegisterSerializable + RegisterSized>(&mut self, n: usize) -> (r:
        ArrayRegister<T>)
        requires
            n * T::spec_size() <= usize::MAX,
            old(self).next_trace + n * T::spec_size() <= usize::MAX,
        ensures
            r.slice == (MemorySlice {
                space: RegisterSpace::Trace,
                start: old(self).next_trace,
                len: (n * T::spec_size()) as usize,
            }),
            final(self).allocated(*old(self), RegisterSpace::Trace, (n * T::spec_size()) as usize),
    {
        let size = T::size_of();
        let slice = self.allocate(RegisterSpace::Trace, n * size);
        ArrayRegister { slice, element: core::marker::PhantomData }
    }

    /// Allocates a row-local byte-array register of `N` cells.
    pub fn alloc_byte_array<const N: usize>(&mut self) -> (r: crate::uint::ByteArrayRegister<N>)
        requires
            old(self).next_trace + N <= usize::MAX,
        ensures
            r.0 == (MemorySlice {
                space: RegisterSpace::Trace,
                start: old(self).next_trace,
                len: N,
            }),
            final(self).allocated(*old(self), RegisterSpace::Trace, N),
    {
        let slice = self.allocate(RegisterSpace::Trace, N);
        crate::uint::ByteArrayRegister(slice)
    }

    /// Registers a constraint.
    pub fn register_constraint(&mut self, c: Constraint)
        ensures
            final(self).constraints@ == old(self).constraints@.push(c),
            final(self).same_counters(*old(self)),
            final(self).same_memory(*old(self)),
    {
        self.constraints.push(c);
    }

    /// Constrains two same-shaped registers to hold equal values.
    pub fn assert_equal<T: RegisterSerializable>(&mut self, a: &T, b: &T)
        ensures
            final(self).constraints@ == old(self).constraints@.push(
                Constraint::Equal(a.spec_register(), b.spec_register()),
            ),
            final(self).same_counters(*old(self)),
            final(self).same_memory(*old(self)),
    {
        let sa = a.register();
        let sb = b.register();
        self.register_constraint(Constraint::Equal(*sa, *sb));
    }
}

} // verus!
