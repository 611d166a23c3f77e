//! Registers: typed windows onto the cells of a trace row, the global
//! values, the public inputs, or the challenge values.
//!
//! A register is nothing but a slice descriptor; all storage lives in the
//! trace writer or the evaluation context.  Registers in the trace space are
//! recomputed per row; registers in the global space hold one value per
//! proof; challenge registers are drawn after commitment.

use vstd::prelude::*;

verus! {

/// Which storage a register's cells live in.
#[derive(Clone, Copy, PartialEq, Eq, Structural, Debug)]
pub enum RegisterSpace {
    /// Row-local storage, one value per trace row.
    Trace,
    /// Once-per-proof storage for values independent of the trace.
    Global,
    /// Public inputs.
    Public,
    /// Post-commitment random challenges.
    Challenge,
}

/// A contiguous run of cells in one storage space.
#[derive(Clone, Copy, PartialEq, Eq, Structural, Debug)]
pub struct MemorySlice {
    pub space: RegisterSpace,
    pub start: usize,
    pub len: usize,
}

/// A register holding a single base-field element.
#[derive(Clone, Copy, PartialEq, Eq, Structural, Debug)]
pub struct ElementRegister {
    pub slice: MemorySlice,
}

/// A register holding one extension element as three consecutive cells.
#[derive(Clone, Copy, PartialEq, Eq, Structural, Debug)]
pub struct CubicRegister {
    pub slice: MemorySlice,
}

/// A register holding a single cell constrained to zero or one.
#[derive(Clone, Copy, PartialEq, Eq, Structural, Debug)]
pub struct BitRegister {
    pub slice: MemorySlice,
}

/// A register holding one byte in a single cell.
#[derive(Clone, Copy, PartialEq, Eq, Structural, Debug)]
pub struct ByteRegister {
    pub slice: MemorySlice,
}

/// Register types that are (de)serialized as a plain memory slice.
pub trait RegisterSerializable: Sized {
    /// The slice this register stands on.
    spec fn spec_register(self) -> MemorySlice;

    /// The slice this register stands on.
    fn register(&self) -> (r: &MemorySlice)
        ensures
            *r == self.spec_register(),
    ;

    /// Rewraps a slice as this register type without checking its length;
    /// callers are responsible for handing in a slice of the right size.
    fn from_register_unsafe(slice: MemorySlice) -> (r: Self)
        ensures
            r.spec_register() == slice,
    ;
}

/// Register types of a statically known cell count.
pub trait RegisterSized {
    /// Number of cells the register occupies.
    spec fn spec_size() -> usize;

    /// Number of cells the register occupies.
    fn size_of() -> (n: usize)
        ensures
            n == Self::spec_size(),
    ;
}

impl RegisterSerializable for ElementRegister {
    open spec fn spec_register(self) -> MemorySlice {
        self.slice
    }

    fn register(&self) -> (r: &MemorySlice) {
        &self.slice
    }

    fn from_register_unsafe(slice: MemorySlice) -> (r: Self) {
        ElementRegister { slice }
    }
}

impl RegisterSized for ElementRegister {
    open spec fn spec_size() -> usize {
        1
    }

    fn size_of() -> (n: usize) {
        1
    }
}

impl RegisterSerializable for CubicRegister {
    open spec fn spec_register(self) -> MemorySlice {
        self.slice
    }

    fn register(&self) -> (r: &MemorySlice) {
        &self.slice
    }

    fn from_register_unsafe(slice: MemorySlice) -> (r: Self) {
        CubicRegister { slice }
    }
}

impl RegisterSized for CubicRegister {
    open spec fn spec_size() -> usize {
        3
    }

    fn size_of() -> (n: usize) {
        3
    }
}

impl RegisterSerializable for BitRegister {
    open spec fn spec_register(self) -> MemorySlice {
        self.slice
    }

    fn register(&self) -> (r: &MemorySlice) {
        &self.slice
    }

    fn from_register_unsafe(slice: MemorySlice) -> (r: Self) {
        BitRegister { slice }
    }
}

impl RegisterSized for BitRegister {
    open spec fn spec_size() -> usize {
        1
    }

    fn size_of() -> (n: usize) {
        1
    }
}

impl RegisterSerializable for ByteRegister {
    open spec fn spec_register(self) -> MemorySlice {
        self.slice
    }

    fn register(&self) -> (r: &MemorySlice) {
        &self.slice
    }

    fn from_register_unsafe(slice: MemorySlice) -> (r: Self) {
        ByteRegister { slice }
    }
}

impl RegisterSized for ByteRegister {
    open spec fn spec_size() -> usize {
        1
    }

    fn size_of() -> (n: usize) {
        1
    }
}

/// A register holding a run of same-typed registers back to back.
#[derive(PartialEq, Eq, Structural, Debug)]
pub struct ArrayRegister<T> {
    pub slice: MemorySlice,
    pub element: core::marker::PhantomData<T>,
}

impl<T> RegisterSerializable for ArrayRegister<T> {
    open spec fn spec_register(self) -> MemorySlice {
        self.slice
    }

    fn register(&self) -> (r: &MemorySlice) {
        &self.slice
    }

    fn from_register_unsafe(slice: MemorySlice) -> (r: Self) {
        ArrayRegister { slice, element: core::marker::PhantomData }
    }
}

impl<T: RegisterSerializable + RegisterSized> ArrayRegister<T> {
    /// How many element registers fit in this array register.
    pub fn len(&self) -> (n: usize)
        requires
            T::spec_size() > 0,
        ensures
            n == self.slice.len / T::spec_size(),
    {
        self.slice.len / T::size_of()
    }

    /// The `i`-th element register of the array.
    pub fn get(&self, i: usize) -> (r: T)
        requires
            T::spec_size() > 0,
            i < self.slice.len / T::spec_size(),
            self.slice.start + self.slice.len <= usize::MAX,
        ensures
            r.spec_register() == (MemorySlice {
                space: self.slice.space,
                start: (self.slice.start + i * T::spec_size()) as usize,
                len: T::spec_size(),
            }),
    {
        let size = T::size_of();
        proof {
            vstd::arithmetic::mul::lemma_mul_is_commutative(i as int, size as int);
            vstd::arithmetic::div_mod::lemma_fundamental_div_mod(self.slice.len as int, size as int);
            vstd::arithmetic::div_mod::lemma_mod_bound(self.slice.len as int, size as int);
            vstd::arithmetic::mul::lemma_mul_inequality(
                i as int + 1,
                (self.slice.len / size) as int,
                size as int,
            );
            vstd::arithmetic::mul::lemma_mul_is_distributive_add_other_way(
                size as int,
                i as int,
                1,
            );
        }
        let start = self.slice.start + i * size;
        T::from_register_unsafe(MemorySlice { space: self.slice.space, start, len: size })
    }
}

} // verus!
