use curta::blake2b_data::BLAKE2BAir;
use curta::builder::{AirBuilder, Constraint};
use curta::register::{ArrayRegister, MemorySlice, RegisterSerializable, RegisterSpace};
use curta::uint::{ByteArrayRegister, U64Register};

#[test]
fn test_byte_array_register() {
    let mut builder = AirBuilder::new();

    const N: usize = 8;
    const M: usize = 4;

    let a = builder.alloc_byte_array::<N>();

    let a_as_limbs = a.to_le_limbs::<M>();

    let b = ByteArrayRegister::<N>::from_limbs(&a_as_limbs);

    builder.assert_equal(&a, &b);
}

#[test]
fn test_byte_array_round_trip_is_identity() {
    let mut builder = AirBuilder::new();
    let a = builder.alloc_byte_array::<8>();
    let limbs = a.to_le_limbs::<4>();
    let b = ByteArrayRegister::<8>::from_limbs(&limbs);
    assert_eq!(a.0, b.0);
    match &builder.constraints[..] {
        [] => {}
        _ => panic!("no constraint expected before assert_equal"),
    }
    builder.assert_equal(&a, &b);
    assert_eq!(builder.constraints.len(), 1);
    match &builder.constraints[0] {
        Constraint::Equal(sa, sb) => {
            assert_eq!(sa, sb);
        }
        _ => panic!("expected an equality constraint"),
    }
}

#[test]
fn test_builder_allocation_spaces() {
    let mut builder = AirBuilder::new();
    let e = builder.alloc_element();
    assert_eq!(e.slice.space, RegisterSpace::Trace);
    assert_eq!(e.slice.start, 0);
    assert_eq!(e.slice.len, 1);
    let x = builder.alloc_extended();
    assert_eq!(x.slice.space, RegisterSpace::Trace);
    assert_eq!(x.slice.start, 1);
    assert_eq!(x.slice.len, 3);
    let g = builder.alloc_global();
    assert_eq!(g.slice.space, RegisterSpace::Global);
    assert_eq!(g.slice.start, 0);
    let c = builder.alloc_challenge();
    assert_eq!(c.slice.space, RegisterSpace::Challenge);
    assert_eq!(c.slice.start, 0);
    assert_eq!(builder.next_trace, 4);
}

#[test]
fn test_array_register_get() {
    let mut builder = AirBuilder::new();
    let a = builder.alloc_byte_array::<8>();
    let bytes = a.to_le_bytes();
    let b0 = bytes.get(0);
    let b5 = bytes.get(5);
    assert_eq!(b0.register().start, 0);
    assert_eq!(b5.register().start, 5);
    assert_eq!(b5.register().len, 1);
}

#[test]
fn test_blake2b_memory_seeds_only_stores() {
    let mut builder = AirBuilder::new();
    let consts = BLAKE2BAir::blake2b_const_nums(&mut builder);
    // One pinning constraint per scalar constant, eight per 64-bit one.
    assert_eq!(builder.constraints.len(), 24);
    match &builder.constraints[7] {
        Constraint::Const(reg, value) => {
            assert_eq!(*reg, consts.const_96);
            assert_eq!(value.v, 96);
        }
        _ => panic!("expected a constant constraint"),
    }
    match &builder.constraints[16] {
        Constraint::Const(reg, value) => {
            assert_eq!(reg.slice.start, consts.const_ffffffffffffffff.0.start);
            assert_eq!(value.v, 0xff);
        }
        _ => panic!("expected a constant constraint"),
    }
    let num_messages = builder.alloc_element();
    let num_compresses = builder.alloc_element();
    let chunk: ArrayRegister<U64Register> = ArrayRegister {
        slice: MemorySlice { space: RegisterSpace::Public, start: 100, len: 128 },
        element: core::marker::PhantomData,
    };
    let t_values: ArrayRegister<U64Register> = ArrayRegister {
        slice: MemorySlice { space: RegisterSpace::Public, start: 228, len: 8 },
        element: core::marker::PhantomData,
    };
    let padded_chunks = vec![chunk];
    let memory = BLAKE2BAir::blake2b_memory(
        &mut builder,
        &padded_chunks,
        &t_values,
        &consts,
        num_messages,
        num_compresses,
    );
    // 8 state cells, 1 dummy, 16 + 16 work-vector cells, 16 message words,
    // 1 byte counter: every access is a store.
    assert_eq!(builder.mem_looked_up.len(), 58);
    assert_eq!(builder.mem_multiplicities.len(), 58);
    assert!(builder.mem_looking.is_empty());
    assert_ne!(memory.h.challenge, memory.v.challenge);
}
