use curta::air::{MemoryAir, RAir, RAirData, RoundDatum};
use curta::builder::AirBuilder;
use curta::cubic::CubicValue;
use curta::field::Fp;
use curta::pointer::Time;
use curta::register::ElementRegister;
use curta::trace::AirParser;
use curta::uint::encode_u32;

fn cubic(a: u64, b: u64, c: u64) -> CubicValue {
    CubicValue { c0: Fp::from_u64(a), c1: Fp::from_u64(b), c2: Fp::from_u64(c) }
}

fn digest_of(addr: CubicValue, value: CubicValue) -> CubicValue {
    addr.mul(value).add(value)
}

#[test]
fn test_round_datum_accessors() {
    let d = RoundDatum::new(10, (2, 7), 3);
    assert_eq!(d.num_columns, 10);
    assert_eq!(d.global_values_range, (2, 7));
    assert_eq!(d.num_challenges, 3);
}

#[test]
fn test_air_data_shape() {
    let mut builder = AirBuilder::new();
    let _a = builder.alloc_extended();
    let _g = builder.alloc_global();
    let _c = builder.alloc_challenge();
    let air = MemoryAir::from_builder(builder, 4);
    assert_eq!(air.width(), 3);
    assert_eq!(air.num_public_inputs(), 4);
    assert_eq!(air.num_rounds(), 1);
    assert_eq!(air.num_columns(), 3);
    assert_eq!(air.num_global_values(), 3);
    // Constraint degree three gives quotient degree factor two.
    assert_eq!(air.constraint_degree(), 3);
    assert_eq!(air.quotient_degree_factor(), 2);
}

/// End-to-end scenario: one store of 42 at a slice cell at time zero and
/// one load of the same cell at the same time.  An honestly filled row
/// satisfies every emitted constraint, and the global lookup total
/// vanishes.
#[test]
fn test_store_load_air_accepts_honest_trace() {
    let mut builder = AirBuilder::new();
    let h: curta::memory::Slice<ElementRegister> = builder.uninit_slice();
    let value_store = builder.alloc_element();
    let ptr = h.get(0);
    let _store_digest = builder.store(&ptr, value_store, &Time::zero(), None);
    let value_load = builder.alloc_element();
    let _load_digest = builder.load(&ptr, value_load, &Time::zero());
    builder.register_memory_lookup();
    let air = MemoryAir::from_builder(builder, 0);
    assert_eq!(air.width, 17);
    assert_eq!(air.num_challenges, 6);

    // Honest witness values.
    let ch = cubic(123456, 654321, 777);
    let beta = cubic(31337, 4242, 99991);
    let value = CubicValue::from_base(encode_u32(42, 0));
    let addr = ch;  // zero shift
    let digest = digest_of(addr, value);
    let aux = beta.sub(digest).try_inverse().expect("challenge misses the digest");
    let forty_two = Fp::from_u64(42);
    let zero = Fp::zero();

    let mut row: Vec<Fp> = Vec::new();
    row.push(forty_two);  // stored value
    row.push(digest.c0);
    row.push(digest.c1);
    row.push(digest.c2);
    row.push(forty_two);  // loaded value
    row.push(digest.c0);
    row.push(digest.c1);
    row.push(digest.c2);
    row.push(aux.c0);  // looking aux
    row.push(aux.c1);
    row.push(aux.c2);
    row.push(aux.c0);  // looked-up aux
    row.push(aux.c1);
    row.push(aux.c2);
    row.push(zero);  // running sum: the row terms cancel
    row.push(zero);
    row.push(zero);
    assert_eq!(row.len(), 17);

    let challenges = vec![ch.c0, ch.c1, ch.c2, beta.c0, beta.c1, beta.c2];
    let mut parser = AirParser {
        local: row.clone(),
        next: row.clone(),
        global: vec![],
        public_inputs: vec![Fp::one()],
        challenges: challenges.clone(),
        emitted: vec![],
    };
    air.eval(&mut parser);
    assert!(!parser.emitted.is_empty());
    for residue in parser.emitted.iter() {
        assert_eq!(*residue, CubicValue::zero());
    }

    let mut global_parser = AirParser {
        local: row.clone(),
        next: row.clone(),
        global: vec![],
        public_inputs: vec![Fp::one()],
        challenges,
        emitted: vec![],
    };
    air.eval_global(&mut global_parser);
    assert_eq!(global_parser.emitted.len(), 1);
    assert_eq!(global_parser.emitted[0], CubicValue::zero());
}

/// The same circuit rejects a row whose load carries the wrong value: at
/// least one emitted residue is non-zero.
#[test]
fn test_store_load_air_rejects_wrong_value() {
    let mut builder = AirBuilder::new();
    let h: curta::memory::Slice<ElementRegister> = builder.uninit_slice();
    let value_store = builder.alloc_element();
    let ptr = h.get(0);
    builder.store(&ptr, value_store, &Time::zero(), None);
    let value_load = builder.alloc_element();
    builder.load(&ptr, value_load, &Time::zero());
    builder.register_memory_lookup();
    let air = MemoryAir::from_builder(builder, 0);

    let ch = cubic(123456, 654321, 777);
    let beta = cubic(31337, 4242, 99991);
    let value = CubicValue::from_base(encode_u32(42, 0));
    let digest = digest_of(ch, value);
    let aux = beta.sub(digest).try_inverse().expect("challenge misses the digest");

    let mut row: Vec<Fp> = Vec::new();
    row.push(Fp::from_u64(42));
    row.push(digest.c0);
    row.push(digest.c1);
    row.push(digest.c2);
    row.push(Fp::from_u64(41));  // the load claims a different value
    row.push(digest.c0);
    row.push(digest.c1);
    row.push(digest.c2);
    row.push(aux.c0);
    row.push(aux.c1);
    row.push(aux.c2);
    row.push(aux.c0);
    row.push(aux.c1);
    row.push(aux.c2);
    row.push(Fp::zero());
    row.push(Fp::zero());
    row.push(Fp::zero());

    let mut parser = AirParser {
        local: row.clone(),
        next: row.clone(),
        global: vec![],
        public_inputs: vec![Fp::one()],
        challenges: vec![ch.c0, ch.c1, ch.c2, beta.c0, beta.c1, beta.c2],
        emitted: vec![],
    };
    air.eval(&mut parser);
    assert!(parser.emitted.iter().any(|r| *r != CubicValue::zero()));
}

/// End-to-end scenario with the extension-valued digest path: a 64-bit
/// store and matching load at one cell, honest rows, all constraints
/// satisfied and the global total zero.
#[test]
fn test_u64_store_load_air_accepts_honest_trace() {
    let mut builder = AirBuilder::new();
    let h: curta::memory::Slice<curta::uint::U64Register> = builder.uninit_slice();
    let value_store = builder.alloc_byte_array::<8>();
    let ptr = h.get(0);
    builder.store_u64(&ptr, value_store, &Time::zero(), None);
    let value_load = builder.alloc_byte_array::<8>();
    builder.load_u64(&ptr, value_load, &Time::zero());
    builder.register_memory_lookup();
    let air = MemoryAir::from_builder(builder, 0);
    assert_eq!(air.width, 31);

    let word: u64 = 0xdead_beef_cafe_babe;
    let bytes = word.to_le_bytes();
    let lo = (word & 0xffff_ffff) as u64;
    let hi = word >> 32;
    let ch = cubic(5550123, 777888, 999000);
    let beta = cubic(86753, 309, 42424242);
    let value = cubic(lo, hi, 0);
    let digest = digest_of(ch, value);
    let aux = beta.sub(digest).try_inverse().expect("challenge misses the digest");

    let mut row: Vec<Fp> = Vec::new();
    for b in bytes.iter() {
        row.push(Fp::from_u64(*b as u64));
    }
    row.push(digest.c0);
    row.push(digest.c1);
    row.push(digest.c2);
    for b in bytes.iter() {
        row.push(Fp::from_u64(*b as u64));
    }
    row.push(digest.c0);
    row.push(digest.c1);
    row.push(digest.c2);
    row.push(aux.c0);
    row.push(aux.c1);
    row.push(aux.c2);
    row.push(aux.c0);
    row.push(aux.c1);
    row.push(aux.c2);
    row.push(Fp::zero());
    row.push(Fp::zero());
    row.push(Fp::zero());
    assert_eq!(row.len(), 31);

    let mut parser = AirParser {
        local: row.clone(),
        next: row.clone(),
        global: vec![],
        public_inputs: vec![Fp::one()],
        challenges: vec![ch.c0, ch.c1, ch.c2, beta.c0, beta.c1, beta.c2],
        emitted: vec![],
    };
    air.eval(&mut parser);
    assert!(!parser.emitted.is_empty());
    for residue in parser.emitted.iter() {
        assert_eq!(*residue, CubicValue::zero());
    }
}
