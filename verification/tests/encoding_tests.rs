use curta::builder::{AirBuilder, Constraint};
use curta::pointer::{RawPointer, Time};
use curta::register::RegisterSpace;
use curta::uint::{decode_u32, encode_u32};

/// Round trip: encode then decode recovers the exact original pair.
#[test]
fn test_encode_round_trip() {
    let x = encode_u32(42, 7);
    assert_eq!(x.v, 42 + 7 * (1u64 << 32));
    assert_eq!(x.v, 30064771114);
    let (value, time) = decode_u32(x);
    assert_eq!(value, 42);
    assert_eq!(time, 7);
}

#[test]
fn test_encode_round_trip_edges() {
    let cases = [(0u32, 0u32), (u32::MAX, 0), (0, u32::MAX - 1), (u32::MAX, u32::MAX - 1)];
    for (v, t) in cases.iter() {
        let x = encode_u32(*v, *t);
        assert_eq!(decode_u32(x), (*v, *t));
    }
}

/// Value bits and timestamp bits never alias: encodings of colliding raw
/// bits at different times stay distinct.
#[test]
fn test_encoding_separates_time_from_value() {
    let a = encode_u32(42, 0);
    let b = encode_u32(42, 1);
    assert_ne!(a, b);
    let c = encode_u32(0, 1);
    let d = encode_u32(1, 0);
    assert_ne!(c, d);
}

/// The register-level compress routes its expression through the
/// pointer's accumulation entry point: exactly one accumulation
/// constraint appears and the digest register is row-local for a
/// trace-dependent value.
#[test]
fn test_u32_register_compress_registers_accumulation() {
    let mut builder = AirBuilder::new();
    let challenge = builder.alloc_challenge();
    let ptr = RawPointer::from_challenge(challenge);
    let value = builder.alloc_byte_array::<4>();
    let digest = value.compress(&mut builder, ptr, &Time::zero());
    assert_eq!(digest.slice.space, RegisterSpace::Trace);
    assert_eq!(digest.slice.len, 3);
    assert_eq!(builder.constraints.len(), 1);
    match &builder.constraints[0] {
        Constraint::Accumulation(acc) => {
            assert_eq!(acc.ptr, ptr);
            assert_eq!(acc.digest, digest);
        }
        _ => panic!("expected an accumulation constraint"),
    }
}
