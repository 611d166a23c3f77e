use curta::cubic::CubicValue;
use curta::field::Fp;
use curta::pointer::{RawPointer, Time};
use curta::register::{CubicRegister, MemorySlice, RegisterSpace};
use curta::trace::{AirParser, TraceWriter};
use curta::uint::encode_u32;

fn challenge_register() -> CubicRegister {
    CubicRegister {
        slice: MemorySlice { space: RegisterSpace::Challenge, start: 0, len: 3 },
    }
}

fn cubic(a: u64, b: u64, c: u64) -> CubicValue {
    CubicValue { c0: Fp::from_u64(a), c1: Fp::from_u64(b), c2: Fp::from_u64(c) }
}

/// The fixed accumulation fold: `addr * value + value`.
fn digest_of(addr: CubicValue, value: CubicValue) -> CubicValue {
    addr.mul(value).add(value)
}

fn parser_with_challenges(ch: CubicValue) -> AirParser {
    AirParser {
        local: vec![],
        next: vec![],
        global: vec![],
        public_inputs: vec![],
        challenges: vec![ch.c0, ch.c1, ch.c2],
        emitted: vec![],
    }
}

fn writer_with_challenges(ch: CubicValue) -> TraceWriter {
    TraceWriter {
        width: 0,
        trace: vec![vec![]],
        global: vec![],
        public_inputs: vec![],
        challenges: vec![ch.c0, ch.c1, ch.c2],
    }
}

/// Determinism: the build-path address (`eval`) and the witness-path key
/// (`read`) denote the same address, so identical (challenge, shift,
/// value, time) inputs yield bit-identical digests on both paths.
#[test]
fn test_digest_deterministic_across_paths() {
    let ch = cubic(123456789, 987654321, 5555);
    let ptr = RawPointer::new(challenge_register(), None, Some(7));

    let parser = parser_with_challenges(ch);
    let addr_eval = ptr.eval(&parser);

    let writer = writer_with_challenges(ch);
    let key = ptr.read(&writer, 0);
    let addr_read = ch.add(CubicValue::from_base(key.shift));

    assert_eq!(addr_eval, addr_read);

    let value = CubicValue::from_base(encode_u32(42, 0));
    assert_eq!(digest_of(addr_eval, value), digest_of(addr_read, value));
}

/// A bare pointer and one with no shifts expressed differently agree.
#[test]
fn test_bare_pointer_key_matches_eval() {
    let ch = cubic(11, 22, 33);
    let ptr = RawPointer::from_challenge(challenge_register());
    let parser = parser_with_challenges(ch);
    let writer = writer_with_challenges(ch);
    let addr_eval = ptr.eval(&parser);
    let key = ptr.read(&writer, 0);
    assert_eq!(key.shift.v, 0);
    assert_eq!(addr_eval, ch.add(CubicValue::from_base(key.shift)));
}

/// Near-miss injectivity: same address, different values.
#[test]
fn test_digest_separates_values() {
    let addr = cubic(77, 88, 99);
    let v1 = CubicValue::from_base(encode_u32(42, 0));
    let v2 = CubicValue::from_base(encode_u32(43, 0));
    assert_ne!(digest_of(addr, v1), digest_of(addr, v2));
}

/// Near-miss injectivity: same value, different timestamps.
#[test]
fn test_digest_separates_timestamps() {
    let addr = cubic(77, 88, 99);
    let v1 = CubicValue::from_base(encode_u32(42, 0));
    let v2 = CubicValue::from_base(encode_u32(42, 1));
    assert_ne!(digest_of(addr, v1), digest_of(addr, v2));
}

/// Near-miss injectivity: same value and time, different addresses.
#[test]
fn test_digest_separates_addresses() {
    let a1 = cubic(77, 88, 99);
    let a2 = cubic(77, 88, 100);
    let v = CubicValue::from_base(encode_u32(42, 0));
    assert_ne!(digest_of(a1, v), digest_of(a2, v));
}

/// Scenario: a bare pointer and a pointer with the same challenge plus a
/// nonzero constant shift produce different digests for otherwise
/// identical (value, time): the shift participates in address uniqueness.
#[test]
fn test_shifted_pointer_changes_digest() {
    let ch = cubic(31415, 92653, 58979);
    let bare = RawPointer::from_challenge(challenge_register());
    let shifted = RawPointer::new(challenge_register(), None, Some(1));
    let parser = parser_with_challenges(ch);
    let addr_bare = bare.eval(&parser);
    let addr_shifted = shifted.eval(&parser);
    assert_ne!(addr_bare, addr_shifted);
    let v = CubicValue::from_base(encode_u32(42, 0));
    assert_ne!(digest_of(addr_bare, v), digest_of(addr_shifted, v));
}

/// The timestamp value helper reads constants and registers alike.
#[test]
fn test_time_value() {
    let parser = AirParser {
        local: vec![Fp::from_u64(500)],
        next: vec![],
        global: vec![],
        public_inputs: vec![],
        challenges: vec![],
        emitted: vec![],
    };
    assert_eq!(Time::zero().value(&parser).v, 0);
    assert_eq!(Time::constant(9).value(&parser).v, 9);
    let reg = curta::register::ElementRegister {
        slice: MemorySlice { space: RegisterSpace::Trace, start: 0, len: 1 },
    };
    assert_eq!(Time::from_element(reg).value(&parser).v, 500);
}
