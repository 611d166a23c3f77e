use curta::cubic::CubicValue;
use curta::field::Fp;
use curta::lookup::{
    compute_reciprocals, global_sum, running_sums, LookupChipConstraint, LookupConstraint,
    LookupError,
};
use curta::register::{CubicRegister, ElementRegister, MemorySlice, RegisterSpace};
use curta::trace::AirParser;
use curta::uint::encode_u32;

fn cubic(a: u64, b: u64, c: u64) -> CubicValue {
    CubicValue { c0: Fp::from_u64(a), c1: Fp::from_u64(b), c2: Fp::from_u64(c) }
}

fn digest_of(addr: CubicValue, value: CubicValue) -> CubicValue {
    addr.mul(value).add(value)
}

/// Scenario: store value 42 at address A at time 0, load address A at
/// time 0.  Both sides carry the identical digest and the lookup total
/// telescopes to zero.
#[test]
fn test_store_then_load_accepts() {
    let addr = cubic(400, 500, 600);
    let value = CubicValue::from_base(encode_u32(42, 0));
    let store_digest = digest_of(addr, value);
    let load_digest = digest_of(addr, value);
    assert_eq!(store_digest, load_digest);

    let beta = cubic(123, 456, 789);
    let looking = vec![load_digest];
    let looked = vec![store_digest];
    let mults = vec![1u32];
    let looking_aux = compute_reciprocals(&beta, &looking).expect("challenge misses digests");
    let looked_aux = compute_reciprocals(&beta, &looked).expect("challenge misses digests");
    let total = global_sum(&looking_aux, &mults, &looked_aux);
    assert_eq!(total, CubicValue::zero());
}

/// Completeness with multiplicity: one store consumed by two loads, zero
/// for every challenge tried.
#[test]
fn test_lookup_acceptance_with_multiplicity() {
    let addr = cubic(1, 2, 3);
    let value = CubicValue::from_base(encode_u32(7, 5));
    let d = digest_of(addr, value);
    let looking = vec![d, d];
    let looked = vec![d];
    let mults = vec![2u32];
    let betas = [cubic(9, 8, 7), cubic(1000, 0, 3), cubic(5, 5, 5), cubic(0, 0, 1)];
    for beta in betas.iter() {
        let looking_aux = compute_reciprocals(beta, &looking).expect("reciprocals exist");
        let looked_aux = compute_reciprocals(beta, &looked).expect("reciprocals exist");
        let total = global_sum(&looking_aux, &mults, &looked_aux);
        assert_eq!(total, CubicValue::zero());
    }
}

/// Rejection: a looking multiset that is not a sub-multiset of the
/// looked-up multiset drives the total away from zero.
#[test]
fn test_lookup_rejection() {
    let addr = cubic(400, 500, 600);
    let stored = CubicValue::from_base(encode_u32(42, 0));
    let asked = CubicValue::from_base(encode_u32(41, 0));
    let store_digest = digest_of(addr, stored);
    let load_digest = digest_of(addr, asked);
    assert_ne!(store_digest, load_digest);

    let beta = cubic(123, 456, 789);
    let looking = vec![load_digest];
    let looked = vec![store_digest];
    let mults = vec![1u32];
    let looking_aux = compute_reciprocals(&beta, &looking).expect("reciprocals exist");
    let looked_aux = compute_reciprocals(&beta, &looked).expect("reciprocals exist");
    let total = global_sum(&looking_aux, &mults, &looked_aux);
    assert_ne!(total, CubicValue::zero());
}

/// Scenario: store 42 at A at time 0, overwrite with 99 at time 1.  A
/// trace whose loads read each version at its own timestamp passes; a
/// trace that reads the stale value at the later timestamp fails.
#[test]
fn test_overwrite_needs_fresh_digest() {
    let addr = cubic(400, 500, 600);
    let v_old = CubicValue::from_base(encode_u32(42, 0));
    let v_new = CubicValue::from_base(encode_u32(99, 1));
    let d_old = digest_of(addr, v_old);
    let d_new = digest_of(addr, v_new);
    let beta = cubic(777, 888, 999);
    let looked = vec![d_old, d_new];
    let mults = vec![1u32, 1u32];
    let looked_aux = compute_reciprocals(&beta, &looked).expect("reciprocals exist");

    // Honest trace: one read of each version.
    let honest = vec![d_old, d_new];
    let honest_aux = compute_reciprocals(&beta, &honest).expect("reciprocals exist");
    assert_eq!(global_sum(&honest_aux, &mults, &looked_aux), CubicValue::zero());

    // Cheating trace: reads the stale 42 digest where digest(99, 1) is owed.
    let stale = CubicValue::from_base(encode_u32(42, 1));
    let cheating = vec![d_old, digest_of(addr, stale)];
    let cheating_aux = compute_reciprocals(&beta, &cheating).expect("reciprocals exist");
    assert_ne!(global_sum(&cheating_aux, &mults, &looked_aux), CubicValue::zero());
}

/// The running partial sums telescope: the last sum is the total of all
/// per-row terms.
#[test]
fn test_running_sums_telescope() {
    let terms = vec![cubic(1, 0, 0), cubic(2, 5, 0), cubic(3, 0, 9)];
    let sums = running_sums(&terms);
    assert_eq!(sums.len(), 3);
    assert_eq!(sums[0], terms[0]);
    assert_eq!(sums[1], terms[0].add(terms[1]));
    assert_eq!(sums[2], terms[0].add(terms[1]).add(terms[2]));
}

/// A challenge colliding with an entry is reported as the
/// witness-generation failure it is, naming the entry.
#[test]
fn test_degenerate_challenge_reported() {
    let beta = cubic(42, 43, 44);
    let entries = vec![cubic(1, 2, 3), beta];
    match compute_reciprocals(&beta, &entries) {
        Err(LookupError::DegenerateEntry(i)) => assert_eq!(i, 1),
        Ok(_) => panic!("reciprocal of zero cannot exist"),
    }
}

/// Register-level evaluation of the scalar-keyed lookup variant: honest
/// aux and running-sum values satisfy every per-row residue and the
/// global total.
#[test]
fn test_element_lookup_constraint_eval() {
    let trace_elem = |start: usize| ElementRegister {
        slice: MemorySlice { space: RegisterSpace::Trace, start, len: 1 },
    };
    let trace_cubic = |start: usize| CubicRegister {
        slice: MemorySlice { space: RegisterSpace::Trace, start, len: 3 },
    };
    let lc = LookupConstraint {
        challenge: CubicRegister {
            slice: MemorySlice { space: RegisterSpace::Challenge, start: 0, len: 3 },
        },
        looking: vec![trace_elem(0)],
        looking_aux: vec![trace_cubic(1)],
        looked_up: vec![trace_elem(4)],
        multiplicities: vec![ElementRegister {
            slice: MemorySlice { space: RegisterSpace::Public, start: 0, len: 1 },
        }],
        looked_up_aux: vec![trace_cubic(5)],
        running_sum: trace_cubic(8),
    };
    let chip = LookupChipConstraint::Element(lc);

    let beta = cubic(5000, 6000, 7000);
    let x = Fp::from_u64(77);
    let digest = CubicValue::from_base(x);
    let aux = beta.sub(digest).try_inverse().expect("challenge misses the digest");
    let row = vec![
        x, aux.c0, aux.c1, aux.c2, x, aux.c0, aux.c1, aux.c2, Fp::zero(), Fp::zero(), Fp::zero(),
    ];
    let mut parser = AirParser {
        local: row.clone(),
        next: row.clone(),
        global: vec![],
        public_inputs: vec![Fp::one()],
        challenges: vec![beta.c0, beta.c1, beta.c2],
        emitted: vec![],
    };
    chip.eval(&mut parser);
    // One residue per reciprocal side constraint plus the transition.
    assert_eq!(parser.emitted.len(), 3);
    for residue in parser.emitted.iter() {
        assert_eq!(*residue, CubicValue::zero());
    }
}
