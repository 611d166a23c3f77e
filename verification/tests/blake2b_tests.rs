use curta::blake2b::{iv_value, sigma_row, BLAKE2BPure};

/// BLAKE2b-512 of "abc" (RFC 7693, appendix A): one compression of the
/// padded chunk against the parameterized initial state.
#[test]
fn test_compress_rfc7693_abc_vector() {
    let mut state: Vec<u64> = (0..8).map(iv_value).collect();
    // Parameter block: digest length 64, fanout 1, depth 1.
    state[0] ^= 0x0101_0040;
    let mut chunk = vec![0u8; 128];
    chunk[0] = b'a';
    chunk[1] = b'b';
    chunk[2] = b'c';
    let out = BLAKE2BPure::compress(&chunk, &mut state, 3, true);
    let expected: [u64; 8] = [
        0x0d4d1c983fa580ba,
        0xe9f6129fb697276a,
        0xb7c45a68142f214c,
        0xd1a2ffdb6fbb124b,
        0x2d79ab2a39c5877d,
        0x95cc3345ded552c2,
        0x5a92f1dba88ad318,
        0x239900d4ed8623b9,
    ];
    assert_eq!(out, expected.to_vec());
    assert_eq!(state, expected.to_vec());
}

/// A non-final compression differs from a final one on the same inputs.
#[test]
fn test_compress_last_chunk_flag_matters() {
    let mut s1: Vec<u64> = (0..8).map(iv_value).collect();
    let mut s2 = s1.clone();
    let chunk = vec![0u8; 128];
    let a = BLAKE2BPure::compress(&chunk, &mut s1, 128, false);
    let b = BLAKE2BPure::compress(&chunk, &mut s2, 128, true);
    assert_ne!(a, b);
}

/// The first sigma row is the identity permutation, so the first round's
/// message schedule reads the words in order.
#[test]
fn test_permute_msgs_identity_round() {
    let arr: Vec<u32> = (100..116).collect();
    let out = BLAKE2BPure.permute_msgs(&arr, 0);
    assert_eq!(out, arr);
}

/// The second sigma row moves word 14 first.
#[test]
fn test_permute_msgs_second_round() {
    let arr: Vec<u32> = (100..116).collect();
    let out = BLAKE2BPure.permute_msgs(&arr, 1);
    assert_eq!(out[0], 114);
    assert_eq!(out[1], 110);
    assert_eq!(out[15], 103);
}

/// Rounds ten and eleven reuse rows zero and one.
#[test]
fn test_sigma_rows_repeat_after_ten() {
    assert_eq!(sigma_row(10), sigma_row(0));
    assert_eq!(sigma_row(11), sigma_row(1));
    assert_ne!(sigma_row(2), sigma_row(3));
}

/// One mix step, checked against an independent computation.
#[test]
fn test_mix_known_values() {
    let mut v: Vec<u64> = (0..16).map(|i| i as u64 + 1).collect();
    let x = 0xdead_beefu64;
    let y = 0x1234_5678u64;
    let expect = {
        let mut w = v.clone();
        let mut va = w[0].wrapping_add(w[4]).wrapping_add(x);
        let mut vd = (w[12] ^ va).rotate_right(32);
        let mut vc = w[8].wrapping_add(vd);
        let mut vb = (w[4] ^ vc).rotate_right(24);
        va = va.wrapping_add(vb).wrapping_add(y);
        vd = (vd ^ va).rotate_right(16);
        vc = vc.wrapping_add(vd);
        vb = (vb ^ vc).rotate_right(63);
        w[0] = va;
        w[4] = vb;
        w[8] = vc;
        w[12] = vd;
        w
    };
    BLAKE2BPure::mix(&mut v, 0, 4, 8, 12, x, y);
    assert_eq!(v, expect);
}
