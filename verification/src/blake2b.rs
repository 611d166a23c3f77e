//! The BLAKE2b compression function, the gadget exercising the memory
//! layer, in its pure witness-time form.
//!
//! The specification mirrors RFC 7693: a work vector seeded from the state
//! and the initialization constants, twelve mix rounds driven by the sigma
//! message schedule, and a final fold of the work vector back into the
//! state.

use vstd::prelude::*;
use vstd::wrapping::u64_specs;

verus! {

/// Number of mix rounds per compression.
pub const NUM_MIX_ROUNDS: usize = 12;

/// Number of state words.
pub const HASH_ARRAY_SIZE: usize = 8;

/// Number of work-vector words.
pub const WORK_VECTOR_SIZE: usize = 16;

/// The initialization constants.
pub open spec fn iv(i: int) -> u64 {
    if i == 0 {
        0x6a09e667f3bcc908u64
    } else if i == 1 {
        0xbb67ae8584caa73bu64
    } else if i == 2 {
        0x3c6ef372fe94f82bu64
    } else if i == 3 {
        0xa54ff53a5f1d36f1u64
    } else if i == 4 {
        0x510e527fade682d1u64
    } else if i == 5 {
        0x9b05688c2b3e6c1fu64
    } else if i == 6 {
        0x1f83d9abfb41bd6bu64
    } else {
        0x5be0cd19137e2179u64
    }
}

/// The ten distinct rows of the sigma message schedule.
pub open spec fn sigma(r: int) -> Seq<u8> {
    if r == 0 {
        seq![0u8, 1u8, 2u8, 3u8, 4u8, 5u8, 6u8, 7u8, 8u8, 9u8, 10u8, 11u8, 12u8, 13u8, 14u8, 15u8]
    } else if r == 1 {
        seq![14u8, 10u8, 4u8, 8u8, 9u8, 15u8, 13u8, 6u8, 1u8, 12u8, 0u8, 2u8, 11u8, 7u8, 5u8, 3u8]
    } else if r == 2 {
        seq![11u8, 8u8, 12u8, 0u8, 5u8, 2u8, 15u8, 13u8, 10u8, 14u8, 3u8, 6u8, 7u8, 1u8, 9u8, 4u8]
    } else if r == 3 {
        seq![7u8, 9u8, 3u8, 1u8, 13u8, 12u8, 11u8, 14u8, 2u8, 6u8, 5u8, 10u8, 4u8, 0u8, 15u8, 8u8]
    } else if r == 4 {
        seq![9u8, 0u8, 5u8, 7u8, 2u8, 4u8, 10u8, 15u8, 14u8, 1u8, 11u8, 12u8, 6u8, 8u8, 3u8, 13u8]
    } else if r == 5 {
        seq![2u8, 12u8, 6u8, 10u8, 0u8, 11u8, 8u8, 3u8, 4u8, 13u8, 7u8, 5u8, 15u8, 14u8, 1u8, 9u8]
    } else if r == 6 {
        seq![12u8, 5u8, 1u8, 15u8, 14u8, 13u8, 4u8, 10u8, 0u8, 7u8, 6u8, 3u8, 9u8, 2u8, 8u8, 11u8]
    } else if r == 7 {
        seq![13u8, 11u8, 7u8, 14u8, 12u8, 1u8, 3u8, 9u8, 5u8, 0u8, 15u8, 4u8, 8u8, 6u8, 2u8, 10u8]
    } else if r == 8 {
        seq![6u8, 15u8, 14u8, 9u8, 11u8, 3u8, 0u8, 8u8, 12u8, 2u8, 13u8, 7u8, 1u8, 4u8, 10u8, 5u8]
    } else {
        seq![10u8, 2u8, 8u8, 4u8, 7u8, 6u8, 1u8, 5u8, 15u8, 11u8, 9u8, 14u8, 3u8, 12u8, 13u8, 0u8]
    }
}

/// The sigma row used by a round: rows repeat after ten.
pub open spec fn sigma12(r: int) -> Seq<u8> {
    if r < 10 {
        sigma(r)
    } else {
        sigma(r - 10)
    }
}

/// Right rotation of a 64-bit word.
pub open spec fn rotr(x: u64, n: u64) -> u64 {
    (x >> n) | (x << ((64 - n) as u64))
}

/// One mix of four work-vector words with two message words.
pub open spec fn spec_mix(
    v: Seq<u64>,
    a: int,
    b: int,
    c: int,
    d: int,
    x: u64,
    y: u64,
) -> Seq<u64> {
    let va1 = u64_specs::wrapping_add(u64_specs::wrapping_add(v[a], v[b]), x);
    let vd1 = rotr(v[d] ^ va1, 32);
    let vc1 = u64_specs::wrapping_add(v[c], vd1);
    let vb1 = rotr(v[b] ^ vc1, 24);
    let va2 = u64_specs::wrapping_add(u64_specs::wrapping_add(va1, vb1), y);
    let vd2 = rotr(vd1 ^ va2, 16);
    let vc2 = u64_specs::wrapping_add(vc1, vd2);
    let vb2 = rotr(vb1 ^ vc2, 63);
    v.update(a, va2).update(b, vb2).update(c, vc2).update(d, vd2)
}

/// One full round: eight mixes, the column step then the diagonal step.
pub open spec fn spec_round(v: Seq<u64>, m: Seq<u64>, r: int) -> Seq<u64> {
    let s = sigma12(r);
    let v1 = spec_mix(v, 0, 4, 8, 12, m[s[0] as int], m[s[1] as int]);
    let v2 = spec_mix(v1, 1, 5, 9, 13, m[s[2] as int], m[s[3] as int]);
    let v3 = spec_mix(v2, 2, 6, 10, 14, m[s[4] as int], m[s[5] as int]);
    let v4 = spec_mix(v3, 3, 7, 11, 15, m[s[6] as int], m[s[7] as int]);
    let v5 = spec_mix(v4, 0, 5, 10, 15, m[s[8] as int], m[s[9] as int]);
    let v6 = spec_mix(v5, 1, 6, 11, 12, m[s[10] as int], m[s[11] as int]);
    let v7 = spec_mix(v6, 2, 7, 8, 13, m[s[12] as int], m[s[13] as int]);
    spec_mix(v7, 3, 4, 9, 14, m[s[14] as int], m[s[15] as int])
}

/// The first `n` rounds applied to a work vector.
pub open spec fn spec_rounds(v: Seq<u64>, m: Seq<u64>, n: nat) -> Seq<u64>
    decreases n,
{
    if n == 0 {
        v
    } else {
        spec_round(spec_rounds(v, m, (n - 1) as nat), m, n - 1)
    }
}

/// A little-endian 64-bit word read from eight bytes.
pub open spec fn le_word(bytes: Seq<u8>, o: int) -> u64 {
    (bytes[o] + 0x100 * bytes[o + 1] + 0x1_0000 * bytes[o + 2] + 0x100_0000 * bytes[o + 3]
        + 0x1_0000_0000 * bytes[o + 4] + 0x100_0000_0000 * bytes[o + 5] + 0x1_0000_0000_0000
        * bytes[o + 6] + 0x100_0000_0000_0000 * bytes[o + 7]) as u64
}

/// A 128-byte chunk as sixteen little-endian words.
pub open spec fn words_of(bytes: Seq<u8>) -> Seq<u64> {
    Seq::new(16, |j: int| le_word(bytes, 8 * j))
}

/// The work vector before the rounds: state, constants, and the byte
/// counter folded in, with the final-chunk word inverted on the last
/// chunk.
pub open spec fn initial_v(h: Seq<u64>, t: u64, last: bool) -> Seq<u64> {
    let base = Seq::new(
        16,
        |i: int|
            if i < 8 {
                h[i]
            } else {
                iv(i - 8)
            },
    );
    let with_t = base.update(12, base[12] ^ t);
    if last {
        with_t.update(14, with_t[14] ^ 0xffff_ffff_ffff_ffffu64)
    } else {
        with_t
    }
}

/// The whole compression: twelve rounds, then both halves of the work
/// vector folded back into the state.
pub open spec fn spec_compress(m: Seq<u64>, h: Seq<u64>, t: u64, last: bool) -> Seq<u64> {
    let v = spec_rounds(initial_v(h, t, last), m, 12);
    Seq::new(8, |i: int| h[i] ^ v[i] ^ v[i + 8])
}

/// The pure, witness-time BLAKE2b compression.
pub struct BLAKE2BPure;

/// Right rotation of a 64-bit word.
pub fn rotate_right64(x: u64, n: u64) -> (r: u64)
    requires
        0 < n < 64,
    ensures
        r == rotr(x, n),
{
    (x >> n) | (x << (64 - n))
}

/// One initialization constant.
pub fn iv_value(i: usize) -> (r: u64)
    requires
        i < 8,
    ensures
        r == iv(i as int),
{
    match i {
        0 => 0x6a09e667f3bcc908,
        1 => 0xbb67ae8584caa73b,
        2 => 0x3c6ef372fe94f82b,
        3 => 0xa54ff53a5f1d36f1,
        4 => 0x510e527fade682d1,
        5 => 0x9b05688c2b3e6c1f,
        6 => 0x1f83d9abfb41bd6b,
        _ => 0x5be0cd19137e2179,
    }
}

/// One row of the sigma schedule, all indices below sixteen.
pub fn sigma_row(r: usize) -> (s: Vec<u8>)
    requires
        r < 12,
    ensures
        s@ == sigma12(r as int),
        s@.len() == 16,
        forall|k: int| 0 <= k < 16 ==> s@[k] < 16,
{
    let row: usize = if r < 10 {
        r
    } else {
        r - 10
    };
    let s: Vec<u8> = match row {
        0 => vec![0, 1, 2, 3, 4, 5, 6, 7, 8, 9, 10, 11, 12, 13, 14, 15],
        1 => vec![14, 10, 4, 8, 9, 15, 13, 6, 1, 12, 0, 2, 11, 7, 5, 3],
        2 => vec![11, 8, 12, 0, 5, 2, 15, 13, 10, 14, 3, 6, 7, 1, 9, 4],
        3 => vec![7, 9, 3, 1, 13, 12, 11, 14, 2, 6, 5, 10, 4, 0, 15, 8],
        4 => vec![9, 0, 5, 7, 2, 4, 10, 15, 14, 1, 11, 12, 6, 8, 3, 13],
        5 => vec![2, 12, 6, 10, 0, 11, 8, 3, 4, 13, 7, 5, 15, 14, 1, 9],
        6 => vec![12, 5, 1, 15, 14, 13, 4, 10, 0, 7, 6, 3, 9, 2, 8, 11],
        7 => vec![13, 11, 7, 14, 12, 1, 3, 9, 5, 0, 15, 4, 8, 6, 2, 10],
        8 => vec![6, 15, 14, 9, 11, 3, 0, 8, 12, 2, 13, 7, 1, 4, 10, 5],
        _ => vec![10, 2, 8, 4, 7, 6, 1, 5, 15, 11, 9, 14, 3, 12, 13, 0],
    };
    proof {
        assert(s@ =~= sigma12(r as int));
    }
    s
}

impl BLAKE2BPure {
    /// Applies a round's sigma permutation to a message array: entry `to`
    /// of the result is entry `sigma[to]` of the input.
    pub fn permute_msgs<T: Copy>(&self, arr: &[T], mix_round_num: usize) -> (r: Vec<T>)
        requires
            mix_round_num <= NUM_MIX_ROUNDS,
            16 <= arr@.len(),
        ensures
            r@.len() == arr@.len(),
            forall|to: int|
                0 <= to < 16 ==> r@[to] == arr@[sigma((mix_round_num % 10) as int)[to] as int],
            forall|to: int| 16 <= to < arr@.len() ==> r@[to] == arr@[0],
    {
        let permutation = sigma_row(mix_round_num % 10);
        let mut result: Vec<T> = Vec::new();
        let mut i: usize = 0;
        while i < arr.len()
            invariant
                16 <= arr@.len(),
                i <= arr@.len(),
                result@.len() == i,
                permutation@ == sigma12((mix_round_num % 10) as int),
                permutation@.len() == 16,
                forall|k: int| 0 <= k < 16 ==> permutation@[k] < 16,
                forall|to: int|
                    0 <= to < i && to < 16 ==> result@[to] == arr@[sigma12(
                        (mix_round_num % 10) as int,
                    )[to] as int],
                forall|to: int| 16 <= to < i ==> result@[to] == arr@[0],
            decreases arr@.len() - i,
        {
            if i < 16 {
                let from_index = permutation[i];
                result.push(arr[from_index as usize]);
            } else {
                result.push(arr[0]);
            }
            i = i + 1;
        }
        result
    }

    /// One mix step on the work vector, at four distinct positions.
    pub fn mix(v: &mut Vec<u64>, a: usize, b: usize, c: usize, d: usize, x: u64, y: u64)
        requires
            old(v)@.len() == 16,
            a < 16,
            b < 16,
            c < 16,
            d < 16,
            a != b,
            a != c,
            a != d,
            b != c,
            b != d,
            c != d,
        ensures
            final(v)@ == spec_mix(old(v)@, a as int, b as int, c as int, d as int, x, y),
    {
        let va1 = v[a].wrapping_add(v[b]).wrapping_add(x);
        let vd1 = rotate_right64(v[d] ^ va1, 32);
        let vc1 = v[c].wrapping_add(vd1);
        let vb1 = rotate_right64(v[b] ^ vc1, 24);
        let va2 = va1.wrapping_add(vb1).wrapping_add(y);
        let vd2 = rotate_right64(vd1 ^ va2, 16);
        let vc2 = vc1.wrapping_add(vd2);
        let vb2 = rotate_right64(vb1 ^ vc2, 63);
        v[a] = va2;
        v[b] = vb2;
        v[c] = vc2;
        v[d] = vd2;
        proof {
            assert(v@ =~= spec_mix(old(v)@, a as int, b as int, c as int, d as int, x, y));
        }
    }

    /// Compresses one 128-byte chunk into the state; returns the new
    /// state, which is also written back in place.
    pub fn compress(
        msg_chunk: &[u8],
        state: &mut Vec<u64>,
        bytes_compressed: u64,
        last_chunk: bool,
    ) -> (r: Vec<u64>)
        requires
            msg_chunk@.len() == 128,
            old(state)@.len() == 8,
        ensures
            final(state)@ == spec_compress(
                words_of(msg_chunk@),
                old(state)@,
                bytes_compressed,
                last_chunk,
            ),
            r@ == final(state)@,
    {
        let ghost m = words_of(msg_chunk@);
        // Convert the chunk to sixteen little-endian words.
        let mut msg_u64_chunks: Vec<u64> = Vec::new();
        let mut j: usize = 0;
        while j < 16
            invariant
                msg_chunk@.len() == 128,
                j <= 16,
                msg_u64_chunks@.len() == j,
                forall|k: int| 0 <= k < j ==> msg_u64_chunks@[k] == le_word(msg_chunk@, 8 * k),
            decreases 16 - j,
        {
            let o: usize = 8 * j;
            let w: u64 = msg_chunk[o] as u64 + 0x100 * (msg_chunk[o + 1] as u64) + 0x1_0000 * (
            msg_chunk[o + 2] as u64) + 0x100_0000 * (msg_chunk[o + 3] as u64) + 0x1_0000_0000 * (
            msg_chunk[o + 4] as u64) + 0x100_0000_0000 * (msg_chunk[o + 5] as u64)
                + 0x1_0000_0000_0000 * (msg_chunk[o + 6] as u64) + 0x100_0000_0000_0000 * (
            msg_chunk[o + 7] as u64);
            msg_u64_chunks.push(w);
            j = j + 1;
        }
        proof {
            assert(msg_u64_chunks@ =~= m);
        }
        // Set up the work vector.
        let mut v: Vec<u64> = Vec::new();
        let mut i: usize = 0;
        while i < 8
            invariant
                state@ == old(state)@,
                state@.len() == 8,
                i <= 8,
                v@.len() == i,
                forall|k: int| 0 <= k < i ==> v@[k] == state@[k],
            decreases 8 - i,
        {
            v.push(state[i]);
            i = i + 1;
        }
        let mut i2: usize = 0;
        while i2 < 8
            invariant
                state@ == old(state)@,
                state@.len() == 8,
                i2 <= 8,
                v@.len() == 8 + i2,
                forall|k: int| 0 <= k < 8 ==> v@[k] == state@[k],
                forall|k: int| 8 <= k < 8 + i2 ==> v@[k] == iv(k - 8),
            decreases 8 - i2,
        {
            v.push(iv_value(i2));
            i2 = i2 + 1;
        }
        let t12 = v[12] ^ bytes_compressed;
        v[12] = t12;
        if last_chunk {
            let t14 = v[14] ^ 0xffff_ffff_ffff_ffff;
            v[14] = t14;
        }
        proof {
            assert(v@ =~= initial_v(state@, bytes_compressed, last_chunk));
        }
        // The twelve mix rounds.
        let mut round: usize = 0;
        while round < 12
            invariant
                state@ == old(state)@,
                state@.len() == 8,
                msg_u64_chunks@ == m,
                m.len() == 16,
                round <= 12,
                v@.len() == 16,
                v@ == spec_rounds(
                    initial_v(state@, bytes_compressed, last_chunk),
                    m,
                    round as nat,
                ),
            decreases 12 - round,
        {
            let s = sigma_row(round);
            let ghost vpre = v@;
            Self::mix(&mut v, 0, 4, 8, 12, msg_u64_chunks[s[0] as usize], msg_u64_chunks[s[1] as usize]);
            Self::mix(&mut v, 1, 5, 9, 13, msg_u64_chunks[s[2] as usize], msg_u64_chunks[s[3] as usize]);
            Self::mix(&mut v, 2, 6, 10, 14, msg_u64_chunks[s[4] as usize], msg_u64_chunks[s[5] as usize]);
            Self::mix(&mut v, 3, 7, 11, 15, msg_u64_chunks[s[6] as usize], msg_u64_chunks[s[7] as usize]);
            Self::mix(&mut v, 0, 5, 10, 15, msg_u64_chunks[s[8] as usize], msg_u64_chunks[s[9] as usize]);
            Self::mix(&mut v, 1, 6, 11, 12, msg_u64_chunks[s[10] as usize], msg_u64_chunks[s[11] as usize]);
            Self::mix(&mut v, 2, 7, 8, 13, msg_u64_chunks[s[12] as usize], msg_u64_chunks[s[13] as usize]);
            Self::mix(&mut v, 3, 4, 9, 14, msg_u64_chunks[s[14] as usize], msg_u64_chunks[s[15] as usize]);
            proof {
                assert(v@ == spec_round(vpre, m, round as int));
            }
            round = round + 1;
        }
        // Fold both halves of the work vector back into the state.
        let ghost h0 = state@;
        let mut i3: usize = 0;
        while i3 < 8
            invariant
                h0 == old(state)@,
                m == words_of(msg_chunk@),
                v@ == spec_rounds(initial_v(h0, bytes_compressed, last_chunk), m, 12),
                state@.len() == 8,
                v@.len() == 16,
                i3 <= 8,
                forall|k: int| 0 <= k < i3 ==> state@[k] == h0[k] ^ v@[k],
                forall|k: int| i3 <= k < 8 ==> state@[k] == h0[k],
            decreases 8 - i3,
        {
            let t = state[i3] ^ v[i3];
            state[i3] = t;
            i3 = i3 + 1;
        }
        let mut i4: usize = 0;
        while i4 < 8
            invariant
                h0 == old(state)@,
                m == words_of(msg_chunk@),
                v@ == spec_rounds(initial_v(h0, bytes_compressed, last_chunk), m, 12),
                state@.len() == 8,
                v@.len() == 16,
                i4 <= 8,
                forall|k: int| 0 <= k < i4 ==> state@[k] == (h0[k] ^ v@[k]) ^ v@[k + 8],
                forall|k: int| i4 <= k < 8 ==> state@[k] == h0[k] ^ v@[k],
            decreases 8 - i4,
        {
            let t = state[i4] ^ v[i4 + 8];
            state[i4] = t;
            i4 = i4 + 1;
        }
        proof {
            assert(state@ =~= spec_compress(m, h0, bytes_compressed, last_chunk));
        }
        let mut out: Vec<u64> = Vec::new();
        let mut i5: usize = 0;
        while i5 < 8
            invariant
                h0 == old(state)@,
                m == words_of(msg_chunk@),
                state@ == spec_compress(m, h0, bytes_compressed, last_chunk),
                state@.len() == 8,
                i5 <= 8,
                out@.len() == i5,
                forall|k: int| 0 <= k < i5 ==> out@[k] == state@[k],
            decreases 8 - i5,
        {
            out.push(state[i5]);
            i5 = i5 + 1;
        }
        proof {
            assert(out@ =~= state@);
        }
        out
    }
}

} // verus!
