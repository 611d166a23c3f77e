//! The register and memory layout of the BLAKE2b circuit gadget: the
//! public inputs, the control-flow trace registers, the memory slices the
//! compression works in, and the compile-time constants it reads.

use crate::blake2b::iv_value;
use crate::builder::{AirBuilder, Constraint};
use crate::field::Fp;
use crate::memory::Slice;
use crate::pointer::Time;
use crate::register::{ArrayRegister, BitRegister, ElementRegister, RegisterSpace};
use crate::uint::U64Register;
use vstd::prelude::*;

verus! {

/// The reserved index read by rows that touch no real cell.
pub const DUMMY_INDEX: u32 = 0x7fff_ffff;

/// The reserved timestamp of initialization writes.
pub const DUMMY_TS: u32 = 0x7fff_ffff;

/// The public inputs of one BLAKE2b computation: the padded message
/// chunks and the end-of-message bits.
#[derive(Debug)]
pub struct BLAKE2BPublicData {
    pub padded_chunks: Vec<ArrayRegister<U64Register>>,
    pub end_bits: ArrayRegister<BitRegister>,
}

/// The control-flow registers of the BLAKE2b trace: the clock, the phase
/// flags, and the counters locating each row inside its compression.
#[derive(Debug)]
pub struct BLAKE2BTraceData {
    pub clk: ElementRegister,
    pub is_hash_initialize: BitRegister,
    pub is_compress_initialize: BitRegister,
    pub is_compress_first_row: BitRegister,
    pub is_compress_third_row: BitRegister,
    pub save_h: Slice<BitRegister>,
    pub cycle_8_end_bit: BitRegister,
    pub cycle_96_end_bit: BitRegister,
    pub compress_id: ElementRegister,
    pub compress_index: ElementRegister,
    pub mix_iteration: ElementRegister,
    pub mix_index: ElementRegister,
}

/// The memory slices the BLAKE2b compression reads and writes: state,
/// work vector, message words, and the index tables, each behind its own
/// pointer challenge.
#[derive(Debug)]
pub struct BLAKE2BMemory {
    pub compress_initial_indices: Slice<ElementRegister>,
    pub iv: Slice<U64Register>,
    pub compress_iv: Slice<U64Register>,
    pub v_indices: Slice<ElementRegister>,
    pub v_last_write_ages: Slice<ElementRegister>,
    pub permutations: Slice<ElementRegister>,
    pub h: Slice<U64Register>,
    pub v: Slice<U64Register>,
    pub v_final: Slice<U64Register>,
    pub m: Slice<U64Register>,
    pub t: Slice<U64Register>,
    pub end_bit: Slice<BitRegister>,
    pub dummy_index: ElementRegister,
}

/// The compile-time constants the gadget reads: the small control-flow
/// numbers, the 64-bit zero, and the 64-bit all-ones word the third
/// compression row inverts with.
#[derive(Debug)]
pub struct BLAKE2BConsts {
    pub const_0: ElementRegister,
    pub const_1: ElementRegister,
    pub const_2: ElementRegister,
    pub const_3: ElementRegister,
    pub const_4: ElementRegister,
    pub const_9: ElementRegister,
    pub const_92: ElementRegister,
    pub const_96: ElementRegister,
    pub const_0_u64: U64Register,
    pub const_ffffffffffffffff: U64Register,
}

/// Everything the BLAKE2b gadget's build phase produces.
#[derive(Debug)]
pub struct BLAKE2BData {
    pub public: BLAKE2BPublicData,
    pub trace: BLAKE2BTraceData,
    pub memory: BLAKE2BMemory,
    pub consts: BLAKE2BConsts,
}

/// The builder facade of the BLAKE2b gadget.
pub struct BLAKE2BAir;

impl BLAKE2BAir {
    /// Allocates the constants the BLAKE2b gadget reads — the small
    /// control-flow numbers, the 64-bit zero, and the 64-bit all-ones
    /// word — each pinned to its exact value by a registered constraint.
    pub fn blake2b_const_nums(builder: &mut AirBuilder) -> (r: BLAKE2BConsts)
        requires
            old(builder).next_public + 24 <= usize::MAX,
        ensures
            final(builder).next_public == old(builder).next_public + 24,
            final(builder).next_trace == old(builder).next_trace,
            final(builder).next_global == old(builder).next_global,
            final(builder).next_challenge == old(builder).next_challenge,
            final(builder).same_memory(*old(builder)),
            final(builder).constraints@.len() == old(builder).constraints@.len() + 24,
            forall|k: int|
                0 <= k < old(builder).constraints@.len() ==> final(builder).constraints@[k] == old(
                    builder,
                ).constraints@[k],
            final(builder).constraints@.subrange(
                old(builder).constraints@.len() as int,
                old(builder).constraints@.len() + 8int,
            ) == seq![
                Constraint::Const(r.const_0, Fp { v: 0 }),
                Constraint::Const(r.const_1, Fp { v: 1 }),
                Constraint::Const(r.const_2, Fp { v: 2 }),
                Constraint::Const(r.const_3, Fp { v: 3 }),
                Constraint::Const(r.const_4, Fp { v: 4 }),
                Constraint::Const(r.const_9, Fp { v: 9 }),
                Constraint::Const(r.const_92, Fp { v: 92 }),
                Constraint::Const(r.const_96, Fp { v: 96 }),
            ],
            r.const_0_u64.0.len == 8,
            forall|i: int|
                0 <= i < 8 ==> #[trigger] final(builder).constraints@[old(
                    builder,
                ).constraints@.len() + 8 + i] == Constraint::Const(
                    ElementRegister {
                        slice: crate::register::MemorySlice {
                            space: RegisterSpace::Public,
                            start: (r.const_0_u64.0.start + i) as usize,
                            len: 1,
                        },
                    },
                    Fp { v: 0 },
                ),
            r.const_ffffffffffffffff.0.len == 8,
            forall|i: int|
                0 <= i < 8 ==> #[trigger] final(builder).constraints@[old(
                    builder,
                ).constraints@.len() + 16 + i] == Constraint::Const(
                    ElementRegister {
                        slice: crate::register::MemorySlice {
                            space: RegisterSpace::Public,
                            start: (r.const_ffffffffffffffff.0.start + i) as usize,
                            len: 1,
                        },
                    },
                    Fp { v: 0xff },
                ),
            r.const_0.slice.space == RegisterSpace::Public,
    {
        let const_0 = builder.constant(Fp::from_u32(0));
        let const_1 = builder.constant(Fp::from_u32(1));
        let const_2 = builder.constant(Fp::from_u32(2));
        let const_3 = builder.constant(Fp::from_u32(3));
        let const_4 = builder.constant(Fp::from_u32(4));
        let const_9 = builder.constant(Fp::from_u32(9));
        let const_92 = builder.constant(Fp::from_u32(92));
        let const_96 = builder.constant(Fp::from_u32(96));
        let ghost mid = builder.constraints@.len();
        let const_0_u64 = builder.constant_u64(0);
        let const_ffffffffffffffff = builder.constant_u64(0xffff_ffff_ffff_ffff);
        proof {
            assert(final(builder).constraints@.subrange(
                old(builder).constraints@.len() as int,
                old(builder).constraints@.len() + 8int,
            ) =~= seq![
                Constraint::Const(const_0, Fp { v: 0 }),
                Constraint::Const(const_1, Fp { v: 1 }),
                Constraint::Const(const_2, Fp { v: 2 }),
                Constraint::Const(const_3, Fp { v: 3 }),
                Constraint::Const(const_4, Fp { v: 4 }),
                Constraint::Const(const_9, Fp { v: 9 }),
                Constraint::Const(const_92, Fp { v: 92 }),
                Constraint::Const(const_96, Fp { v: 96 }),
            ]);
            assert forall|i: int| 0 <= i < 8 implies (#[trigger] (0u64 >> ((8 * i) as u64)))
                & 0xff == 0 by {
                let s = (8 * i) as u64;
                assert((0u64 >> s) & 0xff == 0) by (bit_vector);
            }
            assert forall|i: int|
                0 <= i < 8 implies (#[trigger] (0xffff_ffff_ffff_ffffu64 >> ((8 * i) as u64)))
                & 0xff == 0xff by {
                let s = (8 * i) as u64;
                assert(s <= 56 ==> (0xffff_ffff_ffff_ffffu64 >> s) & 0xff == 0xff) by (bit_vector);
            }
        }
        BLAKE2BConsts {
            const_0,
            const_1,
            const_2,
            const_3,
            const_4,
            const_9,
            const_92,
            const_96,
            const_0_u64,
            const_ffffffffffffffff,
        }
    }
}

impl BLAKE2BAir {
    /// Lays out and seeds the BLAKE2b gadget's memory: the state slice
    /// initialized with the IV constants, the zeroed work vectors, one
    /// message-word cell per position written once per compression, and
    /// the byte counters.  Every access is a store, so the looking side of
    /// the memory table is untouched and the looked-up side grows by one
    /// digest (with its multiplicity) per seeded cell.
    pub fn blake2b_memory(
        builder: &mut AirBuilder,
        padded_chunks: &Vec<ArrayRegister<U64Register>>,
        t_values: &ArrayRegister<U64Register>,
        consts: &BLAKE2BConsts,
        num_messages: ElementRegister,
        num_compresses: ElementRegister,
    ) -> (r: BLAKE2BMemory)
        requires
            old(builder).next_trace + old(builder).next_global + 3 * (41 + 16
                * padded_chunks@.len() + t_values.slice.len / 8) <= usize::MAX,
            old(builder).next_public + 74 <= usize::MAX,
            old(builder).next_challenge + 36 <= usize::MAX,
            padded_chunks@.len() <= 0xffff_ffff,
            t_values.slice.len / 8 <= 0xffff_ffff,
            forall|k: int|
                0 <= k < padded_chunks@.len() ==> (#[trigger] padded_chunks@[k]).slice.len == 128
                    && padded_chunks@[k].slice.start + 128 <= usize::MAX,
            t_values.slice.len % 8 == 0,
            t_values.slice.start + t_values.slice.len <= usize::MAX,
        ensures
            final(builder).mem_looking == old(builder).mem_looking,
            final(builder).mem_looked_up@.len() == old(builder).mem_looked_up@.len() + 41 + 16
                * padded_chunks@.len() + t_values.slice.len / 8,
            final(builder).mem_multiplicities@.len() == old(builder).mem_multiplicities@.len()
                + 41 + 16 * padded_chunks@.len() + t_values.slice.len / 8,
            ({
                let m0 = old(builder).mem_multiplicities@.len() as int;
                let n = padded_chunks@.len() as int;
                let nt = t_values.slice.len / 8;
                let ms = final(builder).mem_multiplicities@;
                let cs = final(builder).constraints@;
                &&& forall|k: int| m0 <= k < m0 + 8 ==> #[trigger] ms[k] == num_messages
                &&& forall|k: int| m0 + 8 <= k < m0 + 41 ==> #[trigger] ms[k] == num_compresses
                &&& forall|k: int|
                    m0 + 41 <= k < m0 + 41 + 16 * n ==> exists|kk: int|
                        0 <= kk < cs.len() && cs[kk] == Constraint::Const(
                            #[trigger] ms[k],
                            Fp { v: 24 },
                        )
                &&& forall|k: int|
                    m0 + 41 + 16 * n <= k < m0 + 41 + 16 * n + nt ==> #[trigger] ms[k]
                        == consts.const_96
            }),
    {
        let ghost tg0 = old(builder).next_trace + old(builder).next_global;
        let ghost pub0 = old(builder).next_public;
        let ghost looked0 = old(builder).mem_looked_up@.len();
        let ghost m0 = old(builder).mem_multiplicities@.len() as int;
        let ghost total = 41 + 16 * padded_chunks@.len() + t_values.slice.len / 8;
        let h: Slice<U64Register> = builder.uninit_slice();
        let v: Slice<U64Register> = builder.uninit_slice();
        let v_final: Slice<U64Register> = builder.uninit_slice();
        let m: Slice<U64Register> = builder.uninit_slice();
        let t: Slice<U64Register> = builder.uninit_slice();
        let end_bit: Slice<BitRegister> = builder.uninit_slice();
        let compress_initial_indices: Slice<ElementRegister> = builder.uninit_slice();
        let iv_slice: Slice<U64Register> = builder.uninit_slice();
        let compress_iv: Slice<U64Register> = builder.uninit_slice();
        let v_indices: Slice<ElementRegister> = builder.uninit_slice();
        let v_last_write_ages: Slice<ElementRegister> = builder.uninit_slice();
        let permutations: Slice<ElementRegister> = builder.uninit_slice();
        let dummy_index = builder.constant(Fp::from_u32(DUMMY_INDEX));
        let zero64 = builder.constant_u64(0);
        let const_24 = builder.constant(Fp::from_u32(24));
        let ghost idx24 = builder.constraints@.len() - 1;
        proof {
            assert(builder.constraints@[idx24] == Constraint::Const(const_24, Fp { v: 24 }));
        }

        // Seed the state slice with the IV; the first compression of every
        // message reads these initial values.
        let mut i: usize = 0;
        while i < 8
            invariant
                i <= 8,
                builder.mem_looking == old(builder).mem_looking,
                builder.mem_looked_up@.len() == looked0 + i,
                m0 == old(builder).mem_multiplicities@.len(),
                builder.mem_multiplicities@.len() == m0 + i,
                forall|k: int|
                    m0 <= k < m0 + i ==> #[trigger] builder.mem_multiplicities@[k]
                        == num_messages,
                builder.next_trace + builder.next_global == tg0 + 3 * i,
                builder.next_public == pub0 + 10 + 8 * i,
                tg0 + 3 * total <= usize::MAX,
                total == 41 + 16 * padded_chunks@.len() + t_values.slice.len / 8,
                pub0 + 74 <= usize::MAX,
                zero64.0.len == 8,
                zero64.0.start + 8 <= usize::MAX,
                0 <= idx24 < builder.constraints@.len(),
                builder.constraints@[idx24] == Constraint::Const(const_24, Fp { v: 24 }),
            decreases 8 - i,
        {
            let c = builder.constant_u64(iv_value(i));
            builder.store_u64(&h.get(i), c, &Time::constant(DUMMY_TS), Some(num_messages));
            i = i + 1;
        }
        // The rows outside a compression's first cycle read a dummy cell.
        builder.store_u64(
            &h.get_at(dummy_index),
            zero64,
            &Time::constant(DUMMY_TS),
            Some(num_compresses),
        );

        // The work vector starts zeroed at the dummy timestamp.
        let mut i2: usize = 0;
        while i2 < 16
            invariant
                i2 <= 16,
                builder.mem_looking == old(builder).mem_looking,
                builder.mem_looked_up@.len() == looked0 + 9 + i2,
                m0 == old(builder).mem_multiplicities@.len(),
                builder.mem_multiplicities@.len() == m0 + 9 + i2,
                forall|k: int|
                    m0 <= k < m0 + 8 ==> #[trigger] builder.mem_multiplicities@[k]
                        == num_messages,
                forall|k: int|
                    m0 + 8 <= k < m0 + 9 + i2 ==> #[trigger] builder.mem_multiplicities@[k]
                        == num_compresses,
                builder.next_trace + builder.next_global == tg0 + 3 * (9 + i2),
                tg0 + 3 * total <= usize::MAX,
                total == 41 + 16 * padded_chunks@.len() + t_values.slice.len / 8,
                zero64.0.len == 8,
                zero64.0.start + 8 <= usize::MAX,
                0 <= idx24 < builder.constraints@.len(),
                builder.constraints@[idx24] == Constraint::Const(const_24, Fp { v: 24 }),
            decreases 16 - i2,
        {
            builder.store_u64(&v.get(i2), zero64, &Time::constant(DUMMY_TS), Some(num_compresses));
            i2 = i2 + 1;
        }
        let mut i3: usize = 0;
        while i3 < 16
            invariant
                i3 <= 16,
                builder.mem_looking == old(builder).mem_looking,
                builder.mem_looked_up@.len() == looked0 + 25 + i3,
                m0 == old(builder).mem_multiplicities@.len(),
                builder.mem_multiplicities@.len() == m0 + 25 + i3,
                forall|k: int|
                    m0 <= k < m0 + 8 ==> #[trigger] builder.mem_multiplicities@[k]
                        == num_messages,
                forall|k: int|
                    m0 + 8 <= k < m0 + 25 + i3 ==> #[trigger] builder.mem_multiplicities@[k]
                        == num_compresses,
                builder.next_trace + builder.next_global == tg0 + 3 * (25 + i3),
                tg0 + 3 * total <= usize::MAX,
                total == 41 + 16 * padded_chunks@.len() + t_values.slice.len / 8,
                zero64.0.len == 8,
                zero64.0.start + 8 <= usize::MAX,
                0 <= idx24 < builder.constraints@.len(),
                builder.constraints@[idx24] == Constraint::Const(const_24, Fp { v: 24 }),
            decreases 16 - i3,
        {
            builder.store_u64(
                &v_final.get(i3),
                zero64,
                &Time::constant(DUMMY_TS),
                Some(num_compresses),
            );
            i3 = i3 + 1;
        }

        // Each compression's sixteen message words, written at the
        // compression's own timestamp; every word is read twice per mix
        // iteration, twenty-four times per compression, under the shared
        // multiplicity constant pinned to twenty-four.
        let n = padded_chunks.len();
        let mut ci: usize = 0;
        while ci < n
            invariant
                ci <= n,
                n == padded_chunks@.len(),
                n <= 0xffff_ffff,
                forall|k: int|
                    0 <= k < padded_chunks@.len() ==> (#[trigger] padded_chunks@[k]).slice.len
                        == 128 && padded_chunks@[k].slice.start + 128 <= usize::MAX,
                builder.mem_looking == old(builder).mem_looking,
                builder.mem_looked_up@.len() == looked0 + 41 + 16 * ci,
                m0 == old(builder).mem_multiplicities@.len(),
                builder.mem_multiplicities@.len() == m0 + 41 + 16 * ci,
                forall|k: int|
                    m0 <= k < m0 + 8 ==> #[trigger] builder.mem_multiplicities@[k]
                        == num_messages,
                forall|k: int|
                    m0 + 8 <= k < m0 + 41 ==> #[trigger] builder.mem_multiplicities@[k]
                        == num_compresses,
                forall|k: int|
                    m0 + 41 <= k < m0 + 41 + 16 * ci ==> #[trigger] builder.mem_multiplicities@[k]
                        == const_24,
                builder.next_trace + builder.next_global == tg0 + 3 * (41 + 16 * ci),
                tg0 + 3 * total <= usize::MAX,
                total == 41 + 16 * padded_chunks@.len() + t_values.slice.len / 8,
                0 <= idx24 < builder.constraints@.len(),
                builder.constraints@[idx24] == Constraint::Const(const_24, Fp { v: 24 }),
            decreases n - ci,
        {
            let chunk = &padded_chunks[ci];
            let mut j: usize = 0;
            while j < 16
                invariant
                    ci < n,
                    j <= 16,
                    n == padded_chunks@.len(),
                    n <= 0xffff_ffff,
                    forall|k: int|
                        0 <= k < padded_chunks@.len() ==> (#[trigger] padded_chunks@[k]).slice.len
                            == 128 && padded_chunks@[k].slice.start + 128 <= usize::MAX,
                    chunk == &padded_chunks[ci as int],
                    builder.mem_looking == old(builder).mem_looking,
                    builder.mem_looked_up@.len() == looked0 + 41 + 16 * ci + j,
                    m0 == old(builder).mem_multiplicities@.len(),
                    builder.mem_multiplicities@.len() == m0 + 41 + 16 * ci + j,
                    forall|k: int|
                        m0 <= k < m0 + 8 ==> #[trigger] builder.mem_multiplicities@[k]
                            == num_messages,
                    forall|k: int|
                        m0 + 8 <= k < m0 + 41 ==> #[trigger] builder.mem_multiplicities@[k]
                            == num_compresses,
                    forall|k: int|
                        m0 + 41 <= k < m0 + 41 + 16 * ci + j
                            ==> #[trigger] builder.mem_multiplicities@[k] == const_24,
                    builder.next_trace + builder.next_global == tg0 + 3 * (41 + 16 * ci + j),
                    tg0 + 3 * total <= usize::MAX,
                    total == 41 + 16 * padded_chunks@.len() + t_values.slice.len / 8,
                    0 <= idx24 < builder.constraints@.len(),
                    builder.constraints@[idx24] == Constraint::Const(const_24, Fp { v: 24 }),
                decreases 16 - j,
            {
                let word = chunk.get_u64(j);
                builder.store_u64(&m.get(j), word, &Time::constant(ci as u32), Some(const_24));
                j = j + 1;
            }
            ci = ci + 1;
        }

        // One byte counter per compression, read on each of its rows.
        let nt = t_values.len_u64();
        let mut ti: usize = 0;
        while ti < nt
            invariant
                ti <= nt,
                nt == t_values.slice.len / 8,
                nt <= 0xffff_ffff,
                t_values.slice.len % 8 == 0,
                t_values.slice.start + t_values.slice.len <= usize::MAX,
                builder.mem_looking == old(builder).mem_looking,
                builder.mem_looked_up@.len() == looked0 + 41 + 16 * n + ti,
                m0 == old(builder).mem_multiplicities@.len(),
                builder.mem_multiplicities@.len() == m0 + 41 + 16 * n + ti,
                forall|k: int|
                    m0 <= k < m0 + 8 ==> #[trigger] builder.mem_multiplicities@[k]
                        == num_messages,
                forall|k: int|
                    m0 + 8 <= k < m0 + 41 ==> #[trigger] builder.mem_multiplicities@[k]
                        == num_compresses,
                forall|k: int|
                    m0 + 41 <= k < m0 + 41 + 16 * n ==> #[trigger] builder.mem_multiplicities@[k]
                        == const_24,
                forall|k: int|
                    m0 + 41 + 16 * n <= k < m0 + 41 + 16 * n + ti
                        ==> #[trigger] builder.mem_multiplicities@[k] == consts.const_96,
                builder.next_trace + builder.next_global == tg0 + 3 * (41 + 16 * n + ti),
                tg0 + 3 * total <= usize::MAX,
                total == 41 + 16 * padded_chunks@.len() + t_values.slice.len / 8,
                n == padded_chunks@.len(),
                0 <= idx24 < builder.constraints@.len(),
                builder.constraints@[idx24] == Constraint::Const(const_24, Fp { v: 24 }),
            decreases nt - ti,
        {
            proof {
                vstd::arithmetic::div_mod::lemma_fundamental_div_mod(
                    t_values.slice.len as int,
                    8,
                );
            }
            let word = t_values.get_u64(ti);
            builder.store_u64(&t.get(ti), word, &Time::zero(), Some(consts.const_96));
            ti = ti + 1;
        }
        proof {
            assert forall|k: int|
                m0 + 41 <= k < m0 + 41 + 16 * (padded_chunks@.len() as int) implies exists|
                kk: int,
            |
                0 <= kk < builder.constraints@.len() && builder.constraints@[kk]
                    == Constraint::Const(
                    #[trigger] builder.mem_multiplicities@[k],
                    Fp { v: 24 },
                ) by {
                assert(builder.constraints@[idx24] == Constraint::Const(
                    builder.mem_multiplicities@[k],
                    Fp { v: 24 },
                ));
            }
        }

        BLAKE2BMemory {
            compress_initial_indices,
            iv: iv_slice,
            compress_iv,
            v_indices,
            v_last_write_ages,
            permutations,
            h,
            v,
            v_final,
            m,
            t,
            end_bit,
            dummy_index,
        }
    }
}

} // verus!
