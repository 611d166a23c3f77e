//! Evaluation environments: the concrete values registers are read from.
//!
//! `TraceWriter` is the witness-time store, holding every trace row plus the
//! global, public and challenge values.  `AirParser` is the view a constraint
//! sees when it is evaluated at one row: that row, the next row, and the
//! row-independent spaces.  Both are modelled by the same spec-level
//! environment, so a contract proved against one transfers to the other.

use crate::field::{p, Fp};
use crate::cubic::CubicValue;
use crate::register::{CubicRegister, ElementRegister, MemorySlice, RegisterSpace};
use vstd::prelude::*;

verus! {

/// All representatives in a sequence are canonical.
pub open spec fn seq_wf(s: Seq<int>) -> bool {
    forall|i: int| 0 <= i < s.len() ==> 0 <= #[trigger] s[i] < p()
}

/// The values visible to one row's constraint evaluation.
pub struct EnvView {
    pub local: Seq<int>,
    pub next: Seq<int>,
    pub global: Seq<int>,
    pub public_inputs: Seq<int>,
    pub challenges: Seq<int>,
}

/// Every value in the environment is canonical.
pub open spec fn env_wf(env: EnvView) -> bool {
    &&& seq_wf(env.local)
    &&& seq_wf(env.next)
    &&& seq_wf(env.global)
    &&& seq_wf(env.public_inputs)
    &&& seq_wf(env.challenges)
}

/// Length of one storage space of the environment.
pub open spec fn space_len(env: EnvView, space: RegisterSpace) -> nat {
    match space {
        RegisterSpace::Trace => env.local.len(),
        RegisterSpace::Global => env.global.len(),
        RegisterSpace::Public => env.public_inputs.len(),
        RegisterSpace::Challenge => env.challenges.len(),
    }
}

/// Reads one cell of the environment.
pub open spec fn env_read(env: EnvView, space: RegisterSpace, i: int) -> int {
    match space {
        RegisterSpace::Trace => env.local[i],
        RegisterSpace::Global => env.global[i],
        RegisterSpace::Public => env.public_inputs[i],
        RegisterSpace::Challenge => env.challenges[i],
    }
}

/// The slice's cells all lie inside its storage space.
pub open spec fn slice_in_env(slice: MemorySlice, env: EnvView) -> bool {
    slice.start + slice.len <= space_len(env, slice.space)
}

/// Value of an element register under an environment.
pub open spec fn elem_val(r: ElementRegister, env: EnvView) -> int {
    env_read(env, r.slice.space, r.slice.start as int)
}

/// Value of a trace cubic register at the next row.
pub open spec fn cubic_val_next(r: CubicRegister, env: EnvView) -> (int, int, int) {
    (
        env.next[r.slice.start as int],
        env.next[r.slice.start + 1],
        env.next[r.slice.start + 2],
    )
}

/// Value of a cubic register under an environment: three consecutive cells.
pub open spec fn cubic_val(r: CubicRegister, env: EnvView) -> (int, int, int) {
    (
        env_read(env, r.slice.space, r.slice.start as int),
        env_read(env, r.slice.space, r.slice.start + 1),
        env_read(env, r.slice.space, r.slice.start + 2),
    )
}

/// View of a vector of field elements as a sequence of representatives.
pub open spec fn vals(v: Seq<Fp>) -> Seq<int> {
    v.map_values(|x: Fp| x@)
}

/// Unfolds the representative view of a vector, element by element.
pub proof fn lemma_vals(s: Seq<Fp>)
    ensures
        vals(s).len() == s.len(),
        forall|i: int| 0 <= i < s.len() ==> vals(s)[i] == (#[trigger] s[i])@,
{
}

/// The constraint-evaluation context for a single row.
///
/// Constraints push the value of each vanishing polynomial into `emitted`;
/// the row satisfies them when every emitted value is zero.
pub struct AirParser {
    pub local: Vec<Fp>,
    pub next: Vec<Fp>,
    pub global: Vec<Fp>,
    pub public_inputs: Vec<Fp>,
    pub challenges: Vec<Fp>,
    pub emitted: Vec<CubicValue>,
}

impl View for AirParser {
    type V = EnvView;

    open spec fn view(&self) -> EnvView {
        EnvView {
            local: vals(self.local@),
            next: vals(self.next@),
            global: vals(self.global@),
            public_inputs: vals(self.public_inputs@),
            challenges: vals(self.challenges@),
        }
    }
}

impl AirParser {
    /// Every stored value is canonical.
    pub open spec fn wf(self) -> bool {
        env_wf(self@)
    }

    /// The evaluation spaces agree with another context's; the emitted
    /// constraint values may differ.
    pub open spec fn same_spaces(self, other: AirParser) -> bool {
        &&& self.local == other.local
        &&& self.next == other.next
        &&& self.global == other.global
        &&& self.public_inputs == other.public_inputs
        &&& self.challenges == other.challenges
    }

    /// All emitted constraint values vanish.
    pub open spec fn all_satisfied(self) -> bool {
        forall|i: int|
            0 <= i < self.emitted@.len() ==> (#[trigger] self.emitted@[i])@ == crate::cubic::czero()
    }

    /// Records the value of one vanishing polynomial.
    pub fn constraint(&mut self, v: CubicValue)
        ensures
            final(self).same_spaces(*old(self)),
            final(self).emitted@ == old(self).emitted@.push(v),
    {
        self.emitted.push(v);
    }

    /// Turns a field constant into an evaluator value; the identity here,
    /// since this evaluator works on concrete field elements.
    pub fn constant(&self, x: Fp) -> (r: Fp)
        ensures
            r == x,
    {
        x
    }

    /// Reads an element register at the current row.
    pub fn read_element(&self, r: &ElementRegister) -> (v: Fp)
        requires
            self.wf(),
            slice_in_env(r.slice, self@),
            r.slice.len == 1,
        ensures
            v.wf(),
            v@ == elem_val(*r, self@),
    {
        proof {
            lemma_vals(self.local@);
            lemma_vals(self.global@);
            lemma_vals(self.public_inputs@);
            lemma_vals(self.challenges@);
            assert(self.local@.len() == self.local.len());
            assert(self.global@.len() == self.global.len());
            assert(self.public_inputs@.len() == self.public_inputs.len());
            assert(self.challenges@.len() == self.challenges.len());
        }
        let i = r.slice.start;
        match r.slice.space {
            RegisterSpace::Trace => self.local[i],
            RegisterSpace::Global => self.global[i],
            RegisterSpace::Public => self.public_inputs[i],
            RegisterSpace::Challenge => self.challenges[i],
        }
    }

    /// Reads a cubic register at the current row.
    pub fn read_cubic(&self, r: &CubicRegister) -> (v: CubicValue)
        requires
            self.wf(),
            slice_in_env(r.slice, self@),
            r.slice.len == 3,
        ensures
            v.wf(),
            v@ == cubic_val(*r, self@),
    {
        proof {
            lemma_vals(self.local@);
            lemma_vals(self.global@);
            lemma_vals(self.public_inputs@);
            lemma_vals(self.challenges@);
            assert(self.local@.len() == self.local.len());
            assert(self.global@.len() == self.global.len());
            assert(self.public_inputs@.len() == self.public_inputs.len());
            assert(self.challenges@.len() == self.challenges.len());
        }
        let i = r.slice.start;
        match r.slice.space {
            RegisterSpace::Trace => CubicValue {
                c0: self.local[i],
                c1: self.local[i + 1],
                c2: self.local[i + 2],
            },
            RegisterSpace::Global => CubicValue {
                c0: self.global[i],
                c1: self.global[i + 1],
                c2: self.global[i + 2],
            },
            RegisterSpace::Public => CubicValue {
                c0: self.public_inputs[i],
                c1: self.public_inputs[i + 1],
                c2: self.public_inputs[i + 2],
            },
            RegisterSpace::Challenge => CubicValue {
                c0: self.challenges[i],
                c1: self.challenges[i + 1],
                c2: self.challenges[i + 2],
            },
        }
    }

    /// Reads a trace cubic register at the next row, for transition
    /// constraints.
    pub fn read_cubic_next(&self, r: &CubicRegister) -> (v: CubicValue)
        requires
            self.wf(),
            r.slice.space == RegisterSpace::Trace,
            r.slice.start + r.slice.len <= self@.next.len(),
            r.slice.len == 3,
        ensures
            v.wf(),
            v@ == cubic_val_next(*r, self@),
    {
        proof {
            lemma_vals(self.next@);
            assert(self.next@.len() == self.next.len());
        }
        let i = r.slice.start;
        CubicValue { c0: self.next[i], c1: self.next[i + 1], c2: self.next[i + 2] }
    }
}

/// The witness-time store for a whole trace.
pub struct TraceWriter {
    pub width: usize,
    pub trace: Vec<Vec<Fp>>,
    pub global: Vec<Fp>,
    pub public_inputs: Vec<Fp>,
    pub challenges: Vec<Fp>,
}

impl TraceWriter {
    /// Number of rows.
    pub open spec fn spec_num_rows(self) -> nat {
        self.trace@.len()
    }

    /// All rows have the declared width and every value everywhere is
    /// canonical.
    pub open spec fn wf(self) -> bool {
        &&& forall|r: int|
            0 <= r < self.trace@.len() ==> (#[trigger] self.trace@[r])@.len() == self.width
        &&& forall|r: int| 0 <= r < self.trace@.len() ==> seq_wf(vals(#[trigger] self.trace@[r]@))
        &&& seq_wf(vals(self.global@))
        &&& seq_wf(vals(self.public_inputs@))
        &&& seq_wf(vals(self.challenges@))
    }

    /// The environment a constraint sees when evaluated at `row`.
    pub open spec fn env_at(self, row: int) -> EnvView {
        EnvView {
            local: vals(self.trace@[row]@),
            next: if row + 1 < self.trace@.len() {
                vals(self.trace@[row + 1]@)
            } else {
                Seq::empty()
            },
            global: vals(self.global@),
            public_inputs: vals(self.public_inputs@),
            challenges: vals(self.challenges@),
        }
    }

    /// Number of rows.
    pub fn num_rows(&self) -> (n: usize)
        ensures
            n == self.spec_num_rows(),
    {
        self.trace.len()
    }

    /// Reads an element register's concrete value at a row.
    pub fn read(&self, r: &ElementRegister, row: usize) -> (v: Fp)
        requires
            self.wf(),
            row < self.spec_num_rows(),
            slice_in_env(r.slice, self.env_at(row as int)),
            r.slice.len == 1,
        ensures
            v.wf(),
            v@ == elem_val(*r, self.env_at(row as int)),
    {
        proof {
            lemma_vals(self.trace@[row as int]@);
            lemma_vals(self.global@);
            lemma_vals(self.public_inputs@);
            lemma_vals(self.challenges@);
            assert(self.trace@[row as int]@.len() == self.trace@[row as int].len());
            assert(self.global@.len() == self.global.len());
            assert(self.public_inputs@.len() == self.public_inputs.len());
            assert(self.challenges@.len() == self.challenges.len());
        }
        let i = r.slice.start;
        match r.slice.space {
            RegisterSpace::Trace => self.trace[row][i],
            RegisterSpace::Global => self.global[i],
            RegisterSpace::Public => self.public_inputs[i],
            RegisterSpace::Challenge => self.challenges[i],
        }
    }

    /// Reads a cubic register's concrete value at a row.
    pub fn read_cubic(&self, r: &CubicRegister, row: usize) -> (v: CubicValue)
        requires
            self.wf(),
            row < self.spec_num_rows(),
            slice_in_env(r.slice, self.env_at(row as int)),
            r.slice.len == 3,
        ensures
            v.wf(),
            v@ == cubic_val(*r, self.env_at(row as int)),
    {
        proof {
            lemma_vals(self.trace@[row as int]@);
            lemma_vals(self.global@);
            lemma_vals(self.public_inputs@);
            lemma_vals(self.challenges@);
            assert(self.trace@[row as int]@.len() == self.trace@[row as int].len());
            assert(self.global@.len() == self.global.len());
            assert(self.public_inputs@.len() == self.public_inputs.len());
            assert(self.challenges@.len() == self.challenges.len());
        }
        let i = r.slice.start;
        match r.slice.space {
            RegisterSpace::Trace => CubicValue {
                c0: self.trace[row][i],
                c1: self.trace[row][i + 1],
                c2: self.trace[row][i + 2],
            },
            RegisterSpace::Global => CubicValue {
                c0: self.global[i],
                c1: self.global[i + 1],
                c2: self.global[i + 2],
            },
            RegisterSpace::Public => CubicValue {
                c0: self.public_inputs[i],
                c1: self.public_inputs[i + 1],
                c2: self.public_inputs[i + 2],
            },
            RegisterSpace::Challenge => CubicValue {
                c0: self.challenges[i],
                c1: self.challenges[i + 1],
                c2: self.challenges[i + 2],
            },
        }
    }

    /// Writes an element register's concrete value at a row.  Only trace
    /// cells are written row by row.
    pub fn write(&mut self, r: &ElementRegister, row: usize, v: Fp)
        requires
            old(self).wf(),
            row < old(self).spec_num_rows(),
            r.slice.space == RegisterSpace::Trace,
            r.slice.start < old(self).width,
            v.wf(),
        ensures
            final(self).wf(),
            final(self).width == old(self).width,
            final(self).spec_num_rows() == old(self).spec_num_rows(),
            final(self).global == old(self).global,
            final(self).public_inputs == old(self).public_inputs,
            final(self).challenges == old(self).challenges,
            forall|rr: int|
                0 <= rr < final(self).trace@.len() && rr != row ==> #[trigger] final(self).trace@[rr]
                    == old(self).trace@[rr],
            final(self).trace@[row as int]@ == old(self).trace@[row as int]@.update(
                r.slice.start as int,
                v,
            ),
    {
        self.trace[row][r.slice.start] = v;
        proof {
            assert forall|rr: int| 0 <= rr < self.trace@.len() implies seq_wf(
                vals(#[trigger] self.trace@[rr]@),
            ) by {
                if rr == row {
                    assert forall|i: int|
                        0 <= i < vals(self.trace@[rr]@).len() implies 0 <= #[trigger] vals(
                        self.trace@[rr]@,
                    )[i] < p() by {
                        assert(vals(old(self).trace@[rr]@)[i] == old(self).trace@[rr]@[i]@);
                    }
                }
            }
        }
    }

    /// Writes a cubic register's concrete value at a row.
    pub fn write_cubic(&mut self, r: &CubicRegister, row: usize, v: CubicValue)
        requires
            old(self).wf(),
            row < old(self).spec_num_rows(),
            r.slice.space == RegisterSpace::Trace,
            r.slice.start + 3 <= old(self).width,
            r.slice.len == 3,
            v.wf(),
        ensures
            final(self).wf(),
            final(self).width == old(self).width,
            final(self).spec_num_rows() == old(self).spec_num_rows(),
            final(self).global == old(self).global,
            final(self).public_inputs == old(self).public_inputs,
            final(self).challenges == old(self).challenges,
            forall|rr: int|
                0 <= rr < final(self).trace@.len() && rr != row ==> #[trigger] final(self).trace@[rr]
                    == old(self).trace@[rr],
            cubic_val(*r, final(self).env_at(row as int)) == v@,
            forall|i: int|
                0 <= i < final(self).width && !(r.slice.start <= i < r.slice.start + 3)
                    ==> #[trigger] final(self).trace@[row as int]@[i] == old(self).trace@[
                    row as int
                ]@[i],
    {
        let e0 = ElementRegister {
            slice: MemorySlice { space: RegisterSpace::Trace, start: r.slice.start, len: 1 },
        };
        let e1 = ElementRegister {
            slice: MemorySlice { space: RegisterSpace::Trace, start: r.slice.start + 1, len: 1 },
        };
        let e2 = ElementRegister {
            slice: MemorySlice { space: RegisterSpace::Trace, start: r.slice.start + 2, len: 1 },
        };
        self.write(&e0, row, v.c0);
        self.write(&e1, row, v.c1);
        self.write(&e2, row, v.c2);
    }
}

} // verus!
