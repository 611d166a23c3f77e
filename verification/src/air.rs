//! The AIR interface: round bookkeeping, constraint evaluation, and the
//! finished memory-consistency AIR that the builder's output forms.

use crate::accumulate::{accumulator_wf, PointerAccumulator};
use crate::builder::{AirBuilder, Constraint};
use crate::cubic::cembed;
use crate::field::fsub;
use crate::lookup::{cubic_views, lookup_chip_residues, lookup_chip_wf, LookupChipConstraint, LookupConstraint};
use crate::register::{CubicRegister, ElementRegister, MemorySlice, RegisterSpace};
use crate::trace::{cubic_val, elem_val, env_read, slice_in_env, AirParser, EnvView};
use vstd::prelude::*;

verus! {

/// Per-round shape of an AIR: columns, global values, and challenges.
#[derive(Debug, Clone, Copy, PartialEq, Eq, Hash)]
pub struct RoundDatum {
    /// The number of columns generated in this round.
    pub num_columns: usize,
    /// The range of global values generated in this round.
    pub global_values_range: (usize, usize),
    /// The number of validator challenges needed after this round.
    pub num_challenges: usize,
}

impl RoundDatum {
    /// The global-value range is not inverted.
    pub open spec fn wf(self) -> bool {
        self.global_values_range.0 <= self.global_values_range.1
    }

    /// Packs the three round quantities.
    pub fn new(
        num_columns: usize,
        global_values_range: (usize, usize),
        num_challenges: usize,
    ) -> (r: RoundDatum)
        ensures
            r.num_columns == num_columns,
            r.global_values_range == global_values_range,
            r.num_challenges == num_challenges,
    {
        RoundDatum { num_columns, global_values_range, num_challenges }
    }
}

/// Sum of the columns over rounds, saturating at the machine limit.
pub open spec fn sum_columns(s: Seq<RoundDatum>) -> int
    decreases s.len(),
{
    if s.len() == 0 {
        0
    } else {
        let rest = sum_columns(s.drop_last());
        if rest + s.last().num_columns > usize::MAX {
            usize::MAX as int
        } else {
            rest + s.last().num_columns
        }
    }
}

/// Sum of the global-value counts over rounds, saturating at the machine
/// limit; an inverted range counts as zero.
pub open spec fn sum_globals(s: Seq<RoundDatum>) -> int
    decreases s.len(),
{
    if s.len() == 0 {
        0
    } else {
        let rest = sum_globals(s.drop_last());
        let here = if s.last().global_values_range.1 >= s.last().global_values_range.0 {
            s.last().global_values_range.1 - s.last().global_values_range.0
        } else {
            0
        };
        if rest + here > usize::MAX {
            usize::MAX as int
        } else {
            rest + here
        }
    }
}

/// One constraint's evaluation on a row context.
pub trait AirConstraint {
    /// The constraint's registers fit the environment.
    spec fn constraint_wf(&self, env: EnvView) -> bool;

    /// The residues this constraint emits at one row.
    spec fn spec_residues(&self, env: EnvView) -> Seq<(int, int, int)>;

    /// Evaluation of the vanishing polynomials: pushes exactly this
    /// constraint's residues into the context.
    fn eval(&self, parser: &mut AirParser)
        requires
            old(parser).wf(),
            self.constraint_wf(old(parser)@),
        ensures
            final(parser).same_spaces(*old(parser)),
            cubic_views(final(parser).emitted@) == cubic_views(old(parser).emitted@)
                + self.spec_residues(old(parser)@),
    ;
}

impl AirConstraint for PointerAccumulator {
    open spec fn constraint_wf(&self, env: EnvView) -> bool {
        accumulator_wf(*self, env)
    }

    open spec fn spec_residues(&self, env: EnvView) -> Seq<(int, int, int)> {
        seq![self.spec_residue(env)]
    }

    fn eval(&self, parser: &mut AirParser) {
        let ghost pre = parser.emitted@;
        PointerAccumulator::eval(self, parser);
        proof {
            assert(cubic_views(pre).push(self.spec_residue(old(parser)@)) =~= cubic_views(pre)
                + seq![self.spec_residue(old(parser)@)]);
        }
    }
}

impl AirConstraint for LookupChipConstraint {
    open spec fn constraint_wf(&self, env: EnvView) -> bool {
        lookup_chip_wf(*self, env)
    }

    open spec fn spec_residues(&self, env: EnvView) -> Seq<(int, int, int)> {
        lookup_chip_residues(*self, env)
    }

    fn eval(&self, parser: &mut AirParser) {
        LookupChipConstraint::eval(self, parser);
    }
}

/// Static shape of an AIR.
pub trait RAirData {
    /// The rounds' shapes, as a mathematical sequence.
    spec fn spec_round_data(&self) -> Seq<RoundDatum>;

    /// The width of the AIR data.
    fn width(&self) -> usize;

    /// The maximal constraint degree, as a mathematical value.
    spec fn spec_constraint_degree(&self) -> usize;

    /// The maximal constraint degree.
    fn constraint_degree(&self) -> (n: usize)
        ensures
            n == self.spec_constraint_degree(),
    ;

    /// The data needed for each round.
    fn round_data(&self) -> (r: Vec<RoundDatum>)
        ensures
            r@ == self.spec_round_data(),
    ;

    /// Number of public inputs.
    fn num_public_inputs(&self) -> usize;

    /// Total number of columns across all rounds, saturating at the
    /// machine limit.
    fn num_columns(&self) -> (n: usize)
        ensures
            n == sum_columns(self.spec_round_data()),
    {
        let rounds = self.round_data();
        let mut total: usize = 0;
        let mut i: usize = 0;
        while i < rounds.len()
            invariant
                i <= rounds@.len(),
                rounds@ == self.spec_round_data(),
                total == sum_columns(rounds@.take(i as int)),
            decreases rounds@.len() - i,
        {
            proof {
                assert(rounds@.take(i + 1).drop_last() =~= rounds@.take(i as int));
            }
            if total > usize::MAX - rounds[i].num_columns {
                total = usize::MAX;
            } else {
                total = total + rounds[i].num_columns;
            }
            i = i + 1;
        }
        proof {
            assert(rounds@.take(rounds@.len() as int) =~= rounds@);
        }
        total
    }

    /// Total number of rounds.
    fn num_rounds(&self) -> (n: usize)
        ensures
            n == self.spec_round_data().len(),
    {
        self.round_data().len()
    }

    /// Total number of global values across all rounds, saturating at the
    /// machine limit.
    fn num_global_values(&self) -> (n: usize)
        ensures
            n == sum_globals(self.spec_round_data()),
    {
        let rounds = self.round_data();
        let mut total: usize = 0;
        let mut i: usize = 0;
        while i < rounds.len()
            invariant
                i <= rounds@.len(),
                rounds@ == self.spec_round_data(),
                total == sum_globals(rounds@.take(i as int)),
            decreases rounds@.len() - i,
        {
            proof {
                assert(rounds@.take(i + 1).drop_last() =~= rounds@.take(i as int));
            }
            let lo = rounds[i].global_values_range.0;
            let hi = rounds[i].global_values_range.1;
            let here: usize = if hi >= lo {
                hi - lo
            } else {
                0
            };
            if total > usize::MAX - here {
                total = usize::MAX;
            } else {
                total = total + here;
            }
            i = i + 1;
        }
        proof {
            assert(rounds@.take(rounds@.len() as int) =~= rounds@);
        }
        total
    }

    /// Quotient degree factor: the constraint degree less one, but at
    /// least one.
    fn quotient_degree_factor(&self) -> (n: usize)
        ensures
            n >= 1,
            n == if self.spec_constraint_degree() <= 1 {
                1int
            } else {
                self.spec_constraint_degree() - 1
            },
    {
        let d = self.constraint_degree();
        if d <= 1 {
            1
        } else {
            d - 1
        }
    }
}

/// A whole AIR: its shape plus row and global constraint evaluation.
pub trait RAir: RAirData {
    /// Every constraint's registers fit the environment.
    spec fn air_wf(&self, env: EnvView) -> bool;

    /// The residues one row's evaluation emits.
    spec fn spec_residues(&self, env: EnvView) -> Seq<(int, int, int)>;

    /// The residues the global evaluation emits.
    spec fn spec_global_residues(&self, env: EnvView) -> Seq<(int, int, int)>;

    /// Evaluation of the vanishing polynomials at one row: pushes exactly
    /// every registered constraint's residues, in registration order.
    fn eval(&self, parser: &mut AirParser)
        requires
            old(parser).wf(),
            self.air_wf(old(parser)@),
        ensures
            final(parser).same_spaces(*old(parser)),
            cubic_views(final(parser).emitted@) == cubic_views(old(parser).emitted@)
                + self.spec_residues(old(parser)@),
    ;

    /// Evaluation of global vanishing constraints: pushes exactly the
    /// global residues.
    fn eval_global(&self, parser: &mut AirParser)
        requires
            old(parser).wf(),
            self.air_wf(old(parser)@),
        ensures
            final(parser).same_spaces(*old(parser)),
            cubic_views(final(parser).emitted@) == cubic_views(old(parser).emitted@)
                + self.spec_global_residues(old(parser)@),
    ;
}

/// One constraint of the finished AIR fits the environment.
pub open spec fn air_constraint_wf(c: Constraint, env: EnvView) -> bool {
    match c {
        Constraint::Accumulation(acc) => accumulator_wf(acc, env),
        Constraint::Lookup(lc) => lookup_chip_wf(lc, env),
        Constraint::Equal(a, b) => slice_in_env(a, env) && slice_in_env(b, env) && a.len == b.len,
        Constraint::Const(r, v) => slice_in_env(r.slice, env) && r.slice.len == 1 && v.wf(),
    }
}

/// The residues the cell-by-cell equality of two slices emits.
pub open spec fn equal_residues(a: MemorySlice, b: MemorySlice, env: EnvView) -> Seq<
    (int, int, int),
> {
    Seq::new(
        a.len as nat,
        |i: int|
            cembed(fsub(env_read(env, a.space, a.start + i), env_read(env, b.space, b.start + i))),
    )
}

/// The residues one registered constraint emits at a row.
pub open spec fn constraint_residues(c: Constraint, env: EnvView) -> Seq<(int, int, int)> {
    match c {
        Constraint::Accumulation(acc) => seq![acc.spec_residue(env)],
        Constraint::Lookup(lc) => lookup_chip_residues(lc, env),
        Constraint::Equal(a, b) => equal_residues(a, b, env),
        Constraint::Const(r, v) => seq![cembed(fsub(elem_val(r, env), v@))],
    }
}

/// The residues a whole constraint list emits, in registration order.
pub open spec fn air_residues(cs: Seq<Constraint>, env: EnvView) -> Seq<(int, int, int)>
    decreases cs.len(),
{
    if cs.len() == 0 {
        Seq::empty()
    } else {
        air_residues(cs.drop_last(), env) + constraint_residues(cs.last(), env)
    }
}

/// The global residues: one per lookup table, its final accumulated
/// running-sum value, which must vanish.
pub open spec fn air_global_residues(cs: Seq<Constraint>, env: EnvView) -> Seq<(int, int, int)>
    decreases cs.len(),
{
    if cs.len() == 0 {
        Seq::empty()
    } else {
        air_global_residues(cs.drop_last(), env) + (match cs.last() {
            Constraint::Lookup(LookupChipConstraint::Element(lc)) => seq![
                cubic_val(lc.running_sum, env),
            ],
            Constraint::Lookup(LookupChipConstraint::CubicElement(lc)) => seq![
                cubic_val(lc.running_sum, env),
            ],
            _ => Seq::empty(),
        })
    }
}

/// The finished, immutable memory-consistency AIR: the constraint set the
/// build phase produced, with its dimensions.
#[derive(Debug)]
pub struct MemoryAir {
    pub width: usize,
    pub num_public: usize,
    pub num_global: usize,
    pub num_challenges: usize,
    pub constraints: Vec<Constraint>,
}

impl MemoryAir {
    /// Takes ownership of a finished build.
    pub fn from_builder(builder: AirBuilder, num_public: usize) -> (r: MemoryAir)
        ensures
            r.width == builder.next_trace,
            r.num_public == num_public,
            r.num_global == builder.next_global,
            r.num_challenges == builder.next_challenge,
            r.constraints == builder.constraints,
    {
        MemoryAir {
            width: builder.next_trace,
            num_public,
            num_global: builder.next_global,
            num_challenges: builder.next_challenge,
            constraints: builder.constraints,
        }
    }
}

/// Emits the cell-by-cell differences of two equal-length slices:
/// exactly their equality residues, in order.
fn eval_equal(parser: &mut AirParser, a: MemorySlice, b: MemorySlice)
    requires
        old(parser).wf(),
        slice_in_env(a, old(parser)@),
        slice_in_env(b, old(parser)@),
        a.len == b.len,
    ensures
        final(parser).same_spaces(*old(parser)),
        cubic_views(final(parser).emitted@) == cubic_views(old(parser).emitted@)
            + equal_residues(a, b, old(parser)@),
{
    let mut i: usize = 0;
    while i < a.len
        invariant
            parser.wf(),
            parser.same_spaces(*old(parser)),
            slice_in_env(a, parser@),
            slice_in_env(b, parser@),
            a.len == b.len,
            i <= a.len,
            cubic_views(parser.emitted@) == cubic_views(old(parser).emitted@) + equal_residues(
                a,
                b,
                old(parser)@,
            ).take(i as int),
        decreases a.len - i,
    {
        proof {
            crate::trace::lemma_vals(parser.local@);
            crate::trace::lemma_vals(parser.global@);
            crate::trace::lemma_vals(parser.public_inputs@);
            crate::trace::lemma_vals(parser.challenges@);
            assert(parser.local@.len() == parser.local.len());
            assert(parser.global@.len() == parser.global.len());
            assert(parser.public_inputs@.len() == parser.public_inputs.len());
            assert(parser.challenges@.len() == parser.challenges.len());
        }
        let ra = ElementRegister {
            slice: MemorySlice { space: a.space, start: a.start + i, len: 1 },
        };
        let rb = ElementRegister {
            slice: MemorySlice { space: b.space, start: b.start + i, len: 1 },
        };
        let va = parser.read_element(&ra);
        let vb = parser.read_element(&rb);
        let diff = va.sub(vb);
        let residue = crate::cubic::CubicValue::from_base(diff);
        let ghost pre = parser.emitted@;
        parser.constraint(residue);
        proof {
            let rs = equal_residues(a, b, old(parser)@);
            assert(residue@ == rs[i as int]);
            assert(cubic_views(pre.push(residue)) =~= cubic_views(pre).push(residue@));
            assert(cubic_views(old(parser).emitted@) + rs.take(i + 1) =~= (cubic_views(
                old(parser).emitted@,
            ) + rs.take(i as int)).push(rs[i as int]));
        }
        i = i + 1;
    }
    proof {
        assert(equal_residues(a, b, old(parser)@).take(a.len as int) =~= equal_residues(
            a,
            b,
            old(parser)@,
        ));
    }
}

impl RAirData for MemoryAir {
    open spec fn spec_round_data(&self) -> Seq<RoundDatum> {
        seq![
            RoundDatum {
                num_columns: self.width,
                global_values_range: (0, self.num_global),
                num_challenges: self.num_challenges,
            },
        ]
    }

    open spec fn spec_constraint_degree(&self) -> usize {
        3
    }

    fn width(&self) -> usize {
        self.width
    }

    fn constraint_degree(&self) -> (n: usize) {
        3
    }

    fn round_data(&self) -> (r: Vec<RoundDatum>) {
        let mut v: Vec<RoundDatum> = Vec::new();
        v.push(
            RoundDatum {
                num_columns: self.width,
                global_values_range: (0, self.num_global),
                num_challenges: self.num_challenges,
            },
        );
        proof {
            assert(v@ =~= self.spec_round_data());
        }
        v
    }

    fn num_public_inputs(&self) -> usize {
        self.num_public
    }
}

impl RAir for MemoryAir {
    open spec fn air_wf(&self, env: EnvView) -> bool {
        forall|i: int|
            0 <= i < self.constraints@.len() ==> air_constraint_wf(
                #[trigger] self.constraints@[i],
                env,
            )
    }

    open spec fn spec_residues(&self, env: EnvView) -> Seq<(int, int, int)> {
        air_residues(self.constraints@, env)
    }

    open spec fn spec_global_residues(&self, env: EnvView) -> Seq<(int, int, int)> {
        air_global_residues(self.constraints@, env)
    }

    /// Evaluates every registered constraint at this row, emitting exactly
    /// each one's residues in registration order.
    fn eval(&self, parser: &mut AirParser) {
        let ghost env = old(parser)@;
        let ghost cs = self.constraints@;
        let mut i: usize = 0;
        while i < self.constraints.len()
            invariant
                parser.wf(),
                parser.same_spaces(*old(parser)),
                self.air_wf(parser@),
                i <= self.constraints@.len(),
                env == old(parser)@,
                cs == self.constraints@,
                cubic_views(parser.emitted@) == cubic_views(old(parser).emitted@) + air_residues(
                    cs.take(i as int),
                    env,
                ),
            decreases self.constraints@.len() - i,
        {
            proof {
                assert(parser@ == env);
                assert(cs.take(i + 1).drop_last() =~= cs.take(i as int));
                assert(cs.take(i + 1).last() == cs[i as int]);
            }
            let ghost pre = parser.emitted@;
            match &self.constraints[i] {
                Constraint::Accumulation(acc) => {
                    acc.eval(parser);
                    proof {
                        assert(cubic_views(pre).push(acc.spec_residue(env)) =~= cubic_views(pre)
                            + seq![acc.spec_residue(env)]);
                    }
                },
                Constraint::Lookup(lc) => LookupChipConstraint::eval(lc, parser),
                Constraint::Equal(a, b) => eval_equal(parser, *a, *b),
                Constraint::Const(r, v) => {
                    let actual = parser.read_element(r);
                    let residue = crate::cubic::CubicValue::from_base(actual.sub(*v));
                    parser.constraint(residue);
                    proof {
                        assert(residue@ == cembed(fsub(elem_val(*r, env), v@)));
                        assert(cubic_views(pre.push(residue)) =~= cubic_views(pre).push(residue@));
                        assert(cubic_views(pre).push(residue@) =~= cubic_views(pre) + seq![
                            cembed(fsub(elem_val(*r, env), v@)),
                        ]);
                    }
                },
            }
            proof {
                assert(cubic_views(parser.emitted@) =~= cubic_views(old(parser).emitted@)
                    + air_residues(cs.take(i + 1), env));
            }
            i = i + 1;
        }
        proof {
            assert(cs.take(cs.len() as int) =~= cs);
        }
    }

    /// Evaluates the global constraints: each lookup table's accumulated
    /// total, which must vanish, is emitted in registration order.
    fn eval_global(&self, parser: &mut AirParser) {
        let ghost env = old(parser)@;
        let ghost cs = self.constraints@;
        let mut i: usize = 0;
        while i < self.constraints.len()
            invariant
                parser.wf(),
                parser.same_spaces(*old(parser)),
                self.air_wf(parser@),
                i <= self.constraints@.len(),
                env == old(parser)@,
                cs == self.constraints@,
                cubic_views(parser.emitted@) == cubic_views(old(parser).emitted@)
                    + air_global_residues(cs.take(i as int), env),
            decreases self.constraints@.len() - i,
        {
            proof {
                assert(parser@ == env);
                assert(cs.take(i + 1).drop_last() =~= cs.take(i as int));
                assert(cs.take(i + 1).last() == cs[i as int]);
            }
            let ghost pre = parser.emitted@;
            match &self.constraints[i] {
                Constraint::Lookup(LookupChipConstraint::Element(lc)) => {
                    lc.eval_global(parser);
                    proof {
                        assert(cubic_views(pre).push(cubic_val(lc.running_sum, env))
                            =~= cubic_views(pre) + seq![cubic_val(lc.running_sum, env)]);
                    }
                },
                Constraint::Lookup(LookupChipConstraint::CubicElement(lc)) => {
                    lc.eval_global(parser);
                    proof {
                        assert(cubic_views(pre).push(cubic_val(lc.running_sum, env))
                            =~= cubic_views(pre) + seq![cubic_val(lc.running_sum, env)]);
                    }
                },
                _ => {
                    proof {
                        assert(cubic_views(pre) + Seq::<(int, int, int)>::empty()
                            =~= cubic_views(pre));
                    }
                },
            }
            proof {
                assert(cubic_views(parser.emitted@) =~= cubic_views(old(parser).emitted@)
                    + air_global_residues(cs.take(i + 1), env));
            }
            i = i + 1;
        }
        proof {
            assert(cs.take(cs.len() as int) =~= cs);
        }
    }
}

} // verus!
