//! The log-derivative lookup engine.
//!
//! One lookup table binds the digests produced by reads ("looking")
//! against the digests produced by writes ("looked up", each with a
//! multiplicity).  Every reciprocal `1/(beta - digest)` is materialized in
//! an aux register with the side constraint `aux * (beta - digest) == 1`;
//! a running partial-sum register accumulates, row by row, the looking
//! reciprocals minus the multiplicity-weighted looked-up reciprocals, and
//! a global constraint asserts the accumulated total vanishes.
//!
//! Two monomorphic variants exist: digests in the base field (embedded for
//! accumulation) and natively extension-valued digests.

use crate::cubic::{cadd, cembed, cmul, cone, cpow, csub, inverse_exponent, CubicValue};
use crate::field::Fp;
use crate::lookup_sums::csum;
use crate::register::{CubicRegister, ElementRegister, RegisterSpace};
use crate::trace::{cubic_val, cubic_val_next, elem_val, slice_in_env, AirParser, EnvView};
use vstd::prelude::*;

verus! {

/// Witness-generation failure: the lookup challenge collided with a digest,
/// so the reciprocal of `beta - digest` does not exist.
#[derive(Clone, Copy, PartialEq, Eq, Structural, Debug)]
pub enum LookupError {
    /// The offending entry's position.
    DegenerateEntry(usize),
}

/// Views of a vector of extension values.
pub open spec fn cubic_views(s: Seq<CubicValue>) -> Seq<(int, int, int)> {
    s.map_values(|c: CubicValue| c@)
}

/// Every value in the vector is canonical.
pub open spec fn all_cubic_wf(s: Seq<CubicValue>) -> bool {
    forall|i: int| 0 <= i < s.len() ==> (#[trigger] s[i]).wf()
}

/// Views of a vector of base-field values.
pub open spec fn fp_views(s: Seq<Fp>) -> Seq<int> {
    s.map_values(|x: Fp| x@)
}

/// The reciprocal side constraints, as residues that must vanish:
/// `aux * (beta - digest) - 1` for each entry.
pub open spec fn reciprocal_residues(
    beta: (int, int, int),
    digests: Seq<(int, int, int)>,
    auxs: Seq<(int, int, int)>,
) -> Seq<(int, int, int)> {
    Seq::new(digests.len(), |i: int| csub(cmul(auxs[i], csub(beta, digests[i])), cone()))
}

/// The multiplicity-weighted aux values of the looked-up side.
pub open spec fn weighted_terms(mults: Seq<int>, auxs: Seq<(int, int, int)>) -> Seq<
    (int, int, int),
> {
    Seq::new(auxs.len(), |j: int| cmul(cembed(mults[j]), auxs[j]))
}

/// One row's contribution to the running sum: looking reciprocals minus
/// weighted looked-up reciprocals.
pub open spec fn row_term(
    looking_aux: Seq<(int, int, int)>,
    mults: Seq<int>,
    looked_aux: Seq<(int, int, int)>,
) -> (int, int, int) {
    csub(csum(looking_aux), csum(weighted_terms(mults, looked_aux)))
}

/// All residues a row of one lookup table emits, in emission order: the
/// looking reciprocal constraints, the looked-up reciprocal constraints,
/// and the running-sum transition.
pub open spec fn lookup_row_residues(
    beta: (int, int, int),
    looking_digests: Seq<(int, int, int)>,
    looking_aux: Seq<(int, int, int)>,
    looked_digests: Seq<(int, int, int)>,
    mults: Seq<int>,
    looked_aux: Seq<(int, int, int)>,
    sum_here: (int, int, int),
    sum_next: (int, int, int),
) -> Seq<(int, int, int)> {
    reciprocal_residues(beta, looking_digests, looking_aux) + reciprocal_residues(
        beta,
        looked_digests,
        looked_aux,
    ) + seq![csub(sum_next, cadd(sum_here, row_term(looking_aux, mults, looked_aux)))]
}

/// The Fermat inversion check on the reciprocal's denominator: whether
/// `beta - entry` times its candidate inverse multiplies to one.  It fails
/// on a zero denominator (a challenge colliding with the entry); that it
/// succeeds on every nonzero one is Fermat's little theorem for the
/// extension field, which is not formalized here.
pub open spec fn reciprocal_exists(beta: (int, int, int), entry: (int, int, int)) -> bool {
    cmul(csub(beta, entry), cpow(csub(beta, entry), inverse_exponent())) == cone()
}

/// Computes the reciprocal of `beta - entry` for every entry, the aux
/// values an honest prover writes beside its digests.
///
/// Success and failure are both pinned down: the answer is `Ok` exactly
/// when the inversion check succeeds on every entry, and an `Err` names an
/// entry whose check fails — the witness-generation failure a challenge
/// colliding with a digest causes, surfaced rather than hidden.
pub fn compute_reciprocals(beta: &CubicValue, entries: &Vec<CubicValue>) -> (r: Result<
    Vec<CubicValue>,
    LookupError,
>)
    requires
        beta.wf(),
        all_cubic_wf(entries@),
    ensures
        r matches Ok(auxs) ==> {
            &&& auxs@.len() == entries@.len()
            &&& all_cubic_wf(auxs@)
            &&& forall|i: int|
                0 <= i < entries@.len() ==> cmul(
                    (#[trigger] auxs@[i])@,
                    csub(beta@, entries@[i]@),
                ) == cone()
        },
        r matches Err(LookupError::DegenerateEntry(i)) ==> i < entries@.len()
            && !reciprocal_exists(beta@, entries@[i as int]@),
        (forall|i: int|
            0 <= i < entries@.len() ==> reciprocal_exists(beta@, #[trigger] entries@[i]@))
            ==> r is Ok,
{
    let mut auxs: Vec<CubicValue> = Vec::new();
    let mut i: usize = 0;
    while i < entries.len()
        invariant
            i <= entries@.len(),
            beta.wf(),
            all_cubic_wf(entries@),
            auxs@.len() == i,
            all_cubic_wf(auxs@),
            forall|k: int|
                0 <= k < i ==> cmul((#[trigger] auxs@[k])@, csub(beta@, entries@[k]@)) == cone(),
        decreases entries@.len() - i,
    {
        let denom = beta.sub(entries[i]);
        match denom.try_inverse() {
            Some(w) => {
                proof {
                    crate::cubic::lemma_cmul_comm(denom@, w@);
                }
                auxs.push(w);
            },
            None => {
                proof {
                    assert(!reciprocal_exists(beta@, entries@[i as int]@));
                }
                return Err(LookupError::DegenerateEntry(i));
            },
        }
        i = i + 1;
    }
    Ok(auxs)
}

/// The accumulated global total: the sum of looking reciprocals minus the
/// multiplicity-weighted sum of looked-up reciprocals.  The trace passes
/// the lookup exactly when this is zero.
pub fn global_sum(
    looking_aux: &Vec<CubicValue>,
    mults: &Vec<u32>,
    looked_aux: &Vec<CubicValue>,
) -> (r: CubicValue)
    requires
        all_cubic_wf(looking_aux@),
        all_cubic_wf(looked_aux@),
        mults@.len() == looked_aux@.len(),
    ensures
        r.wf(),
        r@ == csub(
            csum(cubic_views(looking_aux@)),
            crate::lookup_sums::csum_scaled(
                mults@.map_values(|m: u32| m as nat),
                cubic_views(looked_aux@),
            ),
        ),
{
    let mut acc = CubicValue::zero();
    let mut i: usize = 0;
    while i < looking_aux.len()
        invariant
            i <= looking_aux@.len(),
            all_cubic_wf(looking_aux@),
            acc.wf(),
            acc@ == csum(cubic_views(looking_aux@).take(i as int)),
        decreases looking_aux@.len() - i,
    {
        proof {
            let views = cubic_views(looking_aux@);
            assert(views.take(i + 1).drop_last() =~= views.take(i as int));
            assert(views.take(i + 1).last() == looking_aux@[i as int]@);
        }
        acc = acc.add(looking_aux[i]);
        i = i + 1;
    }
    proof {
        assert(cubic_views(looking_aux@).take(looking_aux@.len() as int) =~= cubic_views(
            looking_aux@,
        ));
    }
    let mut weighted = CubicValue::zero();
    let mut j: usize = 0;
    while j < looked_aux.len()
        invariant
            j <= looked_aux@.len(),
            all_cubic_wf(looked_aux@),
            mults@.len() == looked_aux@.len(),
            weighted.wf(),
            weighted@ == crate::lookup_sums::csum_scaled(
                mults@.map_values(|m: u32| m as nat).take(j as int),
                cubic_views(looked_aux@).take(j as int),
            ),
        decreases looked_aux@.len() - j,
    {
        proof {
            let ms = mults@.map_values(|m: u32| m as nat);
            let views = cubic_views(looked_aux@);
            assert(ms.take(j + 1).drop_last() =~= ms.take(j as int));
            assert(views.take(j + 1).drop_last() =~= views.take(j as int));
            assert(ms.take(j + 1).last() == mults@[j as int] as nat);
            assert(views.take(j + 1).last() == looked_aux@[j as int]@);
            crate::lookup_sums::lemma_scale_embed(
                mults@[j as int] as nat,
                looked_aux@[j as int]@,
            );
        }
        let m = Fp::from_u32(mults[j]);
        let term = CubicValue::from_base(m).mul(looked_aux[j]);
        weighted = weighted.add(term);
        j = j + 1;
    }
    proof {
        let ms = mults@.map_values(|m: u32| m as nat);
        assert(ms.take(looked_aux@.len() as int) =~= ms);
        assert(cubic_views(looked_aux@).take(looked_aux@.len() as int) =~= cubic_views(
            looked_aux@,
        ));
    }
    acc.sub(weighted)
}

/// The running partial sums an honest prover writes: the first row holds
/// the first term, every later row adds its own term.
pub fn running_sums(terms: &Vec<CubicValue>) -> (r: Vec<CubicValue>)
    requires
        all_cubic_wf(terms@),
    ensures
        r@.len() == terms@.len(),
        all_cubic_wf(r@),
        terms@.len() > 0 ==> r@[0]@ == terms@[0]@,
        forall|i: int| 1 <= i < terms@.len() ==> (#[trigger] r@[i])@ == cadd(r@[i - 1]@, terms@[i]@),
        terms@.len() > 0 ==> r@[terms@.len() - 1]@ == csum(cubic_views(terms@)),
{
    let mut sums: Vec<CubicValue> = Vec::new();
    let mut acc = CubicValue::zero();
    let mut i: usize = 0;
    while i < terms.len()
        invariant
            i <= terms@.len(),
            all_cubic_wf(terms@),
            sums@.len() == i,
            all_cubic_wf(sums@),
            acc.wf(),
            i > 0 ==> acc == sums@[i - 1],
            i > 0 ==> sums@[0]@ == terms@[0]@,
            forall|k: int|
                1 <= k < i ==> (#[trigger] sums@[k])@ == cadd(sums@[k - 1]@, terms@[k]@),
            acc@ == csum(cubic_views(terms@).take(i as int)),
        decreases terms@.len() - i,
    {
        proof {
            let views = cubic_views(terms@);
            assert(views.take(i + 1).drop_last() =~= views.take(i as int));
            assert(views.take(i + 1).last() == terms@[i as int]@);
            if i == 0 {
                crate::cubic::lemma_cadd_zero(terms@[0int]@);
            }
        }
        acc = acc.add(terms[i]);
        sums.push(acc);
        i = i + 1;
    }
    proof {
        assert(cubic_views(terms@).take(terms@.len() as int) =~= cubic_views(terms@));
    }
    sums
}

/// A lookup constraint instance: the challenge, the two digest sides with
/// their aux registers, the multiplicities, and the running-sum register.
#[derive(Debug)]
pub struct LookupConstraint<T> {
    pub challenge: CubicRegister,
    pub looking: Vec<T>,
    pub looking_aux: Vec<CubicRegister>,
    pub looked_up: Vec<T>,
    pub multiplicities: Vec<ElementRegister>,
    pub looked_up_aux: Vec<CubicRegister>,
    pub running_sum: CubicRegister,
}

/// All registers of an element-keyed lookup fit the environment, the
/// sides pair one aux register with each digest, and the running sum has a
/// next-row value to constrain.
pub open spec fn element_lookup_wf(lc: LookupConstraint<ElementRegister>, env: EnvView) -> bool {
    &&& slice_in_env(lc.challenge.slice, env) && lc.challenge.slice.len == 3
    &&& lc.looking@.len() == lc.looking_aux@.len()
    &&& lc.looked_up@.len() == lc.multiplicities@.len()
    &&& lc.looked_up@.len() == lc.looked_up_aux@.len()
    &&& forall|k: int|
        0 <= k < lc.looking@.len() ==> slice_in_env((#[trigger] lc.looking@[k]).slice, env)
            && lc.looking@[k].slice.len == 1
    &&& forall|k: int|
        0 <= k < lc.looking_aux@.len() ==> slice_in_env((#[trigger] lc.looking_aux@[k]).slice, env)
            && lc.looking_aux@[k].slice.len == 3
    &&& forall|k: int|
        0 <= k < lc.looked_up@.len() ==> slice_in_env((#[trigger] lc.looked_up@[k]).slice, env)
            && lc.looked_up@[k].slice.len == 1
    &&& forall|k: int|
        0 <= k < lc.multiplicities@.len() ==> slice_in_env(
            (#[trigger] lc.multiplicities@[k]).slice,
            env,
        ) && lc.multiplicities@[k].slice.len == 1
    &&& forall|k: int|
        0 <= k < lc.looked_up_aux@.len() ==> slice_in_env(
            (#[trigger] lc.looked_up_aux@[k]).slice,
            env,
        ) && lc.looked_up_aux@[k].slice.len == 3
    &&& slice_in_env(lc.running_sum.slice, env)
    &&& lc.running_sum.slice.len == 3
    &&& lc.running_sum.slice.space == RegisterSpace::Trace
    &&& lc.running_sum.slice.start + 3 <= env.next.len()
}

/// As `element_lookup_wf`, for extension-keyed digests.
pub open spec fn cubic_lookup_wf(lc: LookupConstraint<CubicRegister>, env: EnvView) -> bool {
    &&& slice_in_env(lc.challenge.slice, env) && lc.challenge.slice.len == 3
    &&& lc.looking@.len() == lc.looking_aux@.len()
    &&& lc.looked_up@.len() == lc.multiplicities@.len()
    &&& lc.looked_up@.len() == lc.looked_up_aux@.len()
    &&& forall|k: int|
        0 <= k < lc.looking@.len() ==> slice_in_env((#[trigger] lc.looking@[k]).slice, env)
            && lc.looking@[k].slice.len == 3
    &&& forall|k: int|
        0 <= k < lc.looking_aux@.len() ==> slice_in_env((#[trigger] lc.looking_aux@[k]).slice, env)
            && lc.looking_aux@[k].slice.len == 3
    &&& forall|k: int|
        0 <= k < lc.looked_up@.len() ==> slice_in_env((#[trigger] lc.looked_up@[k]).slice, env)
            && lc.looked_up@[k].slice.len == 3
    &&& forall|k: int|
        0 <= k < lc.multiplicities@.len() ==> slice_in_env(
            (#[trigger] lc.multiplicities@[k]).slice,
            env,
        ) && lc.multiplicities@[k].slice.len == 1
    &&& forall|k: int|
        0 <= k < lc.looked_up_aux@.len() ==> slice_in_env(
            (#[trigger] lc.looked_up_aux@[k]).slice,
            env,
        ) && lc.looked_up_aux@[k].slice.len == 3
    &&& slice_in_env(lc.running_sum.slice, env)
    &&& lc.running_sum.slice.len == 3
    &&& lc.running_sum.slice.space == RegisterSpace::Trace
    &&& lc.running_sum.slice.start + 3 <= env.next.len()
}

/// The residues an element-keyed lookup emits at one row.
pub open spec fn element_lookup_residues(lc: LookupConstraint<ElementRegister>, env: EnvView)
    -> Seq<(int, int, int)> {
    lookup_row_residues(
        cubic_val(lc.challenge, env),
        lc.looking@.map_values(|g: ElementRegister| cembed(elem_val(g, env))),
        lc.looking_aux@.map_values(|g: CubicRegister| cubic_val(g, env)),
        lc.looked_up@.map_values(|g: ElementRegister| cembed(elem_val(g, env))),
        lc.multiplicities@.map_values(|g: ElementRegister| elem_val(g, env)),
        lc.looked_up_aux@.map_values(|g: CubicRegister| cubic_val(g, env)),
        cubic_val(lc.running_sum, env),
        cubic_val_next(lc.running_sum, env),
    )
}

/// The residues an extension-keyed lookup emits at one row.
pub open spec fn cubic_lookup_residues(lc: LookupConstraint<CubicRegister>, env: EnvView) -> Seq<
    (int, int, int),
> {
    lookup_row_residues(
        cubic_val(lc.challenge, env),
        lc.looking@.map_values(|g: CubicRegister| cubic_val(g, env)),
        lc.looking_aux@.map_values(|g: CubicRegister| cubic_val(g, env)),
        lc.looked_up@.map_values(|g: CubicRegister| cubic_val(g, env)),
        lc.multiplicities@.map_values(|g: ElementRegister| elem_val(g, env)),
        lc.looked_up_aux@.map_values(|g: CubicRegister| cubic_val(g, env)),
        cubic_val(lc.running_sum, env),
        cubic_val_next(lc.running_sum, env),
    )
}

/// Reads a vector of cubic registers into values.
fn read_cubic_vec(parser: &AirParser, regs: &Vec<CubicRegister>) -> (r: Vec<CubicValue>)
    requires
        parser.wf(),
        forall|k: int|
            0 <= k < regs@.len() ==> slice_in_env((#[trigger] regs@[k]).slice, parser@)
                && regs@[k].slice.len == 3,
    ensures
        r@.len() == regs@.len(),
        all_cubic_wf(r@),
        cubic_views(r@) == regs@.map_values(|g: CubicRegister| cubic_val(g, parser@)),
{
    let target = Ghost(regs@.map_values(|g: CubicRegister| cubic_val(g, parser@)));
    let mut out: Vec<CubicValue> = Vec::new();
    let mut i: usize = 0;
    while i < regs.len()
        invariant
            parser.wf(),
            forall|k: int|
                0 <= k < regs@.len() ==> slice_in_env((#[trigger] regs@[k]).slice, parser@)
                    && regs@[k].slice.len == 3,
            i <= regs@.len(),
            out@.len() == i,
            all_cubic_wf(out@),
            cubic_views(out@) =~= target@.take(i as int),
            target@ == regs@.map_values(|g: CubicRegister| cubic_val(g, parser@)),
        decreases regs@.len() - i,
    {
        let v = parser.read_cubic(&regs[i]);
        out.push(v);
        proof {
            assert(cubic_views(out@) =~= target@.take(i + 1));
        }
        i = i + 1;
    }
    proof {
        assert(cubic_views(out@) =~= target@);
    }
    out
}

/// Reads a vector of element registers as embedded extension digests.
fn read_elem_digest_vec(parser: &AirParser, regs: &Vec<ElementRegister>) -> (r: Vec<CubicValue>)
    requires
        parser.wf(),
        forall|k: int|
            0 <= k < regs@.len() ==> slice_in_env((#[trigger] regs@[k]).slice, parser@)
                && regs@[k].slice.len == 1,
    ensures
        r@.len() == regs@.len(),
        all_cubic_wf(r@),
        cubic_views(r@) == regs@.map_values(|g: ElementRegister| cembed(elem_val(g, parser@))),
{
    let target = Ghost(regs@.map_values(|g: ElementRegister| cembed(elem_val(g, parser@))));
    let mut out: Vec<CubicValue> = Vec::new();
    let mut i: usize = 0;
    while i < regs.len()
        invariant
            parser.wf(),
            forall|k: int|
                0 <= k < regs@.len() ==> slice_in_env((#[trigger] regs@[k]).slice, parser@)
                    && regs@[k].slice.len == 1,
            i <= regs@.len(),
            out@.len() == i,
            all_cubic_wf(out@),
            cubic_views(out@) =~= target@.take(i as int),
            target@ == regs@.map_values(|g: ElementRegister| cembed(elem_val(g, parser@))),
        decreases regs@.len() - i,
    {
        let x = parser.read_element(&regs[i]);
        let v = CubicValue::from_base(x);
        out.push(v);
        proof {
            assert(cubic_views(out@) =~= target@.take(i + 1));
        }
        i = i + 1;
    }
    proof {
        assert(cubic_views(out@) =~= target@);
    }
    out
}

/// Reads a vector of element registers into base-field values.
fn read_fp_vec(parser: &AirParser, regs: &Vec<ElementRegister>) -> (r: Vec<Fp>)
    requires
        parser.wf(),
        forall|k: int|
            0 <= k < regs@.len() ==> slice_in_env((#[trigger] regs@[k]).slice, parser@)
                && regs@[k].slice.len == 1,
    ensures
        r@.len() == regs@.len(),
        fp_views(r@) == regs@.map_values(|g: ElementRegister| elem_val(g, parser@)),
        forall|k: int| 0 <= k < r@.len() ==> (#[trigger] r@[k]).wf(),
{
    let target = Ghost(regs@.map_values(|g: ElementRegister| elem_val(g, parser@)));
    let mut out: Vec<Fp> = Vec::new();
    let mut i: usize = 0;
    while i < regs.len()
        invariant
            parser.wf(),
            forall|k: int|
                0 <= k < regs@.len() ==> slice_in_env((#[trigger] regs@[k]).slice, parser@)
                    && regs@[k].slice.len == 1,
            i <= regs@.len(),
            out@.len() == i,
            forall|k: int| 0 <= k < out@.len() ==> (#[trigger] out@[k]).wf(),
            fp_views(out@) =~= target@.take(i as int),
            target@ == regs@.map_values(|g: ElementRegister| elem_val(g, parser@)),
        decreases regs@.len() - i,
    {
        let x = parser.read_element(&regs[i]);
        out.push(x);
        proof {
            assert(fp_views(out@) =~= target@.take(i + 1));
        }
        i = i + 1;
    }
    proof {
        assert(fp_views(out@) =~= target@);
    }
    out
}

/// Emits one row's residues for a lookup table, given every register's
/// value at this row: each reciprocal side constraint, then the
/// running-sum transition.
fn emit_lookup_row(
    parser: &mut AirParser,
    beta: CubicValue,
    looking_d: &Vec<CubicValue>,
    looking_a: &Vec<CubicValue>,
    looked_d: &Vec<CubicValue>,
    mults: &Vec<Fp>,
    looked_a: &Vec<CubicValue>,
    sum_here: CubicValue,
    sum_next: CubicValue,
)
    requires
        beta.wf(),
        sum_here.wf(),
        sum_next.wf(),
        all_cubic_wf(looking_d@),
        all_cubic_wf(looking_a@),
        all_cubic_wf(looked_d@),
        all_cubic_wf(looked_a@),
        forall|k: int| 0 <= k < mults@.len() ==> (#[trigger] mults@[k]).wf(),
        looking_d@.len() == looking_a@.len(),
        looked_d@.len() == looked_a@.len(),
        looked_d@.len() == mults@.len(),
    ensures
        final(parser).same_spaces(*old(parser)),
        cubic_views(final(parser).emitted@) == cubic_views(old(parser).emitted@)
            + lookup_row_residues(
            beta@,
            cubic_views(looking_d@),
            cubic_views(looking_a@),
            cubic_views(looked_d@),
            fp_views(mults@),
            cubic_views(looked_a@),
            sum_here@,
            sum_next@,
        ),
{
    let one = CubicValue::one();
    let r1 = Ghost(reciprocal_residues(beta@, cubic_views(looking_d@), cubic_views(looking_a@)));
    let mut i: usize = 0;
    let mut acc_looking = CubicValue::zero();
    while i < looking_d.len()
        invariant
            beta.wf(),
            one == (CubicValue { c0: Fp { v: 1 }, c1: Fp { v: 0 }, c2: Fp { v: 0 } }),
            all_cubic_wf(looking_d@),
            all_cubic_wf(looking_a@),
            looking_d@.len() == looking_a@.len(),
            i <= looking_d@.len(),
            acc_looking.wf(),
            acc_looking@ == csum(cubic_views(looking_a@).take(i as int)),
            parser.same_spaces(*old(parser)),
            parser.wf() == old(parser).wf(),
            r1@ == reciprocal_residues(beta@, cubic_views(looking_d@), cubic_views(looking_a@)),
            cubic_views(parser.emitted@) == cubic_views(old(parser).emitted@) + r1@.take(i as int),
        decreases looking_d@.len() - i,
    {
        proof {
            let views = cubic_views(looking_a@);
            assert(views.take(i + 1).drop_last() =~= views.take(i as int));
            assert(views.take(i + 1).last() == looking_a@[i as int]@);
        }
        let residue = looking_a[i].mul(beta.sub(looking_d[i])).sub(one);
        parser.constraint(residue);
        acc_looking = acc_looking.add(looking_a[i]);
        proof {
            assert(r1@[i as int] == residue@);
            assert(cubic_views(old(parser).emitted@) + r1@.take(i + 1) =~= (cubic_views(
                old(parser).emitted@,
            ) + r1@.take(i as int)).push(residue@));
            assert(cubic_views(parser.emitted@) =~= cubic_views(
                old(parser).emitted@,
            ) + r1@.take(i + 1));
        }
        i = i + 1;
    }
    proof {
        assert(r1@.take(looking_d@.len() as int) =~= r1@);
        assert(cubic_views(looking_a@).take(looking_a@.len() as int) =~= cubic_views(looking_a@));
    }
    let r2 = Ghost(reciprocal_residues(beta@, cubic_views(looked_d@), cubic_views(looked_a@)));
    let w = Ghost(weighted_terms(fp_views(mults@), cubic_views(looked_a@)));
    let mut j: usize = 0;
    let mut acc_weighted = CubicValue::zero();
    while j < looked_d.len()
        invariant
            beta.wf(),
            one == (CubicValue { c0: Fp { v: 1 }, c1: Fp { v: 0 }, c2: Fp { v: 0 } }),
            all_cubic_wf(looked_d@),
            all_cubic_wf(looked_a@),
            forall|k: int| 0 <= k < mults@.len() ==> (#[trigger] mults@[k]).wf(),
            looked_d@.len() == looked_a@.len(),
            looked_d@.len() == mults@.len(),
            j <= looked_d@.len(),
            acc_weighted.wf(),
            acc_weighted@ == csum(w@.take(j as int)),
            parser.same_spaces(*old(parser)),
            parser.wf() == old(parser).wf(),
            r2@ == reciprocal_residues(beta@, cubic_views(looked_d@), cubic_views(looked_a@)),
            w@ == weighted_terms(fp_views(mults@), cubic_views(looked_a@)),
            cubic_views(parser.emitted@) == cubic_views(old(parser).emitted@)
                + reciprocal_residues(
                beta@,
                cubic_views(looking_d@),
                cubic_views(looking_a@),
            ) + r2@.take(j as int),
        decreases looked_d@.len() - j,
    {
        proof {
            assert(w@.take(j + 1).drop_last() =~= w@.take(j as int));
            assert(w@.take(j + 1).last() == w@[j as int]);
        }
        let residue = looked_a[j].mul(beta.sub(looked_d[j])).sub(one);
        parser.constraint(residue);
        let term = CubicValue::from_base(mults[j]).mul(looked_a[j]);
        acc_weighted = acc_weighted.add(term);
        proof {
            assert(r2@[j as int] == residue@);
            assert(term@ == w@[j as int]);
            assert(cubic_views(old(parser).emitted@) + reciprocal_residues(
                beta@,
                cubic_views(looking_d@),
                cubic_views(looking_a@),
            ) + r2@.take(j + 1) =~= (cubic_views(old(parser).emitted@) + reciprocal_residues(
                beta@,
                cubic_views(looking_d@),
                cubic_views(looking_a@),
            ) + r2@.take(j as int)).push(residue@));
            assert(cubic_views(parser.emitted@) =~= cubic_views(old(parser).emitted@)
                + reciprocal_residues(
                beta@,
                cubic_views(looking_d@),
                cubic_views(looking_a@),
            ) + r2@.take(j + 1));
        }
        j = j + 1;
    }
    proof {
        assert(r2@.take(looked_d@.len() as int) =~= r2@);
        assert(w@.take(looked_d@.len() as int) =~= w@);
    }
    let term = acc_looking.sub(acc_weighted);
    let transition = sum_next.sub(sum_here.add(term));
    let pre = Ghost(parser.emitted@);
    proof {
        assert(term@ == row_term(
            cubic_views(looking_a@),
            fp_views(mults@),
            cubic_views(looked_a@),
        ));
    }
    parser.constraint(transition);
    proof {
        assert(cubic_views(pre@.push(transition)) =~= cubic_views(pre@).push(transition@));
        assert(cubic_views(pre@).push(transition@) =~= cubic_views(old(parser).emitted@)
            + lookup_row_residues(
            beta@,
            cubic_views(looking_d@),
            cubic_views(looking_a@),
            cubic_views(looked_d@),
            fp_views(mults@),
            cubic_views(looked_a@),
            sum_here@,
            sum_next@,
        ));
    }
}

impl LookupConstraint<ElementRegister> {
    /// Evaluates this row's constraints: every residue in
    /// `element_lookup_residues` is emitted, in order.
    pub fn eval(&self, parser: &mut AirParser)
        requires
            old(parser).wf(),
            element_lookup_wf(*self, old(parser)@),
        ensures
            final(parser).same_spaces(*old(parser)),
            cubic_views(final(parser).emitted@) == cubic_views(old(parser).emitted@)
                + element_lookup_residues(*self, old(parser)@),
    {
        let beta = parser.read_cubic(&self.challenge);
        let looking_d = read_elem_digest_vec(parser, &self.looking);
        let looking_a = read_cubic_vec(parser, &self.looking_aux);
        let looked_d = read_elem_digest_vec(parser, &self.looked_up);
        let mults = read_fp_vec(parser, &self.multiplicities);
        let looked_a = read_cubic_vec(parser, &self.looked_up_aux);
        let sum_here = parser.read_cubic(&self.running_sum);
        let sum_next = parser.read_cubic_next(&self.running_sum);
        emit_lookup_row(
            parser,
            beta,
            &looking_d,
            &looking_a,
            &looked_d,
            &mults,
            &looked_a,
            sum_here,
            sum_next,
        );
    }

    /// Emits the global constraint: the accumulated total in the last
    /// row's running sum must vanish.
    pub fn eval_global(&self, parser: &mut AirParser)
        requires
            old(parser).wf(),
            slice_in_env(self.running_sum.slice, old(parser)@),
            self.running_sum.slice.len == 3,
        ensures
            final(parser).same_spaces(*old(parser)),
            cubic_views(final(parser).emitted@) == cubic_views(old(parser).emitted@).push(
                cubic_val(self.running_sum, old(parser)@),
            ),
    {
        let total = parser.read_cubic(&self.running_sum);
        parser.constraint(total);
        proof {
            assert(cubic_views(final(parser).emitted@) =~= cubic_views(
                old(parser).emitted@,
            ).push(cubic_val(self.running_sum, old(parser)@)));
        }
    }
}

impl LookupConstraint<CubicRegister> {
    /// Evaluates this row's constraints: every residue in
    /// `cubic_lookup_residues` is emitted, in order.
    pub fn eval(&self, parser: &mut AirParser)
        requires
            old(parser).wf(),
            cubic_lookup_wf(*self, old(parser)@),
        ensures
            final(parser).same_spaces(*old(parser)),
            cubic_views(final(parser).emitted@) == cubic_views(old(parser).emitted@)
                + cubic_lookup_residues(*self, old(parser)@),
    {
        let beta = parser.read_cubic(&self.challenge);
        let looking_d = read_cubic_vec(parser, &self.looking);
        let looking_a = read_cubic_vec(parser, &self.looking_aux);
        let looked_d = read_cubic_vec(parser, &self.looked_up);
        let mults = read_fp_vec(parser, &self.multiplicities);
        let looked_a = read_cubic_vec(parser, &self.looked_up_aux);
        let sum_here = parser.read_cubic(&self.running_sum);
        let sum_next = parser.read_cubic_next(&self.running_sum);
        emit_lookup_row(
            parser,
            beta,
            &looking_d,
            &looking_a,
            &looked_d,
            &mults,
            &looked_a,
            sum_here,
            sum_next,
        );
    }

    /// Emits the global constraint: the accumulated total in the last
    /// row's running sum must vanish.
    pub fn eval_global(&self, parser: &mut AirParser)
        requires
            old(parser).wf(),
            slice_in_env(self.running_sum.slice, old(parser)@),
            self.running_sum.slice.len == 3,
        ensures
            final(parser).same_spaces(*old(parser)),
            cubic_views(final(parser).emitted@) == cubic_views(old(parser).emitted@).push(
                cubic_val(self.running_sum, old(parser)@),
            ),
    {
        let total = parser.read_cubic(&self.running_sum);
        parser.constraint(total);
        proof {
            assert(cubic_views(final(parser).emitted@) =~= cubic_views(
                old(parser).emitted@,
            ).push(cubic_val(self.running_sum, old(parser)@)));
        }
    }
}

/// The two monomorphic lookup variants: digest arithmetic in the base
/// field or in the extension.
#[derive(Debug)]
pub enum LookupChipConstraint {
    Element(LookupConstraint<ElementRegister>),
    CubicElement(LookupConstraint<CubicRegister>),
}

/// The registers of whichever variant this is fit the environment.
pub open spec fn lookup_chip_wf(c: LookupChipConstraint, env: EnvView) -> bool {
    match c {
        LookupChipConstraint::Element(lc) => element_lookup_wf(lc, env),
        LookupChipConstraint::CubicElement(lc) => cubic_lookup_wf(lc, env),
    }
}

/// The residues whichever variant this is emits at one row.
pub open spec fn lookup_chip_residues(c: LookupChipConstraint, env: EnvView) -> Seq<
    (int, int, int),
> {
    match c {
        LookupChipConstraint::Element(lc) => element_lookup_residues(lc, env),
        LookupChipConstraint::CubicElement(lc) => cubic_lookup_residues(lc, env),
    }
}

impl LookupChipConstraint {
    /// Evaluates one row, dispatching on the digest variant.
    pub fn eval(&self, parser: &mut AirParser)
        requires
            old(parser).wf(),
            lookup_chip_wf(*self, old(parser)@),
        ensures
            final(parser).same_spaces(*old(parser)),
            cubic_views(final(parser).emitted@) == cubic_views(old(parser).emitted@)
                + lookup_chip_residues(*self, old(parser)@),
    {
        match self {
            LookupChipConstraint::Element(log) => log.eval(parser),
            LookupChipConstraint::CubicElement(log) => log.eval(parser),
        }
    }
}

} // verus!
