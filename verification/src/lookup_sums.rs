//! Sums of reciprocals: the algebra behind the log-derivative lookup.
//!
//! The lookup engine accumulates, over a random challenge `beta`, the sum
//! of `1/(beta - x)` over all looking digests minus the sum of
//! `m/(beta - e)` over all looked-up digests.  This module defines those
//! sums over sequences of extension elements and proves the completeness
//! theorem: when the looking multiset equals the looked-up multiset
//! expanded by its multiplicities, the two sums coincide for every
//! challenge at which the reciprocals exist at all.

use crate::cubic::{
    cadd, cembed, cmul, cone, csub, cwf, czero, lemma_cadd_zero, lemma_cmul_by_invertible_zero,
    lemma_cmul_comm, lemma_cmul_distrib, lemma_cmul_distrib_sub, lemma_cmul_one, lemma_cmul_zero,
    lemma_csub_eq, lemma_inverse_unique,
};
use crate::field::{lemma_fadd_assoc, p};
use vstd::prelude::*;

verus! {

/// The reciprocal of `beta - x`, when one exists: the canonical value `w`
/// with `w * (beta - x) == 1`.
pub open spec fn the_inv(beta: (int, int, int), x: (int, int, int)) -> (int, int, int) {
    choose|w: (int, int, int)| cwf(w) && cmul(w, csub(beta, x)) == cone()
}

/// Sum of a sequence of extension elements.
pub open spec fn csum(s: Seq<(int, int, int)>) -> (int, int, int)
    decreases s.len(),
{
    if s.len() == 0 {
        czero()
    } else {
        cadd(csum(s.drop_last()), s.last())
    }
}

/// `m`-fold sum of one extension element.
pub open spec fn scale(m: nat, v: (int, int, int)) -> (int, int, int)
    decreases m,
{
    if m == 0 {
        czero()
    } else {
        cadd(scale((m - 1) as nat, v), v)
    }
}

/// Sum of per-entry aux values, each weighted by its multiplicity.
pub open spec fn csum_scaled(ms: Seq<nat>, auxs: Seq<(int, int, int)>) -> (int, int, int)
    decreases ms.len(),
{
    if ms.len() == 0 {
        czero()
    } else {
        cadd(csum_scaled(ms.drop_last(), auxs.drop_last()), scale(ms.last(), auxs.last()))
    }
}

/// The sequence holding one value `m` times.
pub open spec fn repeat_val(e: (int, int, int), m: nat) -> Seq<(int, int, int)> {
    Seq::new(m, |i: int| e)
}

/// A table expanded by its multiplicities: each entry repeated as often as
/// its multiplicity says.
pub open spec fn expand(es: Seq<(int, int, int)>, ms: Seq<nat>) -> Seq<(int, int, int)>
    decreases es.len(),
{
    if es.len() == 0 {
        Seq::empty()
    } else {
        expand(es.drop_last(), ms.drop_last()) + repeat_val(es.last(), ms.last())
    }
}

/// A sum is always canonical.
pub proof fn lemma_csum_wf(s: Seq<(int, int, int)>)
    ensures
        cwf(csum(s)),
{
    if s.len() == 0 {
    }
}

/// Associativity of extension addition.
pub proof fn lemma_cadd_assoc(a: (int, int, int), b: (int, int, int), c: (int, int, int))
    ensures
        cadd(cadd(a, b), c) == cadd(a, cadd(b, c)),
{
    lemma_fadd_assoc(a.0, b.0, c.0);
    lemma_fadd_assoc(a.1, b.1, c.1);
    lemma_fadd_assoc(a.2, b.2, c.2);
}

/// Any aux value satisfying the reciprocal constraint is the reciprocal.
pub proof fn lemma_aux_is_the_inv(beta: (int, int, int), x: (int, int, int), aux: (int, int, int))
    requires
        cwf(aux),
        cmul(aux, csub(beta, x)) == cone(),
    ensures
        aux == the_inv(beta, x),
{
    assert(cwf(aux) && cmul(aux, csub(beta, x)) == cone());
    let w = the_inv(beta, x);
    assert(cwf(w) && cmul(w, csub(beta, x)) == cone()) by {
        assert(exists|u: (int, int, int)| cwf(u) && cmul(u, csub(beta, x)) == cone());
    }
    lemma_cmul_comm(aux, csub(beta, x));
    lemma_cmul_comm(w, csub(beta, x));
    lemma_inverse_unique(csub(beta, x), aux, w);
}

/// Removing one element splits a sum.
pub proof fn lemma_csum_remove(s: Seq<(int, int, int)>, i: int)
    requires
        0 <= i < s.len(),
    ensures
        csum(s) == cadd(csum(s.remove(i)), s[i]),
    decreases s.len(),
{
    if i == s.len() - 1 {
        assert(s.remove(i) =~= s.drop_last());
    } else {
        let t = s.drop_last();
        lemma_csum_remove(t, i);
        assert(s.remove(i).drop_last() =~= t.remove(i));
        assert(s.remove(i).last() == s.last());
        assert(csum(s.remove(i)) == cadd(csum(t.remove(i)), s.last()));
        lemma_cadd_assoc(csum(t.remove(i)), t[i], s.last());
        lemma_cadd_assoc(csum(t.remove(i)), s.last(), t[i]);
        assert(cadd(t[i], s.last()) == cadd(s.last(), t[i]));
    }
}

/// Sums of images are invariant under reordering the underlying sequence:
/// two sequences with equal multisets have equal mapped sums.
pub proof fn lemma_csum_map_multiset(
    f: spec_fn((int, int, int)) -> (int, int, int),
    s1: Seq<(int, int, int)>,
    s2: Seq<(int, int, int)>,
)
    requires
        s1.to_multiset() == s2.to_multiset(),
    ensures
        csum(s1.map_values(f)) == csum(s2.map_values(f)),
    decreases s1.len(),
{
    s1.to_multiset_ensures();
    s2.to_multiset_ensures();
    if s1.len() == 0 {
        assert(s2.len() == 0);
        assert(s1.map_values(f) =~= Seq::<(int, int, int)>::empty());
        assert(s2.map_values(f) =~= Seq::<(int, int, int)>::empty());
    } else {
        let x = s1.last();
        assert(s1.contains(x));
        assert(s2.to_multiset().count(x) > 0);
        assert(s2.contains(x));
        let j = choose|j: int| 0 <= j < s2.len() && s2[j] == x;
        assert(s1.remove(s1.len() - 1) =~= s1.drop_last());
        assert(s1.drop_last().to_multiset() =~= s1.to_multiset().remove(x));
        assert(s2.remove(j).to_multiset() =~= s2.to_multiset().remove(x));
        lemma_csum_map_multiset(f, s1.drop_last(), s2.remove(j));
        assert(s1.map_values(f).drop_last() =~= s1.drop_last().map_values(f));
        assert(s1.map_values(f).last() == f(x));
        lemma_csum_remove(s2.map_values(f), j);
        assert(s2.map_values(f).remove(j) =~= s2.remove(j).map_values(f));
        assert(s2.map_values(f)[j] == f(x));
    }
}

/// Splitting a sum over concatenation.
pub proof fn lemma_csum_concat(a: Seq<(int, int, int)>, b: Seq<(int, int, int)>)
    ensures
        csum(a + b) == cadd(csum(a), csum(b)),
    decreases b.len(),
{
    if b.len() == 0 {
        assert(a + b =~= a);
        lemma_csum_wf(a);
        lemma_cadd_zero(csum(a));
    } else {
        assert((a + b).drop_last() =~= a + b.drop_last());
        assert((a + b).last() == b.last());
        lemma_csum_concat(a, b.drop_last());
        lemma_cadd_assoc(csum(a), csum(b.drop_last()), b.last());
    }
}

/// Summing a repeated reciprocal scales it.
pub proof fn lemma_csum_repeat(e: (int, int, int), m: nat, v: (int, int, int))
    ensures
        csum(repeat_val(e, m).map_values(|x: (int, int, int)| v)) == scale(m, v),
    decreases m,
{
    if m == 0 {
        assert(repeat_val(e, m).map_values(|x: (int, int, int)| v)
            =~= Seq::<(int, int, int)>::empty());
    } else {
        let mapped = repeat_val(e, m).map_values(|x: (int, int, int)| v);
        assert(mapped.drop_last() =~= repeat_val(e, (m - 1) as nat).map_values(
            |x: (int, int, int)| v,
        ));
        assert(mapped.last() == v);
        lemma_csum_repeat(e, (m - 1) as nat, v);
    }
}

/// The weighted looked-up sum equals the plain sum over the expanded
/// table, provided every aux value is the required reciprocal.
pub proof fn lemma_looked_sum(
    beta: (int, int, int),
    es: Seq<(int, int, int)>,
    ms: Seq<nat>,
    auxs: Seq<(int, int, int)>,
)
    requires
        es.len() == ms.len(),
        es.len() == auxs.len(),
        forall|j: int|
            0 <= j < es.len() ==> cwf(#[trigger] auxs[j]) && cmul(auxs[j], csub(beta, es[j]))
                == cone(),
    ensures
        csum_scaled(ms, auxs) == csum(
            expand(es, ms).map_values(|x: (int, int, int)| the_inv(beta, x)),
        ),
    decreases es.len(),
{
    let f = |x: (int, int, int)| the_inv(beta, x);
    if es.len() == 0 {
        assert(expand(es, ms).map_values(f) =~= Seq::<(int, int, int)>::empty());
    } else {
        lemma_looked_sum(beta, es.drop_last(), ms.drop_last(), auxs.drop_last());
        let e = es.last();
        let m = ms.last();
        assert(expand(es, ms) == expand(es.drop_last(), ms.drop_last()) + repeat_val(e, m));
        assert(expand(es, ms).map_values(f) =~= expand(es.drop_last(), ms.drop_last()).map_values(
            f,
        ) + repeat_val(e, m).map_values(f));
        lemma_csum_concat(
            expand(es.drop_last(), ms.drop_last()).map_values(f),
            repeat_val(e, m).map_values(f),
        );
        lemma_aux_is_the_inv(beta, e, auxs.last());
        assert(repeat_val(e, m).map_values(f) =~= repeat_val(e, m).map_values(
            |x: (int, int, int)| auxs.last(),
        ));
        lemma_csum_repeat(e, m, auxs.last());
    }
}

/// The looking sum is the plain sum of reciprocals of its digests.
pub proof fn lemma_looking_sum(
    beta: (int, int, int),
    xs: Seq<(int, int, int)>,
    auxs: Seq<(int, int, int)>,
)
    requires
        xs.len() == auxs.len(),
        forall|i: int|
            0 <= i < xs.len() ==> cwf(#[trigger] auxs[i]) && cmul(auxs[i], csub(beta, xs[i]))
                == cone(),
    ensures
        csum(auxs) == csum(xs.map_values(|x: (int, int, int)| the_inv(beta, x))),
{
    let f = |x: (int, int, int)| the_inv(beta, x);
    assert forall|i: int| 0 <= i < xs.len() implies xs.map_values(f)[i] == auxs[i] by {
        lemma_aux_is_the_inv(beta, xs[i], auxs[i]);
    }
    assert(auxs =~= xs.map_values(f));
}

/// Completeness of the log-derivative lookup.
///
/// For every challenge, every trace whose looking digests form exactly the
/// looked-up digests expanded by their multiplicities, and whose aux
/// values satisfy the reciprocal constraints, has equal looking and
/// looked-up sums, so the global accumulated total telescopes to zero.
pub proof fn lemma_lookup_complete(
    beta: (int, int, int),
    looking: Seq<(int, int, int)>,
    looking_aux: Seq<(int, int, int)>,
    looked: Seq<(int, int, int)>,
    mult: Seq<nat>,
    looked_aux: Seq<(int, int, int)>,
)
    requires
        looking.len() == looking_aux.len(),
        looked.len() == mult.len(),
        looked.len() == looked_aux.len(),
        forall|i: int|
            0 <= i < looking.len() ==> cwf(#[trigger] looking_aux[i]) && cmul(
                looking_aux[i],
                csub(beta, looking[i]),
            ) == cone(),
        forall|j: int|
            0 <= j < looked.len() ==> cwf(#[trigger] looked_aux[j]) && cmul(
                looked_aux[j],
                csub(beta, looked[j]),
            ) == cone(),
        looking.to_multiset() == expand(looked, mult).to_multiset(),
    ensures
        csum(looking_aux) == csum_scaled(mult, looked_aux),
        csub(csum(looking_aux), csum_scaled(mult, looked_aux)) == czero(),
{
    let f = |x: (int, int, int)| the_inv(beta, x);
    lemma_looking_sum(beta, looking, looking_aux);
    lemma_csum_map_multiset(f, looking, expand(looked, mult));
    lemma_looked_sum(beta, looked, mult, looked_aux);
    lemma_csum_wf(looking_aux);
    crate::cubic::lemma_csub_eq(csum(looking_aux), csum(looking_aux));
}

/// Soundness of the log-derivative lookup, in its deterministic core: a
/// row whose looking digest differs from the looked-up digest it claims
/// has a nonzero row total `1/(beta - x) - 1/(beta - e)`, for every
/// challenge at which both reciprocals exist.  The general rejection
/// statement — a non-sub-multiset trace fails for all but a
/// degree-over-field-size fraction of challenges — is the Schwartz-Zippel
/// bound over the random draw, which is probabilistic and not statable
/// here.
pub proof fn lemma_lookup_reject_mismatch(
    beta: (int, int, int),
    x: (int, int, int),
    e: (int, int, int),
    aux_x: (int, int, int),
    aux_e: (int, int, int),
)
    requires
        cwf(x),
        cwf(e),
        cwf(aux_x),
        cwf(aux_e),
        x != e,
        cmul(aux_x, csub(beta, x)) == cone(),
        cmul(aux_e, csub(beta, e)) == cone(),
    ensures
        csub(aux_x, aux_e) != czero(),
        csub(csum(seq![aux_x]), csum_scaled(seq![1nat], seq![aux_e])) != czero(),
{
    if csub(aux_x, aux_e) == czero() {
        lemma_csub_eq(aux_x, aux_e);
        // One aux value inverts both denominators, so their difference
        // multiplies with it to zero.
        assert(cmul(aux_x, csub(beta, e)) == cone());
        lemma_cmul_comm(aux_x, csub(beta, x));
        lemma_cmul_comm(aux_x, csub(beta, e));
        lemma_cmul_distrib_sub(csub(beta, x), csub(beta, e), aux_x);
        // The difference of the denominators is the digest difference.
        assert(csub(csub(beta, x), csub(beta, e)) == csub(e, x)) by {
            vstd::arithmetic::div_mod::lemma_sub_mod_noop(beta.0 - x.0, beta.0 - e.0, p());
            vstd::arithmetic::div_mod::lemma_sub_mod_noop(beta.1 - x.1, beta.1 - e.1, p());
            vstd::arithmetic::div_mod::lemma_sub_mod_noop(beta.2 - x.2, beta.2 - e.2, p());
        }
        assert(cmul(csub(e, x), aux_x) == czero()) by {
            lemma_csub_eq(cone(), cone());
        }
        lemma_cmul_by_invertible_zero(csub(e, x), aux_x, csub(beta, x));
        lemma_csub_eq(e, x);
    }
    // The one-row sums are the aux values themselves.
    lemma_cadd_zero(aux_x);
    lemma_cadd_zero(aux_e);
    assert(csum(Seq::<(int, int, int)>::empty()) == czero());
    assert(scale(0, aux_e) == czero());
    assert(csum_scaled(Seq::<nat>::empty(), Seq::<(int, int, int)>::empty()) == czero());
    assert(seq![aux_x].drop_last() =~= Seq::<(int, int, int)>::empty());
    assert(csum(seq![aux_x]) == aux_x);
    assert(seq![1nat].drop_last() =~= Seq::<nat>::empty());
    assert(seq![aux_e].drop_last() =~= Seq::<(int, int, int)>::empty());
    assert(scale(1, aux_e) == cadd(czero(), aux_e));
    assert(csum_scaled(seq![1nat], seq![aux_e]) == cadd(czero(), scale(1, aux_e)));
}

/// A multiplicity below the field order acts by scaling: the constraint's
/// embedded-multiplicity product is the multiplicity-fold sum.
pub proof fn lemma_scale_embed(m: nat, v: (int, int, int))
    requires
        m < p(),
        cwf(v),
    ensures
        cmul(cembed(m as int), v) == scale(m, v),
    decreases m,
{
    vstd::arithmetic::div_mod::lemma_small_mod(m, p() as nat);
    if m == 0 {
        lemma_cmul_zero(v);
        assert(cembed(0) == czero());
    } else {
        lemma_scale_embed((m - 1) as nat, v);
        vstd::arithmetic::div_mod::lemma_small_mod((m - 1) as nat, p() as nat);
        assert(cembed(m as int) == cadd(cembed((m - 1) as int), cone())) by {
            vstd::arithmetic::div_mod::lemma_small_mod(m, p() as nat);
        }
        lemma_cmul_distrib(cembed((m - 1) as int), cone(), v);
        lemma_cmul_one(v);
        lemma_cmul_comm(cembed(m as int), v);
        lemma_cmul_comm(cembed((m - 1) as int), v);
        lemma_cmul_comm(cone(), v);
    }
}

/// The running partial sum telescopes: if the first row holds the first
/// term and every later row adds its own term, the last row holds the sum
/// of all terms.
pub proof fn lemma_running_sum_telescopes(sums: Seq<(int, int, int)>, terms: Seq<(int, int, int)>)
    requires
        sums.len() == terms.len(),
        sums.len() > 0,
        forall|i: int| 0 <= i < terms.len() ==> cwf(#[trigger] terms[i]),
        sums[0] == terms[0],
        forall|i: int| 1 <= i < sums.len() ==> sums[i] == cadd(#[trigger] sums[i - 1], terms[i]),
    ensures
        sums.last() == csum(terms),
    decreases sums.len(),
{
    if sums.len() == 1 {
        assert(terms.drop_last().len() == 0);
        assert(csum(terms.drop_last()) == czero());
        assert(csum(terms) == cadd(czero(), terms[0]));
        lemma_cadd_zero(terms[0]);
    } else {
        lemma_running_sum_telescopes(sums.drop_last(), terms.drop_last());
        assert(sums.drop_last().last() == sums[sums.len() - 2]);
        assert(sums.last() == cadd(sums[sums.len() - 2], terms.last()));
    }
}

} // verus!
