//! The matrix expander: one regulation becomes the full Cartesian product
//! of execution units, platform target outermost, then build target, then
//! job, then feature set innermost.

use vstd::prelude::*;

use crate::error::Error;
use crate::merge::clone_jobs;
use crate::policy::Job;
use crate::policy::Regulation;
use crate::policy::RegulationCheck;
use crate::policy::RegulationCheckView;
use crate::policy::RegulationView;
use crate::strutil::clone_strings;
use crate::strutil::str_eq;

verus! {

use vstd::arithmetic::div_mod::lemma_div_pos_is_pos;
use vstd::arithmetic::div_mod::lemma_fundamental_div_mod;
use vstd::arithmetic::div_mod::lemma_mod_division_less_than_divisor;
use vstd::arithmetic::div_mod::lemma_multiply_divide_lt;

/// The designator that stands for every build target at once.
pub open spec fn all_designator() -> Seq<char> {
    "all"@
}

/// The `all` build target must stand alone: naming it beside any other
/// build target violates the configuration invariant.
pub open spec fn all_violation(r: RegulationView) -> bool {
    (exists|i: int|
        0 <= i < r.build_targets.len() && r.build_targets[i] == all_designator())
        && r.build_targets.len() != 1
}

/// How many execution units the expansion of `r` holds.
pub open spec fn expansion_len(r: RegulationView) -> int {
    (r.platform_targets.len() as int) * ((r.build_targets.len() as int) * ((r.jobs.norm().len()
        as int) * (r.feature_sets.len() as int)))
}

/// The execution unit drawn from position `(p, b, j, f)` of the product.
pub open spec fn unit_at(r: RegulationView, p: int, b: int, j: int, f: int) -> RegulationCheckView {
    RegulationCheckView {
        platform_target: r.platform_targets[p],
        build_target: r.build_targets[b],
        job: r.jobs.norm()[j],
        features: r.feature_sets[f],
    }
}

/// Where the unit drawn from `(p, b, j, f)` stands in the expansion: the
/// iteration runs platform target outermost and feature set innermost.
pub open spec fn tuple_index(r: RegulationView, p: int, b: int, j: int, f: int) -> int {
    let bl = r.build_targets.len() as int;
    let jl = r.jobs.norm().len() as int;
    let fl = r.feature_sets.len() as int;
    p * (bl * (jl * fl)) + b * (jl * fl) + j * fl + f
}

/// The whole contract of a successful expansion: one unit for every tuple,
/// in the fixed nested order, and nothing else.
pub open spec fn is_expansion(r: RegulationView, v: Seq<RegulationCheckView>) -> bool {
    &&& v.len() == expansion_len(r)
    &&& forall|p: int, b: int, j: int, f: int|
        0 <= p < r.platform_targets.len() && 0 <= b < r.build_targets.len() && 0 <= j
            < r.jobs.norm().len() && 0 <= f < r.feature_sets.len() ==> v[#[trigger] tuple_index(
            r,
            p,
            b,
            j,
            f,
        )] == unit_at(r, p, b, j, f)
}

/// In a positional system with radix `m`, quotient and remainder are unique.
proof fn lemma_radix_unique(x1: int, r1: int, x2: int, r2: int, m: int)
    requires
        m > 0,
        0 <= r1 < m,
        0 <= r2 < m,
        x1 * m + r1 == x2 * m + r2,
    ensures
        x1 == x2,
        r1 == r2,
{
    assert(x1 == x2 && r1 == r2) by (nonlinear_arith)
        requires
            m > 0,
            0 <= r1 < m,
            0 <= r2 < m,
            x1 * m + r1 == x2 * m + r2,
    ;
}

/// The flat position formula equals its mixed-radix nesting.
proof fn lemma_flat_nested(p: int, b: int, j: int, f: int, bl: int, jl: int, fl: int)
    ensures
        p * (bl * (jl * fl)) + b * (jl * fl) + j * fl + f == ((p * bl + b) * jl + j) * fl + f,
{
    assert(((p * bl + b) * jl + j) * fl == (p * bl + b) * (jl * fl) + j * fl) by (nonlinear_arith);
    assert((p * bl + b) * (jl * fl) == p * (bl * (jl * fl)) + b * (jl * fl)) by (nonlinear_arith);
}

/// Distinct tuples stand at distinct positions of the expansion.
pub proof fn lemma_tuple_index_injective(
    r: RegulationView,
    p1: int,
    b1: int,
    j1: int,
    f1: int,
    p2: int,
    b2: int,
    j2: int,
    f2: int,
)
    requires
        0 <= p1 < r.platform_targets.len(),
        0 <= b1 < r.build_targets.len(),
        0 <= j1 < r.jobs.norm().len(),
        0 <= f1 < r.feature_sets.len(),
        0 <= p2 < r.platform_targets.len(),
        0 <= b2 < r.build_targets.len(),
        0 <= j2 < r.jobs.norm().len(),
        0 <= f2 < r.feature_sets.len(),
        tuple_index(r, p1, b1, j1, f1) == tuple_index(r, p2, b2, j2, f2),
    ensures
        p1 == p2,
        b1 == b2,
        j1 == j2,
        f1 == f2,
{
    let bl = r.build_targets.len() as int;
    let jl = r.jobs.norm().len() as int;
    let fl = r.feature_sets.len() as int;
    lemma_flat_nested(p1, b1, j1, f1, bl, jl, fl);
    lemma_flat_nested(p2, b2, j2, f2, bl, jl, fl);
    lemma_radix_unique((p1 * bl + b1) * jl + j1, f1, (p2 * bl + b2) * jl + j2, f2, fl);
    lemma_radix_unique(p1 * bl + b1, j1, p2 * bl + b2, j2, jl);
    lemma_radix_unique(p1, b1, p2, b2, bl);
}

/// Distinct tuples yield distinct execution units, as long as no list of
/// the regulation repeats an entry: the expansion has no duplicates, and
/// none of its units is dropped or folded into another.
pub proof fn lemma_expansion_distinct(
    r: RegulationView,
    p1: int,
    b1: int,
    j1: int,
    f1: int,
    p2: int,
    b2: int,
    j2: int,
    f2: int,
)
    requires
        0 <= p1 < r.platform_targets.len(),
        0 <= b1 < r.build_targets.len(),
        0 <= j1 < r.jobs.norm().len(),
        0 <= f1 < r.feature_sets.len(),
        0 <= p2 < r.platform_targets.len(),
        0 <= b2 < r.build_targets.len(),
        0 <= j2 < r.jobs.norm().len(),
        0 <= f2 < r.feature_sets.len(),
        !(p1 == p2 && b1 == b2 && j1 == j2 && f1 == f2),
        r.platform_targets.no_duplicates(),
        r.build_targets.no_duplicates(),
        r.jobs.norm().no_duplicates(),
        r.feature_sets.no_duplicates(),
    ensures
        tuple_index(r, p1, b1, j1, f1) != tuple_index(r, p2, b2, j2, f2),
        unit_at(r, p1, b1, j1, f1) != unit_at(r, p2, b2, j2, f2),
{
    if tuple_index(r, p1, b1, j1, f1) == tuple_index(r, p2, b2, j2, f2) {
        lemma_tuple_index_injective(r, p1, b1, j1, f1, p2, b2, j2, f2);
    }
    if p1 != p2 {
        assert(r.platform_targets[p1] != r.platform_targets[p2]);
    } else if b1 != b2 {
        assert(r.build_targets[b1] != r.build_targets[b2]);
    } else if j1 != j2 {
        assert(r.jobs.norm()[j1] != r.jobs.norm()[j2]);
    } else {
        assert(r.feature_sets[f1] != r.feature_sets[f2]);
    }
}

/// The tuple whose unit stands at position `k` of the expansion.
pub open spec fn decode_index(r: RegulationView, k: int) -> (int, int, int, int) {
    let bl = r.build_targets.len() as int;
    let jl = r.jobs.norm().len() as int;
    let fl = r.feature_sets.len() as int;
    let p = k / (bl * (jl * fl));
    let r1 = k % (bl * (jl * fl));
    let b = r1 / (jl * fl);
    let r2 = r1 % (jl * fl);
    let j = r2 / fl;
    let f = r2 % fl;
    (p, b, j, f)
}

/// The expansion of a regulation as one sequence, platform target
/// outermost, feature set innermost.
pub open spec fn expansion_seq(r: RegulationView) -> Seq<RegulationCheckView> {
    Seq::new(
        expansion_len(r) as nat,
        |k: int|
            {
                let (p, b, j, f) = decode_index(r, k);
                unit_at(r, p, b, j, f)
            },
    )
}

/// Every position of the expansion is the position of exactly one tuple:
/// decoding a position yields a tuple in bounds that encodes back to it.
pub proof fn lemma_decode_index(r: RegulationView, k: int)
    requires
        0 <= k < expansion_len(r),
    ensures
        ({
            let (p, b, j, f) = decode_index(r, k);
            &&& 0 <= p < r.platform_targets.len()
            &&& 0 <= b < r.build_targets.len()
            &&& 0 <= j < r.jobs.norm().len()
            &&& 0 <= f < r.feature_sets.len()
            &&& tuple_index(r, p, b, j, f) == k
        }),
{
    let pl = r.platform_targets.len() as int;
    let bl = r.build_targets.len() as int;
    let jl = r.jobs.norm().len() as int;
    let fl = r.feature_sets.len() as int;
    let s1 = bl * (jl * fl);
    let s2 = jl * fl;
    assert(pl > 0 && s1 > 0 && bl > 0 && s2 > 0 && jl > 0 && fl > 0) by (nonlinear_arith)
        requires
            0 <= k,
            k < pl * s1,
            s1 == bl * s2,
            s2 == jl * fl,
            pl >= 0,
            bl >= 0,
            jl >= 0,
            fl >= 0,
    ;
    let p = k / s1;
    let r1 = k % s1;
    let b = r1 / s2;
    let r2 = r1 % s2;
    let j = r2 / fl;
    let f = r2 % fl;
    lemma_div_pos_is_pos(k, s1);
    assert(s1 * pl == pl * s1) by (nonlinear_arith);
    lemma_multiply_divide_lt(k, s1, pl);
    lemma_mod_division_less_than_divisor(k, s1);
    lemma_fundamental_div_mod(k, s1);
    lemma_div_pos_is_pos(r1, s2);
    assert(s2 * bl == bl * s2) by (nonlinear_arith);
    lemma_multiply_divide_lt(r1, s2, bl);
    lemma_mod_division_less_than_divisor(r1, s2);
    lemma_fundamental_div_mod(r1, s2);
    lemma_div_pos_is_pos(r2, fl);
    assert(fl * jl == jl * fl) by (nonlinear_arith);
    lemma_multiply_divide_lt(r2, fl, jl);
    lemma_mod_division_less_than_divisor(r2, fl);
    lemma_fundamental_div_mod(r2, fl);
    assert(p * s1 + b * s2 + j * fl + f == s1 * p + (s2 * b + (fl * j + f))) by (nonlinear_arith);
}

/// A sequence that meets the expansion contract is the expansion sequence.
pub proof fn lemma_is_expansion_seq(r: RegulationView, v: Seq<RegulationCheckView>)
    requires
        is_expansion(r, v),
    ensures
        v == expansion_seq(r),
{
    let pl = r.platform_targets.len() as int;
    let bl = r.build_targets.len() as int;
    let jl = r.jobs.norm().len() as int;
    let fl = r.feature_sets.len() as int;
    assert(pl * (bl * (jl * fl)) >= 0) by (nonlinear_arith)
        requires
            pl >= 0,
            bl >= 0,
            jl >= 0,
            fl >= 0,
    ;
    assert(expansion_len(r) == pl * (bl * (jl * fl)));
    assert forall|k: int| 0 <= k < v.len() implies v[k] == expansion_seq(r)[k] by {
        lemma_decode_index(r, k);
        let (p, b, j, f) = decode_index(r, k);
        assert(v[tuple_index(r, p, b, j, f)] == unit_at(r, p, b, j, f));
    }
    assert(v =~= expansion_seq(r));
}

/// The expansion holds exactly the product count of units: as long as no
/// list of the regulation repeats an entry, no two positions hold the same
/// unit.
pub proof fn lemma_expansion_no_duplicates(r: RegulationView)
    requires
        r.platform_targets.no_duplicates(),
        r.build_targets.no_duplicates(),
        r.jobs.norm().no_duplicates(),
        r.feature_sets.no_duplicates(),
    ensures
        expansion_seq(r).len() == expansion_len(r),
        expansion_seq(r).no_duplicates(),
{
    let pl = r.platform_targets.len() as int;
    let bl = r.build_targets.len() as int;
    let jl = r.jobs.norm().len() as int;
    let fl = r.feature_sets.len() as int;
    assert(pl * (bl * (jl * fl)) >= 0) by (nonlinear_arith)
        requires
            pl >= 0,
            bl >= 0,
            jl >= 0,
            fl >= 0,
    ;
    let v = expansion_seq(r);
    assert forall|k1: int, k2: int|
        0 <= k1 < v.len() && 0 <= k2 < v.len() && k1 != k2 implies v[k1] != v[k2] by {
        lemma_decode_index(r, k1);
        lemma_decode_index(r, k2);
        let (p1, b1, j1, f1) = decode_index(r, k1);
        let (p2, b2, j2, f2) = decode_index(r, k2);
        assert(!(p1 == p2 && b1 == b2 && j1 == j2 && f1 == f2));
        lemma_expansion_distinct(r, p1, b1, j1, f1, p2, b2, j2, f2);
    }
}

/// No combination is dropped: every tuple of the four lists stands at its
/// own position of the expansion.
pub proof fn lemma_expansion_complete(r: RegulationView, p: int, b: int, j: int, f: int)
    requires
        0 <= p < r.platform_targets.len(),
        0 <= b < r.build_targets.len(),
        0 <= j < r.jobs.norm().len(),
        0 <= f < r.feature_sets.len(),
    ensures
        0 <= tuple_index(r, p, b, j, f) < expansion_seq(r).len(),
        expansion_seq(r)[tuple_index(r, p, b, j, f)] == unit_at(r, p, b, j, f),
{
    let pl = r.platform_targets.len() as int;
    let bl = r.build_targets.len() as int;
    let jl = r.jobs.norm().len() as int;
    let fl = r.feature_sets.len() as int;
    let k = tuple_index(r, p, b, j, f);
    assert(0 <= k < pl * (bl * (jl * fl))) by (nonlinear_arith)
        requires
            0 <= p < pl,
            0 <= b < bl,
            0 <= j < jl,
            0 <= f < fl,
            k == p * (bl * (jl * fl)) + b * (jl * fl) + j * fl + f,
    ;
    lemma_decode_index(r, k);
    let (p2, b2, j2, f2) = decode_index(r, k);
    lemma_tuple_index_injective(r, p2, b2, j2, f2, p, b, j, f);
}

/// Copies a job, keeping its name and arguments.
fn clone_job(j: &Job) -> (c: Job)
    ensures
        c@ == j@,
{
    Job { name: j.name.clone(), args: clone_strings(&j.args) }
}

impl Regulation {
    /// Expands the regulation into the full Cartesian product of execution
    /// units, after validating that the `all` build target stands alone.
    pub fn expand(&self) -> (r: Result<Vec<RegulationCheck>, Error>)
        ensures
            r is Err <==> all_violation(self@),
            r matches Err(e) ==> e is BuildTargetsAllNotAlone,
            r matches Ok(v) ==> is_expansion(self@, v.deep_view()),
            r matches Ok(v) ==> v.deep_view() == expansion_seq(self@),
    {
        let ghost rv = self@;
        let mut has_all = false;
        let mut i: usize = 0;
        while i < self.build_targets.len()
            invariant
                i <= self.build_targets@.len(),
                rv == self@,
                has_all == exists|k: int|
                    0 <= k < i && rv.build_targets[k] == all_designator(),
            decreases self.build_targets@.len() - i,
        {
            if str_eq(self.build_targets[i].as_str(), "all") {
                proof {
                    assert(rv.build_targets[i as int] == all_designator());
                }
                has_all = true;
            }
            i = i + 1;
        }
        if has_all && self.build_targets.len() != 1 {
            return Err(Error::BuildTargetsAllNotAlone);
        }
        let jobs: Vec<Job> = clone_jobs(&self.jobs).into_jobs();
        let ghost bl = rv.build_targets.len() as int;
        let ghost jl = rv.jobs.norm().len() as int;
        let ghost fl = rv.feature_sets.len() as int;
        let mut out: Vec<RegulationCheck> = Vec::new();
        let mut p: usize = 0;
        while p < self.platform_targets.len()
            invariant
                p <= self.platform_targets@.len(),
                rv == self@,
                jobs.deep_view() == rv.jobs.norm(),
                bl == rv.build_targets.len() as int,
                jl == rv.jobs.norm().len() as int,
                fl == rv.feature_sets.len() as int,
                out.deep_view().len() == p * (bl * (jl * fl)),
                is_expansion_prefix(rv, out.deep_view()),
            decreases self.platform_targets@.len() - p,
        {
            let mut b: usize = 0;
            while b < self.build_targets.len()
                invariant
                    p < self.platform_targets@.len(),
                    b <= self.build_targets@.len(),
                    rv == self@,
                    jobs.deep_view() == rv.jobs.norm(),
                    bl == rv.build_targets.len() as int,
                    jl == rv.jobs.norm().len() as int,
                    fl == rv.feature_sets.len() as int,
                    out.deep_view().len() == p * (bl * (jl * fl)) + b * (jl * fl),
                    is_expansion_prefix(rv, out.deep_view()),
                decreases self.build_targets@.len() - b,
            {
                let mut j: usize = 0;
                while j < jobs.len()
                    invariant
                        p < self.platform_targets@.len(),
                        b < self.build_targets@.len(),
                        j <= jobs@.len(),
                        rv == self@,
                        jobs.deep_view() == rv.jobs.norm(),
                        bl == rv.build_targets.len() as int,
                        jl == rv.jobs.norm().len() as int,
                        fl == rv.feature_sets.len() as int,
                        out.deep_view().len() == p * (bl * (jl * fl)) + b * (jl * fl) + j * fl,
                        is_expansion_prefix(rv, out.deep_view()),
                    decreases jobs@.len() - j,
                {
                    let mut f: usize = 0;
                    while f < self.feature_sets.len()
                        invariant
                            p < self.platform_targets@.len(),
                            b < self.build_targets@.len(),
                            j < jobs@.len(),
                            f <= self.feature_sets@.len(),
                            rv == self@,
                            jobs.deep_view() == rv.jobs.norm(),
                            bl == rv.build_targets.len() as int,
                            jl == rv.jobs.norm().len() as int,
                            fl == rv.feature_sets.len() as int,
                            out.deep_view().len() == p * (bl * (jl * fl)) + b * (jl * fl) + j * fl
                                + f,
                            is_expansion_prefix(rv, out.deep_view()),
                        decreases self.feature_sets@.len() - f,
                    {
                        let unit = RegulationCheck {
                            platform_target: self.platform_targets[p].clone(),
                            build_target: self.build_targets[b].clone(),
                            job: clone_job(&jobs[j]),
                            features: clone_strings(&self.feature_sets[f]),
                        };
                        proof {
                            assert(unit@ == unit_at(rv, p as int, b as int, j as int, f as int));
                        }
                        let ghost prev = out.deep_view();
                        out.push(unit);
                        proof {
                            assert(out.deep_view() =~= prev.push(
                                unit_at(rv, p as int, b as int, j as int, f as int),
                            ));
                            assert(prev.len() == tuple_index(
                                rv,
                                p as int,
                                b as int,
                                j as int,
                                f as int,
                            ));
                            lemma_expansion_prefix_push(
                                rv,
                                prev,
                                p as int,
                                b as int,
                                j as int,
                                f as int,
                            );
                        }
                        f = f + 1;
                    }
                    proof {
                        assert((j + 1) * fl == j * fl + fl) by (nonlinear_arith);
                    }
                    j = j + 1;
                }
                proof {
                    assert((b + 1) * (jl * fl) == b * (jl * fl) + jl * fl) by (nonlinear_arith);
                }
                b = b + 1;
            }
            proof {
                assert((p + 1) * (bl * (jl * fl)) == p * (bl * (jl * fl)) + bl * (jl * fl))
                    by (nonlinear_arith);
            }
            p = p + 1;
        }
        proof {
            lemma_expansion_prefix_full(rv, out.deep_view());
            lemma_is_expansion_seq(rv, out.deep_view());
        }
        Ok(out)
    }
}

/// The characterization that the expansion loops maintain: every tuple
/// whose position falls before the current length is already in place.
pub open spec fn is_expansion_prefix(r: RegulationView, v: Seq<RegulationCheckView>) -> bool {
    forall|p: int, b: int, j: int, f: int|
        0 <= p < r.platform_targets.len() && 0 <= b < r.build_targets.len() && 0 <= j
            < r.jobs.norm().len() && 0 <= f < r.feature_sets.len() && tuple_index(r, p, b, j, f)
            < v.len() ==> v[#[trigger] tuple_index(r, p, b, j, f)] == unit_at(r, p, b, j, f)
}

/// Pushing the unit of the tuple whose position equals the current length
/// keeps the characterization.
proof fn lemma_expansion_prefix_push(
    r: RegulationView,
    v: Seq<RegulationCheckView>,
    p: int,
    b: int,
    j: int,
    f: int,
)
    requires
        is_expansion_prefix(r, v),
        0 <= p < r.platform_targets.len(),
        0 <= b < r.build_targets.len(),
        0 <= j < r.jobs.norm().len(),
        0 <= f < r.feature_sets.len(),
        tuple_index(r, p, b, j, f) == v.len(),
    ensures
        is_expansion_prefix(r, v.push(unit_at(r, p, b, j, f))),
{
    let w = v.push(unit_at(r, p, b, j, f));
    assert forall|p2: int, b2: int, j2: int, f2: int|
        0 <= p2 < r.platform_targets.len() && 0 <= b2 < r.build_targets.len() && 0 <= j2
            < r.jobs.norm().len() && 0 <= f2 < r.feature_sets.len() && tuple_index(
            r,
            p2,
            b2,
            j2,
            f2,
        ) < w.len() implies w[#[trigger] tuple_index(r, p2, b2, j2, f2)] == unit_at(
        r,
        p2,
        b2,
        j2,
        f2,
    ) by {
        let k = tuple_index(r, p2, b2, j2, f2);
        if k == v.len() {
            lemma_tuple_index_injective(r, p2, b2, j2, f2, p, b, j, f);
        }
    }
}

/// Once the length reaches the full product, the characterization is the
/// whole expansion contract.
proof fn lemma_expansion_prefix_full(r: RegulationView, v: Seq<RegulationCheckView>)
    requires
        is_expansion_prefix(r, v),
        v.len() == expansion_len(r),
    ensures
        is_expansion(r, v),
{
    assert forall|p: int, b: int, j: int, f: int|
        0 <= p < r.platform_targets.len() && 0 <= b < r.build_targets.len() && 0 <= j
            < r.jobs.norm().len() && 0 <= f < r.feature_sets.len() implies v[#[trigger] tuple_index(
        r,
        p,
        b,
        j,
        f,
    )] == unit_at(r, p, b, j, f) by {
        let bl = r.build_targets.len() as int;
        let jl = r.jobs.norm().len() as int;
        let fl = r.feature_sets.len() as int;
        let pl = r.platform_targets.len() as int;
        assert(tuple_index(r, p, b, j, f) < expansion_len(r)) by (nonlinear_arith)
            requires
                0 <= p < pl,
                0 <= b < bl,
                0 <= j < jl,
                0 <= f < fl,
                tuple_index(r, p, b, j, f) == p * (bl * (jl * fl)) + b * (jl * fl) + j * fl + f,
                expansion_len(r) == pl * (bl * (jl * fl)),
        ;
    }
}

} // verus!
