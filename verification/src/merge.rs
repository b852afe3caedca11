//! The default cascade: merging a unit's own policy file with the nearest
//! enclosing defaults, field by field.
//!
//! The caller hands over every policy file found between the workspace root
//! and the unit, in root-to-unit order, the unit's own file last. Merging is
//! field-local: a field of a regulation that is already populated is left
//! untouched, an empty field is filled from the effective default, which is
//! the nearest (last) non-absent `default` entry among the collected files.

use vstd::prelude::*;

use crate::policy::CustomsFile;
use crate::policy::CustomsFileView;
use crate::policy::Job;
use crate::policy::JobParameters;
use crate::policy::JobView;
use crate::policy::Jobs;
use crate::policy::JobsView;
use crate::policy::Regulation;
use crate::policy::RegulationView;
use crate::strutil::clone_string_vecs;
use crate::strutil::clone_strings;

verus! {

/// Whether a jobs specification denotes zero jobs.
pub open spec fn jobs_empty(j: JobsView) -> bool {
    j.norm().len() == 0
}

/// The field-local merge of one regulation with a default: every empty
/// field is replaced by the default's corresponding field, every populated
/// field is kept as it is.
pub open spec fn merged_regulation(r: RegulationView, d: RegulationView) -> RegulationView {
    RegulationView {
        platform_targets: if r.platform_targets.len() == 0 {
            d.platform_targets
        } else {
            r.platform_targets
        },
        build_targets: if r.build_targets.len() == 0 {
            d.build_targets
        } else {
            r.build_targets
        },
        jobs: if jobs_empty(r.jobs) {
            d.jobs
        } else {
            r.jobs
        },
        feature_sets: if r.feature_sets.len() == 0 {
            d.feature_sets
        } else {
            r.feature_sets
        },
    }
}

/// The effective default of a root-to-unit list of policy files: the last
/// non-absent `default` entry, the nearest enclosing one winning.
pub open spec fn effective_default(files: Seq<CustomsFileView>) -> Option<RegulationView>
    decreases files.len(),
{
    if files.len() == 0 {
        None
    } else if files.last().default is Some {
        files.last().default
    } else {
        effective_default(files.drop_last())
    }
}

/// The resolved policy of the unit whose own file stands last in `files`:
/// its own explicit regulations, each merged with the effective default.
pub open spec fn resolved_view(files: Seq<CustomsFileView>) -> CustomsFileView
    recommends
        files.len() >= 1,
{
    let own = files.last();
    match effective_default(files) {
        None => own,
        Some(d) => CustomsFileView {
            default: own.default,
            regulation: Seq::new(
                own.regulation.len(),
                |i: int| merged_regulation(own.regulation[i], d),
            ),
        },
    }
}

/// Whether the specification denotes zero jobs, decided on the spot.
pub fn jobs_len_is_zero(jobs: &Jobs) -> (r: bool)
    ensures
        r == jobs_empty(jobs@),
{
    match jobs {
        Jobs::Short(names) => names.len() == 0,
        Jobs::Detailed(entries) => entries.len() == 0,
    }
}

/// Copies a jobs specification, keeping its shape and contents.
pub fn clone_jobs(jobs: &Jobs) -> (r: Jobs)
    ensures
        r@ == jobs@,
{
    match jobs {
        Jobs::Short(names) => Jobs::Short(clone_strings(names)),
        Jobs::Detailed(entries) => {
            let mut out: Vec<(String, JobParameters)> = Vec::new();
            let mut i: usize = 0;
            while i < entries.len()
                invariant
                    i <= entries.len(),
                    out@.len() == i,
                    forall|k: int|
                        0 <= k < i ==> #[trigger] out@[k].0@ == entries@[k].0@ && out@[k].1.args.deep_view()
                            == entries@[k].1.args.deep_view(),
                decreases entries.len() - i,
            {
                let name = entries[i].0.clone();
                let args = clone_strings(&entries[i].1.args);
                out.push((name, JobParameters { args }));
                i = i + 1;
            }
            let r = Jobs::Detailed(out);
            proof {
                assert(match (r@, jobs@) {
                    (JobsView::Detailed(a), JobsView::Detailed(b)) => a =~= b,
                    _ => false,
                });
            }
            r
        },
    }
}

/// Copies a regulation, keeping every field's contents.
pub fn clone_regulation(r: &Regulation) -> (c: Regulation)
    ensures
        c@ == r@,
{
    Regulation {
        platform_targets: clone_strings(&r.platform_targets),
        build_targets: clone_strings(&r.build_targets),
        jobs: clone_jobs(&r.jobs),
        feature_sets: clone_string_vecs(&r.feature_sets),
    }
}

/// Copies a whole policy file, keeping its contents.
pub fn clone_customs_file(f: &CustomsFile) -> (c: CustomsFile)
    ensures
        c@ == f@,
{
    let default = match &f.default {
        Some(d) => Some(clone_regulation(d)),
        None => None,
    };
    let mut regulation: Vec<Regulation> = Vec::new();
    let mut i: usize = 0;
    while i < f.regulation.len()
        invariant
            i <= f.regulation.len(),
            regulation.deep_view() =~= f.regulation.deep_view().take(i as int),
        decreases f.regulation.len() - i,
    {
        let ghost prev = regulation.deep_view();
        regulation.push(clone_regulation(&f.regulation[i]));
        proof {
            assert(regulation.deep_view() =~= prev.push(f.regulation@[i as int]@));
            assert(prev.push(f.regulation@[i as int]@) =~= f.regulation.deep_view().take(
                i as int + 1,
            ));
        }
        i = i + 1;
    }
    let c = CustomsFile { default, regulation };
    proof {
        assert(c.regulation.deep_view() =~= f.regulation.deep_view());
    }
    c
}

/// Merges one regulation with a default, field by field.
fn merge_regulation(r: &Regulation, d: &Regulation) -> (m: Regulation)
    ensures
        m@ == merged_regulation(r@, d@),
{
    Regulation {
        platform_targets: if r.platform_targets.len() == 0 {
            clone_strings(&d.platform_targets)
        } else {
            clone_strings(&r.platform_targets)
        },
        build_targets: if r.build_targets.len() == 0 {
            clone_strings(&d.build_targets)
        } else {
            clone_strings(&r.build_targets)
        },
        jobs: if jobs_len_is_zero(&r.jobs) {
            clone_jobs(&d.jobs)
        } else {
            clone_jobs(&r.jobs)
        },
        feature_sets: if r.feature_sets.len() == 0 {
            clone_string_vecs(&d.feature_sets)
        } else {
            clone_string_vecs(&r.feature_sets)
        },
    }
}

/// Resolves the policy of the unit whose own file stands last in `files`:
/// finds the nearest enclosing default and merges it, field-locally, into
/// every empty field of the unit's own regulations.
pub fn resolve_customs(files: &Vec<CustomsFile>) -> (r: CustomsFile)
    requires
        files@.len() >= 1,
    ensures
        r@ == resolved_view(files.deep_view()),
{
    let ghost files_v = files.deep_view();
    // Scan for the nearest non-absent default, from the unit outwards.
    let mut idx: usize = files.len();
    let mut found: Option<&Regulation> = None;
    proof {
        assert(files_v.take(idx as int) =~= files_v);
    }
    while idx > 0 && found.is_none()
        invariant
            idx <= files@.len(),
            files_v == files.deep_view(),
            match found {
                Some(d) => idx < files@.len() && files_v[idx as int].default == Some(d@)
                    && effective_default(files_v) == Some(d@),
                None => effective_default(files_v) == effective_default(
                    files_v.take(idx as int),
                ),
            },
        decreases idx,
    {
        idx = idx - 1;
        proof {
            assert(files_v.take(idx as int + 1).last() == files_v[idx as int]);
            assert(files_v.take(idx as int + 1).drop_last() =~= files_v.take(idx as int));
        }
        match &files[idx].default {
            Some(d) => {
                found = Some(d);
            },
            None => {},
        }
    }
    let own = &files[files.len() - 1];
    proof {
        assert(files_v.last() == own@);
    }
    match found {
        None => {
            proof {
                assert(files_v.take(0) =~= Seq::<CustomsFileView>::empty());
            }
            clone_customs_file(own)
        },
        Some(d) => {
            let ghost resolved = resolved_view(files_v);
            let default = match &own.default {
                Some(od) => Some(clone_regulation(od)),
                None => None,
            };
            let mut regulation: Vec<Regulation> = Vec::new();
            let mut i: usize = 0;
            while i < own.regulation.len()
                invariant
                    i <= own.regulation.len(),
                    resolved == resolved_view(files_v),
                    files_v == files.deep_view(),
                    files@.len() >= 1,
                    own == &files@[files@.len() - 1],
                    effective_default(files_v) == Some(d@),
                    resolved.regulation.len() == own.regulation@.len(),
                    forall|k: int|
                        0 <= k < own.regulation@.len() ==> resolved.regulation[k]
                            == merged_regulation(own.regulation@[k]@, d@),
                    regulation.deep_view() =~= resolved.regulation.take(i as int),
                decreases own.regulation.len() - i,
            {
                let ghost prev = regulation.deep_view();
                regulation.push(merge_regulation(&own.regulation[i], d));
                proof {
                    assert(regulation.deep_view() =~= prev.push(resolved.regulation[i as int]));
                    assert(prev.push(resolved.regulation[i as int]) =~= resolved.regulation.take(
                        i as int + 1,
                    ));
                }
                i = i + 1;
            }
            let r = CustomsFile { default, regulation };
            proof {
                assert(r.regulation.deep_view() =~= resolved.regulation);
            }
            r
        },
    }
}

/// The merge never alters a populated field: a field already populated in a
/// unit's own regulation is kept whatever the default holds, and an empty
/// field is replaced exactly by the default's corresponding field.
pub proof fn lemma_merge_field_local(r: RegulationView, d: RegulationView)
    ensures
        r.platform_targets.len() != 0 ==> merged_regulation(r, d).platform_targets
            == r.platform_targets,
        r.platform_targets.len() == 0 ==> merged_regulation(r, d).platform_targets
            == d.platform_targets,
        r.build_targets.len() != 0 ==> merged_regulation(r, d).build_targets == r.build_targets,
        r.build_targets.len() == 0 ==> merged_regulation(r, d).build_targets == d.build_targets,
        !jobs_empty(r.jobs) ==> merged_regulation(r, d).jobs == r.jobs,
        jobs_empty(r.jobs) ==> merged_regulation(r, d).jobs == d.jobs,
        r.feature_sets.len() != 0 ==> merged_regulation(r, d).feature_sets == r.feature_sets,
        r.feature_sets.len() == 0 ==> merged_regulation(r, d).feature_sets == d.feature_sets,
{
}

/// Merging is idempotent: merging a second time with the same default
/// changes nothing.
pub proof fn lemma_merge_idempotent(r: RegulationView, d: RegulationView)
    ensures
        merged_regulation(merged_regulation(r, d), d) == merged_regulation(r, d),
{
}

/// The effective default is the nearest enclosing one: the last file whose
/// `default` entry is present supplies it.
pub proof fn lemma_effective_default_nearest(files: Seq<CustomsFileView>, i: int)
    requires
        0 <= i < files.len(),
        files[i].default is Some,
        forall|j: int| i < j < files.len() ==> files[j].default is None,
    ensures
        effective_default(files) == files[i].default,
    decreases files.len(),
{
    if i == files.len() - 1 {
    } else {
        assert(files.drop_last() =~= files.take(files.len() - 1));
        lemma_effective_default_nearest(files.drop_last(), i);
    }
}

} // verus!
