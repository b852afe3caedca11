//! Tests for the matrix expander: the `all` exclusivity invariant and the
//! Cartesian-product shape of the expansion.

use cargo_customs::error::Error;
use cargo_customs::policy::Job;
use cargo_customs::policy::JobParameters;
use cargo_customs::policy::Jobs;
use cargo_customs::policy::Regulation;

fn strings(items: &[&str]) -> Vec<String> {
    items.iter().map(|s| s.to_string()).collect()
}

fn regulation(platforms: &[&str], builds: &[&str], jobs: &[&str], features: &[&[&str]]) -> Regulation {
    Regulation {
        platform_targets: strings(platforms),
        build_targets: strings(builds),
        jobs: Jobs::Short(strings(jobs)),
        feature_sets: features.iter().map(|f| strings(f)).collect(),
    }
}

#[test]
fn all_build_target_beside_another_is_an_error() {
    let reg = regulation(&["host"], &["all", "lib"], &["test"], &[&[]]);
    let r = reg.expand();
    assert!(matches!(r, Err(Error::BuildTargetsAllNotAlone)));
}

#[test]
fn all_build_target_alone_expands() {
    let reg = regulation(&["host"], &["all"], &["test"], &[&[]]);
    let r = reg.expand().unwrap();
    assert_eq!(r.len(), 1);
    assert_eq!(r[0].build_target, "all");
}

#[test]
fn expansion_has_the_full_product_count() {
    let reg = regulation(
        &["host", "aarch64-linux-android"],
        &["lib", "bins", "tests"],
        &["test", "clippy"],
        &[&[], &["extra"]],
    );
    let r = reg.expand().unwrap();
    assert_eq!(r.len(), 2 * 3 * 2 * 2);
}

#[test]
fn expansion_tuples_are_distinct_and_ordered() {
    let reg = regulation(&["host", "other"], &["lib", "bins"], &["test"], &[&[]]);
    let r = reg.expand().unwrap();
    assert_eq!(r.len(), 4);
    // Platform target is the outermost loop, build target comes next.
    assert_eq!(r[0].platform_target, "host");
    assert_eq!(r[0].build_target, "lib");
    assert_eq!(r[1].platform_target, "host");
    assert_eq!(r[1].build_target, "bins");
    assert_eq!(r[2].platform_target, "other");
    assert_eq!(r[2].build_target, "lib");
    assert_eq!(r[3].platform_target, "other");
    assert_eq!(r[3].build_target, "bins");
    for a in 0..r.len() {
        for b in (a + 1)..r.len() {
            let same = r[a].platform_target == r[b].platform_target
                && r[a].build_target == r[b].build_target;
            assert!(!same);
        }
    }
}

#[test]
fn empty_platform_list_expands_to_nothing() {
    let reg = regulation(&[], &["lib"], &["test"], &[&[]]);
    let r = reg.expand().unwrap();
    assert_eq!(r.len(), 0);
}

#[test]
fn detailed_jobs_carry_their_arguments_through_expansion() {
    let reg = Regulation {
        platform_targets: strings(&["host"]),
        build_targets: strings(&["lib"]),
        jobs: Jobs::Detailed(vec![(
            "test".to_string(),
            JobParameters { args: strings(&["--nocapture"]) },
        )]),
        feature_sets: vec![vec![]],
    };
    let r = reg.expand().unwrap();
    assert_eq!(r.len(), 1);
    assert_eq!(r[0].job.name, "test");
    assert_eq!(r[0].job.args, strings(&["--nocapture"]));
}

#[test]
fn short_jobs_have_no_arguments() {
    let jobs = Jobs::Short(strings(&["test", "clippy"]));
    let resolved = jobs.into_jobs();
    assert_eq!(resolved.len(), 2);
    assert_eq!(resolved[0].name, "test");
    assert!(resolved[0].args.is_empty());
    assert_eq!(resolved[1].name, "clippy");
    assert!(resolved[1].args.is_empty());
}

#[test]
fn the_default_jobs_specification_is_the_empty_list_form() {
    let jobs = Jobs::default();
    assert!(jobs.into_jobs().is_empty());
}

#[test]
fn job_constructors_keep_name_and_arguments() {
    let short = Job::from_short("doc".to_string());
    assert_eq!(short.name, "doc");
    assert!(short.args.is_empty());
    let detailed = Job::from_parameters(
        "test".to_string(),
        JobParameters { args: strings(&["--ignored"]) },
    );
    assert_eq!(detailed.name, "test");
    assert_eq!(detailed.args, strings(&["--ignored"]));
}
