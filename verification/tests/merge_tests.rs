//! Tests for the default cascade: field-local merging and the
//! nearest-enclosing-default rule.

use cargo_customs::merge::resolve_customs;
use cargo_customs::policy::CustomsFile;
use cargo_customs::policy::Jobs;
use cargo_customs::policy::Regulation;

fn strings(items: &[&str]) -> Vec<String> {
    items.iter().map(|s| s.to_string()).collect()
}

fn regulation(platforms: &[&str], builds: &[&str], jobs: &[&str]) -> Regulation {
    Regulation {
        platform_targets: strings(platforms),
        build_targets: strings(builds),
        jobs: Jobs::Short(strings(jobs)),
        feature_sets: Vec::new(),
    }
}

fn file(default: Option<Regulation>, regulation: Vec<Regulation>) -> CustomsFile {
    CustomsFile { default, regulation }
}

fn short_names(jobs: &Jobs) -> Vec<String> {
    match jobs {
        Jobs::Short(names) => names.clone(),
        Jobs::Detailed(_) => panic!("expected the plain list form"),
    }
}

#[test]
fn empty_fields_inherit_from_the_default() {
    let own = file(None, vec![regulation(&[], &[], &[])]);
    let root = file(Some(regulation(&["host"], &["lib"], &["test"])), Vec::new());
    let resolved = resolve_customs(&vec![root, own]);
    assert_eq!(resolved.regulation.len(), 1);
    assert_eq!(resolved.regulation[0].platform_targets, strings(&["host"]));
    assert_eq!(resolved.regulation[0].build_targets, strings(&["lib"]));
    assert_eq!(short_names(&resolved.regulation[0].jobs), strings(&["test"]));
}

#[test]
fn populated_fields_are_never_altered() {
    let own = file(None, vec![regulation(&["other"], &["bins"], &["clippy"])]);
    let root = file(Some(regulation(&["host"], &["lib"], &["test"])), Vec::new());
    let resolved = resolve_customs(&vec![root, own]);
    assert_eq!(resolved.regulation[0].platform_targets, strings(&["other"]));
    assert_eq!(resolved.regulation[0].build_targets, strings(&["bins"]));
    assert_eq!(short_names(&resolved.regulation[0].jobs), strings(&["clippy"]));
}

#[test]
fn merging_is_field_local_not_record_level() {
    // Only the empty field is filled; the populated one is kept.
    let own = file(None, vec![regulation(&["other"], &[], &[])]);
    let root = file(Some(regulation(&["host"], &["lib"], &["test"])), Vec::new());
    let resolved = resolve_customs(&vec![root, own]);
    assert_eq!(resolved.regulation[0].platform_targets, strings(&["other"]));
    assert_eq!(resolved.regulation[0].build_targets, strings(&["lib"]));
}

#[test]
fn the_nearest_default_wins_over_a_farther_one() {
    let own = file(None, vec![regulation(&[], &[], &[])]);
    let near = file(Some(regulation(&["near"], &["bins"], &["doc"])), Vec::new());
    let far = file(Some(regulation(&["far"], &["lib"], &["test"])), Vec::new());
    let resolved = resolve_customs(&vec![far, near, own]);
    assert_eq!(resolved.regulation[0].platform_targets, strings(&["near"]));
    assert_eq!(resolved.regulation[0].build_targets, strings(&["bins"]));
    assert_eq!(short_names(&resolved.regulation[0].jobs), strings(&["doc"]));
}

#[test]
fn the_units_own_default_is_the_nearest_of_all() {
    let own = file(
        Some(regulation(&["own"], &[], &[])),
        vec![regulation(&[], &["bins"], &["doc"])],
    );
    let far = file(Some(regulation(&["far"], &["lib"], &["test"])), Vec::new());
    let resolved = resolve_customs(&vec![far, own]);
    assert_eq!(resolved.regulation[0].platform_targets, strings(&["own"]));
    assert_eq!(resolved.regulation[0].build_targets, strings(&["bins"]));
}

#[test]
fn without_any_default_the_file_is_kept_as_it_is() {
    let own = file(None, vec![regulation(&[], &["lib"], &[])]);
    let plain = file(None, Vec::new());
    let resolved = resolve_customs(&vec![plain, own]);
    assert!(resolved.regulation[0].platform_targets.is_empty());
    assert_eq!(resolved.regulation[0].build_targets, strings(&["lib"]));
    assert!(short_names(&resolved.regulation[0].jobs).is_empty());
}

#[test]
fn empty_feature_sets_inherit_from_the_default() {
    let own = file(None, vec![regulation(&["host"], &["lib"], &["test"])]);
    let mut default = regulation(&["host"], &["lib"], &["test"]);
    default.feature_sets = vec![strings(&["tls"])];
    let root = file(Some(default), Vec::new());
    let resolved = resolve_customs(&vec![root, own]);
    assert_eq!(resolved.regulation[0].feature_sets, vec![strings(&["tls"])]);
}

#[test]
fn populated_feature_sets_are_kept() {
    let mut own_reg = regulation(&["host"], &["lib"], &["test"]);
    own_reg.feature_sets = vec![vec![]];
    let own = file(None, vec![own_reg]);
    let mut default = regulation(&[], &[], &[]);
    default.feature_sets = vec![strings(&["tls"])];
    let root = file(Some(default), Vec::new());
    let resolved = resolve_customs(&vec![root, own]);
    assert_eq!(resolved.regulation[0].feature_sets, vec![Vec::<String>::new()]);
}

#[test]
fn jobs_declared_with_zero_entries_inherit() {
    let own = file(None, vec![regulation(&["host"], &["lib"], &[])]);
    let root = file(Some(regulation(&[], &[], &["test", "clippy"])), Vec::new());
    let resolved = resolve_customs(&vec![root, own]);
    assert_eq!(short_names(&resolved.regulation[0].jobs), strings(&["test", "clippy"]));
}
