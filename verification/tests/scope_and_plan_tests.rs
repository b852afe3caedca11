//! Tests for the scope resolver and the whole-run planner.

use cargo_customs::error::Error;
use cargo_customs::plan::plan_run;
use cargo_customs::plan::UnitPolicy;
use cargo_customs::policy::CustomsFile;
use cargo_customs::policy::Jobs;
use cargo_customs::policy::Regulation;
use cargo_customs::scope::find_current_unit;
use cargo_customs::scope::units_to_inspect;
use cargo_customs::scope::ProjectUnit;

fn strings(items: &[&str]) -> Vec<String> {
    items.iter().map(|s| s.to_string()).collect()
}

fn unit(id: &str, root: &str, member: bool) -> ProjectUnit {
    ProjectUnit { id: id.to_string(), root: root.to_string(), workspace_member: member }
}

fn regulation(platforms: &[&str], builds: &[&str], jobs: &[&str]) -> Regulation {
    Regulation {
        platform_targets: strings(platforms),
        build_targets: strings(builds),
        jobs: Jobs::Short(strings(jobs)),
        feature_sets: vec![vec![]],
    }
}

fn policy_with(regulations: Vec<Regulation>) -> UnitPolicy {
    UnitPolicy {
        own: Some(CustomsFile { default: None, regulation: regulations }),
        ancestors: Vec::new(),
    }
}

fn no_policy() -> UnitPolicy {
    UnitPolicy { own: None, ancestors: Vec::new() }
}

#[test]
fn the_longest_prefix_wins() {
    let units = vec![unit("ws", "/ws", true), unit("pkg", "/ws/pkg", true)];
    let found = find_current_unit(&units, "/ws/pkg/src");
    assert_eq!(found, Some(1));
}

#[test]
fn a_location_outside_every_unit_matches_nothing() {
    let units = vec![unit("ws", "/ws", true)];
    assert_eq!(find_current_unit(&units, "/elsewhere"), None);
}

#[test]
fn non_members_are_never_the_current_unit() {
    let units = vec![unit("vendored", "/ws/pkg", false), unit("ws", "/ws", true)];
    let found = find_current_unit(&units, "/ws/pkg/src");
    assert_eq!(found, Some(1));
}

#[test]
fn no_match_falls_back_to_every_member() {
    let units = vec![unit("a", "/ws/a", true), unit("b", "/ws/b", true)];
    let scope = units_to_inspect(&units, "/elsewhere", false);
    assert_eq!(scope, vec![0, 1]);
}

#[test]
fn the_workspace_flag_selects_every_member() {
    let units = vec![unit("a", "/ws/a", true), unit("x", "/vendor/x", false), unit("b", "/ws/b", true)];
    let scope = units_to_inspect(&units, "/ws/a/src", true);
    assert_eq!(scope, vec![0, 2]);
}

#[test]
fn a_narrowed_location_selects_one_unit() {
    let units = vec![unit("a", "/ws/a", true), unit("b", "/ws/b", true)];
    let scope = units_to_inspect(&units, "/ws/b/src", false);
    assert_eq!(scope, vec![1]);
}

#[test]
fn single_unit_run_plans_one_invocation() {
    let units = vec![unit("only", "/proj", true)];
    let policies = vec![policy_with(vec![regulation(&["host"], &["lib"], &["test"])])];
    let plan = plan_run(&units, &policies, "/proj/src", false).unwrap();
    assert_eq!(plan.invocations.len(), 1);
    assert_eq!(plan.invocations[0].unit_root, "/proj");
    assert_eq!(plan.invocations[0].args, strings(&["test", "--lib"]));
    assert!(plan.skipped.is_empty());
}

#[test]
fn workspace_run_skips_a_unit_without_policy_and_warns() {
    let units = vec![unit("a", "/ws/a", true), unit("b", "/ws/b", true)];
    let policies = vec![
        policy_with(vec![regulation(&["host"], &["lib"], &["test"])]),
        no_policy(),
    ];
    let plan = plan_run(&units, &policies, "/ws", true).unwrap();
    assert_eq!(plan.skipped, strings(&["/ws/b"]));
    assert_eq!(plan.invocations.len(), 1);
    assert_eq!(plan.invocations[0].unit_root, "/ws/a");
    assert_eq!(plan.invocations[0].args, strings(&["test", "--lib"]));
}

#[test]
fn a_targeted_unit_without_policy_is_an_error() {
    let units = vec![unit("only", "/proj", true)];
    let policies = vec![no_policy()];
    let r = plan_run(&units, &policies, "/proj", false);
    assert!(matches!(r, Err(Error::CustomsMissing)));
}

#[test]
fn a_targeted_unit_with_no_regulations_is_an_error() {
    let units = vec![unit("only", "/proj", true)];
    let policies = vec![policy_with(Vec::new())];
    let r = plan_run(&units, &policies, "/proj", false);
    assert!(matches!(r, Err(Error::EmptyRegulations)));
}

#[test]
fn a_workspace_run_tolerates_a_unit_with_no_regulations() {
    let units = vec![unit("a", "/ws/a", true), unit("b", "/ws/b", true)];
    let policies = vec![
        policy_with(Vec::new()),
        policy_with(vec![regulation(&["host"], &["lib"], &["test"])]),
    ];
    let plan = plan_run(&units, &policies, "/ws", true).unwrap();
    assert_eq!(plan.invocations.len(), 1);
    assert_eq!(plan.invocations[0].unit_root, "/ws/b");
}

#[test]
fn the_first_configuration_error_fails_the_whole_plan() {
    let units = vec![unit("a", "/ws/a", true), unit("b", "/ws/b", true)];
    let policies = vec![
        policy_with(vec![regulation(&["host"], &["bogus"], &["test"])]),
        policy_with(vec![regulation(&["host"], &["lib"], &["test"])]),
    ];
    let r = plan_run(&units, &policies, "/ws", true);
    match r {
        Err(Error::InvalidBuildTarget(t)) => assert_eq!(t, "bogus"),
        _ => panic!("expected an invalid build target error"),
    }
}

#[test]
fn invocations_follow_unit_order_then_expansion_order() {
    let units = vec![unit("a", "/ws/a", true), unit("b", "/ws/b", true)];
    let policies = vec![
        policy_with(vec![regulation(&["host"], &["lib", "bins"], &["test"])]),
        policy_with(vec![regulation(&["host"], &["tests"], &["clippy"])]),
    ];
    let plan = plan_run(&units, &policies, "/ws", true).unwrap();
    assert_eq!(plan.invocations.len(), 3);
    assert_eq!(plan.invocations[0].unit_root, "/ws/a");
    assert_eq!(plan.invocations[0].args, strings(&["test", "--lib"]));
    assert_eq!(plan.invocations[1].unit_root, "/ws/a");
    assert_eq!(plan.invocations[1].args, strings(&["test", "--bins"]));
    assert_eq!(plan.invocations[2].unit_root, "/ws/b");
    assert_eq!(plan.invocations[2].args, strings(&["clippy", "--tests"]));
}

#[test]
fn ancestor_defaults_reach_the_planned_invocations() {
    let units = vec![unit("pkg", "/ws/pkg", true)];
    let default = Regulation {
        platform_targets: strings(&["host"]),
        build_targets: strings(&["lib"]),
        jobs: Jobs::Short(strings(&["test"])),
        feature_sets: vec![vec![]],
    };
    let bare = Regulation {
        platform_targets: Vec::new(),
        build_targets: Vec::new(),
        jobs: Jobs::Short(Vec::new()),
        feature_sets: vec![vec![]],
    };
    let policies = vec![UnitPolicy {
        own: Some(CustomsFile { default: None, regulation: vec![bare] }),
        ancestors: vec![CustomsFile { default: Some(default), regulation: Vec::new() }],
    }];
    let plan = plan_run(&units, &policies, "/ws/pkg", false).unwrap();
    assert_eq!(plan.invocations.len(), 1);
    assert_eq!(plan.invocations[0].args, strings(&["test", "--lib"]));
}
