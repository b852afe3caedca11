//! Tests for the invocation builder: build-target and platform-target
//! translation, the formatting-job exception, features, and pass-through
//! arguments.

use cargo_customs::error::Error;
use cargo_customs::invocation::translate_build_target;
use cargo_customs::policy::Job;
use cargo_customs::policy::RegulationCheck;

fn strings(items: &[&str]) -> Vec<String> {
    items.iter().map(|s| s.to_string()).collect()
}

fn check(platform: &str, build: &str, job: &str, args: &[&str], features: &[&str]) -> RegulationCheck {
    RegulationCheck {
        platform_target: platform.to_string(),
        build_target: build.to_string(),
        job: Job { name: job.to_string(), args: strings(args) },
        features: strings(features),
    }
}

#[test]
fn lib_translates_to_its_flag() {
    assert_eq!(translate_build_target("lib").unwrap(), "--lib");
}

#[test]
fn group_keywords_translate_to_flags_of_the_same_name() {
    assert_eq!(translate_build_target("bins").unwrap(), "--bins");
    assert_eq!(translate_build_target("examples").unwrap(), "--examples");
    assert_eq!(translate_build_target("tests").unwrap(), "--tests");
    assert_eq!(translate_build_target("benches").unwrap(), "--benches");
    assert_eq!(translate_build_target("all-targets").unwrap(), "--all-targets");
}

#[test]
fn all_translates_to_all_targets() {
    assert_eq!(translate_build_target("all").unwrap(), "--all-targets");
}

#[test]
fn prefixed_forms_translate_to_named_flags() {
    assert_eq!(translate_build_target("bin:foo").unwrap(), "--bin=foo");
    assert_eq!(translate_build_target("example:demo").unwrap(), "--example=demo");
    assert_eq!(translate_build_target("test:integration").unwrap(), "--test=integration");
    assert_eq!(translate_build_target("bench:speed").unwrap(), "--bench=speed");
}

#[test]
fn unrecognized_build_target_is_an_error() {
    let r = translate_build_target("bogus");
    match r {
        Err(Error::InvalidBuildTarget(t)) => assert_eq!(t, "bogus"),
        _ => panic!("expected an invalid build target error"),
    }
}

#[test]
fn unrecognized_build_target_fails_command_args() {
    let c = check("host", "nonsense", "test", &[], &[]);
    match c.command_args() {
        Err(Error::InvalidBuildTarget(t)) => assert_eq!(t, "nonsense"),
        _ => panic!("expected an invalid build target error"),
    }
}

#[test]
fn host_platform_omits_the_target_flag() {
    let c = check("host", "lib", "test", &[], &[]);
    assert_eq!(c.command_args().unwrap(), strings(&["test", "--lib"]));
}

#[test]
fn other_platform_emits_exactly_one_target_flag() {
    let c = check("x86_64-unknown-linux-gnu", "lib", "test", &[], &[]);
    assert_eq!(
        c.command_args().unwrap(),
        strings(&["test", "--target=x86_64-unknown-linux-gnu", "--lib"]),
    );
}

#[test]
fn formatting_job_omits_the_build_target_flag() {
    let c = check("host", "lib", "fmt", &[], &[]);
    assert_eq!(c.command_args().unwrap(), strings(&["fmt"]));
}

#[test]
fn formatting_job_still_rejects_an_invalid_build_target() {
    let c = check("host", "nonsense", "fmt", &[], &[]);
    assert!(matches!(c.command_args(), Err(Error::InvalidBuildTarget(_))));
}

#[test]
fn nonempty_feature_set_is_comma_joined() {
    let c = check("host", "lib", "test", &[], &["alpha", "beta"]);
    assert_eq!(
        c.command_args().unwrap(),
        strings(&["test", "--lib", "--features=alpha,beta"]),
    );
}

#[test]
fn single_feature_has_no_comma() {
    let c = check("host", "lib", "test", &[], &["alpha"]);
    assert_eq!(c.command_args().unwrap(), strings(&["test", "--lib", "--features=alpha"]));
}

#[test]
fn job_arguments_follow_a_separator_verbatim() {
    let c = check("host", "lib", "test", &["--nocapture", "-q"], &[]);
    assert_eq!(
        c.command_args().unwrap(),
        strings(&["test", "--lib", "--", "--nocapture", "-q"]),
    );
}

#[test]
fn everything_together_in_the_fixed_order() {
    let c = check("thumbv7em-none-eabi", "bin:app", "build", &["-v"], &["tls"]);
    assert_eq!(
        c.command_args().unwrap(),
        strings(&["build", "--target=thumbv7em-none-eabi", "--bin=app", "--features=tls", "--", "-v"]),
    );
}

#[test]
fn error_messages_name_the_offending_token() {
    let e = Error::InvalidBuildTarget("oops".to_string());
    assert_eq!(e.message(), "invalid build target: oops");
    assert_eq!(Error::CustomsMissing.message(), "no customs file found");
    assert_eq!(Error::EmptyRegulations.message(), "customs file holds no regulations");
    assert_eq!(
        Error::BuildTargetsAllNotAlone.message(),
        "the build target 'all' can only stand alone",
    );
}
