use cargo_when::dispatch::{decide, exit_code, get_cargo_command, Decision, Ending, Mode};
use cargo_when::env::EnvSnapshot;
use cargo_when::predicate::{options_match, PredicateParseError, PredicateSpec};
use cargo_when::rustc::RustCInfo;

fn given(items: &[&str]) -> Option<Vec<String>> {
    Some(items.iter().map(|item| item.to_string()).collect())
}

fn unconditional() -> PredicateSpec {
    PredicateSpec { channels: None, version_ranges: None, env_names: None, env_requirements: None }
}

fn wrapped() -> Vec<String> {
    get_cargo_command(Some("build".to_string()), Some(vec!["--release".to_string()])).unwrap()
}

#[test]
fn stable_compiler_and_stable_channel() {
    let info = RustCInfo::get_info(b"rustc 1.74.0 (79e9716c9 2023-11-13)\n").unwrap();
    let predicate = PredicateSpec { channels: given(&["stable"]), ..unconditional() };
    let env = EnvSnapshot::new();
    assert_eq!(options_match(&predicate, &info, &env), Ok(true));
    let when = decide(Mode::When, options_match(&predicate, &info, &env), wrapped());
    assert_eq!(when, Decision::Run(vec!["build".to_string(), "--release".to_string()]));
    let unless = decide(Mode::Unless, options_match(&predicate, &info, &env), wrapped());
    assert_eq!(unless, Decision::Skip);
}

#[test]
fn nightly_compiler_and_stable_channel() {
    let info = RustCInfo::get_info(b"rustc 1.74.0-nightly (ca2b74f1a 2023-09-14)\n").unwrap();
    assert_eq!(info.channel(), "nightly");
    let predicate = PredicateSpec {
        channels: given(&["stable"]),
        version_ranges: given(&["^1.70"]),
        ..unconditional()
    };
    let env = EnvSnapshot::new();
    assert!(!info.matches_any_channels(&predicate.channels));
    assert_eq!(info.matches_any_versions(&predicate.version_ranges), Ok(true));
    assert_eq!(options_match(&predicate, &info, &env), Ok(false));
    let when = decide(Mode::When, options_match(&predicate, &info, &env), wrapped());
    assert_eq!(when, Decision::Skip);
    assert_eq!(exit_code(Ending::Skipped), 0);
    let unless = decide(Mode::Unless, options_match(&predicate, &info, &env), wrapped());
    assert_eq!(unless, Decision::Run(wrapped()));
}

#[test]
fn requirement_on_an_unset_variable() {
    let info = RustCInfo::get_info(b"rustc 1.74.0 (79e9716c9 2023-11-13)\n").unwrap();
    let predicate = PredicateSpec { env_requirements: given(&["FOO=bar"]), ..unconditional() };
    let mut env = EnvSnapshot::new();
    env.set(b"PATH".to_vec(), b"/usr/bin".to_vec());
    assert_eq!(options_match(&predicate, &info, &env), Ok(false));
    let when = decide(Mode::When, options_match(&predicate, &info, &env), wrapped());
    assert_eq!(when, Decision::Skip);
    assert_eq!(exit_code(Ending::Skipped), 0);
}

#[test]
fn malformed_version_requirement_ends_with_one() {
    let info = RustCInfo::get_info(b"rustc 1.74.0 (79e9716c9 2023-11-13)\n").unwrap();
    let mut env = EnvSnapshot::new();
    env.set(b"FOO".to_vec(), b"bar".to_vec());
    let predicate = PredicateSpec {
        channels: given(&["stable"]),
        version_ranges: given(&["not-a-range"]),
        env_names: given(&["FOO"]),
        env_requirements: given(&["FOO=bar"]),
    };
    for mode in [Mode::When, Mode::Unless] {
        let decision = decide(mode, options_match(&predicate, &info, &env), wrapped());
        assert!(matches!(decision, Decision::Reject(PredicateParseError::VersionRange(_))));
        assert_eq!(exit_code(Ending::PredicateError), 1);
    }
    let beside_valid = PredicateSpec { version_ranges: given(&["^1.70", "not-a-range"]), ..predicate };
    for mode in [Mode::When, Mode::Unless] {
        let decision = decide(mode, options_match(&beside_valid, &info, &env), wrapped());
        assert!(matches!(decision, Decision::Reject(PredicateParseError::VersionRange(_))));
    }
}

#[test]
fn no_wrapped_command_is_a_usage_error() {
    assert_eq!(get_cargo_command::<String>(None, None), None);
    assert_eq!(exit_code(Ending::UsageError), 1);
}

#[test]
fn wrapped_command_gives_the_exit_code() {
    assert_eq!(exit_code(Ending::Exited(0)), 0);
    assert_eq!(exit_code(Ending::Exited(42)), 42);
    assert_eq!(exit_code(Ending::NoStatus), 127);
    assert_eq!(exit_code(Ending::SpawnFailed), 127);
}
