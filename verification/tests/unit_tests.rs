//! Unit tests for the path, environment and error building blocks.

use birdcage::check_access;
use birdcage::compile_ruleset;
use birdcage::render_profile;
use birdcage::ActivationContext;
use birdcage::Birdcage;
use birdcage::Exception;
use birdcage::Sandbox;
use birdcage::path_covers;
use birdcage::restrict_env_variables;
use birdcage::restrict_env_variables_with_custom;
use birdcage::AccessKind;
use birdcage::Command;
use birdcage::Error;
use birdcage::PathAccess;
use birdcage::PathRule;

fn s(t: &str) -> String {
    t.to_string()
}

#[test]
fn path_covers_equal_paths() {
    assert!(path_covers("/a", "/a"));
    assert!(path_covers("", ""));
}

#[test]
fn path_covers_descendants() {
    assert!(path_covers("/a", "/a/b"));
    assert!(path_covers("/a", "/a/b/c"));
    assert!(path_covers("/", "/etc"));
    assert!(path_covers("/a/", "/a/b"));
}

#[test]
fn path_covers_rejects_siblings_and_prefixes() {
    assert!(!path_covers("/a", "/ab"));
    assert!(!path_covers("/a/b", "/a"));
    assert!(!path_covers("/tmp/sandboxdir", "/tmp/sandboxdir2"));
    assert!(!path_covers("/x", "/y"));
}

#[test]
fn check_access_respects_levels() {
    let rules = vec![
        PathRule { path: s("/r"), access: PathAccess::Read },
        PathRule { path: s("/w"), access: PathAccess::WriteAndRead },
        PathRule { path: s("/x"), access: PathAccess::ExecuteAndRead },
    ];
    assert!(check_access(&rules, "/r", AccessKind::Read));
    assert!(!check_access(&rules, "/r", AccessKind::Write));
    assert!(!check_access(&rules, "/r", AccessKind::Execute));
    assert!(check_access(&rules, "/w", AccessKind::Read));
    assert!(check_access(&rules, "/w", AccessKind::Write));
    assert!(!check_access(&rules, "/w", AccessKind::Execute));
    assert!(check_access(&rules, "/x", AccessKind::Read));
    assert!(!check_access(&rules, "/x", AccessKind::Write));
    assert!(check_access(&rules, "/x", AccessKind::Execute));
}

#[test]
fn check_access_merges_duplicate_paths_by_highest_level() {
    let rules = vec![
        PathRule { path: s("/p"), access: PathAccess::WriteAndRead },
        PathRule { path: s("/p"), access: PathAccess::Read },
    ];
    assert!(check_access(&rules, "/p", AccessKind::Write));
    assert!(check_access(&rules, "/p/f", AccessKind::Read));
}

#[test]
fn restrict_env_keeps_exactly_the_allow_list() {
    let env = vec![(s("X"), s("1")), (s("Y"), s("2")), (s("Z"), s("3"))];
    let allow = vec![s("Y")];
    let out = restrict_env_variables(&env, &allow);
    assert_eq!(out, vec![(s("Y"), s("2"))]);
}

#[test]
fn restrict_env_keeps_order_of_snapshot() {
    let env = vec![(s("A"), s("1")), (s("B"), s("2")), (s("C"), s("3"))];
    let allow = vec![s("C"), s("A")];
    let out = restrict_env_variables(&env, &allow);
    assert_eq!(out, vec![(s("A"), s("1")), (s("C"), s("3"))]);
}

#[test]
fn restrict_env_with_empty_allow_list_clears_everything() {
    let env = vec![(s("X"), s("1"))];
    let out = restrict_env_variables(&env, &Vec::new());
    assert!(out.is_empty());
}

#[test]
fn custom_env_discards_snapshot_entirely() {
    let env = vec![(s("X"), s("1"))];
    let custom = vec![(s("A"), s("1"))];
    let out = restrict_env_variables_with_custom(&env, &Vec::new(), Some(&custom));
    assert_eq!(out, vec![(s("A"), s("1"))]);
}

#[test]
fn custom_env_duplicate_names_last_binding_wins() {
    let custom = vec![(s("A"), s("1")), (s("A"), s("2"))];
    let out = restrict_env_variables_with_custom(&Vec::new(), &Vec::new(), Some(&custom));
    assert_eq!(out.len(), 1);
    assert_eq!(out[0], (s("A"), s("2")));
}

#[test]
fn command_builder_accumulates() {
    let mut command = Command::new(s("/bin/ls"));
    command.arg(s("-l"));
    command.env_var(s("LANG"), s("C"));
    assert_eq!(command.program, s("/bin/ls"));
    assert_eq!(command.args, vec![s("-l")]);
    assert_eq!(command.env, vec![(s("LANG"), s("C"))]);
}

#[test]
fn error_descriptions_are_stable() {
    assert_eq!(Error::InvalidState.describe(), "sandbox was already activated");
    assert_eq!(Error::MultiThreaded.describe(), "activation requires a single-threaded process");
    assert_eq!(
        Error::PolicyCompileFailed.describe(),
        "policy could not be compiled for this platform"
    );
    assert_eq!(
        Error::PlatformUnsupported.describe(),
        "sandboxing is unsupported on this platform"
    );
    assert_eq!(
        Error::EnvironmentEncodingError.describe(),
        "environment variable could not be processed"
    );
    assert_eq!(Error::SpawnFailed.describe(), "failed to spawn sandboxed process");
}

#[test]
fn ruleset_entries_grant_minimal_operations() {
    let rules = vec![
        PathRule { path: s("/r"), access: PathAccess::Read },
        PathRule { path: s("/w"), access: PathAccess::WriteAndRead },
        PathRule { path: s("/x"), access: PathAccess::ExecuteAndRead },
    ];
    let kernel = compile_ruleset(&rules, false);
    assert_eq!(kernel.entries.len(), 3);
    assert!(kernel.entries[0].allow_read && !kernel.entries[0].allow_write);
    assert!(!kernel.entries[0].allow_execute);
    assert!(kernel.entries[1].allow_read && kernel.entries[1].allow_write);
    assert!(!kernel.entries[1].allow_execute);
    assert!(kernel.entries[2].allow_read && kernel.entries[2].allow_execute);
    assert!(!kernel.entries[2].allow_write);
    assert!(!kernel.filter.allow_socket_creation);
    let kernel = compile_ruleset(&rules, true);
    assert!(kernel.filter.allow_socket_creation);
}

#[test]
fn profile_renders_exact_text() {
    let rules = vec![
        PathRule { path: s("/a"), access: PathAccess::Read },
        PathRule { path: s("/b"), access: PathAccess::WriteAndRead },
    ];
    let profile = render_profile(&rules, true, true);
    assert_eq!(
        profile,
        "(version 1)\n(deny default)\n(allow file-read* \"/a\")\n(allow file-read* file-write* \"/b\")\n(allow environment-read)\n(allow network*)\n"
    );
}

#[test]
fn profile_omits_rules_not_granted() {
    let rules = vec![PathRule { path: s("/t"), access: PathAccess::ExecuteAndRead }];
    let profile = render_profile(&rules, false, false);
    assert_eq!(
        profile,
        "(version 1)\n(deny default)\n(allow file-read* process-exec \"/t\")\n"
    );
}

#[test]
fn plans_carry_environment_mode() {
    let sandbox = Birdcage::new();
    let ctx = ActivationContext {
        single_threaded: true,
        platform_supported: true,
        env_readable: true,
        env: Vec::new(),
        resolutions: Vec::new(),
    };
    let plan = sandbox.spawn(Command::new(s("/bin/true")), ctx).unwrap();
    assert!(plan.env_allow_list);

    let mut sandbox = Birdcage::new();
    sandbox
        .add_exception(Exception::CustomEnvironment(vec![(s("A"), s("1"))]))
        .unwrap();
    let ctx = ActivationContext {
        single_threaded: true,
        platform_supported: true,
        env_readable: true,
        env: Vec::new(),
        resolutions: Vec::new(),
    };
    let plan = sandbox.spawn(Command::new(s("/bin/true")), ctx).unwrap();
    assert!(!plan.env_allow_list);
}
