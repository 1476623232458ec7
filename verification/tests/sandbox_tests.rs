//! End-to-end scenarios for the sandbox protocol.

use birdcage::check_access;
use birdcage::AccessKind;
use birdcage::ActivationContext;
use birdcage::Birdcage;
use birdcage::Command;
use birdcage::Error;
use birdcage::Exception;
use birdcage::ProtocolState;
use birdcage::Sandbox;

fn s(t: &str) -> String {
    t.to_string()
}

fn permissive_context(
    env: Vec<(String, String)>,
    resolutions: Vec<(String, Option<String>)>,
) -> ActivationContext {
    ActivationContext {
        single_threaded: true,
        platform_supported: true,
        env_readable: true,
        env,
        resolutions,
    }
}

#[test]
fn default_deny_grants_nothing() {
    let sandbox = Birdcage::new();
    let plan = sandbox
        .spawn(Command::new(s("/bin/cat")), permissive_context(Vec::new(), Vec::new()))
        .unwrap();
    assert!(plan.rules.is_empty());
    assert!(plan.env.is_empty());
    assert!(!plan.networking);
    assert!(!check_access(&plan.rules, "/bin/cat", AccessKind::Read));
    assert!(!check_access(&plan.rules, "/", AccessKind::Read));
    assert!(!check_access(&plan.rules, "/etc/passwd", AccessKind::Write));
}

#[test]
fn spawn_carries_program_and_args() {
    let mut sandbox = Birdcage::new();
    sandbox.add_exception(Exception::ExecuteAndRead(s("/bin/echo"))).unwrap();
    let mut command = Command::new(s("/bin/echo"));
    command.arg(s("hello"));
    command.arg(s("world"));
    let plan = sandbox.spawn(command, permissive_context(Vec::new(), Vec::new())).unwrap();
    assert_eq!(plan.program, s("/bin/echo"));
    assert_eq!(plan.args, vec![s("hello"), s("world")]);
    assert!(check_access(&plan.rules, "/bin/echo", AccessKind::Execute));
    assert!(check_access(&plan.rules, "/bin/echo", AccessKind::Read));
}

#[test]
fn monotonicity_keeps_earlier_grants() {
    let mut sandbox = Birdcage::new();
    sandbox.add_exception(Exception::Read(s("/data"))).unwrap();
    sandbox.add_exception(Exception::WriteAndRead(s("/tmp/work"))).unwrap();
    sandbox.add_exception(Exception::Environment(s("HOME"))).unwrap();
    sandbox.add_exception(Exception::Networking).unwrap();
    let plan = sandbox
        .spawn(Command::new(s("/bin/true")), permissive_context(Vec::new(), Vec::new()))
        .unwrap();
    assert!(check_access(&plan.rules, "/data", AccessKind::Read));
    assert!(check_access(&plan.rules, "/data/sub/file", AccessKind::Read));
    assert!(check_access(&plan.rules, "/tmp/work", AccessKind::Write));
    assert!(check_access(&plan.rules, "/tmp/work", AccessKind::Read));
    assert!(plan.networking);
}

#[test]
fn custom_environment_last_write_wins() {
    let mut sandbox = Birdcage::new();
    sandbox.add_exception(Exception::CustomEnvironment(vec![(s("A"), s("1"))])).unwrap();
    sandbox.add_exception(Exception::CustomEnvironment(vec![(s("B"), s("2"))])).unwrap();
    let ctx = permissive_context(vec![(s("HOME"), s("/root")), (s("PATH"), s("/bin"))], Vec::new());
    let plan = sandbox.spawn(Command::new(s("/bin/true")), ctx).unwrap();
    assert_eq!(plan.env, vec![(s("B"), s("2"))]);
}

#[test]
fn custom_environment_replaces_existing() {
    let mut sandbox = Birdcage::new();
    let custom = vec![
        (s("CUSTOM_VAR"), s("custom_value")),
        (s("ANOTHER_CUSTOM"), s("another_value")),
        (s("PATH"), s("/usr/bin:/bin")),
    ];
    sandbox.add_exception(Exception::CustomEnvironment(custom.clone())).unwrap();
    let existing = vec![
        (s("EXISTING_VAR"), s("should_be_removed")),
        (s("ANOTHER_EXISTING"), s("also_removed")),
    ];
    let plan = sandbox
        .spawn(Command::new(s("/bin/true")), permissive_context(existing, Vec::new()))
        .unwrap();
    assert_eq!(plan.env.len(), 3);
    assert!(plan.env.contains(&(s("CUSTOM_VAR"), s("custom_value"))));
    assert!(plan.env.contains(&(s("ANOTHER_CUSTOM"), s("another_value"))));
    assert!(plan.env.contains(&(s("PATH"), s("/usr/bin:/bin"))));
    assert!(!plan.env.iter().any(|(k, _)| k == "EXISTING_VAR"));
    assert!(!plan.env.iter().any(|(k, _)| k == "ANOTHER_EXISTING"));
}

#[test]
fn allow_list_is_exact() {
    let mut sandbox = Birdcage::new();
    sandbox.add_exception(Exception::Environment(s("Y"))).unwrap();
    let ctx =
        permissive_context(vec![(s("X"), s("1")), (s("Y"), s("2")), (s("Z"), s("3"))], Vec::new());
    let plan = sandbox.spawn(Command::new(s("/bin/true")), ctx).unwrap();
    assert_eq!(plan.env, vec![(s("Y"), s("2"))]);
}

#[test]
fn full_environment_keeps_everything() {
    let mut sandbox = Birdcage::new();
    sandbox.add_exception(Exception::FullEnvironment).unwrap();
    let snapshot = vec![(s("X"), s("1")), (s("Y"), s("2"))];
    let plan = sandbox
        .spawn(Command::new(s("/bin/true")), permissive_context(snapshot.clone(), Vec::new()))
        .unwrap();
    assert_eq!(plan.env, snapshot);
}

#[test]
fn environment_exceptions_have_no_effect_in_replace_mode() {
    let mut sandbox = Birdcage::new();
    sandbox.add_exception(Exception::Environment(s("X"))).unwrap();
    sandbox.add_exception(Exception::FullEnvironment).unwrap();
    sandbox.add_exception(Exception::CustomEnvironment(vec![(s("B"), s("2"))])).unwrap();
    let ctx = permissive_context(vec![(s("X"), s("1"))], Vec::new());
    let plan = sandbox.spawn(Command::new(s("/bin/true")), ctx).unwrap();
    assert_eq!(plan.env, vec![(s("B"), s("2"))]);
}

#[test]
fn command_overrides_layer_on_top() {
    let mut sandbox = Birdcage::new();
    sandbox.add_exception(Exception::CustomEnvironment(vec![(s("A"), s("1"))])).unwrap();
    let mut command = Command::new(s("/bin/true"));
    command.env_var(s("A"), s("9"));
    command.env_var(s("B"), s("2"));
    let plan = sandbox.spawn(command, permissive_context(Vec::new(), Vec::new())).unwrap();
    assert_eq!(plan.env.len(), 2);
    assert!(plan.env.contains(&(s("A"), s("9"))));
    assert!(plan.env.contains(&(s("B"), s("2"))));
}

#[test]
fn symlink_rule_covers_canonical_target() {
    let mut sandbox = Birdcage::new();
    sandbox.add_exception(Exception::Read(s("/srv/link"))).unwrap();
    let resolutions = vec![(s("/srv/link"), Some(s("/srv/real")))];
    let plan = sandbox
        .spawn(Command::new(s("/bin/true")), permissive_context(Vec::new(), resolutions))
        .unwrap();
    assert!(check_access(&plan.rules, "/srv/link", AccessKind::Read));
    assert!(check_access(&plan.rules, "/srv/real", AccessKind::Read));
    assert!(check_access(&plan.rules, "/srv/real/file", AccessKind::Read));
}

#[test]
fn canonical_rule_covers_access_through_symlink() {
    // A rule on the real path: an access through a symlink reaches the
    // kernel under the canonical path, which the rule covers directly.
    let mut sandbox = Birdcage::new();
    sandbox.add_exception(Exception::Read(s("/srv/real"))).unwrap();
    let plan = sandbox
        .spawn(Command::new(s("/bin/true")), permissive_context(Vec::new(), Vec::new()))
        .unwrap();
    assert!(check_access(&plan.rules, "/srv/real", AccessKind::Read));
    assert!(check_access(&plan.rules, "/srv/real/file", AccessKind::Read));
}

#[test]
fn unresolved_rule_still_installs_literal_path() {
    let mut sandbox = Birdcage::new();
    sandbox.add_exception(Exception::WriteAndRead(s("/not/yet/created"))).unwrap();
    let resolutions = vec![(s("/not/yet/created"), None)];
    let plan = sandbox
        .spawn(Command::new(s("/bin/true")), permissive_context(Vec::new(), resolutions))
        .unwrap();
    assert!(check_access(&plan.rules, "/not/yet/created", AccessKind::Write));
    assert_eq!(plan.rules.len(), 1);
}

#[test]
fn subpath_inheritance_covers_descendants_only() {
    let mut sandbox = Birdcage::new();
    sandbox.add_exception(Exception::WriteAndRead(s("/tmp/sandboxdir"))).unwrap();
    let plan = sandbox
        .spawn(Command::new(s("/bin/true")), permissive_context(Vec::new(), Vec::new()))
        .unwrap();
    assert!(check_access(&plan.rules, "/tmp/sandboxdir/sub/file", AccessKind::Write));
    assert!(check_access(&plan.rules, "/tmp/sandboxdir/sub/file", AccessKind::Read));
    assert!(check_access(&plan.rules, "/tmp/sandboxdir", AccessKind::Write));
    assert!(!check_access(&plan.rules, "/tmp/other", AccessKind::Read));
    assert!(!check_access(&plan.rules, "/tmp/sandboxdir2", AccessKind::Read));
}

#[test]
fn highest_level_wins_on_one_path() {
    let mut sandbox = Birdcage::new();
    sandbox.add_exception(Exception::Read(s("/opt/tool"))).unwrap();
    sandbox.add_exception(Exception::ExecuteAndRead(s("/opt/tool"))).unwrap();
    let plan = sandbox
        .spawn(Command::new(s("/opt/tool")), permissive_context(Vec::new(), Vec::new()))
        .unwrap();
    assert!(check_access(&plan.rules, "/opt/tool", AccessKind::Execute));
    assert!(check_access(&plan.rules, "/opt/tool", AccessKind::Read));
    assert!(!check_access(&plan.rules, "/opt/tool", AccessKind::Write));
}

#[test]
fn single_activation_freezes_the_policy() {
    let mut sandbox = Birdcage::new();
    sandbox.add_exception(Exception::Read(s("/data"))).unwrap();
    let ctx = permissive_context(Vec::new(), Vec::new());
    sandbox.activate(&ctx).unwrap();
    assert_eq!(sandbox.state, ProtocolState::Activated);
    let err = sandbox.add_exception(Exception::Read(s("/other"))).unwrap_err();
    assert_eq!(err, Error::InvalidState);
    assert_eq!(sandbox.policy.path_rules.len(), 1);
}

#[test]
fn activation_happens_at_most_once() {
    let mut sandbox = Birdcage::new();
    let ctx = permissive_context(Vec::new(), Vec::new());
    sandbox.activate(&ctx).unwrap();
    let err = sandbox.activate(&ctx).unwrap_err();
    assert_eq!(err, Error::InvalidState);
}

#[test]
fn network_denied_by_default_allowed_by_exception() {
    let sandbox = Birdcage::new();
    let plan = sandbox
        .spawn(Command::new(s("/bin/true")), permissive_context(Vec::new(), Vec::new()))
        .unwrap();
    assert!(!plan.networking);

    let mut sandbox = Birdcage::new();
    sandbox.add_exception(Exception::Networking).unwrap();
    let plan = sandbox
        .spawn(Command::new(s("/bin/true")), permissive_context(Vec::new(), Vec::new()))
        .unwrap();
    assert!(plan.networking);
}

#[test]
fn unsupported_platform_fails_closed() {
    let mut sandbox = Birdcage::new();
    sandbox.add_exception(Exception::Read(s("/data"))).unwrap();
    let mut ctx = permissive_context(Vec::new(), Vec::new());
    ctx.platform_supported = false;
    let err = sandbox.activate(&ctx).unwrap_err();
    assert_eq!(err, Error::PlatformUnsupported);
    assert_eq!(sandbox.state, ProtocolState::Failed);
    // The policy is untouched and the sandbox stays consumed: no later call
    // can ever produce a spawn plan.
    assert_eq!(sandbox.policy.path_rules.len(), 1);
    assert_eq!(sandbox.add_exception(Exception::Networking).unwrap_err(), Error::InvalidState);
    let good_ctx = permissive_context(Vec::new(), Vec::new());
    assert_eq!(sandbox.activate(&good_ctx).unwrap_err(), Error::InvalidState);
}

#[test]
fn multi_threaded_process_is_refused() {
    let mut sandbox = Birdcage::new();
    let mut ctx = permissive_context(Vec::new(), Vec::new());
    ctx.single_threaded = false;
    let err = sandbox.activate(&ctx).unwrap_err();
    assert_eq!(err, Error::MultiThreaded);
    assert_eq!(sandbox.state, ProtocolState::Failed);
}

#[test]
fn unreadable_environment_is_refused() {
    let mut sandbox = Birdcage::new();
    let mut ctx = permissive_context(Vec::new(), Vec::new());
    ctx.env_readable = false;
    let err = sandbox.activate(&ctx).unwrap_err();
    assert_eq!(err, Error::EnvironmentEncodingError);
}

#[test]
fn inexpressible_rule_path_fails_compilation() {
    let mut sandbox = Birdcage::new();
    sandbox.add_exception(Exception::Read(s("/bad\0path"))).unwrap();
    let err = sandbox
        .spawn(Command::new(s("/bin/true")), permissive_context(Vec::new(), Vec::new()))
        .unwrap_err();
    assert_eq!(err, Error::PolicyCompileFailed);
}

#[test]
fn empty_rule_path_fails_compilation() {
    let mut sandbox = Birdcage::new();
    sandbox.add_exception(Exception::Read(s(""))).unwrap();
    let err = sandbox
        .spawn(Command::new(s("/bin/true")), permissive_context(Vec::new(), Vec::new()))
        .unwrap_err();
    assert_eq!(err, Error::PolicyCompileFailed);
}

#[test]
fn refusal_order_reports_thread_check_first() {
    let mut sandbox = Birdcage::new();
    sandbox.add_exception(Exception::Read(s(""))).unwrap();
    let mut ctx = permissive_context(Vec::new(), Vec::new());
    ctx.single_threaded = false;
    ctx.platform_supported = false;
    let err = sandbox.activate(&ctx).unwrap_err();
    assert_eq!(err, Error::MultiThreaded);
}

#[test]
fn quoted_rule_path_fails_compilation() {
    let mut sandbox = Birdcage::new();
    sandbox.add_exception(Exception::Read(s("/has\"quote"))).unwrap();
    let err = sandbox
        .spawn(Command::new(s("/bin/true")), permissive_context(Vec::new(), Vec::new()))
        .unwrap_err();
    assert_eq!(err, Error::PolicyCompileFailed);
}
