//! The sandboxed-spawn protocol: policy accumulation, one-way activation,
//! and the compiled plan the host executes.
//!
//! Enforcement is irreversible, so the protocol sequences every check before
//! any restriction: the policy is fully assembled first, activation then
//! validates the host preconditions in a fixed order — sandbox not yet
//! consumed, calling process single-threaded, environment enumerable,
//! platform primitives present, every expanded rule expressible — and only
//! then compiles the plan. Any refusal moves the sandbox to its terminal
//! `Failed` state without producing a plan: the protocol fails closed, and
//! a failed activation never yields a process to spawn.

use vstd::prelude::*;

use crate::envfilter::distinct_names;
use crate::envfilter::env_lookup;
use crate::envfilter::env_overlay;
use crate::envfilter::kept_pairs;
use crate::envfilter::lemma_kept_distinct;
use crate::envfilter::pairs_view;
use crate::envfilter::restrict_env_variables;
use crate::envfilter::restrict_env_variables_with_custom;
use crate::error::Error;
use crate::paths::rules_view;
use crate::paths::PathRule;
use crate::policy::apply_exception;
use crate::policy::empty_model;
use crate::policy::Exception;
use crate::policy::Policy;
use crate::policy::PolicyModel;
use crate::resolver::all_expressible;
use crate::resolver::expand_model;
use crate::resolver::expand_rules;
use crate::resolver::resolution_view;
use crate::resolver::rules_expressible;

verus! {

/// States of the sandboxed-spawn protocol. `Spawned` and `Failed` are
/// terminal; activation is reached at most once.
#[derive(Clone, Copy, Debug, PartialEq, Eq, Structural)]
pub enum ProtocolState {
    /// Fresh sandbox, no exception added yet.
    Created,
    /// At least one exception added; still accepting more.
    Configured,
    /// The plan was compiled and the policy is frozen.
    Activated,
    /// Terminal state of a consumed sandbox whose plan the host has handed
    /// to exec; the sandbox value itself is gone by then, so this state is
    /// observable only on the host's side of the hand-off.
    Spawned,
    /// Terminal state after any activation refusal; fails closed.
    Failed,
}

/// Whether a state still accepts policy changes.
pub open spec fn accepts_exceptions(s: ProtocolState) -> bool {
    s is Created || s is Configured
}

/// Host facts gathered immediately before activation. The environment
/// snapshot lists each variable once; canonicalization outcomes are
/// best-effort, an absent entry meaning resolution failed or was skipped.
#[derive(Debug)]
pub struct ActivationContext {
    /// The calling process holds exactly one live thread.
    pub single_threaded: bool,
    /// The platform's enforcement primitives are available.
    pub platform_supported: bool,
    /// The environment could be enumerated completely and losslessly.
    pub env_readable: bool,
    /// Snapshot of the currently set environment variables.
    pub env: Vec<(String, String)>,
    /// Canonicalization outcomes for declared rule paths.
    pub resolutions: Vec<(String, Option<String>)>,
}

/// The compiled, platform-neutral activation plan: exactly what either
/// backend must authorize, and nothing else.
#[derive(Debug)]
pub struct ActivationPlan {
    /// Expanded filesystem rules: every declared path literally, plus each
    /// known canonical target at the same level.
    pub rules: Vec<PathRule>,
    /// The exact environment the confined process will see.
    pub env: Vec<(String, String)>,
    /// Whether the environment allow-list mode applies; false in replace
    /// mode, where resetting the environment is a pure userspace step.
    pub env_allow_list: bool,
    /// Whether socket creation stays permitted.
    pub networking: bool,
}

/// A description of a program to execute: path, argument vector, and
/// optional per-launch environment overrides layered on top of — never
/// replacing — the sandbox's environment policy.
#[derive(Debug)]
pub struct Command {
    pub program: String,
    pub args: Vec<String>,
    pub env: Vec<(String, String)>,
}

impl Command {
    /// A command with no arguments and no environment overrides.
    pub fn new(program: String) -> (c: Command)
        ensures
            c.program == program,
            c.args@.len() == 0,
            c.env@.len() == 0,
    {
        Command { program, args: Vec::new(), env: Vec::new() }
    }

    /// Appends one argument.
    pub fn arg(&mut self, value: String)
        ensures
            final (self).program == old(self).program,
            final (self).args@ == old(self).args@.push(value),
            final (self).env == old(self).env,
    {
        self.args.push(value);
    }

    /// Appends one per-launch environment override.
    pub fn env_var(&mut self, name: String, value: String)
        ensures
            final (self).program == old(self).program,
            final (self).args == old(self).args,
            final (self).env@ == old(self).env@.push((name, value)),
    {
        self.env.push((name, value));
    }
}

/// Everything the host needs to launch the confined program once the
/// OS-level restrictions are in place.
#[derive(Debug)]
pub struct SpawnPlan {
    /// Expanded filesystem rules to authorize.
    pub rules: Vec<PathRule>,
    /// The complete environment of the confined process, per-launch
    /// overrides already layered in.
    pub env: Vec<(String, String)>,
    /// Whether the environment allow-list mode applies.
    pub env_allow_list: bool,
    /// Whether socket creation stays permitted.
    pub networking: bool,
    /// Program to execute.
    pub program: String,
    /// Argument vector.
    pub args: Vec<String>,
}

/// The refusal activation must return, if any: the checks run in protocol
/// order and the first failing one names the error.
pub open spec fn activation_refusal(
    st: ProtocolState,
    m: PolicyModel,
    ctx: ActivationContext,
) -> Option<Error> {
    if !accepts_exceptions(st) {
        Some(Error::InvalidState)
    } else if !ctx.single_threaded {
        Some(Error::MultiThreaded)
    } else if !ctx.env_readable {
        Some(Error::EnvironmentEncodingError)
    } else if !ctx.platform_supported {
        Some(Error::PlatformUnsupported)
    } else if !all_expressible(expand_model(m.paths, resolution_view(ctx.resolutions@))) {
        Some(Error::PolicyCompileFailed)
    } else {
        None
    }
}

/// The environment dictated by the policy alone, before per-launch
/// overrides: the custom mapping in replace mode, the whole snapshot under
/// a full-environment grant, and the allow-listed entries otherwise.
pub open spec fn policy_env(m: PolicyModel, ctx: ActivationContext) -> Seq<(Seq<char>, Seq<char>)> {
    match m.custom_env {
        Some(c) => c,
        None => if m.full_env {
            pairs_view(ctx.env@)
        } else {
            kept_pairs(pairs_view(ctx.env@), m.env_allow)
        },
    }
}

/// What a correct activation plan contains, relative to the policy and the
/// host facts.
pub open spec fn plan_matches(plan: ActivationPlan, m: PolicyModel, ctx: ActivationContext) -> bool {
    &&& rules_view(plan.rules@) == expand_model(m.paths, resolution_view(ctx.resolutions@))
    &&& plan.networking == m.networking
    &&& plan.env_allow_list == (m.custom_env is None)
    &&& distinct_names(pairs_view(plan.env@))
    &&& forall|n: Seq<char>|
        env_lookup(pairs_view(plan.env@), n) == env_lookup(policy_env(m, ctx), n)
}

/// What a correct spawn plan contains: the activation plan's content, with
/// the command's overrides layered on top of the policy environment.
pub open spec fn spawn_matches(
    sp: SpawnPlan,
    m: PolicyModel,
    ctx: ActivationContext,
    cmd: Command,
) -> bool {
    &&& rules_view(sp.rules@) == expand_model(m.paths, resolution_view(ctx.resolutions@))
    &&& sp.networking == m.networking
    &&& sp.env_allow_list == (m.custom_env is None)
    &&& sp.program == cmd.program
    &&& sp.args == cmd.args
    &&& distinct_names(pairs_view(sp.env@))
    &&& forall|n: Seq<char>|
        env_lookup(pairs_view(sp.env@), n) == (match env_lookup(pairs_view(cmd.env@), n) {
            Some(v) => Some(v),
            None => env_lookup(policy_env(m, ctx), n),
        })
}

/// Platform-neutral sandbox interface: create empty, add exceptions, then
/// consume the sandbox to compile the plan a confined spawn executes.
pub trait Sandbox: Sized {
    /// The policy accumulated so far.
    spec fn model(&self) -> PolicyModel;

    /// The protocol state of this sandbox.
    spec fn protocol_state(&self) -> ProtocolState;

    /// Setup the sandboxing environment: a fresh, fully default-deny
    /// sandbox.
    fn new() -> (s: Self)
        ensures
            s.model() == empty_model(),
            s.protocol_state() == ProtocolState::Created,
    ;

    /// Add a new exception to the sandbox.
    ///
    /// Exceptions added for symlinks will also automatically apply to the
    /// symlink's target. Never fails due to content; fails with
    /// `InvalidState` — and leaves the sandbox untouched — exactly when the
    /// sandbox was already consumed by activation.
    fn add_exception(&mut self, exception: Exception) -> (r: Result<(), Error>)
        ensures
            accepts_exceptions(old(self).protocol_state()) ==> {
                &&& r == Ok::<(), Error>(())
                &&& final (self).model() == apply_exception(old(self).model(), exception)
                &&& final (self).protocol_state() == ProtocolState::Configured
            },
            !accepts_exceptions(old(self).protocol_state()) ==> {
                &&& r == Err::<(), Error>(Error::InvalidState)
                &&& final (self).model() == old(self).model()
                &&& final (self).protocol_state() == old(self).protocol_state()
            },
    ;

    /// Setup the sandbox and compile the spawn plan for the sandboxee.
    ///
    /// Consumes the sandbox: activation is one-way and one-time. Returns
    /// the first protocol refusal where one applies — in which case no
    /// spawn plan exists and no process is launched — and otherwise the
    /// complete plan, with the command's per-launch environment overrides
    /// layered on top of the policy's environment.
    fn spawn(self, sandboxee: Command, ctx: ActivationContext) -> (r: Result<SpawnPlan, Error>)
        requires
            distinct_names(pairs_view(ctx.env@)),
        ensures
            match activation_refusal(self.protocol_state(), self.model(), ctx) {
                Some(e) => r == Err::<SpawnPlan, Error>(e),
                None => r matches Ok(sp) && spawn_matches(sp, self.model(), ctx, sandboxee),
            },
    ;
}

/// Default platform sandbox: one policy, one activation-state flag.
pub struct Birdcage {
    /// The accumulated policy; frozen once the sandbox is consumed.
    pub policy: Policy,
    /// Protocol state; the defensive backstop behind move-on-consume.
    pub state: ProtocolState,
}

impl Birdcage {
    /// Compiles the policy into an activation plan after validating, in
    /// protocol order, every precondition of irreversible enforcement.
    ///
    /// Callable successfully at most once: any outcome other than a fresh
    /// success leaves the sandbox consumed. The policy itself is never
    /// modified, so a refusal relaxes nothing.
    pub fn activate(&mut self, ctx: &ActivationContext) -> (r: Result<ActivationPlan, Error>)
        requires
            distinct_names(pairs_view(ctx.env@)),
        ensures
            final (self).policy == old(self).policy,
            match activation_refusal(old(self).state, old(self).policy.model(), *ctx) {
                Some(e) => r == Err::<ActivationPlan, Error>(e) && final (self).state == (
                if e == Error::InvalidState {
                    old(self).state
                } else {
                    ProtocolState::Failed
                }),
                None => (r matches Ok(plan) && plan_matches(plan, old(self).policy.model(), *ctx))
                    && final (self).state == ProtocolState::Activated,
            },
    {
        let accepting = match self.state {
            ProtocolState::Created => true,
            ProtocolState::Configured => true,
            _ => false,
        };
        if !accepting {
            return Err(Error::InvalidState);
        }
        if !ctx.single_threaded {
            self.state = ProtocolState::Failed;
            return Err(Error::MultiThreaded);
        }
        if !ctx.env_readable {
            self.state = ProtocolState::Failed;
            return Err(Error::EnvironmentEncodingError);
        }
        if !ctx.platform_supported {
            self.state = ProtocolState::Failed;
            return Err(Error::PlatformUnsupported);
        }
        let rules = expand_rules(&self.policy.path_rules, &ctx.resolutions);
        if !rules_expressible(&rules) {
            self.state = ProtocolState::Failed;
            return Err(Error::PolicyCompileFailed);
        }
        let env = match &self.policy.custom_env {
            Some(custom) => restrict_env_variables_with_custom(
                &ctx.env,
                &self.policy.env_exceptions,
                Some(custom),
            ),
            None => {
                if self.policy.full_env {
                    copy_env(&ctx.env)
                } else {
                    restrict_env_variables(&ctx.env, &self.policy.env_exceptions)
                }
            },
        };
        proof {
            if self.policy.custom_env is None && !self.policy.full_env {
                lemma_kept_distinct(pairs_view(ctx.env@), self.policy.model().env_allow);
            }
        }
        let env_allow_list = self.policy.custom_env.is_none();
        let networking = self.policy.networking;
        self.state = ProtocolState::Activated;
        Ok(ActivationPlan { rules, env, env_allow_list, networking })
    }
}

/// Copies an environment snapshot, preserving its view.
fn copy_env(env: &Vec<(String, String)>) -> (out: Vec<(String, String)>)
    ensures
        pairs_view(out@) == pairs_view(env@),
{
    let mut out: Vec<(String, String)> = Vec::new();
    let mut i: usize = 0;
    proof {
        assert(pairs_view(out@) =~= pairs_view(env@.take(0)));
    }
    while i < env.len()
        invariant
            0 <= i <= env@.len(),
            pairs_view(out@) == pairs_view(env@.take(i as int)),
        decreases env@.len() - i,
    {
        let ghost before = pairs_view(out@);
        out.push((env[i].0.clone(), env[i].1.clone()));
        proof {
            assert(pairs_view(out@) =~= before.push((env@[i as int].0@, env@[i as int].1@)));
            assert(pairs_view(env@.take(i as int + 1)) =~= before.push((
                env@[i as int].0@,
                env@[i as int].1@,
            )));
        }
        i += 1;
    }
    proof {
        assert(env@.take(env@.len() as int) =~= env@);
    }
    out
}

impl Sandbox for Birdcage {
    open spec fn model(&self) -> PolicyModel {
        self.policy.model()
    }

    open spec fn protocol_state(&self) -> ProtocolState {
        self.state
    }

    fn new() -> (s: Self) {
        Birdcage { policy: Policy::new(), state: ProtocolState::Created }
    }

    fn add_exception(&mut self, exception: Exception) -> (r: Result<(), Error>) {
        let accepting = match self.state {
            ProtocolState::Created => true,
            ProtocolState::Configured => true,
            _ => false,
        };
        if accepting {
            self.policy.add(exception);
            self.state = ProtocolState::Configured;
            Ok(())
        } else {
            Err(Error::InvalidState)
        }
    }

    fn spawn(self, sandboxee: Command, ctx: ActivationContext) -> (r: Result<SpawnPlan, Error>) {
        let mut sandbox = self;
        let plan = match sandbox.activate(&ctx) {
            Ok(plan) => plan,
            Err(e) => {
                return Err(e);
            },
        };
        let ActivationPlan { rules, env, env_allow_list, networking } = plan;
        let env = env_overlay(env, &sandboxee.env);
        Ok(
            SpawnPlan {
                rules,
                env,
                env_allow_list,
                networking,
                program: sandboxee.program,
                args: sandboxee.args,
            },
        )
    }
}

} // verus!
