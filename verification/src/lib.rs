//! An embeddable process sandbox built around a default-deny policy.
//!
//! A caller describes the resources a sandboxed program may use as a list of
//! exceptions: filesystem paths at one of three access levels, environment
//! variables to keep or to substitute, and a networking switch. The sandbox
//! accumulates those exceptions into a normalized policy, and activation
//! compiles the policy into a platform-neutral plan: the canonical path rules
//! to authorize, the exact environment the confined process will see, and the
//! network flag. Everything outside the plan stays denied.

mod enforcer;
mod envfilter;
mod error;
mod paths;
mod policy;
mod protocol;
mod resolver;

pub use enforcer::compile_ruleset;
pub use enforcer::entry_matches;
pub use enforcer::level_operations;
pub use enforcer::profile_header;
pub use enforcer::profile_spec;
pub use enforcer::render_profile;
pub use enforcer::rule_line;
pub use enforcer::rule_lines;
pub use enforcer::KernelPolicy;
pub use enforcer::RulesetEntry;
pub use enforcer::SyscallFilter;
pub use envfilter::distinct_names;
pub use envfilter::env_lookup;
pub use envfilter::env_overlay;
pub use envfilter::kept_pairs;
pub use envfilter::lemma_kept_distinct;
pub use envfilter::lemma_kept_membership;
pub use envfilter::names_view;
pub use envfilter::pairs_view;
pub use envfilter::restrict_env_variables;
pub use envfilter::restrict_env_variables_with_custom;
pub use error::Error;
pub use paths::check_access;
pub use paths::effective_rank;
pub use paths::grants;
pub use paths::is_sub_path;
pub use paths::level_allows;
pub use paths::path_covers;
pub use paths::rank;
pub use paths::rules_view;
pub use paths::lemma_default_deny;
pub use paths::lemma_effective_rank_bound;
pub use paths::lemma_effective_rank_entry;
pub use paths::lemma_effective_rank_ge;
pub use paths::lemma_rules_view_valid;
pub use paths::lemma_subpath_inheritance;
pub use paths::lemma_uncovered_denied;
pub use paths::valid_ranks;
pub use paths::AccessKind;
pub use paths::PathAccess;
pub use paths::PathRule;
pub use policy::apply_all;
pub use policy::lemma_apply_all_valid;
pub use policy::lemma_apply_valid;
pub use policy::lemma_custom_env_last_wins;
pub use policy::lemma_policy_is_union_of_grants;
pub use policy::lemma_effective_rank_push;
pub use policy::lemma_exception_additive;
pub use policy::lemma_exception_monotone;
pub use policy::lemma_exception_union;
pub use policy::lemma_networking_exact;
pub use policy::write_masked;
pub use policy::write_shadowed;
pub use policy::apply_exception;
pub use policy::empty_model;
pub use policy::Exception;
pub use policy::Policy;
pub use policy::PolicyModel;
pub use protocol::accepts_exceptions;
pub use protocol::activation_refusal;
pub use protocol::plan_matches;
pub use protocol::policy_env;
pub use protocol::spawn_matches;
pub use protocol::ActivationContext;
pub use protocol::ActivationPlan;
pub use protocol::Birdcage;
pub use protocol::Command;
pub use protocol::ProtocolState;
pub use protocol::Sandbox;
pub use protocol::SpawnPlan;
pub use resolver::all_expressible;
pub use resolver::lemma_expand_default_deny;
pub use resolver::expand_model;
pub use resolver::expand_rules;
pub use resolver::lookup_canonical;
pub use resolver::lookup_resolution;
pub use resolver::path_expressible;
pub use resolver::resolution_view;
pub use resolver::rule_expressible;
pub use resolver::lemma_expand_literal;
pub use resolver::lemma_expand_resolved;
pub use resolver::lemma_expand_source;
pub use resolver::lemma_symlink_transitivity;
pub use resolver::opt_view;
pub use resolver::rules_expressible;
