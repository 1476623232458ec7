//! The two platform enforcers, behind one plan.
//!
//! Both backends compile the same activation plan into their native
//! restriction objects. Backend A targets a kernel mandatory-access-control
//! ruleset layered with a syscall filter: one entry per path rule granting
//! the minimal set of filesystem operations on that subtree, and a filter
//! that denies socket creation unless networking was granted. Backend B
//! renders the plan into a declarative textual sandbox profile: one
//! allow-rule per path/access-level tuple, an environment-read rule when
//! the allow-list mode applies (the replace mode is a pure userspace step
//! and needs no profile rule), and a network toggle. A host applies
//! whichever backend its platform supports; the semantics are identical
//! because both are exact functions of the one plan.

use vstd::prelude::*;

use crate::paths::rank;
use crate::paths::rules_view;
use crate::paths::PathAccess;
use crate::paths::PathRule;
use vstd::string::StringExecFns;

verus! {

/// One kernel ruleset entry: a path subtree and the minimal set of
/// filesystem operations granted beneath it.
#[derive(Debug)]
pub struct RulesetEntry {
    pub path: String,
    pub allow_read: bool,
    pub allow_write: bool,
    pub allow_execute: bool,
}

/// The syscall-filter layer: socket creation is denied unless granted.
#[derive(Debug)]
pub struct SyscallFilter {
    pub allow_socket_creation: bool,
}

/// The compiled kernel policy: the filesystem ruleset layer and the
/// independent syscall-filter layer.
#[derive(Debug)]
pub struct KernelPolicy {
    pub entries: Vec<RulesetEntry>,
    pub filter: SyscallFilter,
}

/// A ruleset entry grants exactly the minimal operations of its rule's
/// level: read at every level, write only at write+read, execute only at
/// execute+read.
pub open spec fn entry_matches(entry: RulesetEntry, rule: (Seq<char>, nat)) -> bool {
    &&& entry.path@ == rule.0
    &&& entry.allow_read == (rule.1 >= 1)
    &&& entry.allow_write == (rule.1 == 2)
    &&& entry.allow_execute == (rule.1 == 3)
}

/// Backend A: compiles the plan's rules into one ruleset entry each, plus
/// the syscall filter for network reachability.
pub fn compile_ruleset(rules: &Vec<PathRule>, networking: bool) -> (out: KernelPolicy)
    ensures
        out.entries@.len() == rules@.len(),
        forall|i: int|
            0 <= i < rules@.len() ==> entry_matches(
                #[trigger] out.entries@[i],
                rules_view(rules@)[i],
            ),
        out.filter.allow_socket_creation == networking,
{
    let mut entries: Vec<RulesetEntry> = Vec::new();
    let mut i: usize = 0;
    while i < rules.len()
        invariant
            0 <= i <= rules@.len(),
            entries@.len() == i,
            forall|j: int|
                0 <= j < i ==> entry_matches(#[trigger] entries@[j], rules_view(rules@)[j]),
        decreases rules@.len() - i,
    {
        let entry = match rules[i].access {
            PathAccess::Read => RulesetEntry {
                path: rules[i].path.clone(),
                allow_read: true,
                allow_write: false,
                allow_execute: false,
            },
            PathAccess::WriteAndRead => RulesetEntry {
                path: rules[i].path.clone(),
                allow_read: true,
                allow_write: true,
                allow_execute: false,
            },
            PathAccess::ExecuteAndRead => RulesetEntry {
                path: rules[i].path.clone(),
                allow_read: true,
                allow_write: false,
                allow_execute: true,
            },
        };
        entries.push(entry);
        i += 1;
    }
    KernelPolicy { entries, filter: SyscallFilter { allow_socket_creation: networking } }
}

/// The profile prelude: everything denied until allowed.
pub open spec fn profile_header() -> Seq<char> {
    "(version 1)\n(deny default)\n"@
}

/// The operations keyword list of one access level.
pub open spec fn level_operations(r: nat) -> Seq<char> {
    if r == 2 {
        "file-read* file-write*"@
    } else if r == 3 {
        "file-read* process-exec"@
    } else {
        "file-read*"@
    }
}

/// One allow-rule line per path/access-level tuple.
pub open spec fn rule_line(rule: (Seq<char>, nat)) -> Seq<char> {
    "(allow "@ + level_operations(rule.1) + " \""@ + rule.0 + "\")\n"@
}

/// The rule lines of a whole list, in order.
pub open spec fn rule_lines(ps: Seq<(Seq<char>, nat)>) -> Seq<char>
    decreases ps.len(),
{
    if ps.len() == 0 {
        Seq::empty()
    } else {
        rule_lines(ps.drop_last()) + rule_line(ps.last())
    }
}

/// The complete profile text for a plan.
pub open spec fn profile_spec(
    rules: Seq<(Seq<char>, nat)>,
    env_read: bool,
    networking: bool,
) -> Seq<char> {
    profile_header() + rule_lines(rules) + (if env_read {
        "(allow environment-read)\n"@
    } else {
        Seq::<char>::empty()
    }) + (if networking {
        "(allow network*)\n"@
    } else {
        Seq::<char>::empty()
    })
}

/// Backend B: renders the plan into the declarative profile grammar.
///
/// `env_read` says whether the environment allow-list mode applies; the
/// replace mode resets the environment in userspace and contributes no
/// profile rule.
pub fn render_profile(rules: &Vec<PathRule>, env_read: bool, networking: bool) -> (out: String)
    ensures
        out@ == profile_spec(rules_view(rules@), env_read, networking),
{
    let mut out = String::from_str("(version 1)\n(deny default)\n");
    let mut i: usize = 0;
    proof {
        assert(rules_view(rules@).take(0) =~= Seq::<(Seq<char>, nat)>::empty());
        assert(out@ =~= profile_header() + rule_lines(rules_view(rules@).take(0)));
    }
    while i < rules.len()
        invariant
            0 <= i <= rules@.len(),
            out@ == profile_header() + rule_lines(rules_view(rules@).take(i as int)),
        decreases rules@.len() - i,
    {
        let ghost rv = rules_view(rules@);
        proof {
            assert(rv.take(i as int + 1).drop_last() =~= rv.take(i as int));
            assert(rv.take(i as int + 1).last() == (
                rules@[i as int].path@,
                rank(rules@[i as int].access),
            ));
        }
        out.append("(allow ");
        match rules[i].access {
            PathAccess::Read => out.append("file-read*"),
            PathAccess::WriteAndRead => out.append("file-read* file-write*"),
            PathAccess::ExecuteAndRead => out.append("file-read* process-exec"),
        }
        out.append(" \"");
        out.append(rules[i].path.as_str());
        out.append("\")\n");
        proof {
            assert(out@ =~= profile_header() + rule_lines(rv.take(i as int + 1)));
        }
        i += 1;
    }
    proof {
        assert(rules_view(rules@).take(rules@.len() as int) =~= rules_view(rules@));
    }
    if env_read {
        out.append("(allow environment-read)\n");
    }
    if networking {
        out.append("(allow network*)\n");
    }
    proof {
        assert(out@ =~= profile_spec(rules_view(rules@), env_read, networking));
    }
    out
}

} // verus!
