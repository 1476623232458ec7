//! The exception vocabulary and the normalized policy it accumulates into.
//!
//! Exceptions are additive relaxations of a default-deny baseline. The
//! policy normalizes them into three sub-policies: path rules (merged by
//! highest access level per path), an environment mode (allow-list, or
//! replacement by a custom mapping where the last mapping added wins), and a
//! networking flag.

use vstd::prelude::*;

use crate::envfilter::names_view;
use crate::envfilter::pairs_view;
use crate::paths::effective_rank;
use crate::paths::grants;
use crate::paths::is_sub_path;
use crate::paths::lemma_default_deny;
use crate::paths::lemma_effective_rank_bound;
use crate::paths::valid_ranks;
use crate::paths::level_allows;
use crate::paths::rules_view;
use crate::paths::AccessKind;
use crate::paths::PathAccess;
use crate::paths::PathRule;

verus! {

/// Sandboxing exception rule.
///
/// An exception excludes certain resources from the sandbox, allowing
/// sandboxed applications to still access these resources. There is no deny
/// variant: a policy can only grow more permissive than the default-deny
/// baseline.
#[derive(Clone, Debug)]
pub enum Exception {
    /// Allow read access to the path and anything beneath it.
    Read(String),
    /// Allow writing and reading the path and anything beneath it.
    WriteAndRead(String),
    /// Allow executing and reading the path and anything beneath it.
    /// Grouped with reading since execution always also requires read
    /// access.
    ExecuteAndRead(String),
    /// Allow reading an environment variable.
    Environment(String),
    /// Allow reading **all** environment variables.
    FullEnvironment,
    /// Replace all environment variables with a custom mapping, given as
    /// name/value pairs where the last binding of a name wins. If this
    /// exception is set, `Environment` and `FullEnvironment` exceptions are
    /// recorded but have no effect. Of several `CustomEnvironment`
    /// exceptions, the last one takes precedence.
    CustomEnvironment(Vec<(String, String)>),
    /// Allow networking.
    Networking,
}

/// The mathematical content of a policy: path rules as (path, rank) entries,
/// the environment allow-list and mode, and the network flag.
pub struct PolicyModel {
    pub paths: Seq<(Seq<char>, nat)>,
    pub env_allow: Seq<Seq<char>>,
    pub full_env: bool,
    pub custom_env: Option<Seq<(Seq<char>, Seq<char>)>>,
    pub networking: bool,
}

/// The policy of a freshly created sandbox: everything denied.
pub open spec fn empty_model() -> PolicyModel {
    PolicyModel {
        paths: Seq::empty(),
        env_allow: Seq::empty(),
        full_env: false,
        custom_env: None,
        networking: false,
    }
}

/// How one exception transforms the policy.
pub open spec fn apply_exception(m: PolicyModel, e: Exception) -> PolicyModel {
    match e {
        Exception::Read(p) => PolicyModel { paths: m.paths.push((p@, 1)), ..m },
        Exception::WriteAndRead(p) => PolicyModel { paths: m.paths.push((p@, 2)), ..m },
        Exception::ExecuteAndRead(p) => PolicyModel { paths: m.paths.push((p@, 3)), ..m },
        Exception::Environment(n) => PolicyModel { env_allow: m.env_allow.push(n@), ..m },
        Exception::FullEnvironment => PolicyModel { full_env: true, ..m },
        Exception::CustomEnvironment(v) => PolicyModel { custom_env: Some(pairs_view(v@)), ..m },
        Exception::Networking => PolicyModel { networking: true, ..m },
    }
}

/// The policy after a whole sequence of exceptions, applied in order.
pub open spec fn apply_all(m: PolicyModel, es: Seq<Exception>) -> PolicyModel
    decreases es.len(),
{
    if es.len() == 0 {
        m
    } else {
        apply_exception(apply_all(m, es.drop_last()), es.last())
    }
}

/// The accumulated, normalized result of all added exceptions.
pub struct Policy {
    /// Declared filesystem rules, in order of addition; the effective level
    /// of a path is the highest rank among its entries.
    pub path_rules: Vec<PathRule>,
    /// Environment variable names allowed through in allow-list mode.
    pub env_exceptions: Vec<String>,
    /// Keep the whole environment (allow-list mode only).
    pub full_env: bool,
    /// When present, the environment is replaced by exactly this mapping and
    /// the allow-list is recorded but has no effect.
    pub custom_env: Option<Vec<(String, String)>>,
    /// Whether socket creation is permitted.
    pub networking: bool,
}

impl Policy {
    /// The mathematical view of this policy.
    pub open spec fn model(&self) -> PolicyModel {
        PolicyModel {
            paths: rules_view(self.path_rules@),
            env_allow: names_view(self.env_exceptions@),
            full_env: self.full_env,
            custom_env: match self.custom_env {
                Some(v) => Some(pairs_view(v@)),
                None => None,
            },
            networking: self.networking,
        }
    }

    /// A fully default-deny policy.
    pub fn new() -> (p: Policy)
        ensures
            p.model() == empty_model(),
    {
        let p = Policy {
            path_rules: Vec::new(),
            env_exceptions: Vec::new(),
            full_env: false,
            custom_env: None,
            networking: false,
        };
        proof {
            assert(rules_view(p.path_rules@) =~= empty_model().paths);
            assert(names_view(p.env_exceptions@) =~= empty_model().env_allow);
        }
        p
    }

    /// Records one exception, merging it into the normalized policy.
    pub fn add(&mut self, exception: Exception)
        ensures
            final (self).model() == apply_exception(old(self).model(), exception),
    {
        let ghost before = old(self).model();
        match exception {
            Exception::Read(p) => {
                self.path_rules.push(PathRule { path: p, access: PathAccess::Read });
                proof {
                    assert(rules_view(self.path_rules@) =~= before.paths.push(
                        (self.path_rules@.last().path@, 1),
                    ));
                }
            },
            Exception::WriteAndRead(p) => {
                self.path_rules.push(PathRule { path: p, access: PathAccess::WriteAndRead });
                proof {
                    assert(rules_view(self.path_rules@) =~= before.paths.push(
                        (self.path_rules@.last().path@, 2),
                    ));
                }
            },
            Exception::ExecuteAndRead(p) => {
                self.path_rules.push(PathRule { path: p, access: PathAccess::ExecuteAndRead });
                proof {
                    assert(rules_view(self.path_rules@) =~= before.paths.push(
                        (self.path_rules@.last().path@, 3),
                    ));
                }
            },
            Exception::Environment(n) => {
                self.env_exceptions.push(n);
                proof {
                    assert(names_view(self.env_exceptions@) =~= before.env_allow.push(
                        self.env_exceptions@.last()@,
                    ));
                }
            },
            Exception::FullEnvironment => {
                self.full_env = true;
            },
            Exception::CustomEnvironment(v) => {
                self.custom_env = Some(v);
            },
            Exception::Networking => {
                self.networking = true;
            },
        }
    }
}

/// How the effective rank of a path responds to one more rule entry.
pub proof fn lemma_effective_rank_push(
    rs: Seq<(Seq<char>, nat)>,
    entry: (Seq<char>, nat),
    q: Seq<char>,
)
    ensures
        effective_rank(rs.push(entry), q) == (if entry.0 == q {
            if entry.1 > effective_rank(rs, q) {
                entry.1
            } else {
                effective_rank(rs, q)
            }
        } else {
            effective_rank(rs, q)
        }),
{
    assert(rs.push(entry).drop_last() =~= rs);
    assert(rs.push(entry).last() == entry);
}

/// The one merge that can withdraw an operation: raising a path's effective
/// level from write+read to execute+read gives up write on that path.
pub open spec fn write_shadowed(m: PolicyModel, e: Exception) -> bool {
    match e {
        Exception::ExecuteAndRead(p) => effective_rank(m.paths, p@) == 2,
        _ => false,
    }
}

/// The mirror image: a write+read exception on a path already at
/// execute+read is absorbed by the higher level and grants nothing new.
pub open spec fn write_masked(m: PolicyModel, e: Exception) -> bool {
    match e {
        Exception::WriteAndRead(p) => effective_rank(m.paths, p@) == 3,
        _ => false,
    }
}

/// Monotonicity: outside the one write-shadowing merge, adding an exception
/// never removes a previously granted filesystem access.
pub proof fn lemma_exception_monotone(
    m: PolicyModel,
    e: Exception,
    target: Seq<char>,
    kind: AccessKind,
)
    requires
        !write_shadowed(m, e),
        grants(m.paths, target, kind),
    ensures
        grants(apply_exception(m, e).paths, target, kind),
{
    let q = choose|q: Seq<char>|
        is_sub_path(q, target) && level_allows(effective_rank(m.paths, q), kind);
    match e {
        Exception::Read(p) => {
            lemma_path_exception_keeps(m.paths, (p@, 1), q, target, kind);
        },
        Exception::WriteAndRead(p) => {
            lemma_path_exception_keeps(m.paths, (p@, 2), q, target, kind);
        },
        Exception::ExecuteAndRead(p) => {
            lemma_path_exception_keeps(m.paths, (p@, 3), q, target, kind);
        },
        _ => {
            assert(apply_exception(m, e).paths == m.paths);
        },
    }
}

/// One more path rule keeps a grant witnessed by `q`, unless the new entry
/// shadows write access on `q` itself.
proof fn lemma_path_exception_keeps(
    rs: Seq<(Seq<char>, nat)>,
    entry: (Seq<char>, nat),
    q: Seq<char>,
    target: Seq<char>,
    kind: AccessKind,
)
    requires
        1 <= entry.1 <= 3,
        is_sub_path(q, target),
        level_allows(effective_rank(rs, q), kind),
        !(entry.1 == 3 && effective_rank(rs, entry.0) == 2),
    ensures
        grants(rs.push(entry), target, kind),
{
    lemma_effective_rank_push(rs, entry, q);
    assert(is_sub_path(q, target) && level_allows(effective_rank(rs.push(entry), q), kind));
}

/// Union exactness: outside the two write-level merges, the grants of a
/// policy extended by one exception are exactly the union of the policy's
/// grants and the exception's own grants over an empty policy.
pub proof fn lemma_exception_union(
    m: PolicyModel,
    e: Exception,
    target: Seq<char>,
    kind: AccessKind,
)
    requires
        valid_ranks(m.paths),
        !write_shadowed(m, e),
        !write_masked(m, e),
    ensures
        grants(apply_exception(m, e).paths, target, kind) <==> (grants(m.paths, target, kind)
            || grants(apply_exception(empty_model(), e).paths, target, kind)),
{
    match e {
        Exception::Read(p) => {
            lemma_union_case(m.paths, (p@, 1), target, kind);
        },
        Exception::WriteAndRead(p) => {
            lemma_union_case(m.paths, (p@, 2), target, kind);
        },
        Exception::ExecuteAndRead(p) => {
            lemma_union_case(m.paths, (p@, 3), target, kind);
        },
        _ => {
            assert(apply_exception(m, e).paths == m.paths);
            assert(apply_exception(empty_model(), e).paths == empty_model().paths);
            lemma_default_deny(target, kind);
        },
    }
}

/// Union exactness for a single path rule entry.
proof fn lemma_union_case(
    rs: Seq<(Seq<char>, nat)>,
    entry: (Seq<char>, nat),
    target: Seq<char>,
    kind: AccessKind,
)
    requires
        valid_ranks(rs),
        1 <= entry.1 <= 3,
        !(entry.1 == 3 && effective_rank(rs, entry.0) == 2),
        !(entry.1 == 2 && effective_rank(rs, entry.0) == 3),
    ensures
        grants(rs.push(entry), target, kind) <==> (grants(rs, target, kind) || grants(
            Seq::<(Seq<char>, nat)>::empty().push(entry),
            target,
            kind,
        )),
{
    let single = Seq::<(Seq<char>, nat)>::empty().push(entry);
    lemma_effective_rank_push(Seq::<(Seq<char>, nat)>::empty(), entry, entry.0);
    if grants(rs.push(entry), target, kind) {
        let q = choose|q: Seq<char>|
            is_sub_path(q, target) && level_allows(effective_rank(rs.push(entry), q), kind);
        lemma_effective_rank_push(rs, entry, q);
        if entry.0 == q {
            let b = effective_rank(rs, q);
            let a = entry.1;
            if effective_rank(rs.push(entry), q) == b {
                assert(is_sub_path(q, target) && level_allows(effective_rank(rs, q), kind));
                assert(grants(rs, target, kind));
            } else {
                assert(effective_rank(rs.push(entry), q) == a);
                assert(effective_rank(single, q) == a) by {
                    lemma_effective_rank_push(Seq::<(Seq<char>, nat)>::empty(), entry, q);
                }
                assert(is_sub_path(q, target) && level_allows(effective_rank(single, q), kind));
                assert(grants(single, target, kind));
            }
        } else {
            assert(is_sub_path(q, target) && level_allows(effective_rank(rs, q), kind));
            assert(grants(rs, target, kind));
        }
    }
    if grants(rs, target, kind) {
        let q = choose|q: Seq<char>|
            is_sub_path(q, target) && level_allows(effective_rank(rs, q), kind);
        lemma_effective_rank_push(rs, entry, q);
        if entry.0 == q {
            let b = effective_rank(rs, q);
            let a = entry.1;
            assert(level_allows(b, kind));
            if a > b {
                assert(!(a == 3 && b == 2));
                assert(level_allows(a, kind)) by {
                    if kind is Write {
                        assert(b == 2);
                    }
                }
                assert(effective_rank(rs.push(entry), q) == a);
            } else {
                assert(effective_rank(rs.push(entry), q) == b);
            }
            assert(is_sub_path(q, target) && level_allows(
                effective_rank(rs.push(entry), q),
                kind,
            ));
        } else {
            assert(is_sub_path(q, target) && level_allows(
                effective_rank(rs.push(entry), q),
                kind,
            ));
        }
        assert(grants(rs.push(entry), target, kind));
    }
    if grants(single, target, kind) {
        let q = choose|q: Seq<char>|
            is_sub_path(q, target) && level_allows(effective_rank(single, q), kind);
        lemma_effective_rank_push(Seq::<(Seq<char>, nat)>::empty(), entry, q);
        if entry.0 == q {
            let b = effective_rank(rs, q);
            let a = entry.1;
            lemma_effective_rank_bound(rs, q);
            assert(effective_rank(single, q) == a);
            assert(level_allows(a, kind));
            lemma_effective_rank_push(rs, entry, q);
            if b > a {
                assert(!(a == 2 && b == 3));
                assert(level_allows(b, kind)) by {
                    if kind is Write {
                        assert(a == 2);
                    }
                }
            }
            assert(is_sub_path(q, target) && level_allows(
                effective_rank(rs.push(entry), q),
                kind,
            ));
            assert(grants(rs.push(entry), target, kind));
        } else {
            assert(effective_rank(single, q) == 0);
            assert(!level_allows(0, kind));
        }
    }
}

/// Exceptions only extend the environment allow-list, and only switch the
/// full-environment and networking flags on, never off.
pub proof fn lemma_exception_additive(m: PolicyModel, e: Exception)
    ensures
        apply_exception(m, e).env_allow.len() >= m.env_allow.len(),
        forall|i: int|
            0 <= i < m.env_allow.len() ==> apply_exception(m, e).env_allow[i] == m.env_allow[i],
        m.full_env ==> apply_exception(m, e).full_env,
        m.networking ==> apply_exception(m, e).networking,
{
}

/// Networking exactness: a policy permits networking exactly when it began
/// permissive or some added exception is `Networking`.
pub proof fn lemma_networking_exact(m: PolicyModel, es: Seq<Exception>)
    ensures
        apply_all(m, es).networking <==> (m.networking || exists|i: int|
            0 <= i < es.len() && es[i] is Networking),
    decreases es.len(),
{
    if es.len() > 0 {
        lemma_networking_exact(m, es.drop_last());
        if apply_all(m, es).networking {
            if !m.networking {
                if es.last() is Networking {
                    assert(es[es.len() - 1] is Networking);
                } else {
                    assert(apply_all(m, es.drop_last()).networking);
                    let i = choose|i: int|
                        0 <= i < es.drop_last().len() && es.drop_last()[i] is Networking;
                    assert(es[i] is Networking);
                }
            }
        }
        if m.networking || exists|i: int| 0 <= i < es.len() && es[i] is Networking {
            if !apply_all(m, es.drop_last()).networking && !(es.last() is Networking) {
                if !m.networking {
                    let i = choose|i: int| 0 <= i < es.len() && es[i] is Networking;
                    assert(es.drop_last()[i] is Networking);
                }
            }
        }
    }
}

/// Last write wins: of several custom environments, only the final mapping
/// shapes the policy.
pub proof fn lemma_custom_env_last_wins(
    m: PolicyModel,
    first: Vec<(String, String)>,
    second: Vec<(String, String)>,
)
    ensures
        apply_exception(
            apply_exception(m, Exception::CustomEnvironment(first)),
            Exception::CustomEnvironment(second),
        ).custom_env == Some(pairs_view(second@)),
{
}


/// A rule entry with a declared rank keeps a rule list rank-valid.
proof fn lemma_valid_push(ps: Seq<(Seq<char>, nat)>, entry: (Seq<char>, nat))
    requires
        valid_ranks(ps),
        1 <= entry.1 <= 3,
    ensures
        valid_ranks(ps.push(entry)),
{
    assert forall|i: int| 0 <= i < ps.push(entry).len() implies 1 <= (#[trigger] ps.push(entry)[i]).1
        <= 3 by {
        if i < ps.len() {
            assert(ps.push(entry)[i] == ps[i]);
        } else {
            assert(ps.push(entry)[i] == entry);
        }
    }
}

/// Applying an exception preserves rank validity.
pub proof fn lemma_apply_valid(m: PolicyModel, e: Exception)
    requires
        valid_ranks(m.paths),
    ensures
        valid_ranks(apply_exception(m, e).paths),
{
    match e {
        Exception::Read(p) => {
            lemma_valid_push(m.paths, (p@, 1));
        },
        Exception::WriteAndRead(p) => {
            lemma_valid_push(m.paths, (p@, 2));
        },
        Exception::ExecuteAndRead(p) => {
            lemma_valid_push(m.paths, (p@, 3));
        },
        _ => {
        },
    }
}

/// A whole exception sequence preserves rank validity.
pub proof fn lemma_apply_all_valid(m: PolicyModel, es: Seq<Exception>)
    requires
        valid_ranks(m.paths),
    ensures
        valid_ranks(apply_all(m, es).paths),
    decreases es.len(),
{
    if es.len() > 0 {
        lemma_apply_all_valid(m, es.drop_last());
        lemma_apply_valid(apply_all(m, es.drop_last()), es.last());
    }
}

/// Union exactness over a whole sequence: outside the write-level merges,
/// the effective policy after a sequence of exceptions grants exactly the
/// union of the grants each exception makes on its own.
pub proof fn lemma_policy_is_union_of_grants(es: Seq<Exception>, target: Seq<char>, kind: AccessKind)
    requires
        forall|i: int|
            0 <= i < es.len() ==> !write_shadowed(
                apply_all(empty_model(), #[trigger] es.take(i)),
                es[i],
            ) && !write_masked(apply_all(empty_model(), es.take(i)), es[i]),
    ensures
        grants(apply_all(empty_model(), es).paths, target, kind) <==> exists|i: int|
            0 <= i < es.len() && grants(
                apply_exception(empty_model(), #[trigger] es[i]).paths,
                target,
                kind,
            ),
    decreases es.len(),
{
    if es.len() == 0 {
        lemma_default_deny(target, kind);
    } else {
        let prefix = es.drop_last();
        assert forall|i: int|
            0 <= i < prefix.len() implies !write_shadowed(
            apply_all(empty_model(), #[trigger] prefix.take(i)),
            prefix[i],
        ) && !write_masked(apply_all(empty_model(), prefix.take(i)), prefix[i]) by {
            assert(prefix.take(i) =~= es.take(i));
            assert(prefix[i] == es[i]);
        }
        lemma_policy_is_union_of_grants(prefix, target, kind);
        let before = apply_all(empty_model(), prefix);
        assert(es.take(es.len() - 1) =~= prefix);
        lemma_apply_all_valid(empty_model(), prefix);
        lemma_exception_union(before, es.last(), target, kind);
        let after = apply_all(empty_model(), es);
        assert(after == apply_exception(before, es.last()));
        if grants(after.paths, target, kind) {
            if grants(before.paths, target, kind) {
                let i = choose|i: int|
                    0 <= i < prefix.len() && grants(
                        apply_exception(empty_model(), #[trigger] prefix[i]).paths,
                        target,
                        kind,
                    );
                assert(es[i] == prefix[i]);
                assert(grants(apply_exception(empty_model(), es[i]).paths, target, kind));
            } else {
                assert(grants(
                    apply_exception(empty_model(), es[es.len() - 1]).paths,
                    target,
                    kind,
                ));
            }
        }
        if exists|i: int|
            0 <= i < es.len() && grants(
                apply_exception(empty_model(), #[trigger] es[i]).paths,
                target,
                kind,
            ) {
            let i = choose|i: int|
                0 <= i < es.len() && grants(
                    apply_exception(empty_model(), #[trigger] es[i]).paths,
                    target,
                    kind,
                );
            if i < es.len() - 1 {
                assert(prefix[i] == es[i]);
                assert(grants(apply_exception(empty_model(), prefix[i]).paths, target, kind));
                assert(grants(before.paths, target, kind));
            } else {
                assert(es[i] == es.last());
            }
            assert(grants(after.paths, target, kind));
        }
    }
}

} // verus!
