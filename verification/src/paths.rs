//! Filesystem rule model: paths, access levels and the grant relation.
//!
//! A rule names a path and one of three access levels. A rule covers the
//! named path and everything lexically beneath it. When one path is declared
//! at several levels, the highest level wins; the effective level of a path
//! is therefore the maximum over all rules naming it.

use vstd::prelude::*;
use vstd::string::StrSliceExecFns;

verus! {

/// Access level of one filesystem rule, from weakest to strongest.
/// Execution is grouped with reading because executing always requires
/// reading.
#[derive(Clone, Copy, Debug, PartialEq, Eq, Structural)]
pub enum PathAccess {
    /// Read the path and anything beneath it.
    Read,
    /// Write and read the path and anything beneath it.
    WriteAndRead,
    /// Execute and read the path and anything beneath it.
    ExecuteAndRead,
}

/// One concrete filesystem operation an access check can ask about.
#[derive(Clone, Copy, Debug, PartialEq, Eq, Structural)]
pub enum AccessKind {
    Read,
    Write,
    Execute,
}

/// A single filesystem rule: a path together with its access level.
#[derive(Clone, Debug)]
pub struct PathRule {
    pub path: String,
    pub access: PathAccess,
}

/// Numeric rank of an access level; higher ranks win when a path is
/// declared at several levels.
pub open spec fn rank(a: PathAccess) -> nat {
    match a {
        PathAccess::Read => 1,
        PathAccess::WriteAndRead => 2,
        PathAccess::ExecuteAndRead => 3,
    }
}

/// Which operations each rank permits. Rank 0 stands for "no rule" and
/// permits nothing.
pub open spec fn level_allows(r: nat, kind: AccessKind) -> bool {
    match kind {
        AccessKind::Read => r >= 1,
        AccessKind::Write => r == 2,
        AccessKind::Execute => r == 3,
    }
}

/// Lexical subpath relation: `child` is `parent` itself, or lies beneath it
/// (the next character after the shared prefix is a separator, or the parent
/// already ends in one).
pub open spec fn is_sub_path(parent: Seq<char>, child: Seq<char>) -> bool {
    ||| parent == child
    ||| {
        &&& child.len() > parent.len()
        &&& child.subrange(0, parent.len() as int) == parent
        &&& (child[parent.len() as int] == '/' || (parent.len() > 0 && parent[parent.len()
            - 1] == '/'))
    }
}

/// The mathematical view of a rule list: each entry as (path, rank).
pub open spec fn rules_view(v: Seq<PathRule>) -> Seq<(Seq<char>, nat)> {
    v.map(|i: int, r: PathRule| (r.path@, rank(r.access)))
}

/// Effective rank of path `p` under the rules `rs`: the maximum rank over
/// all entries naming `p`, and 0 when none does.
pub open spec fn effective_rank(rs: Seq<(Seq<char>, nat)>, p: Seq<char>) -> nat
    decreases rs.len(),
{
    if rs.len() == 0 {
        0
    } else {
        let e = effective_rank(rs.drop_last(), p);
        if rs.last().0 == p {
            if rs.last().1 > e {
                rs.last().1
            } else {
                e
            }
        } else {
            e
        }
    }
}

/// The grant relation: the rules `rs` permit operation `kind` on `target`
/// exactly when some path covering `target` has an effective rank that
/// permits `kind`.
pub open spec fn grants(rs: Seq<(Seq<char>, nat)>, target: Seq<char>, kind: AccessKind) -> bool {
    exists|p: Seq<char>| is_sub_path(p, target) && level_allows(effective_rank(rs, p), kind)
}

/// A rule list holding only the three declared ranks.
pub open spec fn valid_ranks(ps: Seq<(Seq<char>, nat)>) -> bool {
    forall|i: int| 0 <= i < ps.len() ==> 1 <= (#[trigger] ps[i]).1 <= 3
}

/// The view of any rule list is rank-valid.
pub proof fn lemma_rules_view_valid(v: Seq<PathRule>)
    ensures
        valid_ranks(rules_view(v)),
{
    assert forall|i: int| 0 <= i < rules_view(v).len() implies 1 <= (#[trigger] rules_view(v)[i]).1
        <= 3 by {
        assert(rules_view(v)[i].1 == rank(v[i].access));
    }
}

/// The effective rank of a valid rule list never exceeds the highest
/// declared rank.
pub proof fn lemma_effective_rank_bound(rs: Seq<(Seq<char>, nat)>, p: Seq<char>)
    requires
        valid_ranks(rs),
    ensures
        effective_rank(rs, p) <= 3,
    decreases rs.len(),
{
    if rs.len() > 0 {
        assert(valid_ranks(rs.drop_last())) by {
            assert(forall|i: int|
                0 <= i < rs.drop_last().len() ==> #[trigger] rs.drop_last()[i] == rs[i]);
        }
        lemma_effective_rank_bound(rs.drop_last(), p);
    }
}

/// An effective rank above 0 can only come from an entry naming the path.
pub proof fn lemma_effective_rank_entry(rs: Seq<(Seq<char>, nat)>, p: Seq<char>)
    requires
        effective_rank(rs, p) > 0,
    ensures
        exists|j: int| 0 <= j < rs.len() && rs[j].0 == p,
    decreases rs.len(),
{
    if rs.len() > 0 {
        if rs.last().0 == p {
            assert(rs[rs.len() - 1].0 == p);
        } else {
            lemma_effective_rank_entry(rs.drop_last(), p);
            let j = choose|j: int| 0 <= j < rs.drop_last().len() && rs.drop_last()[j].0 == p;
            assert(rs[j].0 == p);
        }
    }
}

/// Every entry bounds the effective rank of its path from below.
pub proof fn lemma_effective_rank_ge(rs: Seq<(Seq<char>, nat)>, j: int)
    requires
        0 <= j < rs.len(),
    ensures
        effective_rank(rs, rs[j].0) >= rs[j].1,
    decreases rs.len(),
{
    if j == rs.len() - 1 {
    } else {
        lemma_effective_rank_ge(rs.drop_last(), j);
        assert(rs.drop_last()[j] == rs[j]);
    }
}

/// Default-deny: with no rules at all, no operation on any target is
/// granted.
pub proof fn lemma_default_deny(target: Seq<char>, kind: AccessKind)
    ensures
        !grants(Seq::<(Seq<char>, nat)>::empty(), target, kind),
{
    assert forall|p: Seq<char>| !level_allows(
        effective_rank(Seq::<(Seq<char>, nat)>::empty(), p),
        kind,
    ) by {
        assert(effective_rank(Seq::<(Seq<char>, nat)>::empty(), p) == 0);
    }
}

/// Subpath inheritance: a level that permits `kind` on path `p` permits it
/// on every target lexically beneath `p`.
pub proof fn lemma_subpath_inheritance(
    rs: Seq<(Seq<char>, nat)>,
    p: Seq<char>,
    target: Seq<char>,
    kind: AccessKind,
)
    requires
        is_sub_path(p, target),
        level_allows(effective_rank(rs, p), kind),
    ensures
        grants(rs, target, kind),
{
    assert(is_sub_path(p, target) && level_allows(effective_rank(rs, p), kind));
}

/// A target beneath no rule path receives no grant of any kind.
pub proof fn lemma_uncovered_denied(rs: Seq<(Seq<char>, nat)>, target: Seq<char>, kind: AccessKind)
    requires
        forall|j: int| 0 <= j < rs.len() ==> !is_sub_path(#[trigger] rs[j].0, target),
    ensures
        !grants(rs, target, kind),
{
    if grants(rs, target, kind) {
        let p = choose|p: Seq<char>|
            is_sub_path(p, target) && level_allows(effective_rank(rs, p), kind);
        assert(effective_rank(rs, p) > 0) by {
            if effective_rank(rs, p) == 0 {
                assert(!level_allows(0, kind));
            }
        }
        lemma_effective_rank_entry(rs, p);
    }
}

/// Rank of an access level, as executable code.
pub fn access_rank(a: PathAccess) -> (r: u8)
    ensures
        r as nat == rank(a),
{
    match a {
        PathAccess::Read => 1,
        PathAccess::WriteAndRead => 2,
        PathAccess::ExecuteAndRead => 3,
    }
}

/// Decides the lexical subpath relation on character sequences.
pub fn path_covers(parent: &str, child: &str) -> (b: bool)
    ensures
        b == is_sub_path(parent@, child@),
{
    let np: usize = parent.unicode_len();
    let nc: usize = child.unicode_len();
    if np > nc {
        return false;
    }
    let mut i: usize = 0;
    while i < np
        invariant
            0 <= i <= np,
            np <= nc,
            np == parent@.len(),
            nc == child@.len(),
            forall|j: int| 0 <= j < i ==> parent@[j] == child@[j],
        decreases np - i,
    {
        if parent.get_char(i) != child.get_char(i) {
            proof {
                assert(parent@[i as int] != child@[i as int]);
                if child@.subrange(0, np as int) == parent@ {
                    assert(child@.subrange(0, np as int)[i as int] == child@[i as int]);
                }
            }
            return false;
        }
        i += 1;
    }
    if np == nc {
        proof {
            assert(parent@ =~= child@);
        }
        true
    } else {
        proof {
            assert(child@.subrange(0, np as int) =~= parent@);
        }
        if child.get_char(np) == '/' {
            true
        } else if np > 0 && parent.get_char(np - 1) == '/' {
            true
        } else {
            false
        }
    }
}

/// Computes the effective rank of `path` under the whole rule list.
pub fn max_rank_of(rules: &Vec<PathRule>, path: &String) -> (r: u8)
    ensures
        r as nat == effective_rank(rules_view(rules@), path@),
{
    let mut r: u8 = 0;
    let mut i: usize = 0;
    proof {
        assert(rules@.take(0) =~= Seq::<PathRule>::empty());
        assert(rules_view(rules@.take(0)) =~= Seq::<(Seq<char>, nat)>::empty());
    }
    while i < rules.len()
        invariant
            0 <= i <= rules@.len(),
            r <= 3,
            r as nat == effective_rank(rules_view(rules@.take(i as int)), path@),
        decreases rules@.len() - i,
    {
        proof {
            assert(rules_view(rules@.take(i as int + 1)).drop_last() =~= rules_view(
                rules@.take(i as int),
            ));
            assert(rules_view(rules@.take(i as int + 1)).last() == (
                rules@[i as int].path@,
                rank(rules@[i as int].access),
            ));
        }
        if rules[i].path == *path {
            let a = access_rank(rules[i].access);
            if a > r {
                r = a;
            }
        }
        i += 1;
    }
    proof {
        assert(rules@.take(rules@.len() as int) =~= rules@);
    }
    r
}

/// Decides the grant relation: does the rule list permit operation `kind`
/// on `target`?
pub fn check_access(rules: &Vec<PathRule>, target: &str, kind: AccessKind) -> (b: bool)
    ensures
        b == grants(rules_view(rules@), target@, kind),
{
    let ghost rs = rules_view(rules@);
    let mut i: usize = 0;
    while i < rules.len()
        invariant
            0 <= i <= rules@.len(),
            rs == rules_view(rules@),
            forall|j: int|
                0 <= j < i ==> !(is_sub_path(#[trigger] rs[j].0, target@) && level_allows(
                    effective_rank(rs, rs[j].0),
                    kind,
                )),
        decreases rules@.len() - i,
    {
        let covers = path_covers(rules[i].path.as_str(), target);
        let eff = max_rank_of(rules, &rules[i].path);
        let permits = match kind {
            AccessKind::Read => eff >= 1,
            AccessKind::Write => eff == 2,
            AccessKind::Execute => eff == 3,
        };
        proof {
            assert(rs[i as int].0 == rules@[i as int].path@);
            assert(permits == level_allows(effective_rank(rs, rs[i as int].0), kind));
        }
        if covers && permits {
            proof {
                assert(is_sub_path(rules@[i as int].path@, target@) && level_allows(
                    effective_rank(rs, rules@[i as int].path@),
                    kind,
                ));
            }
            return true;
        }
        i += 1;
    }
    proof {
        if grants(rs, target@, kind) {
            let p = choose|p: Seq<char>|
                is_sub_path(p, target@) && level_allows(effective_rank(rs, p), kind);
            assert(effective_rank(rs, p) > 0) by {
                if effective_rank(rs, p) == 0 {
                    assert(!level_allows(0, kind));
                }
            }
            lemma_effective_rank_entry(rs, p);
            let j = choose|j: int| 0 <= j < rs.len() && rs[j].0 == p;
            assert(!(is_sub_path(rs[j].0, target@) && level_allows(
                effective_rank(rs, rs[j].0),
                kind,
            )));
        }
    }
    false
}

} // verus!
