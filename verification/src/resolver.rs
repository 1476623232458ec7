//! Path resolution: canonical-target expansion of declared rules.
//!
//! The caller-declared rule paths may be relative or symlinked. Activation
//! receives a resolution table mapping each declared path to its canonical
//! form, where resolution succeeded on the host. Every declared rule is
//! installed literally (so a rule may name a path that does not exist yet),
//! and, where a canonical target is known, that target is installed at the
//! same access level — closing the bypass where a confined program
//! dereferences a symlink instead of the declared name. Resolution failure
//! is therefore never an error: the literal rule still stands.

use vstd::prelude::*;

use crate::paths::grants;
use crate::paths::is_sub_path;
use crate::paths::lemma_effective_rank_ge;
use crate::paths::level_allows;
use crate::paths::effective_rank;
use crate::paths::rules_view;
use crate::paths::AccessKind;
use crate::paths::PathRule;
use vstd::string::StrSliceExecFns;

verus! {

/// View of an optional string.
pub open spec fn opt_view(o: Option<String>) -> Option<Seq<char>> {
    match o {
        Some(s) => Some(s@),
        None => None,
    }
}

/// View of a resolution table: each entry as (declared path, canonical
/// target where resolution succeeded).
pub open spec fn resolution_view(t: Seq<(String, Option<String>)>) -> Seq<
    (Seq<char>, Option<Seq<char>>),
> {
    t.map(|i: int, p: (String, Option<String>)| (p.0@, opt_view(p.1)))
}

/// First-match lookup of a declared path in the resolution table.
pub open spec fn lookup_resolution(
    t: Seq<(Seq<char>, Option<Seq<char>>)>,
    p: Seq<char>,
) -> Option<Seq<char>>
    decreases t.len(),
{
    if t.len() == 0 {
        None
    } else if t.first().0 == p {
        t.first().1
    } else {
        lookup_resolution(t.drop_first(), p)
    }
}

/// The expanded rule entries: each declared rule installed literally and,
/// where a canonical target is known, that target at the same level.
pub open spec fn expand_model(
    ps: Seq<(Seq<char>, nat)>,
    t: Seq<(Seq<char>, Option<Seq<char>>)>,
) -> Seq<(Seq<char>, nat)>
    decreases ps.len(),
{
    if ps.len() == 0 {
        Seq::empty()
    } else {
        let rest = expand_model(ps.drop_last(), t).push(ps.last());
        match lookup_resolution(t, ps.last().0) {
            Some(c) => rest.push((c, ps.last().1)),
            None => rest,
        }
    }
}

/// A rule path that both backends' rule grammars can express: non-empty,
/// free of embedded NUL characters (kernel rule strings), and free of the
/// quote and backslash characters a profile string literal cannot carry
/// verbatim.
pub open spec fn rule_expressible(p: Seq<char>) -> bool {
    p.len() > 0 && forall|i: int|
        0 <= i < p.len() ==> (#[trigger] p[i]) != '\0' && p[i] != '"' && p[i] != '\\'
}

/// Every entry of a rule list is expressible.
pub open spec fn all_expressible(ps: Seq<(Seq<char>, nat)>) -> bool {
    forall|i: int| 0 <= i < ps.len() ==> rule_expressible((#[trigger] ps[i]).0)
}

/// Looks a declared path up in the resolution table, first match winning.
pub fn lookup_canonical(table: &Vec<(String, Option<String>)>, path: &String) -> (r: Option<String>)
    ensures
        opt_view(r) == lookup_resolution(resolution_view(table@), path@),
{
    let ghost tv = resolution_view(table@);
    let mut j: usize = 0;
    proof {
        assert(tv.skip(0) =~= tv);
    }
    while j < table.len()
        invariant
            0 <= j <= table@.len(),
            tv == resolution_view(table@),
            lookup_resolution(tv.skip(j as int), path@) == lookup_resolution(tv, path@),
        decreases table@.len() - j,
    {
        proof {
            assert(tv.skip(j as int).first() == tv[j as int]);
            assert(tv.skip(j as int).drop_first() =~= tv.skip(j as int + 1));
        }
        if table[j].0 == *path {
            proof {
                assert(tv[j as int].0 == path@);
            }
            let found = match &table[j].1 {
                Some(c) => Some(c.clone()),
                None => None,
            };
            proof {
                assert(opt_view(found) == tv[j as int].1);
            }
            return found;
        }
        j += 1;
    }
    proof {
        assert(tv.skip(table@.len() as int) =~= Seq::<(Seq<char>, Option<Seq<char>>)>::empty());
    }
    None
}

/// Expands declared rules against the resolution table: the literal path
/// always, the canonical target at the same level where one is known.
pub fn expand_rules(rules: &Vec<PathRule>, table: &Vec<(String, Option<String>)>) -> (out: Vec<
    PathRule,
>)
    ensures
        rules_view(out@) == expand_model(rules_view(rules@), resolution_view(table@)),
{
    let ghost tv = resolution_view(table@);
    let mut out: Vec<PathRule> = Vec::new();
    let mut i: usize = 0;
    proof {
        assert(rules_view(rules@.take(0)) =~= Seq::<(Seq<char>, nat)>::empty());
        assert(rules_view(out@) =~= Seq::<(Seq<char>, nat)>::empty());
    }
    while i < rules.len()
        invariant
            0 <= i <= rules@.len(),
            tv == resolution_view(table@),
            rules_view(out@) == expand_model(rules_view(rules@.take(i as int)), tv),
        decreases rules@.len() - i,
    {
        proof {
            assert(rules_view(rules@.take(i as int + 1)).drop_last() =~= rules_view(
                rules@.take(i as int),
            ));
            assert(rules_view(rules@.take(i as int + 1)).last() == (
                rules@[i as int].path@,
                crate::paths::rank(rules@[i as int].access),
            ));
        }
        let ghost before = rules_view(out@);
        out.push(PathRule { path: rules[i].path.clone(), access: rules[i].access });
        proof {
            assert(rules_view(out@) =~= before.push((
                rules@[i as int].path@,
                crate::paths::rank(rules@[i as int].access),
            )));
        }
        let ghost mid = rules_view(out@);
        match lookup_canonical(table, &rules[i].path) {
            Some(canonical) => {
                out.push(PathRule { path: canonical, access: rules[i].access });
                proof {
                    assert(rules_view(out@) =~= mid.push((
                        out@.last().path@,
                        crate::paths::rank(rules@[i as int].access),
                    )));
                }
            },
            None => {},
        }
        i += 1;
    }
    proof {
        assert(rules@.take(rules@.len() as int) =~= rules@);
    }
    out
}

/// Decides whether a single path is expressible as a backend rule.
pub fn path_expressible(path: &str) -> (b: bool)
    ensures
        b == rule_expressible(path@),
{
    let n: usize = path.unicode_len();
    if n == 0 {
        return false;
    }
    let mut i: usize = 0;
    while i < n
        invariant
            0 <= i <= n,
            n == path@.len(),
            forall|j: int|
                0 <= j < i ==> (#[trigger] path@[j]) != '\0' && path@[j] != '"' && path@[j]
                    != '\\',
        decreases n - i,
    {
        let c = path.get_char(i);
        if c == '\0' || c == '"' || c == '\\' {
            return false;
        }
        i += 1;
    }
    true
}

/// Decides whether every rule of a list is expressible.
pub fn rules_expressible(rules: &Vec<PathRule>) -> (b: bool)
    ensures
        b == all_expressible(rules_view(rules@)),
{
    let mut i: usize = 0;
    while i < rules.len()
        invariant
            0 <= i <= rules@.len(),
            forall|j: int| 0 <= j < i ==> rule_expressible((#[trigger] rules_view(rules@)[j]).0),
        decreases rules@.len() - i,
    {
        if !path_expressible(rules[i].path.as_str()) {
            proof {
                assert(!rule_expressible(rules_view(rules@)[i as int].0));
            }
            return false;
        }
        i += 1;
    }
    true
}

/// Default-deny survives resolution: expanding an empty rule list yields no
/// rules, so a fresh sandbox's plan grants nothing to any target.
pub proof fn lemma_expand_default_deny(
    t: Seq<(Seq<char>, Option<Seq<char>>)>,
    target: Seq<char>,
    kind: AccessKind,
)
    ensures
        expand_model(Seq::<(Seq<char>, nat)>::empty(), t) == Seq::<(Seq<char>, nat)>::empty(),
        !grants(expand_model(Seq::<(Seq<char>, nat)>::empty(), t), target, kind),
{
    crate::paths::lemma_default_deny(target, kind);
}

/// Each literal rule survives expansion.
pub proof fn lemma_expand_literal(
    ps: Seq<(Seq<char>, nat)>,
    t: Seq<(Seq<char>, Option<Seq<char>>)>,
    i: int,
)
    requires
        0 <= i < ps.len(),
    ensures
        exists|j: int|
            0 <= j < expand_model(ps, t).len() && #[trigger] expand_model(ps, t)[j] == ps[i],
    decreases ps.len(),
{
    let rest = expand_model(ps.drop_last(), t).push(ps.last());
    if i == ps.len() - 1 {
        let j = expand_model(ps.drop_last(), t).len() as int;
        assert(expand_model(ps, t)[j] == ps[i]);
    } else {
        lemma_expand_literal(ps.drop_last(), t, i);
        let j = choose|j: int|
            0 <= j < expand_model(ps.drop_last(), t).len() && #[trigger] expand_model(
                ps.drop_last(),
                t,
            )[j] == ps.drop_last()[i];
        assert(ps.drop_last()[i] == ps[i]);
        assert(expand_model(ps, t)[j] == ps[i]);
    }
}

/// Each resolved canonical target survives expansion, at the level of its
/// declaring rule.
pub proof fn lemma_expand_resolved(
    ps: Seq<(Seq<char>, nat)>,
    t: Seq<(Seq<char>, Option<Seq<char>>)>,
    i: int,
    c: Seq<char>,
)
    requires
        0 <= i < ps.len(),
        lookup_resolution(t, ps[i].0) == Some(c),
    ensures
        exists|j: int|
            0 <= j < expand_model(ps, t).len() && #[trigger] expand_model(ps, t)[j] == (c, ps[i].1),
    decreases ps.len(),
{
    let rest = expand_model(ps.drop_last(), t).push(ps.last());
    if i == ps.len() - 1 {
        let j = rest.len() as int;
        assert(expand_model(ps, t)[j] == (c, ps[i].1));
    } else {
        assert(ps.drop_last()[i] == ps[i]);
        lemma_expand_resolved(ps.drop_last(), t, i, c);
        let j = choose|j: int|
            0 <= j < expand_model(ps.drop_last(), t).len() && #[trigger] expand_model(
                ps.drop_last(),
                t,
            )[j] == (c, ps.drop_last()[i].1);
        assert(expand_model(ps, t)[j] == (c, ps[i].1));
    }
}

/// Symlink transitivity: a rule declared on a path grants read on the
/// declared path itself, and — where the resolution table knows a canonical
/// target — on that target too, transitively closing the symlink.
pub proof fn lemma_symlink_transitivity(
    ps: Seq<(Seq<char>, nat)>,
    t: Seq<(Seq<char>, Option<Seq<char>>)>,
    i: int,
    c: Seq<char>,
)
    requires
        0 <= i < ps.len(),
        ps[i].1 >= 1,
        lookup_resolution(t, ps[i].0) == Some(c),
    ensures
        grants(expand_model(ps, t), ps[i].0, AccessKind::Read),
        grants(expand_model(ps, t), c, AccessKind::Read),
{
    let ex = expand_model(ps, t);
    lemma_expand_literal(ps, t, i);
    let j = choose|j: int| 0 <= j < ex.len() && #[trigger] ex[j] == ps[i];
    lemma_effective_rank_ge(ex, j);
    assert(is_sub_path(ps[i].0, ps[i].0));
    assert(is_sub_path(ps[i].0, ps[i].0) && level_allows(
        effective_rank(ex, ps[i].0),
        AccessKind::Read,
    ));
    lemma_expand_resolved(ps, t, i, c);
    let k = choose|k: int| 0 <= k < ex.len() && #[trigger] ex[k] == (c, ps[i].1);
    lemma_effective_rank_ge(ex, k);
    assert(is_sub_path(c, c) && level_allows(effective_rank(ex, c), AccessKind::Read));
}


/// Expansion invents nothing: every expanded entry is a declared rule
/// itself, or the canonical target of a declared rule at that rule's level.
pub proof fn lemma_expand_source(
    ps: Seq<(Seq<char>, nat)>,
    t: Seq<(Seq<char>, Option<Seq<char>>)>,
    j: int,
)
    requires
        0 <= j < expand_model(ps, t).len(),
    ensures
        exists|i: int|
            0 <= i < ps.len() && (expand_model(ps, t)[j] == #[trigger] ps[i] || (
            lookup_resolution(t, ps[i].0) == Some(expand_model(ps, t)[j].0) && expand_model(
                ps,
                t,
            )[j].1 == ps[i].1)),
    decreases ps.len(),
{
    let ex = expand_model(ps, t);
    let rest0 = expand_model(ps.drop_last(), t);
    let rest = rest0.push(ps.last());
    if j < rest0.len() {
        lemma_expand_source(ps.drop_last(), t, j);
        let i = choose|i: int|
            0 <= i < ps.drop_last().len() && (expand_model(ps.drop_last(), t)[j]
                == #[trigger] ps.drop_last()[i] || (lookup_resolution(t, ps.drop_last()[i].0)
                == Some(expand_model(ps.drop_last(), t)[j].0) && expand_model(
                ps.drop_last(),
                t,
            )[j].1 == ps.drop_last()[i].1));
        assert(ps.drop_last()[i] == ps[i]);
        assert(ex[j] == rest0[j]);
    } else if j == rest0.len() {
        assert(ex[j] == ps.last());
        assert(ex[j] == ps[ps.len() - 1]);
    } else {
        let c = lookup_resolution(t, ps.last().0);
        assert(c is Some);
        assert(ex[j] == (c.unwrap(), ps.last().1));
        assert(lookup_resolution(t, ps[ps.len() - 1].0) == Some(ex[j].0) && ex[j].1 == ps[ps.len()
            - 1].1);
    }
}

} // verus!
