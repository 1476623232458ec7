//! Environment restriction: the userspace, backend-independent step.
//!
//! The sandbox's environment policy is either an allow-list (keep exactly the
//! variables whose names are listed, remove the rest) or a replacement (drop
//! every current variable and install a fixed name-to-value mapping, where
//! the last binding of a name wins). Both are computed here as pure
//! functions from an environment snapshot to the environment the confined
//! process will see; writing the result back into the process environment is
//! the caller's input/output step.

use vstd::prelude::*;

verus! {

/// View of a list of environment pairs: each entry as (name, value)
/// character sequences.
pub open spec fn pairs_view(v: Seq<(String, String)>) -> Seq<(Seq<char>, Seq<char>)> {
    v.map(|i: int, p: (String, String)| (p.0@, p.1@))
}

/// View of a list of names.
pub open spec fn names_view(v: Seq<String>) -> Seq<Seq<char>> {
    v.map(|i: int, s: String| s@)
}

/// Last-write-wins lookup of `name` among the pairs.
pub open spec fn env_lookup(s: Seq<(Seq<char>, Seq<char>)>, name: Seq<char>) -> Option<Seq<char>>
    decreases s.len(),
{
    if s.len() == 0 {
        None
    } else if s.last().0 == name {
        Some(s.last().1)
    } else {
        env_lookup(s.drop_last(), name)
    }
}

/// No two entries bind the same name.
pub open spec fn distinct_names(s: Seq<(Seq<char>, Seq<char>)>) -> bool {
    forall|i: int, j: int| 0 <= i < j < s.len() ==> (#[trigger] s[i]).0 != (#[trigger] s[j]).0
}

/// The pairs whose names stand in the allow list, in their original order.
pub open spec fn kept_pairs(s: Seq<(Seq<char>, Seq<char>)>, allow: Seq<Seq<char>>) -> Seq<
    (Seq<char>, Seq<char>),
>
    decreases s.len(),
{
    if s.len() == 0 {
        Seq::empty()
    } else {
        let rest = kept_pairs(s.drop_last(), allow);
        if allow.contains(s.last().0) {
            rest.push(s.last())
        } else {
            rest
        }
    }
}

/// Allow-list exactness: a pair survives the filter if and only if it stood
/// in the snapshot and its name is allowed.
pub proof fn lemma_kept_membership(
    s: Seq<(Seq<char>, Seq<char>)>,
    allow: Seq<Seq<char>>,
    pr: (Seq<char>, Seq<char>),
)
    ensures
        kept_pairs(s, allow).contains(pr) <==> (s.contains(pr) && allow.contains(pr.0)),
    decreases s.len(),
{
    if s.len() > 0 {
        lemma_kept_membership(s.drop_last(), allow, pr);
        let rest = kept_pairs(s.drop_last(), allow);
        if s.contains(pr) && allow.contains(pr.0) {
            let j = choose|j: int| 0 <= j < s.len() && s[j] == pr;
            if j < s.len() - 1 {
                assert(s.drop_last()[j] == pr);
                assert(s.drop_last().contains(pr));
                let k = choose|k: int| 0 <= k < rest.len() && rest[k] == pr;
                if allow.contains(s.last().0) {
                    assert(kept_pairs(s, allow)[k] == pr);
                }
                assert(kept_pairs(s, allow).contains(pr));
            } else {
                assert(pr == s.last());
                assert(kept_pairs(s, allow)[rest.len() as int] == pr);
                assert(kept_pairs(s, allow).contains(pr));
            }
        }
        if kept_pairs(s, allow).contains(pr) {
            let k = choose|k: int|
                0 <= k < kept_pairs(s, allow).len() && kept_pairs(s, allow)[k] == pr;
            if allow.contains(s.last().0) && k == rest.len() {
                assert(pr == s.last());
                assert(s[s.len() - 1] == pr);
                assert(s.contains(pr));
            } else {
                assert(rest[k] == pr);
                assert(rest.contains(pr));
                let j = choose|j: int| 0 <= j < s.drop_last().len() && s.drop_last()[j] == pr;
                assert(s[j] == pr);
                assert(s.contains(pr));
            }
        }
    }
}

/// Every filtered entry comes from the snapshot.
pub proof fn lemma_kept_source(s: Seq<(Seq<char>, Seq<char>)>, allow: Seq<Seq<char>>, i: int)
    requires
        0 <= i < kept_pairs(s, allow).len(),
    ensures
        exists|j: int| 0 <= j < s.len() && kept_pairs(s, allow)[i] == s[j],
    decreases s.len(),
{
    if s.len() > 0 {
        let rest = kept_pairs(s.drop_last(), allow);
        if allow.contains(s.last().0) && i == rest.len() {
            assert(kept_pairs(s, allow)[i] == s[s.len() - 1]);
        } else {
            lemma_kept_source(s.drop_last(), allow, i);
            let j = choose|j: int|
                0 <= j < s.drop_last().len() && kept_pairs(s.drop_last(), allow)[i] == s.drop_last(
                )[j];
            assert(kept_pairs(s, allow)[i] == s[j]);
        }
    }
}

/// Filtering a snapshot with distinct names yields distinct names.
pub proof fn lemma_kept_distinct(s: Seq<(Seq<char>, Seq<char>)>, allow: Seq<Seq<char>>)
    requires
        distinct_names(s),
    ensures
        distinct_names(kept_pairs(s, allow)),
    decreases s.len(),
{
    if s.len() > 0 {
        assert(distinct_names(s.drop_last())) by {
            assert(forall|i: int|
                0 <= i < s.drop_last().len() ==> #[trigger] s.drop_last()[i] == s[i]);
        }
        lemma_kept_distinct(s.drop_last(), allow);
        if allow.contains(s.last().0) {
            let rest = kept_pairs(s.drop_last(), allow);
            assert forall|i: int| 0 <= i < rest.len() implies (#[trigger] rest[i]).0 != s.last().0 by {
                lemma_kept_source(s.drop_last(), allow, i);
                let j = choose|j: int| 0 <= j < s.drop_last().len() && rest[i] == s.drop_last()[j];
                assert(s[j] == s.drop_last()[j]);
                assert(s[j].0 != s[s.len() - 1].0);
            }
            assert forall|i: int, j: int|
                0 <= i < j < kept_pairs(s, allow).len() implies (#[trigger] kept_pairs(s, allow)[i]).0
                != (#[trigger] kept_pairs(s, allow)[j]).0 by {
                if j < rest.len() {
                    assert(kept_pairs(s, allow)[i] == rest[i]);
                    assert(kept_pairs(s, allow)[j] == rest[j]);
                } else {
                    assert(kept_pairs(s, allow)[i] == rest[i]);
                    assert(kept_pairs(s, allow)[j] == s.last());
                }
            }
        }
    }
}

/// Replacing the binding of a name that is already present acts on the
/// lookup function as a pointwise override of that one name.
pub proof fn lemma_env_lookup_update(
    s: Seq<(Seq<char>, Seq<char>)>,
    j: int,
    pr: (Seq<char>, Seq<char>),
)
    requires
        0 <= j < s.len(),
        distinct_names(s),
        s[j].0 == pr.0,
    ensures
        forall|n: Seq<char>|
            env_lookup(s.update(j, pr), n) == if n == pr.0 {
                Some(pr.1)
            } else {
                env_lookup(s, n)
            },
    decreases s.len(),
{
    let t = s.update(j, pr);
    if j == s.len() - 1 {
        assert(t.last() == pr);
        assert(t.drop_last() =~= s.drop_last());
        assert forall|n: Seq<char>|
            env_lookup(t, n) == (if n == pr.0 {
                Some(pr.1)
            } else {
                env_lookup(s, n)
            }) by {
            if n != pr.0 {
                assert(env_lookup(t, n) == env_lookup(s.drop_last(), n));
                assert(env_lookup(s, n) == env_lookup(s.drop_last(), n));
            }
        }
    } else {
        assert(t.last() == s.last());
        assert(t.drop_last() =~= s.drop_last().update(j, pr));
        assert(distinct_names(s.drop_last())) by {
            assert(forall|i: int|
                0 <= i < s.drop_last().len() ==> #[trigger] s.drop_last()[i] == s[i]);
        }
        assert(s.drop_last()[j] == s[j]);
        lemma_env_lookup_update(s.drop_last(), j, pr);
        assert(s.last().0 != pr.0) by {
            assert(s[j].0 != s[s.len() - 1].0);
        }
        assert forall|n: Seq<char>|
            env_lookup(t, n) == (if n == pr.0 {
                Some(pr.1)
            } else {
                env_lookup(s, n)
            }) by {
            if n == s.last().0 {
                assert(env_lookup(t, n) == Some(s.last().1));
                assert(env_lookup(s, n) == Some(s.last().1));
            } else {
                assert(env_lookup(t, n) == env_lookup(s.drop_last().update(j, pr), n));
                assert(env_lookup(s.drop_last().update(j, pr), n) == (if n == pr.0 {
                    Some(pr.1)
                } else {
                    env_lookup(s.drop_last(), n)
                }));
                assert(env_lookup(s, n) == env_lookup(s.drop_last(), n));
            }
        }
    }
}

/// Decides membership of a name in a name list.
pub fn name_in_list(names: &Vec<String>, name: &String) -> (b: bool)
    ensures
        b == names_view(names@).contains(name@),
{
    let mut i: usize = 0;
    while i < names.len()
        invariant
            0 <= i <= names@.len(),
            forall|j: int| 0 <= j < i ==> names_view(names@)[j] != name@,
        decreases names@.len() - i,
    {
        if names[i] == *name {
            proof {
                assert(names_view(names@)[i as int] == name@);
            }
            return true;
        }
        i += 1;
    }
    false
}

/// Installs one binding: replaces the value if the name is present,
/// appends the pair otherwise.
pub fn env_set(env: &mut Vec<(String, String)>, name: &String, value: &String)
    requires
        distinct_names(pairs_view(old(env)@)),
    ensures
        distinct_names(pairs_view(final (env)@)),
        forall|n: Seq<char>|
            env_lookup(pairs_view(final (env)@), n) == if n == name@ {
                Some(value@)
            } else {
                env_lookup(pairs_view(old(env)@), n)
            },
{
    let ghost orig = pairs_view(old(env)@);
    let mut j: usize = 0;
    while j < env.len()
        invariant
            0 <= j <= env@.len(),
            pairs_view(env@) == orig,
            pairs_view(old(env)@) == orig,
            distinct_names(orig),
            forall|k: int| 0 <= k < j ==> orig[k].0 != name@,
        decreases env@.len() - j,
    {
        if env[j].0 == *name {
            proof {
                assert(orig[j as int].0 == name@);
            }
            env[j] = (name.clone(), value.clone());
            proof {
                let ghost pr = (name@, value@);
                assert(pairs_view(env@) =~= orig.update(j as int, pr));
                lemma_env_lookup_update(orig, j as int, pr);
                assert forall|n: Seq<char>|
                    env_lookup(pairs_view(env@), n) == (if n == name@ {
                        Some(value@)
                    } else {
                        env_lookup(orig, n)
                    }) by {
                    assert(env_lookup(orig.update(j as int, pr), n) == (if n == pr.0 {
                        Some(pr.1)
                    } else {
                        env_lookup(orig, n)
                    }));
                }
                assert(distinct_names(pairs_view(env@))) by {
                    assert(forall|k: int|
                        0 <= k < orig.len() ==> (#[trigger] pairs_view(env@)[k]).0 == orig[k].0);
                }
            }
            return ;
        }
        j += 1;
    }
    env.push((name.clone(), value.clone()));
    proof {
        assert(pairs_view(env@) =~= orig.push((name@, value@)));
        assert(pairs_view(env@).drop_last() =~= orig);
        assert forall|i: int, k: int|
            0 <= i < k < pairs_view(env@).len() implies (#[trigger] pairs_view(env@)[i]).0 != (
        #[trigger] pairs_view(env@)[k]).0 by {
            if k == orig.len() {
                assert(pairs_view(env@)[i].0 == orig[i].0);
            }
        }
    }
}

/// Layers `overrides` on top of `base`, later bindings winning; the result
/// binds a name to the override when one exists, and to the base value
/// otherwise.
pub fn env_overlay(base: Vec<(String, String)>, overrides: &Vec<(String, String)>) -> (out: Vec<
    (String, String),
>)
    requires
        distinct_names(pairs_view(base@)),
    ensures
        distinct_names(pairs_view(out@)),
        forall|n: Seq<char>|
            env_lookup(pairs_view(out@), n) == (match env_lookup(pairs_view(overrides@), n) {
                Some(v) => Some(v),
                None => env_lookup(pairs_view(base@), n),
            }),
{
    let mut out = base;
    let mut i: usize = 0;
    proof {
        assert(pairs_view(overrides@.take(0)) =~= Seq::<(Seq<char>, Seq<char>)>::empty());
    }
    while i < overrides.len()
        invariant
            0 <= i <= overrides@.len(),
            distinct_names(pairs_view(out@)),
            forall|n: Seq<char>|
                env_lookup(pairs_view(out@), n) == (match env_lookup(
                    pairs_view(overrides@.take(i as int)),
                    n,
                ) {
                    Some(v) => Some(v),
                    None => env_lookup(pairs_view(base@), n),
                }),
        decreases overrides@.len() - i,
    {
        proof {
            assert(pairs_view(overrides@.take(i as int + 1)).drop_last() =~= pairs_view(
                overrides@.take(i as int),
            ));
            assert(pairs_view(overrides@.take(i as int + 1)).last() == (
                overrides@[i as int].0@,
                overrides@[i as int].1@,
            ));
        }
        env_set(&mut out, &overrides[i].0, &overrides[i].1);
        i += 1;
    }
    proof {
        assert(overrides@.take(overrides@.len() as int) =~= overrides@);
    }
    out
}

/// Restrict access to environment variables, optionally replacing them with
/// a custom mapping.
///
/// With a custom mapping, the snapshot is discarded entirely and the result
/// binds exactly the names of the mapping, the last binding of a name
/// winning. Without one, the result keeps exactly the snapshot entries whose
/// names stand in `exceptions`, in their original order.
pub fn restrict_env_variables_with_custom(
    env: &Vec<(String, String)>,
    exceptions: &Vec<String>,
    custom_env: Option<&Vec<(String, String)>>,
) -> (out: Vec<(String, String)>)
    ensures
        match custom_env {
            Some(c) => distinct_names(pairs_view(out@)) && forall|n: Seq<char>|
                env_lookup(pairs_view(out@), n) == env_lookup(pairs_view(c@), n),
            None => pairs_view(out@) == kept_pairs(pairs_view(env@), names_view(exceptions@)),
        },
{
    match custom_env {
        Some(custom) => env_overlay(Vec::new(), custom),
        None => {
            let mut out: Vec<(String, String)> = Vec::new();
            let mut i: usize = 0;
            proof {
                assert(pairs_view(env@.take(0)) =~= Seq::<(Seq<char>, Seq<char>)>::empty());
            }
            while i < env.len()
                invariant
                    0 <= i <= env@.len(),
                    pairs_view(out@) == kept_pairs(
                        pairs_view(env@.take(i as int)),
                        names_view(exceptions@),
                    ),
                decreases env@.len() - i,
            {
                proof {
                    assert(pairs_view(env@.take(i as int + 1)).drop_last() =~= pairs_view(
                        env@.take(i as int),
                    ));
                    assert(pairs_view(env@.take(i as int + 1)).last() == (
                        env@[i as int].0@,
                        env@[i as int].1@,
                    ));
                }
                let ghost before = pairs_view(out@);
                if name_in_list(exceptions, &env[i].0) {
                    out.push((env[i].0.clone(), env[i].1.clone()));
                    proof {
                        assert(pairs_view(out@) =~= before.push((
                            env@[i as int].0@,
                            env@[i as int].1@,
                        )));
                    }
                }
                i += 1;
            }
            proof {
                assert(env@.take(env@.len() as int) =~= env@);
            }
            out
        },
    }
}

/// Restrict access to environment variables to the allow-listed names.
///
/// The result keeps exactly the snapshot entries whose names stand in
/// `exceptions`, in their original order.
pub fn restrict_env_variables(env: &Vec<(String, String)>, exceptions: &Vec<String>) -> (out: Vec<
    (String, String),
>)
    ensures
        pairs_view(out@) == kept_pairs(pairs_view(env@), names_view(exceptions@)),
{
    restrict_env_variables_with_custom(env, exceptions, None)
}

} // verus!
