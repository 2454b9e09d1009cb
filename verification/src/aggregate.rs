use vstd::prelude::*;
use vstd::seq_lib::lemma_seq_contains_after_push;
use crate::hostname::{keep, normalize, valid_hostname, in_domain, normalize_candidate};
use crate::outcome::{SourceOutcome, OutcomeView};

verus! {

// The aggregator: the union of every successful source's candidates, each
// candidate normalized and filtered, the whole deduplicated.  The result is
// a function of the multiset of outcomes alone, so the order in which
// concurrent sources happen to finish cannot change it.

/// Outcome `o` contributes the normalized name `s` for the given host.
pub open spec fn contributes(o: OutcomeView, s: Seq<char>, host: Seq<char>) -> bool {
    match o {
        OutcomeView::Found(_, names) => exists|j: int|
            0 <= j < names.len() && keep(#[trigger] names[j], host) && normalize(names[j]) == s,
        OutcomeView::Failed(_) => false,
    }
}

/// The merged set: every name some outcome contributes.
pub open spec fn merged(os: Seq<OutcomeView>, host: Seq<char>) -> Set<Seq<char>> {
    Set::new(|s: Seq<char>| exists|i: int| 0 <= i < os.len() && contributes(#[trigger] os[i], s, host))
}

/// A sequence without duplicates stays without duplicates when a fresh
/// element is pushed.
proof fn lemma_push_keeps_distinct(s: Seq<Seq<char>>, x: Seq<char>)
    requires
        s.no_duplicates(),
        !s.contains(x),
    ensures
        s.push(x).no_duplicates(),
{
    let t = s.push(x);
    assert forall|i: int, j: int|
        0 <= i < t.len() && 0 <= j < t.len() && i != j implies t[i] != t[j] by {
        if i < s.len() && j < s.len() {
        } else if i < s.len() {
            assert(s.contains(s[i]));
        } else {
            assert(s.contains(s[j]));
        }
    }
}

/// Whether `v` holds a string whose characters are `s`.
pub fn contains_string(v: &Vec<String>, s: &String) -> (b: bool)
    ensures
        b == v.deep_view().contains(s@),
{
    let n = v.len();
    let mut i: usize = 0;
    while i < n
        invariant
            n == v@.len(),
            i <= n,
            forall|k: int| 0 <= k < i ==> v.deep_view()[k] != s@,
        decreases n - i,
    {
        proof {
            assert(v.deep_view()[i as int] == v@[i as int]@);
        }
        if v[i] == *s {
            proof {
                assert(v.deep_view()[i as int] == s@);
            }
            return true;
        }
        i = i + 1;
    }
    proof {
        if v.deep_view().contains(s@) {
            let k = choose|k: int| 0 <= k < v.deep_view().len() && v.deep_view()[k] == s@;
        }
    }
    false
}

/// Merges all successful outcomes into one deduplicated, normalized,
/// filtered vector of subdomains of `host`.
pub fn merge(outcomes: &Vec<SourceOutcome>, host: &str) -> (r: Vec<String>)
    ensures
        r.deep_view().no_duplicates(),
        r.deep_view().to_set() == merged(outcomes.deep_view(), host@),
{
    let ghost osv = outcomes.deep_view();
    let n = outcomes.len();
    let mut r: Vec<String> = Vec::new();
    let mut i: usize = 0;
    while i < n
        invariant
            n == outcomes@.len(),
            osv == outcomes.deep_view(),
            osv.len() == n,
            i <= n,
            r.deep_view().no_duplicates(),
            forall|t: Seq<char>| r.deep_view().contains(t) ==> merged(osv.take(i as int), host@).contains(t),
            forall|t: Seq<char>| merged(osv.take(i as int), host@).contains(t) ==> r.deep_view().contains(t),
        decreases n - i,
    {
        match &outcomes[i] {
            SourceOutcome::Found(_, names) => {
                let m = names.len();
                let ghost nv = names.deep_view();
                let mut j: usize = 0;
                proof {
                    assert(outcomes@[i as int].deep_view() == osv[i as int]);
                }
                while j < m
                    invariant
                        m == names@.len(),
                        nv == names.deep_view(),
                        nv.len() == m,
                        j <= m,
                        osv == outcomes.deep_view(),
                        osv.len() == n,
                        i < n,
                        osv[i as int] matches OutcomeView::Found(_, ns) && ns == nv,
                        r.deep_view().no_duplicates(),
                        forall|t: Seq<char>|
                            r.deep_view().contains(t) ==> merged(osv.take(i as int), host@).contains(t)
                                || (exists|k: int| 0 <= k < j && keep(#[trigger] nv[k], host@)
                                    && normalize(nv[k]) == t),
                        forall|t: Seq<char>|
                            merged(osv.take(i as int), host@).contains(t) ==> r.deep_view().contains(t),
                        forall|k: int| 0 <= k < j && keep(#[trigger] nv[k], host@)
                            ==> r.deep_view().contains(normalize(nv[k])),
                    decreases m - j,
                {
                    proof {
                        assert(names.deep_view()[j as int] == names@[j as int]@);
                    }
                    let ghost j0 = j as int;
                    let ghost rold = r.deep_view();
                    match normalize_candidate(names[j].as_str(), host) {
                        Some(t) => {
                            let ghost x = t@;
                            proof {
                                assert(keep(nv[j0], host@));
                                assert(x == normalize(nv[j0]));
                            }
                            if !contains_string(&r, &t) {
                                r.push(t);
                                proof {
                                    assert(r.deep_view() =~= rold.push(x));
                                    lemma_push_keeps_distinct(rold, x);
                                    assert forall|u: Seq<char>| r.deep_view().contains(u)
                                        implies rold.contains(u) || u == x by {
                                        lemma_seq_contains_after_push(rold, x, u);
                                    }
                                    assert forall|u: Seq<char>| rold.contains(u)
                                        implies r.deep_view().contains(u) by {
                                        lemma_seq_contains_after_push(rold, x, u);
                                    }
                                    assert(r.deep_view().contains(x)) by {
                                        lemma_seq_contains_after_push(rold, x, x);
                                    }
                                }
                            } else {
                                proof {
                                    assert(r.deep_view().contains(x));
                                }
                            }
                        },
                        None => {
                            proof {
                                assert(!keep(nv[j0], host@));
                            }
                        },
                    }
                    j = j + 1;
                    proof {
                        assert forall|t2: Seq<char>| r.deep_view().contains(t2) implies
                            merged(osv.take(i as int), host@).contains(t2)
                                || (exists|k: int| 0 <= k < j && keep(#[trigger] nv[k], host@)
                                    && normalize(nv[k]) == t2) by {
                            if rold.contains(t2) {
                                if !merged(osv.take(i as int), host@).contains(t2) {
                                    let k = choose|k: int| 0 <= k < j0 && keep(#[trigger] nv[k], host@)
                                        && normalize(nv[k]) == t2;
                                    assert(0 <= k < j && keep(nv[k], host@) && normalize(nv[k]) == t2);
                                }
                            } else {
                                assert(keep(nv[j0], host@) && normalize(nv[j0]) == t2);
                                assert(0 <= j0 < j);
                            }
                        }
                        assert forall|t2: Seq<char>| merged(osv.take(i as int), host@).contains(t2)
                            implies r.deep_view().contains(t2) by {
                            assert(rold.contains(t2));
                        }
                        assert forall|k: int| 0 <= k < j && keep(#[trigger] nv[k], host@)
                            implies r.deep_view().contains(normalize(nv[k])) by {
                            if k < j0 {
                                assert(rold.contains(normalize(nv[k])));
                            }
                        }
                    }
                }
                proof {
                    assert(osv.take(i as int + 1) =~= osv.take(i as int).push(osv[i as int]));
                    let w = osv.take(i as int + 1);
                    assert forall|t: Seq<char>| merged(w, host@).contains(t)
                        implies r.deep_view().contains(t) by {
                        let idx = choose|idx: int| 0 <= idx < w.len() && contributes(#[trigger] w[idx], t, host@);
                        if idx < i as int {
                            assert(w[idx] == osv.take(i as int)[idx]);
                            assert(contributes(osv.take(i as int)[idx], t, host@));
                            assert(merged(osv.take(i as int), host@).contains(t));
                        } else {
                            assert(w[idx] == osv[i as int]);
                            assert(contributes(osv[i as int], t, host@));
                            let k = choose|k: int| 0 <= k < nv.len() && keep(#[trigger] nv[k], host@)
                                && normalize(nv[k]) == t;
                            assert(r.deep_view().contains(normalize(nv[k])));
                        }
                    }
                    assert forall|t: Seq<char>| r.deep_view().contains(t)
                        implies merged(w, host@).contains(t) by {
                        if merged(osv.take(i as int), host@).contains(t) {
                            let idx = choose|idx: int| 0 <= idx < osv.take(i as int).len()
                                && contributes(#[trigger] osv.take(i as int)[idx], t, host@);
                            assert(w[idx] == osv.take(i as int)[idx]);
                            assert(contributes(w[idx], t, host@));
                        } else {
                            let k = choose|k: int| 0 <= k < nv.len() && keep(#[trigger] nv[k], host@)
                                && normalize(nv[k]) == t;
                            assert(contributes(w[i as int], t, host@));
                        }
                    }
                }
            },
            SourceOutcome::Failed(_) => {
                proof {
                    assert(outcomes@[i as int].deep_view() == osv[i as int]);
                    assert(osv[i as int] is Failed);
                    assert(osv.take(i as int + 1) =~= osv.take(i as int).push(osv[i as int]));
                    let w = osv.take(i as int + 1);
                    assert forall|t: Seq<char>| merged(w, host@).contains(t)
                        implies r.deep_view().contains(t) by {
                        let idx = choose|idx: int| 0 <= idx < w.len() && contributes(#[trigger] w[idx], t, host@);
                        assert(idx < i as int);
                        assert(w[idx] == osv.take(i as int)[idx]);
                        assert(contributes(osv.take(i as int)[idx], t, host@));
                        assert(merged(osv.take(i as int), host@).contains(t));
                    }
                    assert forall|t: Seq<char>| r.deep_view().contains(t)
                        implies merged(w, host@).contains(t) by {
                        let idx = choose|idx: int| 0 <= idx < osv.take(i as int).len()
                            && contributes(#[trigger] osv.take(i as int)[idx], t, host@);
                        assert(w[idx] == osv.take(i as int)[idx]);
                        assert(contributes(w[idx], t, host@));
                    }
                }
            },
        }
        i = i + 1;
    }
    proof {
        assert(osv.take(n as int) =~= osv);
        assert(r.deep_view().to_set() =~= merged(osv, host@));
    }
    r
}

/// Removes duplicates, keeping the set of names and the first occurrence
/// order.
pub fn dedup_names(names: &Vec<String>) -> (r: Vec<String>)
    ensures
        r.deep_view().no_duplicates(),
        r.deep_view().to_set() == names.deep_view().to_set(),
{
    let ghost dv = names.deep_view();
    let n = names.len();
    let mut r: Vec<String> = Vec::new();
    let mut i: usize = 0;
    while i < n
        invariant
            n == names@.len(),
            dv == names.deep_view(),
            dv.len() == n,
            i <= n,
            r.deep_view().no_duplicates(),
            forall|t: Seq<char>| r.deep_view().contains(t) == dv.take(i as int).contains(t),
        decreases n - i,
    {
        proof {
            assert(names.deep_view()[i as int] == names@[i as int]@);
        }
        let s = names[i].clone();
        let ghost x = dv[i as int];
        proof {
            assert(s@ == x);
        }
        let ghost rold = r.deep_view();
        let dup = contains_string(&r, &s);
        if !dup {
            r.push(s);
            proof {
                assert(r.deep_view() =~= rold.push(x));
                lemma_push_keeps_distinct(rold, x);
            }
        }
        proof {
            assert(dv.take(i as int + 1) =~= dv.take(i as int).push(x));
            assert forall|t: Seq<char>| r.deep_view().contains(t)
                == dv.take(i as int + 1).contains(t) by {
                lemma_seq_contains_after_push(dv.take(i as int), x, t);
                if !dup {
                    lemma_seq_contains_after_push(rold, x, t);
                }
            }
        }
        i = i + 1;
    }
    proof {
        assert(dv.take(n as int) =~= dv);
        assert(r.deep_view().to_set() =~= dv.to_set());
    }
    r
}

/// Every merged name is a plausible hostname and is the target host or a
/// strict subdomain of it.
pub proof fn lemma_merged_members(os: Seq<OutcomeView>, host: Seq<char>, s: Seq<char>)
    requires
        merged(os, host).contains(s),
    ensures
        valid_hostname(s),
        in_domain(s, host),
{
    let i = choose|i: int| 0 <= i < os.len() && contributes(#[trigger] os[i], s, host);
    match os[i] {
        OutcomeView::Found(_, names) => {
            let j = choose|j: int| 0 <= j < names.len() && keep(#[trigger] names[j], host)
                && normalize(names[j]) == s;
            assert(valid_hostname(normalize(names[j])));
        },
        OutcomeView::Failed(_) => {},
    }
}

/// Merging is order-independent: two outcome sequences with the same
/// multiset of outcomes — two arrival orders of the same completions —
/// merge to the same set.
pub proof fn lemma_merge_order_independent(a: Seq<OutcomeView>, b: Seq<OutcomeView>, host: Seq<char>)
    requires
        a.to_multiset() == b.to_multiset(),
    ensures
        merged(a, host) == merged(b, host),
{
    broadcast use vstd::seq_lib::group_to_multiset_ensures;

    assert forall|s: Seq<char>| merged(a, host).contains(s) implies merged(b, host).contains(s) by {
        let i = choose|i: int| 0 <= i < a.len() && contributes(#[trigger] a[i], s, host);
        assert(a.contains(a[i]));
        assert(a.to_multiset().count(a[i]) > 0);
        assert(b.contains(a[i]));
        let k = choose|k: int| 0 <= k < b.len() && b[k] == a[i];
        assert(contributes(b[k], s, host));
    }
    assert forall|s: Seq<char>| merged(b, host).contains(s) implies merged(a, host).contains(s) by {
        let i = choose|i: int| 0 <= i < b.len() && contributes(#[trigger] b[i], s, host);
        assert(b.contains(b[i]));
        assert(b.to_multiset().count(b[i]) > 0);
        assert(a.contains(b[i]));
        let k = choose|k: int| 0 <= k < a.len() && a[k] == b[i];
        assert(contributes(a[k], s, host));
    }
    assert(merged(a, host) =~= merged(b, host));
}

/// Two runs over the same host whose sources completed with the same
/// outcomes — in whatever arrival order — report identical subdomain sets.
pub proof fn lemma_run_deterministic(
    r1: Seq<Seq<char>>,
    r2: Seq<Seq<char>>,
    a: Seq<OutcomeView>,
    b: Seq<OutcomeView>,
    host: Seq<char>,
)
    requires
        a.to_multiset() == b.to_multiset(),
        r1.to_set() == merged(a, host),
        r2.to_set() == merged(b, host),
    ensures
        r1.to_set() == r2.to_set(),
{
    lemma_merge_order_independent(a, b, host);
}

} // verus!

