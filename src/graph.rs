use vstd::prelude::*;
use vstd::set_lib::{lemma_len_subset, range_set_properties};

verus! {

/// Every "runs after" entry names one of the `deps.len()` systems.
pub open spec fn deps_in_range(deps: Seq<Seq<usize>>) -> bool {
    forall|i: int, k: int|
        0 <= i < deps.len() && 0 <= k < deps[i].len() ==> #[trigger] deps[i][k] < deps.len()
}

/// A dependency cycle: a nonempty set of systems each of which must run after
/// some other member of the set. A finite graph has such a set exactly when
/// following "runs after" edges can lead back to where it started.
pub open spec fn is_cycle(deps: Seq<Seq<usize>>, s: Set<usize>) -> bool {
    &&& exists|x: usize| s.contains(x)
    &&& forall|x: usize| #[trigger] s.contains(x) ==> (x as int) < deps.len()
    &&& forall|x: usize| #[trigger] s.contains(x) ==> exists|k: int|
        0 <= k < deps[x as int].len() && s.contains(#[trigger] deps[x as int][k])
}

pub open spec fn has_cycle(deps: Seq<Seq<usize>>) -> bool {
    exists|s: Set<usize>| is_cycle(deps, s)
}

/// `order` runs each system exactly once, and never runs a system before (or
/// together with) one that it must run after.
pub open spec fn is_topological_order(deps: Seq<Seq<usize>>, order: Seq<usize>) -> bool {
    &&& order.no_duplicates()
    &&& forall|a: int| 0 <= a < order.len() ==> (#[trigger] order[a] as int) < deps.len()
    &&& forall|x: usize| (x as int) < deps.len() ==> #[trigger] order.contains(x)
    &&& forall|a: int, b: int|
        0 <= a <= b < order.len() ==> !(#[trigger] deps[order[a] as int]).contains(#[trigger] order[b])
}

/// A sequence of distinct ids below `n` has at most `n` elements.
proof fn lemma_distinct_below(s: Seq<usize>, n: usize)
    requires
        s.no_duplicates(),
        forall|a: int| 0 <= a < s.len() ==> #[trigger] s[a] < n,
    ensures
        s.len() <= n,
{
    s.unique_seq_to_set();
    range_set_properties::<usize>(0, n);
    assert forall|x: usize| s.to_set().contains(x) implies Set::<usize>::range(0, n).contains(x) by {
        let a = choose|a: int| 0 <= a < s.len() && s[a] == x;
    }
    lemma_len_subset(s.to_set(), Set::<usize>::range(0, n));
}

/// Members of a cycle cannot appear at positions `0..p` of a topological
/// order.
proof fn lemma_cycle_absent_prefix(deps: Seq<Seq<usize>>, order: Seq<usize>, s: Set<usize>, p: int)
    requires
        is_topological_order(deps, order),
        is_cycle(deps, s),
        0 <= p <= order.len(),
    ensures
        forall|a: int| 0 <= a < p ==> !s.contains(#[trigger] order[a]),
    decreases p,
{
    if p > 0 {
        lemma_cycle_absent_prefix(deps, order, s, p - 1);
        let x = order[p - 1];
        if s.contains(x) {
            let k = choose|k: int| 0 <= k < deps[x as int].len() && s.contains(#[trigger] deps[x as int][k]);
            let d = deps[x as int][k];
            assert(order.contains(d));
            let b = choose|b: int| 0 <= b < order.len() && order[b] == d;
            if b >= p - 1 {
                assert(deps[order[p - 1] as int].contains(order[b]));
            }
        }
    }
}

/// A graph with a topological order has no cycle.
pub proof fn lemma_order_excludes_cycle(deps: Seq<Seq<usize>>, order: Seq<usize>)
    requires
        is_topological_order(deps, order),
    ensures
        !has_cycle(deps),
{
    if has_cycle(deps) {
        let s = choose|s: Set<usize>| is_cycle(deps, s);
        lemma_cycle_absent_prefix(deps, order, s, order.len() as int);
        let x = choose|x: usize| s.contains(x);
        assert(order.contains(x));
    }
}

/// The "runs after" lists as sequences.
pub open spec fn deps_view(deps: Seq<Vec<usize>>) -> Seq<Seq<usize>> {
    deps.map_values(|v: Vec<usize>| v@)
}

/// All systems that `x` must run after have been placed.
pub open spec fn is_ready(deps: Seq<Seq<usize>>, done: Seq<bool>, x: int) -> bool {
    forall|k: int| 0 <= k < deps[x].len() ==> done[#[trigger] deps[x][k] as int]
}

/// Orders the systems so that each runs after every system it names, or finds
/// that no such order exists because the dependencies form a cycle.
pub fn topological_order(deps: &Vec<Vec<usize>>) -> (r: Option<Vec<usize>>)
    requires
        deps_in_range(deps_view(deps@)),
    ensures
        r is Some <==> !has_cycle(deps_view(deps@)),
        r is Some ==> is_topological_order(deps_view(deps@), r->Some_0@),
{
    let ghost g = deps_view(deps@);
    let n = deps.len();
    let mut done: Vec<bool> = Vec::new();
    let mut i: usize = 0;
    while i < n
        invariant
            i <= n,
            done@.len() == i,
            forall|j: int| 0 <= j < i ==> !done@[j],
        decreases n - i,
    {
        done.push(false);
        i = i + 1;
    }
    let mut order: Vec<usize> = Vec::new();
    loop
        invariant
            n == deps@.len(),
            g == deps_view(deps@),
            g.len() == n,
            deps_in_range(g),
            done@.len() == n,
            order@.len() <= n,
            order@.no_duplicates(),
            forall|a: int| 0 <= a < order@.len() ==> (#[trigger] order@[a] as int) < n,
            forall|x: usize| x < n ==> (done@[x as int] <==> #[trigger] order@.contains(x)),
            forall|a: int, k: int|
                0 <= a < order@.len() && 0 <= k < g[order@[a] as int].len()
                    ==> #[trigger] order@.subrange(0, a).contains(#[trigger] g[order@[a] as int][k]),
        decreases n - order@.len(),
    {
        let mut found: Option<usize> = None;
        let mut pending: bool = false;
        let mut x: usize = 0;
        #[verifier::loop_isolation(false)]
        while x < n && found.is_none()
            invariant
                n == deps@.len(),
                g == deps_view(deps@),
                g.len() == n,
                done@.len() == n,
                x <= n,
                pending ==> exists|j: int| 0 <= j < n && !done@[j],
                found is None ==> forall|j: int| 0 <= j < x ==> done@[j] || !is_ready(g, done@, j),
                found is None ==> (!pending <==> forall|j: int| 0 <= j < x ==> done@[j]),
                found is Some ==> {
                    let f = found->Some_0 as int;
                    0 <= f < n && !done@[f] && is_ready(g, done@, f)
                },
            decreases n - x + (if found is None { 1int } else { 0int }),
        {
            if !done[x] {
                pending = true;
                let row = &deps[x];
                assert(row@ == g[x as int]);
                let mut k: usize = 0;
                let mut ready: bool = true;
                #[verifier::loop_isolation(false)]
                while k < row.len()
                    invariant
                        row@ == g[x as int],
                        deps_in_range(g),
                        g.len() == n,
                        (x as int) < n,
                        done@.len() == n,
                        k <= row@.len(),
                        ready <==> forall|m: int| 0 <= m < k ==> done@[#[trigger] g[x as int][m] as int],
                    decreases row@.len() - k,
                {
                    if !done[row[k]] {
                        ready = false;
                    }
                    k = k + 1;
                }
                if ready {
                    found = Some(x);
                }
            }
            x = x + 1;
        }
        match found {
            Some(f) => {
                proof {
                    assert(!order@.contains(f));
                    assert forall|a: int, k: int|
                        0 <= a < order@.push(f).len() && 0 <= k < g[order@.push(f)[a] as int].len()
                        implies #[trigger] order@.push(f).subrange(0, a).contains(
                            #[trigger] g[order@.push(f)[a] as int][k],
                        ) by {
                        if a == order@.len() {
                            assert(done@[g[f as int][k] as int]);
                            assert(order@.push(f).subrange(0, a) =~= order@);
                        } else {
                            assert(order@.push(f).subrange(0, a) =~= order@.subrange(0, a));
                        }
                    }
                }
                let ghost prev = order@;
                order.push(f);
                done.set(f, true);
                proof {
                    assert forall|y: usize| y < n implies (done@[y as int] <==> #[trigger] order@.contains(y)) by {
                        if y != f {
                            if order@.contains(y) {
                                let c = choose|c: int| 0 <= c < order@.len() && order@[c] == y;
                                assert(prev[c] == y);
                            }
                            if prev.contains(y) {
                                let c = choose|c: int| 0 <= c < prev.len() && prev[c] == y;
                                assert(order@[c] == y);
                            }
                        } else {
                            assert(order@[prev.len() as int] == f);
                        }
                    }
                    lemma_distinct_below(order@, n);
                }
            },
            None => {
                if !pending {
                    proof {
                        assert forall|a: int, b: int|
                            0 <= a <= b < order@.len() implies !(#[trigger] g[order@[a] as int]).contains(
                                #[trigger] order@[b],
                            ) by {
                            if g[order@[a] as int].contains(order@[b]) {
                                let k = choose|k: int|
                                    0 <= k < g[order@[a] as int].len() && g[order@[a] as int][k] == order@[b];
                                assert(order@.subrange(0, a).contains(g[order@[a] as int][k]));
                                let c = choose|c: int| 0 <= c < a && order@.subrange(0, a)[c] == order@[b];
                                assert(order@[c] == order@[b]);
                            }
                        }
                        assert forall|y: usize| (y as int) < g.len() implies #[trigger] order@.contains(y) by {
                            assert(done@[y as int]);
                        }
                        lemma_order_excludes_cycle(g, order@);
                    }
                    return Some(order);
                }
                proof {
                    let s = Set::new(|y: usize| (y as int) < n && !done@[y as int]);
                    let w = choose|j: int| 0 <= j < n && !done@[j];
                    assert(s.contains(w as usize));
                    assert forall|y: usize| #[trigger] s.contains(y) implies exists|k: int|
                        0 <= k < g[y as int].len() && s.contains(#[trigger] g[y as int][k]) by {
                        assert(!is_ready(g, done@, y as int));
                        let k = choose|k: int| 0 <= k < g[y as int].len() && !done@[#[trigger] g[y as int][k] as int];
                        assert(s.contains(g[y as int][k]));
                    }
                    assert(is_cycle(g, s));
                }
                return None;
            },
        }
    }
}

} // verus!
