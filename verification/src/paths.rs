//! Shortest ways through a graph whose nodes are numbered from 0 and whose
//! edges go both ways.

use vstd::prelude::*;

verus! {

/// Whether `to` is within `k` steps of `from`: it is `from` itself, or it is
/// within fewer steps, or an edge leads to it from a node that is.
pub open spec fn near(edges: Seq<(usize, usize)>, from: int, to: int, k: nat) -> bool
    decreases k,
{
    if k == 0 {
        from == to
    } else {
        near(edges, from, to, (k - 1) as nat) || exists|j: int|
            0 <= j < edges.len() && {
                ||| ((#[trigger] edges[j]).1 == to && near(
                    edges,
                    from,
                    edges[j].0 as int,
                    (k - 1) as nat,
                ))
                ||| (edges[j].0 == to && near(edges, from, edges[j].1 as int, (k - 1) as nat))
            }
    }
}

/// Whether edge `j` leads to `to` from a node that is within `k` steps of
/// `from`.
pub open spec fn leads(edges: Seq<(usize, usize)>, from: int, to: int, k: nat, j: int) -> bool {
    &&& 0 <= j < edges.len()
    &&& {
        ||| (edges[j].1 == to && near(edges, from, edges[j].0 as int, k))
        ||| (edges[j].0 == to && near(edges, from, edges[j].1 as int, k))
    }
}

/// The least number of steps, `k` at most, that lead from `from` to `to`.
pub open spec fn hops_within(edges: Seq<(usize, usize)>, from: int, to: int, k: nat) -> Option<
    usize,
>
    decreases k,
{
    if k == 0 {
        if from == to {
            Some(0usize)
        } else {
            None
        }
    } else {
        match hops_within(edges, from, to, (k - 1) as nat) {
            Some(fewer) => Some(fewer),
            None => if near(edges, from, to, k) {
                Some(k as usize)
            } else {
                None
            },
        }
    }
}

/// The least number of steps that lead from `from` to `to`, if any way
/// does: no shortest way takes more steps than there are edges.
pub open spec fn hops(edges: Seq<(usize, usize)>, from: int, to: int) -> Option<usize> {
    hops_within(edges, from, to, edges.len())
}

/// Whether every edge joins two of the nodes below `n`.
pub open spec fn edges_within(edges: Seq<(usize, usize)>, n: int) -> bool {
    forall|j: int| 0 <= j < edges.len() ==> (#[trigger] edges[j]).0 < n && edges[j].1 < n
}

/// What is within `k + 1` steps is within `k` steps or one edge further.
pub proof fn lemma_near_one_further(edges: Seq<(usize, usize)>, from: int, to: int, k: nat)
    ensures
        near(edges, from, to, k + 1) == (near(edges, from, to, k) || exists|j: int|
            0 <= j < edges.len() && #[trigger] leads(edges, from, to, k, j)),
{
    assert(((k + 1) - 1) as nat == k);
    if near(edges, from, to, k + 1) && !near(edges, from, to, k) {
        let j = choose|j: int|
            0 <= j < edges.len() && {
                ||| ((#[trigger] edges[j]).1 == to && near(edges, from, edges[j].0 as int, k))
                ||| (edges[j].0 == to && near(edges, from, edges[j].1 as int, k))
            };
        assert(leads(edges, from, to, k, j));
    }
    if exists|j: int| 0 <= j < edges.len() && #[trigger] leads(edges, from, to, k, j) {
        let j = choose|j: int| 0 <= j < edges.len() && #[trigger] leads(edges, from, to, k, j);
        assert(edges[j].1 == to || edges[j].0 == to);
    }
}

/// One more round: marks every node that an edge reaches from a marked node.
fn spread(n: usize, edges: &Vec<(usize, usize)>, marked: &Vec<bool>, Ghost(from): Ghost<int>, Ghost(
    k,
): Ghost<nat>) -> (next: Vec<bool>)
    requires
        marked.len() == n,
        edges_within(edges@, n as int),
        forall|t: int| 0 <= t < n ==> marked[t] == near(edges@, from, t, k),
    ensures
        next.len() == n,
        forall|t: int| 0 <= t < n ==> next[t] == near(edges@, from, t, k + 1),
{
    let mut next: Vec<bool> = Vec::new();
    let mut t: usize = 0;
    while t < n
        invariant
            t <= n == marked.len(),
            next.len() == t,
            forall|i: int| 0 <= i < t ==> next[i] == marked[i],
        decreases n - t,
    {
        next.push(marked[t]);
        t = t + 1;
    }
    let mut j: usize = 0;
    while j < edges.len()
        invariant
            j <= edges.len(),
            next.len() == n == marked.len(),
            edges_within(edges@, n as int),
            forall|t: int| 0 <= t < n ==> marked[t] == near(edges@, from, t, k),
            forall|t: int|
                0 <= t < n ==> (#[trigger] next[t] <==> (marked[t] || exists|i: int|
                    0 <= i < j && #[trigger] leads(edges@, from, t, k, i))),
        decreases edges.len() - j,
    {
        let (a, b) = edges[j];
        let ghost before = next@;
        if marked[a] {
            next.set(b, true);
        }
        if marked[b] {
            next.set(a, true);
        }
        assert forall|t: int| 0 <= t < n implies (#[trigger] next[t] <==> (marked[t] || exists|
            i: int,
        |
            0 <= i < j + 1 && #[trigger] leads(edges@, from, t, k, i))) by {
            assert(before[t] <==> (marked[t] || exists|i: int|
                0 <= i < j && #[trigger] leads(edges@, from, t, k, i)));
            if next[t] && !before[t] {
                assert(leads(edges@, from, t, k, j as int));
            }
            if before[t] {
                assert(next[t]);
            }
            if leads(edges@, from, t, k, j as int) {
                assert(next[t]);
            }
            if exists|i: int| 0 <= i < j + 1 && #[trigger] leads(edges@, from, t, k, i) {
                let i = choose|i: int| 0 <= i < j + 1 && #[trigger] leads(edges@, from, t, k, i);
                if i < j {
                    assert(before[t]);
                }
            }
        }
        j = j + 1;
    }
    assert forall|t: int| 0 <= t < n implies next[t] == near(edges@, from, t, k + 1) by {
        assert(next[t] <==> (marked[t] || exists|i: int|
            0 <= i < j && #[trigger] leads(edges@, from, t, k, i)));
        lemma_near_one_further(edges@, from, t, k);
    }
    next
}

/// The least number of steps from `from` to each node, `None` for a node
/// that no way leads to.
pub fn distances(n: usize, edges: &Vec<(usize, usize)>, from: usize) -> (dist: Vec<Option<usize>>)
    requires
        from < n,
        edges_within(edges@, n as int),
    ensures
        dist.len() == n,
        forall|t: int| 0 <= t < n ==> dist[t] == hops(edges@, from as int, t),
{
    let mut marked: Vec<bool> = Vec::new();
    let mut dist: Vec<Option<usize>> = Vec::new();
    let mut t: usize = 0;
    while t < n
        invariant
            t <= n,
            marked.len() == t,
            dist.len() == t,
            forall|i: int| 0 <= i < t ==> marked[i] == near(edges@, from as int, i, 0),
            forall|i: int| 0 <= i < t ==> dist[i] == hops_within(edges@, from as int, i, 0),
        decreases n - t,
    {
        marked.push(t == from);
        dist.push(
            if t == from {
                Some(0)
            } else {
                None
            },
        );
        t = t + 1;
    }
    let mut k: usize = 0;
    while k < edges.len()
        invariant
            k <= edges.len(),
            from < n,
            marked.len() == n,
            dist.len() == n,
            edges_within(edges@, n as int),
            forall|i: int| 0 <= i < n ==> marked[i] == near(edges@, from as int, i, k as nat),
            forall|i: int| 0 <= i < n ==> dist[i] == hops_within(edges@, from as int, i, k as nat),
        decreases edges.len() - k,
    {
        let next = spread(n, edges, &marked, Ghost(from as int), Ghost(k as nat));
        let mut t: usize = 0;
        while t < n
            invariant
                t <= n,
                k < edges.len(),
                next.len() == n,
                dist.len() == n,
                forall|i: int| 0 <= i < n ==> next[i] == near(edges@, from as int, i, (k + 1) as nat),
                forall|i: int|
                    t <= i < n ==> dist[i] == hops_within(edges@, from as int, i, k as nat),
                forall|i: int|
                    0 <= i < t ==> dist[i] == hops_within(edges@, from as int, i, (k + 1) as nat),
            decreases n - t,
        {
            if next[t] && dist[t].is_none() {
                dist.set(t, Some(k + 1));
            }
            t = t + 1;
        }
        marked = next;
        k = k + 1;
    }
    dist
}

} // verus!
