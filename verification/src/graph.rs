//! The resolved dependency graph and its breadth-first traversal.
//!
//! The graph is supplied, already deduplicated and version-pinned, by an
//! external loader; packages are stored in a vector and edges are index
//! lists. Traversal visits every package reachable from the root exactly
//! once, regardless of how many distinct paths reach it, and yields the
//! order in which rules are emitted.

use vstd::prelude::*;
use vstd::seq_lib::group_seq_properties;
use vstd::set_lib::{lemma_int_range, lemma_len_subset, set_int_range};

verus! {

/// A named, versioned compilation unit with declared direct dependencies,
/// given as indices into the owning graph's package vector, in declared
/// order.
pub struct Package {
    /// Raw package name; hyphens allowed.
    pub name: String,
    /// Pinned version, as written in the resolved graph.
    pub version: String,
    /// Indices of the direct dependencies, in declared order.
    pub deps: Vec<usize>,
}

/// A directed dependency graph over packages with one designated root.
/// Acyclicity is guaranteed by the external resolver and not re-verified
/// here; traversal terminates on any graph because each package is visited
/// at most once.
pub struct DependencyGraph {
    /// All packages of the resolved graph.
    pub packages: Vec<Package>,
    /// Index of the designated root package.
    pub root: usize,
}

/// The root index and every dependency index lie inside the package vector.
pub open spec fn graph_wf(g: DependencyGraph) -> bool {
    &&& g.root < g.packages@.len()
    &&& forall|i: int, k: int|
        0 <= i < g.packages@.len() && 0 <= k < g.packages@[i].deps@.len()
            ==> #[trigger] g.packages@[i].deps@[k] < g.packages@.len()
}

/// Package `u` declares a direct dependency on package `v`.
pub open spec fn edge(g: DependencyGraph, u: int, v: int) -> bool {
    &&& 0 <= u < g.packages@.len()
    &&& exists|k: int|
        0 <= k < g.packages@[u].deps@.len() && g.packages@[u].deps@[k] == v
}

/// `p` is a chain of dependency edges leading from `from` to `to`.
pub open spec fn is_path(g: DependencyGraph, p: Seq<int>, from: int, to: int) -> bool {
    &&& p.len() > 0
    &&& p[0] == from
    &&& p[p.len() - 1] == to
    &&& forall|k: int| 0 <= k < p.len() - 1 ==> edge(g, #[trigger] p[k], p[k + 1])
}

/// Package `v` is reachable from the root along dependency edges.
pub open spec fn reachable(g: DependencyGraph, v: int) -> bool {
    exists|p: Seq<int>| is_path(g, p, g.root as int, v)
}

/// The root reaches itself by the empty chain.
pub proof fn lemma_root_reachable(g: DependencyGraph)
    requires
        graph_wf(g),
    ensures
        reachable(g, g.root as int),
{
    let p = seq![g.root as int];
    assert(is_path(g, p, g.root as int, g.root as int));
}

/// Reachability extends across a dependency edge.
pub proof fn lemma_reachable_step(g: DependencyGraph, u: int, v: int)
    requires
        reachable(g, u),
        edge(g, u, v),
    ensures
        reachable(g, v),
{
    let p = choose|p: Seq<int>| is_path(g, p, g.root as int, u);
    let q = p.push(v);
    assert(q[q.len() - 1] == v);
    assert forall|k: int| 0 <= k < q.len() - 1 implies edge(g, #[trigger] q[k], q[k + 1]) by {
        if k < p.len() - 1 {
            assert(edge(g, p[k], p[k + 1]));
        } else {
            assert(q[k] == u && q[k + 1] == v);
        }
    }
    assert(is_path(g, q, g.root as int, v));
}

/// Any set of packages that holds the root and is closed under dependency
/// edges holds every reachable package.
proof fn lemma_closed_contains_reachable(g: DependencyGraph, vis: Seq<usize>, p: Seq<int>, to: int)
    requires
        graph_wf(g),
        vis.contains(g.root),
        forall|u: int, v: int| vis.contains(u as usize) && #[trigger] edge(g, u, v)
            ==> vis.contains(v as usize),
        is_path(g, p, g.root as int, to),
    ensures
        vis.contains(to as usize),
    decreases p.len(),
{
    if p.len() == 1 {
        assert(to == g.root as int);
    } else {
        let q = p.drop_last();
        let mid = p[p.len() - 2];
        assert(edge(g, mid, to));
        assert(is_path(g, q, g.root as int, mid));
        lemma_closed_contains_reachable(g, vis, q, mid);
        assert(0 <= to < g.packages@.len());
    }
}

/// A duplicate-free sequence of indices below `n` has at most `n` entries.
proof fn lemma_distinct_bounded_len(s: Seq<usize>, n: nat)
    requires
        s.no_duplicates(),
        forall|j: int| 0 <= j < s.len() ==> s[j] < n,
    ensures
        s.len() <= n,
{
    broadcast use group_seq_properties;

    let f = |u: usize| u as int;
    let m = s.map_values(f);
    s.lemma_no_duplicates_injective(f);
    m.unique_seq_to_set();
    assert(m.to_set().subset_of(set_int_range(0, n as int))) by {
        assert forall|e: int| m.to_set().contains(e) implies set_int_range(0, n as int).contains(
            e,
        ) by {
            let j = choose|j: int| 0 <= j < m.len() && m[j] == e;
            assert(0 <= s[j] < n);
        }
    }
    lemma_int_range(0, n as int);
    lemma_len_subset(m.to_set(), set_int_range(0, n as int));
}

/// Breadth-first walk of the graph from its root. The result lists every
/// package reachable from the root exactly once, root first.
pub fn bfs_order(g: &DependencyGraph) -> (order: Vec<usize>)
    requires
        graph_wf(*g),
    ensures
        order@.len() >= 1,
        order@[0] == g.root,
        order@.no_duplicates(),
        forall|j: int| 0 <= j < order@.len() ==> order@[j] < g.packages@.len(),
        forall|v: usize| #[trigger] order@.contains(v) <==> reachable(*g, v as int),
{
    let n = g.packages.len();
    let ghost gg = *g;
    let mut visited: Vec<bool> = Vec::new();
    let mut i: usize = 0;
    while i < n
        invariant
            i <= n,
            visited@.len() == i,
            forall|j: int| 0 <= j < i ==> !visited@[j],
        decreases n - i,
    {
        visited.push(false);
        i = i + 1;
    }
    let mut queue: Vec<usize> = Vec::new();
    queue.push(g.root);
    visited.set(g.root, true);
    proof {
        lemma_root_reachable(gg);
        assert(queue@[0] == g.root);
        assert(queue@.contains(g.root));
    }
    let mut head: usize = 0;
    while head < queue.len()
        invariant
            graph_wf(gg),
            gg == *g,
            n == g.packages@.len(),
            visited@.len() == n,
            head <= queue@.len(),
            queue@.len() >= 1,
            queue@[0] == g.root,
            queue@.no_duplicates(),
            forall|j: int| 0 <= j < queue@.len() ==> queue@[j] < n,
            forall|j: int| 0 <= j < queue@.len() ==> visited@[queue@[j] as int],
            forall|v: int| 0 <= v < n && visited@[v] ==> queue@.contains(v as usize),
            forall|j: int| 0 <= j < queue@.len() ==> reachable(gg, queue@[j] as int),
            forall|j: int, v: int| 0 <= j < head && #[trigger] edge(gg, queue@[j] as int, v)
                ==> visited@[v],
        decreases n - head,
    {
        proof {
            lemma_distinct_bounded_len(queue@, n as nat);
        }
        let u = queue[head];
        let deps_len = g.packages[u].deps.len();
        let mut k: usize = 0;
        while k < deps_len
            invariant
                graph_wf(gg),
                gg == *g,
                n == g.packages@.len(),
                visited@.len() == n,
                head < queue@.len(),
                u == queue@[head as int],
                u < n,
                deps_len == g.packages@[u as int].deps@.len(),
                k <= deps_len,
                queue@[0] == g.root,
                queue@.no_duplicates(),
                forall|j: int| 0 <= j < queue@.len() ==> queue@[j] < n,
                forall|j: int| 0 <= j < queue@.len() ==> visited@[queue@[j] as int],
                forall|v: int| 0 <= v < n && visited@[v] ==> queue@.contains(v as usize),
                forall|j: int| 0 <= j < queue@.len() ==> reachable(gg, queue@[j] as int),
                forall|j: int, v: int| 0 <= j < head && #[trigger] edge(gg, queue@[j] as int, v)
                    ==> visited@[v],
                forall|kk: int| 0 <= kk < k
                    ==> visited@[#[trigger] g.packages@[u as int].deps@[kk] as int],
            decreases deps_len - k,
        {
            let d = g.packages[u].deps[k];
            if !visited[d] {
                proof {
                    assert(!queue@.contains(d));
                    assert(edge(gg, u as int, d as int));
                    lemma_reachable_step(gg, u as int, d as int);
                    assert forall|v: int| 0 <= v < n && visited@.update(d as int, true)[v]
                        implies queue@.push(d).contains(v as usize) by {
                        if v == d as int {
                            assert(queue@.push(d)[queue@.len() as int] == d);
                        } else {
                            let j = choose|j: int|
                                0 <= j < queue@.len() && queue@[j] == v as usize;
                            assert(queue@.push(d)[j] == v as usize);
                        }
                    }
                }
                visited.set(d, true);
                queue.push(d);
            }
            k = k + 1;
        }
        proof {
            assert forall|v: int| #[trigger] edge(gg, queue@[head as int] as int, v)
                implies visited@[v] by {
                let kk = choose|kk: int|
                    0 <= kk < gg.packages@[u as int].deps@.len()
                        && gg.packages@[u as int].deps@[kk] == v;
                assert(visited@[gg.packages@[u as int].deps@[kk] as int]);
            }
        }
        head = head + 1;
    }
    proof {
        assert forall|v: usize| #[trigger] queue@.contains(v) implies reachable(gg, v as int) by {
            let j = choose|j: int| 0 <= j < queue@.len() && queue@[j] == v;
        }
        assert forall|v: usize| reachable(gg, v as int) implies queue@.contains(v) by {
            let p = choose|p: Seq<int>| is_path(gg, p, gg.root as int, v as int);
            assert(queue@[0] == gg.root);
            assert(queue@.contains(gg.root));
            assert forall|a: int, b: int|
                queue@.contains(a as usize) && #[trigger] edge(gg, a, b)
                implies queue@.contains(b as usize) by {
                let j = choose|j: int| 0 <= j < queue@.len() && queue@[j] == a as usize;
                assert(visited@[b]);
            }
            lemma_closed_contains_reachable(gg, queue@, p, v as int);
        }
    }
    queue
}

} // verus!
