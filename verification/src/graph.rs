//! The program graph and its scheduler.
//!
//! A program is a directed graph of nodes; an edge says that its source
//! produces input for its target.  Scheduling orders the nodes so that every
//! node comes after all of its direct inputs; a graph with a cycle cannot be
//! scheduled and is reported as such, never silently resolved.

use vstd::prelude::*;
use vstd::seq_lib::*;
use vstd::set_lib::lemma_int_range;
use vstd::set_lib::lemma_len_subset;

use crate::nodes::Node;
use crate::runtime::RuntimeError;

verus! {

/// A directed graph of program nodes.  An edge `(a, b)` means node `a`
/// produces input for node `b`; both name nodes by their position.
pub struct ProgGraph {
    pub nodes: Vec<Node>,
    pub edges: Vec<(usize, usize)>,
}

impl ProgGraph {
    /// Every edge endpoint names a node.
    pub open spec fn wf(self) -> bool {
        forall|e: int| #![trigger self.edges@[e]] 0 <= e < self.edges@.len() ==> self.edges@[e].0
            < self.nodes@.len() && self.edges@[e].1 < self.nodes@.len()
    }

    /// An empty graph.
    pub fn new() -> (r: ProgGraph)
        ensures
            r.nodes@.len() == 0,
            r.edges@.len() == 0,
            r.wf(),
    {
        ProgGraph { nodes: Vec::new(), edges: Vec::new() }
    }

    /// Adds a node and names it by its position.
    pub fn add_node(&mut self, node: Node) -> (idx: usize)
        requires
            old(self).wf(),
        ensures
            final(self).wf(),
            idx == old(self).nodes@.len(),
            final(self).nodes@ == old(self).nodes@.push(node),
            final(self).edges@ == old(self).edges@,
    {
        let idx = self.nodes.len();
        self.nodes.push(node);
        idx
    }

    /// Adds the edge `a` produces input for `b`.
    pub fn add_edge(&mut self, a: usize, b: usize)
        requires
            old(self).wf(),
            a < old(self).nodes@.len(),
            b < old(self).nodes@.len(),
        ensures
            final(self).wf(),
            final(self).nodes@ == old(self).nodes@,
            final(self).edges@ == old(self).edges@.push((a, b)),
    {
        self.edges.push((a, b));
    }
}

/// The output types of the direct inputs of node `v`, drawn from the first
/// `upto` edges in order.
pub open spec fn spec_input_types_upto(g: ProgGraph, v: int, upto: int) -> Seq<
    crate::nodes::OutputType,
>
    decreases upto,
{
    if upto <= 0 {
        Seq::empty()
    } else {
        let init = spec_input_types_upto(g, v, upto - 1);
        if g.edges@[upto - 1].1 as int == v {
            init.push(g.nodes@[g.edges@[upto - 1].0 as int].spec_output_type())
        } else {
            init
        }
    }
}

/// The output types of the direct inputs of node `v`, in edge order.
pub open spec fn spec_input_types(g: ProgGraph, v: int) -> Seq<crate::nodes::OutputType> {
    spec_input_types_upto(g, v, g.edges@.len() as int)
}

/// There is an edge from node `a` to node `b`.
pub open spec fn spec_edge(g: ProgGraph, a: int, b: int) -> bool {
    exists|e: int|
        0 <= e < g.edges@.len() && (#[trigger] g.edges@[e]).0 as int == a && g.edges@[e].1 as int
            == b
}

/// `order` schedules every node exactly once, and every node comes after
/// all of its direct inputs.
pub open spec fn is_topo_order(g: ProgGraph, order: Seq<usize>) -> bool {
    &&& order.len() == g.nodes@.len()
    &&& forall|i: int| 0 <= i < order.len() ==> (#[trigger] order[i]) < g.nodes@.len()
    &&& forall|i: int, j: int| 0 <= i < j < order.len() ==> order[i] != order[j]
    &&& forall|v: int| 0 <= v < g.nodes@.len() ==> order.contains(#[trigger] (v as usize))
    &&& forall|i: int, j: int|
        0 <= i < order.len() && 0 <= j < order.len() && spec_edge(
            g,
            #[trigger] order[i] as int,
            #[trigger] order[j] as int,
        ) ==> i < j
}

/// `p` walks edges of `g` and returns to its start: a cycle.
pub open spec fn is_cycle(g: ProgGraph, p: Seq<int>) -> bool {
    &&& p.len() >= 2
    &&& p[0] == p[p.len() - 1]
    &&& forall|k: int| 0 <= k < p.len() - 1 ==> spec_edge(g, #[trigger] p[k], p[k + 1])
}

/// The graph holds at least one directed cycle.
pub open spec fn has_cycle(g: ProgGraph) -> bool {
    exists|p: Seq<int>| is_cycle(g, p)
}

/// How many entries of `s` are set.
pub open spec fn count_true(s: Seq<bool>) -> int
    decreases s.len(),
{
    if s.len() == 0 {
        0
    } else {
        count_true(s.drop_last()) + if s.last() {
            1int
        } else {
            0int
        }
    }
}

proof fn lemma_count_true_bound(s: Seq<bool>)
    ensures
        0 <= count_true(s) <= s.len(),
    decreases s.len(),
{
    if s.len() > 0 {
        lemma_count_true_bound(s.drop_last());
    }
}

proof fn lemma_count_true_update(s: Seq<bool>, i: int)
    requires
        0 <= i < s.len(),
        !s[i],
    ensures
        count_true(s.update(i, true)) == count_true(s) + 1,
    decreases s.len(),
{
    let upd = s.update(i, true);
    if i == s.len() - 1 {
        assert(upd.drop_last() =~= s.drop_last());
        assert(upd.last());
    } else {
        assert(upd.drop_last() =~= s.drop_last().update(i, true));
        assert(upd.last() == s.last());
        lemma_count_true_update(s.drop_last(), i);
    }
}

proof fn lemma_count_true_exists_false(s: Seq<bool>)
    requires
        count_true(s) < s.len(),
    ensures
        exists|i: int| 0 <= i < s.len() && !s[i],
    decreases s.len(),
{
    lemma_count_true_bound(s.drop_last());
    if s.len() > 0 {
        if !s.last() {
            assert(!s[s.len() - 1]);
        } else {
            lemma_count_true_exists_false(s.drop_last());
            let i = choose|i: int| 0 <= i < s.drop_last().len() && !s.drop_last()[i];
            assert(!s[i]);
        }
    }
}

/// A sequence of more than `m` values drawn from `[0, m)` repeats one.
proof fn lemma_pigeonhole(s: Seq<int>, m: int)
    requires
        forall|i: int| 0 <= i < s.len() ==> 0 <= #[trigger] s[i] < m,
        s.len() > m,
        m >= 0,
    ensures
        exists|i: int, j: int| 0 <= i < j < s.len() && s[i] == s[j],
{
    if s.no_duplicates() {
        s.unique_seq_to_set();
        lemma_int_range(0, m);
        assert(s.to_set().subset_of(vstd::set_lib::set_int_range(0, m))) by {
            assert forall|x: int| s.to_set().contains(x) implies vstd::set_lib::set_int_range(
                0,
                m,
            ).contains(x) by {
                assert(s.contains(x));
            }
        }
        lemma_len_subset(s.to_set(), vstd::set_lib::set_int_range(0, m));
        assert(false);
    } else {
        let (i, j) = choose|i: int, j: int|
            0 <= i < s.len() && 0 <= j < s.len() && i != j && s[i] == s[j];
        if i < j {
            assert(0 <= i < j < s.len() && s[i] == s[j]);
        } else {
            assert(0 <= j < i < s.len() && s[j] == s[i]);
        }
    }
}

/// The scheduled position of node `v`.
pub open spec fn pos_of(order: Seq<usize>, v: int) -> int {
    choose|i: int| 0 <= i < order.len() && order[i] == v as usize
}

proof fn lemma_pos_increases_along_path(g: ProgGraph, order: Seq<usize>, p: Seq<int>, k: int)
    requires
        g.wf(),
        is_topo_order(g, order),
        1 <= k < p.len(),
        forall|m: int| 0 <= m < p.len() - 1 ==> spec_edge(g, #[trigger] p[m], p[m + 1]),
    ensures
        forall|m: int| 0 <= m < p.len() ==> 0 <= #[trigger] p[m] < g.nodes@.len(),
        pos_of(order, p[0]) < pos_of(order, p[k]),
        0 <= pos_of(order, p[k]) < order.len(),
        order[pos_of(order, p[k])] == p[k] as usize,
    decreases k,
{
    assert forall|m: int| 0 <= m < p.len() implies 0 <= #[trigger] p[m] < g.nodes@.len() by {
        if m < p.len() - 1 {
            assert(spec_edge(g, p[m], p[m + 1]));
            let e = choose|e: int|
                0 <= e < g.edges@.len() && (#[trigger] g.edges@[e]).0 as int == p[m] && g.edges@[
                    e
                ].1 as int == p[m + 1];
            assert(g.edges@[e].0 < g.nodes@.len());
        } else {
            assert(spec_edge(g, p[m - 1], p[m]));
            let e = choose|e: int|
                0 <= e < g.edges@.len() && (#[trigger] g.edges@[e]).0 as int == p[m - 1]
                    && g.edges@[e].1 as int == p[m];
            assert(g.edges@[e].1 < g.nodes@.len());
        }
    }
    if k > 1 {
        lemma_pos_increases_along_path(g, order, p, k - 1);
    }
    // Both endpoints of the step are scheduled somewhere.
    assert(order.contains(p[k - 1] as usize));
    assert(order.contains(p[k] as usize));
    let i = pos_of(order, p[k - 1]);
    let j = pos_of(order, p[k]);
    assert(0 <= i < order.len() && order[i] == p[k - 1] as usize) by {
        let w = choose|w: int| 0 <= w < order.len() && order[w] == p[k - 1] as usize;
        assert(0 <= w < order.len() && order[w] == p[k - 1] as usize);
    }
    assert(0 <= j < order.len() && order[j] == p[k] as usize) by {
        let w = choose|w: int| 0 <= w < order.len() && order[w] == p[k] as usize;
        assert(0 <= w < order.len() && order[w] == p[k] as usize);
    }
    assert(spec_edge(g, order[i] as int, order[j] as int));
    assert(i < j);
    if k > 1 {
        assert(pos_of(order, p[0]) < i);
    }
}

/// A scheduled graph has no cycle: along a cycle the scheduled position
/// would rise strictly and still return to its start.
proof fn lemma_topo_order_excludes_cycles(g: ProgGraph, order: Seq<usize>)
    requires
        g.wf(),
        is_topo_order(g, order),
    ensures
        !has_cycle(g),
{
    if has_cycle(g) {
        let p = choose|p: Seq<int>| is_cycle(g, p);
        lemma_pos_increases_along_path(g, order, p, p.len() - 1);
        assert(p[0] == p[p.len() - 1]);
        assert(false);
    }
}

/// Nothing can be scheduled next: every unplaced node has an unplaced
/// direct input.
pub open spec fn all_stuck(g: ProgGraph, placed: Seq<bool>) -> bool {
    forall|v: int|
        0 <= v < g.nodes@.len() && !placed[v] ==> exists|e: int|
            0 <= e < g.edges@.len() && (#[trigger] g.edges@[e]).1 as int == v && !placed[g.edges@[
                e
            ].0 as int]
}

/// Builds a walk of the requested length through unplaced nodes, each step
/// moving from a node to one of its unplaced direct inputs.
proof fn lemma_build_stuck_walk(g: ProgGraph, placed: Seq<bool>, len: int) -> (q: Seq<int>)
    requires
        g.wf(),
        placed.len() == g.nodes@.len(),
        all_stuck(g, placed),
        exists|v: int| 0 <= v < g.nodes@.len() && !placed[v],
        len >= 1,
    ensures
        q.len() == len,
        forall|m: int| 0 <= m < len ==> 0 <= #[trigger] q[m] < g.nodes@.len() && !placed[q[m]],
        forall|m: int| 0 <= m < len - 1 ==> spec_edge(g, #[trigger] q[m + 1], q[m]),
    decreases len,
{
    if len == 1 {
        let v0 = choose|v: int| 0 <= v < g.nodes@.len() && !placed[v];
        seq![v0]
    } else {
        let q0 = lemma_build_stuck_walk(g, placed, len - 1);
        let tail = q0[len - 2];
        assert(0 <= tail < g.nodes@.len() && !placed[tail]);
        assert(exists|e: int|
            0 <= e < g.edges@.len() && (#[trigger] g.edges@[e]).1 as int == tail && !placed[
                g.edges@[e].0 as int
            ]);
        let e = choose|e: int|
            0 <= e < g.edges@.len() && (#[trigger] g.edges@[e]).1 as int == tail && !placed[
                g.edges@[e].0 as int
            ];
        let u = g.edges@[e].0 as int;
        assert(spec_edge(g, u, tail)) by {
            assert((g.edges@[e]).0 as int == u && g.edges@[e].1 as int == tail);
        }
        let q = q0.push(u);
        assert forall|m: int| 0 <= m < len - 1 implies spec_edge(g, #[trigger] q[m + 1], q[m]) by {
            if m < len - 2 {
                assert(spec_edge(g, q0[m + 1], q0[m]));
            }
        }
        q
    }
}

/// When nothing can be scheduled next and something is unplaced, the graph
/// has a cycle: walking unplaced inputs long enough must repeat a node.
#[verifier::spinoff_prover]
proof fn lemma_stuck_implies_cycle(g: ProgGraph, placed: Seq<bool>)
    requires
        g.wf(),
        placed.len() == g.nodes@.len(),
        all_stuck(g, placed),
        exists|v: int| 0 <= v < g.nodes@.len() && !placed[v],
    ensures
        has_cycle(g),
{
    let n = g.nodes@.len() as int;
    let q = lemma_build_stuck_walk(g, placed, n + 2);
    lemma_pigeonhole(q, n);
    let (i, j) = choose|i: int, j: int| 0 <= i < j < q.len() && q[i] == q[j];
    // The duplicated node closes the walk; read the stretch between the two
    // occurrences backwards, so the predecessor steps become edges.
    let p = Seq::new((j - i + 1) as nat, |m: int| q[j - m]);
    assert(p[0] == q[j]);
    assert(p[p.len() - 1] == q[i]);
    assert forall|k: int| 0 <= k < p.len() - 1 implies spec_edge(g, #[trigger] p[k], p[k + 1]) by {
        assert(p[k] == q[j - k]);
        assert(p[k + 1] == q[j - k - 1]);
        assert(spec_edge(g, q[(j - k - 1) + 1], q[j - k - 1]));
    }
    assert(is_cycle(g, p));
}

/// Whether every direct input of `v` is already placed.
fn is_ready(g: &ProgGraph, placed: &Vec<bool>, v: usize) -> (b: bool)
    requires
        g.wf(),
        placed@.len() == g.nodes@.len(),
        v < g.nodes@.len(),
    ensures
        b == forall|e: int|
            0 <= e < g.edges@.len() && (#[trigger] g.edges@[e]).1 == v ==> placed@[g.edges@[
                e
            ].0 as int],
{
    let m = g.edges.len();
    let mut e: usize = 0;
    while e < m
        invariant
            0 <= e <= m,
            m == g.edges@.len(),
            g.wf(),
            placed@.len() == g.nodes@.len(),
            forall|k: int|
                0 <= k < e && (#[trigger] g.edges@[k]).1 == v ==> placed@[g.edges@[k].0 as int],
        decreases m - e,
    {
        let (src, dst) = g.edges[e];
        if dst == v && !placed[src] {
            return false;
        }
        e = e + 1;
    }
    true
}

/// Topologically orders the graph's nodes: every node comes after all of
/// its direct inputs.  Exactly the graphs with a cycle are rejected, with
/// the designated cycle error.
pub fn schedule(g: &ProgGraph) -> (r: Result<Vec<usize>, RuntimeError>)
    requires
        g.wf(),
    ensures
        match r {
            Ok(order) => is_topo_order(*g, order@) && !has_cycle(*g),
            Err(e) => e@ == crate::runtime::SpecRtErr::ProgContainsCycles && has_cycle(*g),
        },
{
    let n = g.nodes.len();
    let mut placed: Vec<bool> = vec![false; n];
    let mut order: Vec<usize> = Vec::new();
    proof {
        lemma_count_all_false(placed@);
    }
    while order.len() < n
        invariant
            n == g.nodes@.len(),
            g.wf(),
            placed@.len() == n,
            order@.len() == count_true(placed@),
            order@.len() <= n,
            forall|k: int| 0 <= k < order@.len() ==> (#[trigger] order@[k]) < n && placed@[order@[
                k
            ] as int],
            forall|i: int, j: int| 0 <= i < j < order@.len() ==> order@[i] != order@[j],
            forall|v: int| 0 <= v < n && placed@[v] ==> order@.contains(v as usize),
            forall|k: int, e: int|
                0 <= k < order@.len() && 0 <= e < g.edges@.len() && (#[trigger] g.edges@[e]).1 == (
                #[trigger] order@[k]) ==> exists|m: int|
                    0 <= m < k && order@[m] == g.edges@[e].0,
        decreases n - order.len(),
    {
        let mut found: bool = false;
        let mut pick: usize = 0;
        let mut v: usize = 0;
        while v < n && !found
            invariant
                0 <= v <= n,
                n == g.nodes@.len(),
                g.wf(),
                placed@.len() == n,
                !found ==> forall|w: int|
                    0 <= w < v && !placed@[w] ==> exists|e: int|
                        0 <= e < g.edges@.len() && (#[trigger] g.edges@[e]).1 as int == w
                            && !placed@[g.edges@[e].0 as int],
                found ==> pick < n && !placed@[pick as int] && forall|e: int|
                    0 <= e < g.edges@.len() && (#[trigger] g.edges@[e]).1 == pick ==> placed@[
                    g.edges@[e].0 as int],
            decreases n - v, (if found { 0int } else { 1int }),
        {
            if !placed[v] && is_ready(g, &placed, v) {
                found = true;
                pick = v;
            } else {
                v = v + 1;
            }
        }
        if !found {
            proof {
                lemma_count_true_bound(placed@);
                lemma_count_true_exists_false(placed@);
                lemma_stuck_implies_cycle(*g, placed@);
            }
            return Err(RuntimeError::ProgContainsCycles);
        }
        let ghost old_placed = placed@;
        let ghost old_order = order@;
        placed[pick] = true;
        order.push(pick);
        proof {
            lemma_count_true_update(old_placed, pick as int);
            lemma_count_true_bound(placed@);
            assert(placed@ =~= old_placed.update(pick as int, true));
            assert(order@ =~= old_order.push(pick));
            assert forall|w: int| 0 <= w < n && placed@[w] implies order@.contains(w as usize) by {
                if w == pick as int {
                    assert(order@[order@.len() - 1] == pick);
                } else {
                    assert(old_placed[w]);
                    let m = choose|m: int| 0 <= m < old_order.len() && old_order[m] == w as usize;
                    assert(order@[m] == w as usize);
                }
            }
            assert forall|k: int, e: int|
                0 <= k < order@.len() && 0 <= e < g.edges@.len() && (#[trigger] g.edges@[e]).1 == (
                #[trigger] order@[k]) implies exists|m: int|
                0 <= m < k && order@[m] == g.edges@[e].0 by {
                if k < order@.len() - 1 {
                    let m = choose|m: int| 0 <= m < k && old_order[m] == g.edges@[e].0;
                    assert(order@[m] == g.edges@[e].0);
                } else {
                    assert(order@[k] == pick);
                    assert(old_placed[g.edges@[e].0 as int]);
                    let m = choose|m: int|
                        0 <= m < old_order.len() && old_order[m] == g.edges@[e].0;
                    assert(order@[m] == g.edges@[e].0);
                }
            }
        }
    }
    proof {
        lemma_count_all_true(placed@);
        assert forall|v: int| 0 <= v < n implies order@.contains(#[trigger] (v as usize)) by {
            assert(placed@[v]);
        }
        assert forall|i: int, j: int|
            0 <= i < order@.len() && 0 <= j < order@.len() && spec_edge(
                *g,
                #[trigger] order@[i] as int,
                #[trigger] order@[j] as int,
            ) implies i < j by {
            let e = choose|e: int|
                0 <= e < g.edges@.len() && (#[trigger] g.edges@[e]).0 as int == order@[i] as int
                    && g.edges@[e].1 as int == order@[j] as int;
            assert(g.edges@[e].1 == order@[j]);
            assert(g.edges@[e].0 == order@[i]);
            assert(exists|m: int| 0 <= m < j && order@[m] == g.edges@[e].0);
            let m = choose|m: int| 0 <= m < j && order@[m] == g.edges@[e].0;
            assert(order@[m] == order@[i]);
            if m != i {
                if m < i {
                    assert(order@[m] != order@[i]);
                } else {
                    assert(order@[i] != order@[m]);
                }
            }
            assert(m == i);
        }
        assert(is_topo_order(*g, order@));
        lemma_topo_order_excludes_cycles(*g, order@);
    }
    Ok(order)
}

proof fn lemma_count_all_false(s: Seq<bool>)
    requires
        forall|i: int| 0 <= i < s.len() ==> !s[i],
    ensures
        count_true(s) == 0,
    decreases s.len(),
{
    if s.len() > 0 {
        lemma_count_all_false(s.drop_last());
    }
}

proof fn lemma_count_all_true(s: Seq<bool>)
    requires
        count_true(s) == s.len(),
    ensures
        forall|i: int| 0 <= i < s.len() ==> s[i],
    decreases s.len(),
{
    if s.len() > 0 {
        lemma_count_true_bound(s.drop_last());
        lemma_count_all_true(s.drop_last());
        assert forall|i: int| 0 <= i < s.len() implies s[i] by {
            if i < s.len() - 1 {
                assert(s.drop_last()[i]);
            }
        }
    }
}

} // verus!
