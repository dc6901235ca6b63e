//! The audio node graph: a directed acyclic graph of tracks, effects,
//! buses, sends and outputs, scheduled by topological order.
//!
//! The scheduler here is the verified heart of block rendering: a graph
//! with an edge cycle is rejected before any block could be produced, and
//! an accepted order provably lists every node once, each after all of its
//! inputs.  What each node does with its block of samples is the
//! unverified synthesis layer's business.

use vstd::prelude::*;
use vstd::seq_lib::*;
use vstd::set_lib::*;

verus! {

/// Nodes are numbered in creation order.
pub type NodeId = u32;

/// A directed connection: from the first node to the second.
pub type Edge = (NodeId, NodeId);

/// What a node stands for in the signal flow.
#[derive(Debug)]
pub enum NodeKind {
    /// Produces audio from an instrument and a timeline.
    Track,
    /// Transforms its single input.
    Effect,
    /// Sums all of its inputs.
    Bus,
    /// Scales and forwards its input for parallel routing.
    Send,
    /// Sums its inputs and streams them to the named sink.
    Output { target: String },
}

/// One node of the graph.
#[derive(Debug)]
pub struct Node {
    pub id: NodeId,
    pub kind: NodeKind,
}

/// Rejection of a cyclic graph.
#[derive(Clone, Copy, Debug, PartialEq, Eq, Structural)]
pub enum GraphError {
    /// The edges close a cycle, so no render order exists.
    Cycle,
}

/// A directed audio-node graph.
#[derive(Debug)]
pub struct Graph {
    pub nodes: Vec<Node>,
    pub edges: Vec<Edge>,
}

impl Graph {
    /// The structural invariant: node ids match their position, and every
    /// edge connects existing nodes.
    pub open spec fn wf(&self) -> bool {
        &&& forall|k: int| 0 <= k < self.nodes@.len() ==> (#[trigger] self.nodes@[k]).id == k
        &&& forall|k: int|
            0 <= k < self.edges@.len() ==> (#[trigger] self.edges@[k]).0 < self.nodes@.len()
                && self.edges@[k].1 < self.nodes@.len()
    }

    pub fn new() -> (g: Graph)
        ensures
            g.wf(),
            g.nodes@.len() == 0,
            g.edges@.len() == 0,
    {
        Graph { nodes: Vec::new(), edges: Vec::new() }
    }

    /// Add a node and return its id, the next free number.
    pub fn add_node(&mut self, kind: NodeKind) -> (id: NodeId)
        requires
            old(self).wf(),
            old(self).nodes@.len() < u32::MAX,
        ensures
            final(self).wf(),
            id == old(self).nodes@.len(),
            final(self).nodes@.len() == old(self).nodes@.len() + 1,
            forall|k: int|
                0 <= k < old(self).nodes@.len() ==> final(self).nodes@[k] == old(self).nodes@[k],
            final(self).nodes@.last().id == id,
            final(self).nodes@.last().kind == kind,
            final(self).edges@ == old(self).edges@,
    {
        let id = self.nodes.len() as NodeId;
        self.nodes.push(Node { id, kind });
        id
    }

    /// Connect two existing nodes, from the first to the second.
    pub fn connect(&mut self, from: NodeId, to: NodeId)
        requires
            old(self).wf(),
            from < old(self).nodes@.len(),
            to < old(self).nodes@.len(),
        ensures
            final(self).wf(),
            final(self).edges@ == old(self).edges@ + seq![(from, to)],
            final(self).nodes@ == old(self).nodes@,
    {
        self.edges.push((from, to));
    }

    /// Remove every edge from the first node to the second.
    pub fn disconnect(&mut self, from: NodeId, to: NodeId)
        requires
            old(self).wf(),
        ensures
            final(self).wf(),
            final(self).edges@ == old(self).edges@.filter(
                |e: Edge| !(e.0 == from && e.1 == to),
            ),
            final(self).nodes@ == old(self).nodes@,
    {
        let mut kept: Vec<Edge> = Vec::new();
        let mut k: usize = 0;
        while k < self.edges.len()
            invariant
                k <= self.edges@.len(),
                kept@ == self.edges@.subrange(0, k as int).filter(
                    |e: Edge| !(e.0 == from && e.1 == to),
                ),
                forall|j: int|
                    0 <= j < old(self).edges@.len() ==> (#[trigger] old(self).edges@[j]).0 < old(
                        self,
                    ).nodes@.len() && old(self).edges@[j].1 < old(self).nodes@.len(),
                self.edges@ == old(self).edges@,
                self.nodes@ == old(self).nodes@,
            decreases self.edges@.len() - k,
        {
            let e = self.edges[k];
            proof {
                let cur = self.edges@.subrange(0, k + 1);
                assert(cur.drop_last() =~= self.edges@.subrange(0, k as int));
                assert(cur.last() == self.edges@[k as int]);
                reveal(Seq::filter);
            }
            if !(e.0 == from && e.1 == to) {
                kept.push(e);
            }
            k = k + 1;
        }
        proof {
            assert(self.edges@.subrange(0, self.edges@.len() as int) =~= self.edges@);
            lemma_filter_keeps_members(
                old(self).edges@,
                |e: Edge| !(e.0 == from && e.1 == to),
            );
        }
        self.edges = kept;
    }

    /// Get a node by its id.
    pub fn get_node(&self, id: NodeId) -> (r: Option<&Node>)
        requires
            self.wf(),
        ensures
            match r {
                Some(node) => id < self.nodes@.len() && *node == self.nodes@[id as int],
                None => id >= self.nodes@.len(),
            },
    {
        if (id as usize) < self.nodes.len() {
            Some(&self.nodes[id as usize])
        } else {
            None
        }
    }

    /// The targets of all edges leaving the node, in edge order.
    pub fn outputs(&self, from: NodeId) -> (r: Vec<NodeId>)
        ensures
            r@ == spec_outputs(self.edges@, from),
    {
        let mut r: Vec<NodeId> = Vec::new();
        let mut k: usize = 0;
        while k < self.edges.len()
            invariant
                k <= self.edges@.len(),
                r@ == spec_outputs(self.edges@.subrange(0, k as int), from),
            decreases self.edges@.len() - k,
        {
            let e = self.edges[k];
            proof {
                let cur = self.edges@.subrange(0, k + 1);
                assert(cur.drop_last() =~= self.edges@.subrange(0, k as int));
                assert(cur.last() == self.edges@[k as int]);
            }
            if e.0 == from {
                r.push(e.1);
            }
            k = k + 1;
        }
        proof {
            assert(self.edges@.subrange(0, self.edges@.len() as int) =~= self.edges@);
        }
        r
    }

    /// The sources of all edges entering the node, in edge order.
    pub fn inputs(&self, to: NodeId) -> (r: Vec<NodeId>)
        ensures
            r@ == spec_inputs(self.edges@, to),
    {
        let mut r: Vec<NodeId> = Vec::new();
        let mut k: usize = 0;
        while k < self.edges.len()
            invariant
                k <= self.edges@.len(),
                r@ == spec_inputs(self.edges@.subrange(0, k as int), to),
            decreases self.edges@.len() - k,
        {
            let e = self.edges[k];
            proof {
                let cur = self.edges@.subrange(0, k + 1);
                assert(cur.drop_last() =~= self.edges@.subrange(0, k as int));
                assert(cur.last() == self.edges@[k as int]);
            }
            if e.1 == to {
                r.push(e.0);
            }
            k = k + 1;
        }
        proof {
            assert(self.edges@.subrange(0, self.edges@.len() as int) =~= self.edges@);
        }
        r
    }

    /// How many edges enter the node.
    pub fn input_count(&self, id: NodeId) -> (r: usize)
        ensures
            r == spec_inputs(self.edges@, id).len(),
    {
        self.inputs(id).len()
    }

    /// How many edges leave the node.
    pub fn output_count(&self, id: NodeId) -> (r: usize)
        ensures
            r == spec_outputs(self.edges@, id).len(),
    {
        self.outputs(id).len()
    }
}

/// The targets of the edges leaving `from`, in edge order.
pub open spec fn spec_outputs(edges: Seq<Edge>, from: NodeId) -> Seq<NodeId>
    decreases edges.len(),
{
    if edges.len() == 0 {
        Seq::<NodeId>::empty()
    } else {
        spec_outputs(edges.drop_last(), from) + if edges.last().0 == from {
            seq![edges.last().1]
        } else {
            Seq::<NodeId>::empty()
        }
    }
}

/// The sources of the edges entering `to`, in edge order.
pub open spec fn spec_inputs(edges: Seq<Edge>, to: NodeId) -> Seq<NodeId>
    decreases edges.len(),
{
    if edges.len() == 0 {
        Seq::<NodeId>::empty()
    } else {
        spec_inputs(edges.drop_last(), to) + if edges.last().1 == to {
            seq![edges.last().0]
        } else {
            Seq::<NodeId>::empty()
        }
    }
}

proof fn lemma_filter_keeps_members(edges: Seq<Edge>, pred: spec_fn(Edge) -> bool)
    ensures
        forall|j: int|
            0 <= j < edges.filter(pred).len() ==> edges.contains(#[trigger] edges.filter(pred)[j]),
    decreases edges.len(),
{
    reveal(Seq::filter);
    if edges.len() > 0 {
        lemma_filter_keeps_members(edges.drop_last(), pred);
        assert forall|j: int| 0 <= j < edges.filter(pred).len() implies edges.contains(
            #[trigger] edges.filter(pred)[j],
        ) by {
            let f = edges.filter(pred);
            let fd = edges.drop_last().filter(pred);
            if j < fd.len() {
                assert(fd[j] == f[j]);
                assert(edges.drop_last().contains(fd[j]));
                let w = choose|w: int|
                    0 <= w < edges.drop_last().len() && edges.drop_last()[w] == fd[j];
                assert(edges[w] == fd[j]);
            } else {
                assert(f[j] == edges.last());
                assert(edges[edges.len() - 1] == edges.last());
            }
        }
    }
}

} // verus!

verus! {

// ---------------------------------------------------------------------------
// Topological scheduling
// ---------------------------------------------------------------------------
/// Whether `order` is a topological order of an `n`-node graph with these
/// edges: every node exactly once, and every edge pointing forward.
pub open spec fn is_topo_order(edges: Seq<Edge>, n: int, order: Seq<NodeId>) -> bool {
    &&& order.len() == n
    &&& order.no_duplicates()
    &&& forall|k: int| 0 <= k < order.len() ==> (#[trigger] order[k]) < n
    &&& forall|i: int, j: int|
        0 <= i < order.len() && 0 <= j < order.len() && #[trigger] edges.contains(
            (order[i], order[j]),
        ) ==> i < j
}

/// A set of node ids that blocks any topological order: every member has
/// an incoming edge from a member.
pub open spec fn cycle_witness(edges: Seq<Edge>, n: int, s: Set<int>) -> bool {
    &&& s.finite()
    &&& s.len() > 0
    &&& forall|x: int| s.contains(x) ==> 0 <= x < n
    &&& forall|x: int|
        #[trigger] s.contains(x) ==> exists|y: int|
            s.contains(y) && edges.contains((y as u32, x as u32))
}

/// A duplicate-free run of `n` ids below `n` names every id below `n`.
proof fn lemma_no_dup_complete(s: Seq<NodeId>, n: int)
    requires
        s.no_duplicates(),
        forall|k: int| 0 <= k < s.len() ==> (#[trigger] s[k]) < n,
        s.len() == n,
    ensures
        forall|v: NodeId| v < n ==> s.contains(v),
{
    let si = s.map_values(|v: NodeId| v as int);
    assert(si.no_duplicates());
    si.unique_seq_to_set();
    lemma_int_range(0, n);
    assert(si.to_set().subset_of(set_int_range(0, n))) by {
        assert forall|x: int| si.to_set().contains(x) implies set_int_range(0, n).contains(x) by {
            let k = choose|k: int| 0 <= k < si.len() && si[k] == x;
            assert(s[k] < n);
        }
    }
    lemma_subset_same_len_equal(si.to_set(), set_int_range(0, n));
    assert forall|v: NodeId| v < n implies s.contains(v) by {
        assert(set_int_range(0, n).contains(v as int));
        assert(si.to_set().contains(v as int));
        let k = choose|k: int| 0 <= k < si.len() && si[k] == v as int;
        assert(s[k] == v);
    }
}

/// Equal-sized subsets of a finite set coincide.
proof fn lemma_subset_same_len_equal(a: Set<int>, b: Set<int>)
    requires
        a.subset_of(b),
        b.finite(),
        a.len() == b.len(),
    ensures
        a == b,
{
    if exists|x: int| b.contains(x) && !a.contains(x) {
        let x = choose|x: int| b.contains(x) && !a.contains(x);
        assert(a.subset_of(b.remove(x)));
        lemma_len_subset(a, b.remove(x));
        assert(b.remove(x).len() == b.len() - 1);
        assert(false);
    }
    assert(a =~= b);
}

/// Some id below `n` is missing from a short duplicate-free run.
proof fn lemma_missing_value(s: Seq<NodeId>, n: int)
    requires
        s.no_duplicates(),
        forall|k: int| 0 <= k < s.len() ==> (#[trigger] s[k]) < n,
        s.len() < n,
        n <= 0x1_0000_0000,
    ensures
        exists|v: NodeId| v < n && !s.contains(v),
{
    if forall|v: NodeId| v < n ==> s.contains(v) {
        let si = s.map_values(|v: NodeId| v as int);
        assert(si.no_duplicates());
        si.unique_seq_to_set();
        lemma_int_range(0, n);
        assert(set_int_range(0, n).subset_of(si.to_set())) by {
            assert forall|x: int| set_int_range(0, n).contains(x) implies si.to_set().contains(
                x,
            ) by {
                assert(0 <= x < n);
                assert(x <= 0xFFFF_FFFF);
                assert((x as NodeId) as int == x);
                assert((x as NodeId) < n);
                assert(s.contains(x as NodeId));
                let k = choose|k: int| 0 <= k < s.len() && s[k] == x as NodeId;
                assert(si[k] == x);
            }
        }
        lemma_len_subset(set_int_range(0, n), si.to_set());
        assert(false);
    }
}

/// The first position of `v` in `s`.
pub open spec fn spec_pos(s: Seq<NodeId>, v: NodeId) -> int {
    choose|k: int| 0 <= k < s.len() && s[k] == v
}

} // verus!

verus! {

/// The position of the member of `sset` that comes first in `s`.
proof fn lemma_min_position(sset: Set<int>, s: Seq<NodeId>) -> (v0: int)
    requires
        sset.finite(),
        sset.len() > 0,
        forall|x: int| #[trigger] sset.contains(x) ==> s.contains(x as u32),
    ensures
        sset.contains(v0),
        forall|u: int|
            #[trigger] sset.contains(u) ==> spec_pos(s, v0 as u32) <= spec_pos(s, u as u32),
    decreases sset.len(),
{
    let x = sset.choose();
    assert(sset.contains(x));
    let rest = sset.remove(x);
    if rest.len() == 0 {
        assert forall|u: int| #[trigger] sset.contains(u) implies spec_pos(s, x as u32)
            <= spec_pos(s, u as u32) by {
            if u != x {
                assert(rest.contains(u));
                assert(rest.remove(u).len() == rest.len() - 1);
                assert(false);
            }
        }
        x
    } else {
        let v1 = lemma_min_position(rest, s);
        let m = if spec_pos(s, x as u32) <= spec_pos(s, v1 as u32) {
            x
        } else {
            v1
        };
        assert forall|u: int| #[trigger] sset.contains(u) implies spec_pos(s, m as u32)
            <= spec_pos(s, u as u32) by {
            if u != x {
                assert(rest.contains(u));
            }
        }
        m
    }
}

/// No order can serialize a graph that holds a cycle-witness set: the
/// member placed first would still need an input placed before it.
pub proof fn lemma_cycle_blocks_topo(edges: Seq<Edge>, n: int, sset: Set<int>)
    requires
        cycle_witness(edges, n, sset),
        n <= 0x1_0000_0000,
    ensures
        forall|s: Seq<NodeId>| !is_topo_order(edges, n, s),
{
    assert forall|s: Seq<NodeId>| !is_topo_order(edges, n, s) by {
        if is_topo_order(edges, n, s) {
            lemma_no_dup_complete(s, n);
            assert forall|x: int| #[trigger] sset.contains(x) implies s.contains(x as u32) by {
                assert(0 <= x < n);
                assert((x as u32) < n);
            }
            let v0 = lemma_min_position(sset, s);
            let y = choose|y: int|
                sset.contains(y) && edges.contains((y as u32, v0 as u32));
            assert(sset.contains(y));
            let p0 = spec_pos(s, v0 as u32);
            let py = spec_pos(s, y as u32);
            assert(s.contains(v0 as u32));
            assert(s.contains(y as u32));
            assert(0 <= p0 < s.len() && s[p0] == v0 as u32);
            assert(0 <= py < s.len() && s[py] == y as u32);
            assert(edges.contains((s[py], s[p0])));
            assert(py < p0);
            assert(p0 <= py);
            assert(false);
        }
    }
}

impl Graph {
    /// Whether every edge into `v` comes from a scheduled node.
    fn ready(&self, order: &Vec<NodeId>, v: NodeId) -> (r: bool)
        ensures
            r == (forall|jw: int|
                0 <= jw < self.edges@.len() && (#[trigger] self.edges@[jw]).1 == v
                    ==> order@.contains(self.edges@[jw].0)),
    {
        let mut jw: usize = 0;
        while jw < self.edges.len()
            invariant
                jw <= self.edges@.len(),
                forall|k: int|
                    0 <= k < jw && (#[trigger] self.edges@[k]).1 == v ==> order@.contains(
                        self.edges@[k].0,
                    ),
            decreases self.edges@.len() - jw,
        {
            let e = self.edges[jw];
            if e.1 == v {
                if !contains_id(order, e.0) {
                    return false;
                }
            }
            jw = jw + 1;
        }
        true
    }

    /// Some unscheduled node whose inputs are all scheduled, if any.
    fn find_ready(&self, order: &Vec<NodeId>) -> (r: Option<NodeId>)
        requires
            self.nodes@.len() <= 0x1_0000_0000,
        ensures
            match r {
                Some(v) => {
                    &&& v < self.nodes@.len()
                    &&& !order@.contains(v)
                    &&& forall|jw: int|
                        0 <= jw < self.edges@.len() && (#[trigger] self.edges@[jw]).1 == v
                            ==> order@.contains(self.edges@[jw].0)
                },
                None => forall|v: NodeId|
                    v < self.nodes@.len() ==> order@.contains(v) || exists|jw: int|
                        0 <= jw < self.edges@.len() && (#[trigger] self.edges@[jw]).1 == v
                            && !order@.contains(self.edges@[jw].0),
            },
    {
        let n = self.nodes.len();
        let mut v: usize = 0;
        while v < n
            invariant
                v <= n,
                n == self.nodes@.len(),
                n <= 0x1_0000_0000,
                forall|w: NodeId|
                    w < v ==> order@.contains(w) || exists|jw: int|
                        0 <= jw < self.edges@.len() && (#[trigger] self.edges@[jw]).1 == w
                            && !order@.contains(self.edges@[jw].0),
            decreases n - v,
        {
            let id = v as NodeId;
            if !contains_id(order, id) && self.ready(order, id) {
                return Some(id);
            }
            proof {
                if !order@.contains(id) {
                    assert(!(forall|jw: int|
                        0 <= jw < self.edges@.len() && (#[trigger] self.edges@[jw]).1 == id
                            ==> order@.contains(self.edges@[jw].0)));
                    let jw = choose|jw: int|
                        0 <= jw < self.edges@.len() && (#[trigger] self.edges@[jw]).1 == id
                            && !order@.contains(self.edges@[jw].0);
                    assert(0 <= jw < self.edges@.len() && self.edges@[jw].1 == id
                        && !order@.contains(self.edges@[jw].0));
                }
            }
            v = v + 1;
        }
        None
    }

    /// Order the nodes so that every edge points forward; a graph whose
    /// edges close a cycle is rejected before any node is scheduled.
    #[verifier::spinoff_prover]
    #[verifier::rlimit(100)]
    pub fn topological_sort(&self) -> (r: Result<Vec<NodeId>, GraphError>)
        requires
            self.wf(),
        ensures
            match r {
                Ok(order) => is_topo_order(self.edges@, self.nodes@.len() as int, order@),
                Err(_) => forall|s: Seq<NodeId>|
                    !is_topo_order(self.edges@, self.nodes@.len() as int, s),
            },
    {
        let n: usize = self.nodes.len();
        let ghost edges = self.edges@;
        let ghost nn = n as int;
        proof {
            if n > 0x1_0000_0000 {
                assert(self.nodes@[0x1_0000_0000].id == 0x1_0000_0000int);
                assert(false);
            }
        }
        let mut order: Vec<NodeId> = Vec::new();
        while order.len() < n
            invariant
                self.wf(),
                edges == self.edges@,
                nn == self.nodes@.len(),
                n == nn,
                nn <= 0x1_0000_0000,
                order@.len() <= n,
                order@.no_duplicates(),
                forall|k: int| 0 <= k < order@.len() ==> (#[trigger] order@[k]) < n,
                forall|k: int, jw: int|
                    0 <= k < order@.len() && 0 <= jw < edges.len() && (#[trigger] edges[jw]).1 == (
                    #[trigger] order@[k]) ==> order@.subrange(0, k).contains(edges[jw].0),
            decreases n - order@.len(),
        {
            match self.find_ready(&order) {
                Some(v) => {
                    let ghost before = order@;
                    order.push(v);
                    proof {
                        lemma_schedule_push(edges, nn, before, order@, v);
                    }
                },
                None => {
                    proof {
                        lemma_stuck_graph_blocks_topo(edges, nn, order@);
                    }
                    return Err(GraphError::Cycle);
                },
            }
        }
        proof {
            lemma_positional_topo(edges, nn, order@);
        }
        Ok(order)
    }
}

/// Whether the run contains the id.
fn contains_id(order: &Vec<NodeId>, v: NodeId) -> (r: bool)
    ensures
        r == order@.contains(v),
{
    let mut k: usize = 0;
    while k < order.len()
        invariant
            k <= order@.len(),
            forall|j: int| 0 <= j < k ==> order@[j] != v,
        decreases order@.len() - k,
    {
        if order[k] == v {
            return true;
        }
        k = k + 1;
    }
    proof {
        if order@.contains(v) {
            let j = choose|j: int| 0 <= j < order@.len() && order@[j] == v;
            assert(false);
        }
    }
    false
}

/// Pushing a ready node keeps the scheduling facts.
proof fn lemma_schedule_push(
    edges: Seq<Edge>,
    n: int,
    before: Seq<NodeId>,
    order: Seq<NodeId>,
    v: NodeId,
)
    requires
        order == before.push(v),
        before.no_duplicates(),
        forall|k: int| 0 <= k < before.len() ==> (#[trigger] before[k]) < n,
        v < n,
        !before.contains(v),
        forall|jw: int|
            0 <= jw < edges.len() && (#[trigger] edges[jw]).1 == v ==> before.contains(
                edges[jw].0,
            ),
        forall|k: int, jw: int|
            0 <= k < before.len() && 0 <= jw < edges.len() && (#[trigger] edges[jw]).1 == (
            #[trigger] before[k]) ==> before.subrange(0, k).contains(edges[jw].0),
    ensures
        order.no_duplicates(),
        forall|k: int| 0 <= k < order.len() ==> (#[trigger] order[k]) < n,
        forall|k: int, jw: int|
            0 <= k < order.len() && 0 <= jw < edges.len() && (#[trigger] edges[jw]).1 == (
            #[trigger] order[k]) ==> order.subrange(0, k).contains(edges[jw].0),
{
    assert(order.no_duplicates()) by {
        assert forall|a: int, b: int| 0 <= a < b < order.len() implies order[a] != order[b] by {
            if b == order.len() - 1 {
                assert(order[a] == before[a]);
                if before[a] == v {
                    assert(before.contains(v));
                }
            }
        }
    }
    assert forall|k: int, jw: int|
        0 <= k < order.len() && 0 <= jw < edges.len() && (#[trigger] edges[jw]).1 == (
        #[trigger] order[k]) implies order.subrange(0, k).contains(edges[jw].0) by {
        if k < order.len() - 1 {
            assert(order[k] == before[k]);
            assert(before.subrange(0, k).contains(edges[jw].0));
            let kp = choose|kp: int| 0 <= kp < k && before.subrange(0, k)[kp] == edges[jw].0;
            assert(order.subrange(0, k)[kp] == edges[jw].0);
        } else {
            assert(order[k] == v);
            assert(before.contains(edges[jw].0));
            let kp = choose|kp: int| 0 <= kp < before.len() && before[kp] == edges[jw].0;
            assert(order.subrange(0, k)[kp] == edges[jw].0);
        }
    }
}

/// When every unscheduled node still waits for an unscheduled input, the
/// leftovers witness a cycle and no order can exist.
#[verifier::spinoff_prover]
#[verifier::rlimit(100)]
proof fn lemma_stuck_graph_blocks_topo(edges: Seq<Edge>, n: int, order: Seq<NodeId>)
    requires
        n <= 0x1_0000_0000,
        forall|jw: int|
            0 <= jw < edges.len() ==> (#[trigger] edges[jw]).0 < n && edges[jw].1 < n,
        order.no_duplicates(),
        order.len() < n,
        forall|k: int| 0 <= k < order.len() ==> (#[trigger] order[k]) < n,
        forall|v: NodeId|
            v < n ==> order.contains(v) || exists|jw: int|
                0 <= jw < edges.len() && (#[trigger] edges[jw]).1 == v && !order.contains(
                    edges[jw].0,
                ),
    ensures
        forall|s: Seq<NodeId>| !is_topo_order(edges, n, s),
{
    let sset = lemma_stuck_witness(edges, n, order);
    lemma_cycle_blocks_topo(edges, n, sset);
}

/// The unscheduled leftovers of a stuck pass form a cycle witness.
#[verifier::spinoff_prover]
#[verifier::rlimit(100)]
proof fn lemma_stuck_witness(edges: Seq<Edge>, n: int, order: Seq<NodeId>) -> (sset: Set<int>)
    requires
        n <= 0x1_0000_0000,
        forall|jw: int|
            0 <= jw < edges.len() ==> (#[trigger] edges[jw]).0 < n && edges[jw].1 < n,
        order.no_duplicates(),
        order.len() < n,
        forall|k: int| 0 <= k < order.len() ==> (#[trigger] order[k]) < n,
        forall|v: NodeId|
            v < n ==> order.contains(v) || exists|jw: int|
                0 <= jw < edges.len() && (#[trigger] edges[jw]).1 == v && !order.contains(
                    edges[jw].0,
                ),
    ensures
        cycle_witness(edges, n, sset),
{
    let sset = Set::<int>::new(|x: int| 0 <= x < n && !order.contains(x as NodeId));
    lemma_int_range(0, n);
    assert(sset.subset_of(set_int_range(0, n)));
    lemma_len_subset(sset, set_int_range(0, n));
    lemma_missing_value(order, n);
    let v = choose|v: NodeId| v < n && !order.contains(v);
    assert(sset.contains(v as int)) by {
        assert((v as int) as NodeId == v);
    }
    assert(sset.remove(v as int).len() == sset.len() - 1);
    assert(sset.len() > 0);
    assert forall|x: int| #[trigger] sset.contains(x) implies exists|y: int|
        sset.contains(y) && edges.contains((y as u32, x as u32)) by {
        let w = x as NodeId;
        assert(w < n && !order.contains(w));
        let jw = choose|jw: int|
            0 <= jw < edges.len() && (#[trigger] edges[jw]).1 == w && !order.contains(
                edges[jw].0,
            );
        let y = edges[jw].0 as int;
        assert(edges[jw].0 < n);
        assert((y as u32) == edges[jw].0);
        assert(sset.contains(y));
        assert(edges[jw] == (y as u32, x as u32));
        assert(edges.contains((y as u32, x as u32)));
    }
    assert(cycle_witness(edges, n, sset));
    sset
}

/// Positional respect plus distinctness gives the public topo property.
proof fn lemma_positional_topo(edges: Seq<Edge>, n: int, order: Seq<NodeId>)
    requires
        order.len() == n,
        order.no_duplicates(),
        forall|k: int| 0 <= k < order.len() ==> (#[trigger] order[k]) < n,
        forall|k: int, jw: int|
            0 <= k < order.len() && 0 <= jw < edges.len() && (#[trigger] edges[jw]).1 == (
            #[trigger] order[k]) ==> order.subrange(0, k).contains(edges[jw].0),
    ensures
        is_topo_order(edges, n, order),
{
    assert forall|i0: int, j0: int|
        0 <= i0 < order.len() && 0 <= j0 < order.len() && #[trigger] edges.contains(
            (order[i0], order[j0]),
        ) implies i0 < j0 by {
        let e = (order[i0], order[j0]);
        let jw = choose|jw: int| 0 <= jw < edges.len() && edges[jw] == e;
        assert(edges[jw].1 == order[j0]);
        assert(order.subrange(0, j0).contains(edges[jw].0));
        let kp = choose|kp: int| 0 <= kp < j0 && order.subrange(0, j0)[kp] == edges[jw].0;
        assert(order[kp] == order[i0]);
        if kp != i0 {
            assert(false);
        }
    }
}

} // verus!
