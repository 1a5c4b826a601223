//! Runnable graphs: nodes with unique ids, plain and conditional edges,
//! validation (cycles and orphan nodes), topological ordering and the ASCII
//! and Mermaid renderings.
//!
//! The runnables that the nodes stand for are asynchronous; the application
//! keeps them by node id and executes them in the order computed here.

use crate::errors::ChainError;
use crate::outputs::copy_value;
use crate::routing::{assign_entries, entries_map, keys_distinct};
use crate::runnables::{mermaid_id, to_safe_mermaid_id, GraphEdge};
use crate::text::{blen, byte_len, join, join_strings, str_equal, views, IntoText};
use vstd::prelude::*;

verus! {

broadcast use vstd::seq_lib::group_seq_properties;

/// A node of a [`RunnableGraph`]: its unique id and its display name.
#[derive(Debug, Clone)]
pub struct GraphNode {
    /// Unique identifier of the node within the graph.
    pub id: String,
    /// Human-readable name used in renderings.
    pub name: String,
}

/// A directed graph of runnable nodes joined by plain and conditional edges.
#[derive(Debug, Clone)]
pub struct RunnableGraph {
    nodes: Vec<GraphNode>,
    edges: Vec<GraphEdge>,
}

/// The ids of a sequence of nodes, in order.
pub open spec fn ids_of(nodes: Seq<GraphNode>) -> Seq<Seq<char>> {
    nodes.map_values(|n: GraphNode| n.id@)
}

/// Whether `o` lists every node id exactly once, nothing else, and puts the
/// source of every edge before its target.
pub open spec fn is_topo_order(nodes: Seq<GraphNode>, edges: Seq<GraphEdge>, o: Seq<Seq<char>>) -> bool {
    &&& o.no_duplicates()
    &&& forall|k: int| 0 <= k < o.len() ==> ids_of(nodes).contains(#[trigger] o[k])
    &&& forall|i: int| 0 <= i < nodes.len() ==> o.contains(#[trigger] nodes[i].id@)
    &&& forall|j: int, a: int, b: int|
        #![trigger edges[j], o[a], o[b]]
        0 <= j < edges.len() && 0 <= a < o.len() && 0 <= b < o.len() && o[a] == edges[j].source@
            && o[b] == edges[j].target@ ==> a < b
}

/// Whether the graph has a topological order, that is, has no cycle.
pub open spec fn acyclic(nodes: Seq<GraphNode>, edges: Seq<GraphEdge>) -> bool {
    exists|o: Seq<Seq<char>>| is_topo_order(nodes, edges, o)
}

impl RunnableGraph {
    /// The nodes, in the order in which they were added.
    pub closed spec fn node_seq(self) -> Seq<GraphNode> {
        self.nodes@
    }

    /// The edges, in the order in which they were added.
    pub closed spec fn edge_seq(self) -> Seq<GraphEdge> {
        self.edges@
    }

    /// Node ids are unique and every edge joins two nodes of the graph.
    pub open spec fn wf(self) -> bool {
        &&& ids_of(self.node_seq()).no_duplicates()
        &&& forall|j: int|
            0 <= j < self.edge_seq().len() ==> {
                &&& ids_of(self.node_seq()).contains(#[trigger] self.edge_seq()[j].source@)
                &&& ids_of(self.node_seq()).contains(self.edge_seq()[j].target@)
            }
    }

    /// An empty graph.
    pub fn new() -> (g: Self)
        ensures
            g.wf(),
            g.node_seq() == Seq::<GraphNode>::empty(),
            g.edge_seq() == Seq::<GraphEdge>::empty(),
    {
        let g = RunnableGraph { nodes: Vec::new(), edges: Vec::new() };
        assert(ids_of(g.nodes@) =~= Seq::<Seq<char>>::empty());
        g
    }

    /// The position of the node with id `id`, if there is one.
    pub fn index_of(&self, id: &str) -> (r: Option<usize>)
        ensures
            match r {
                Some(i) => i < self.node_seq().len() && self.node_seq()[i as int].id@ == id@,
                None => !ids_of(self.node_seq()).contains(id@),
            },
    {
        let mut i: usize = 0;
        while i < self.nodes.len()
            invariant
                i <= self.nodes@.len(),
                forall|k: int| 0 <= k < i ==> self.nodes@[k].id@ != id@,
            decreases self.nodes@.len() - i,
        {
            if str_equal(self.nodes[i].id.as_str(), id) {
                return Some(i);
            }
            i += 1;
        }
        proof {
            if ids_of(self.nodes@).contains(id@) {
                let k = choose|k: int| 0 <= k < ids_of(self.nodes@).len() && ids_of(self.nodes@)[k] == id@;
                assert(self.nodes@[k].id@ == id@);
            }
        }
        None
    }

    /// The nodes of the graph, in the order in which they were added.
    pub fn nodes(&self) -> (r: &Vec<GraphNode>)
        ensures
            r@ == self.node_seq(),
    {
        &self.nodes
    }

    /// The edges of the graph, in the order in which they were added.
    pub fn edges(&self) -> (r: &Vec<GraphEdge>)
        ensures
            r@ == self.edge_seq(),
    {
        &self.edges
    }
}

/// `prefix`, `x` and `suffix` run together.
fn framed(prefix: &str, x: &str, suffix: &str) -> (res: String)
    ensures
        res@ == prefix@ + x@ + suffix@,
{
    let mut s = String::from_str(prefix);
    s.append(x);
    s.append(suffix);
    s
}

/// The text of the error for a node id that is already taken.
pub open spec fn duplicate_node_message(id: Seq<char>) -> Seq<char> {
    "Node with id '"@ + id + "' already exists"@
}

/// The text of the error for an edge whose source is not a node.
pub open spec fn missing_source_message(id: Seq<char>) -> Seq<char> {
    "Source node '"@ + id + "' not in graph"@
}

/// The text of the error for an edge whose target is not a node.
pub open spec fn missing_target_message(id: Seq<char>) -> Seq<char> {
    "Target node '"@ + id + "' not in graph"@
}

impl RunnableGraph {
    /// Adds a node with the given id and name; refused when the id is taken.
    pub fn add_node<S: IntoText, T: IntoText>(&mut self, id: S, name: T) -> (res: Result<(), ChainError>)
        requires
            old(self).wf(),
        ensures
            final(self).wf(),
            final(self).edge_seq() == old(self).edge_seq(),
            ids_of(old(self).node_seq()).contains(id.text_view()) ==> {
                &&& res matches Err(ChainError::ValidationError(m)) && m@ == duplicate_node_message(id.text_view())
                &&& final(self).node_seq() == old(self).node_seq()
            },
            !ids_of(old(self).node_seq()).contains(id.text_view()) ==> {
                &&& res is Ok
                &&& final(self).node_seq().len() == old(self).node_seq().len() + 1
                &&& final(self).node_seq().drop_last() == old(self).node_seq()
                &&& final(self).node_seq().last().id@ == id.text_view()
                &&& final(self).node_seq().last().name@ == name.text_view()
            },
    {
        let id = id.into_text();
        let name = name.into_text();
        let found = self.index_of(id.as_str());
        if let Some(i) = found {
            assert(ids_of(self.nodes@)[i as int] == id@);
            return Err(ChainError::ValidationError(framed("Node with id '", id.as_str(), "' already exists")));
        }
        let ghost before = self.nodes@;
        self.nodes.push(GraphNode { id, name });
        proof {
            assert(self.nodes@.drop_last() =~= before);
            assert(ids_of(self.nodes@) =~= ids_of(before).push(self.nodes@.last().id@));
            assert forall|j: int| 0 <= j < self.edges@.len() implies {
                &&& ids_of(self.nodes@).contains(#[trigger] self.edges@[j].source@)
                &&& ids_of(self.nodes@).contains(self.edges@[j].target@)
            } by {
                let a = choose|k: int| 0 <= k < ids_of(before).len() && ids_of(before)[k] == self.edges@[j].source@;
                let b = choose|k: int| 0 <= k < ids_of(before).len() && ids_of(before)[k] == self.edges@[j].target@;
                assert(ids_of(self.nodes@)[a] == self.edges@[j].source@);
                assert(ids_of(self.nodes@)[b] == self.edges@[j].target@);
            }
        }
        Ok(())
    }

    /// Checks both ends of a new edge and appends it.
    fn push_edge(&mut self, source: String, target: String, condition: Option<String>) -> (res: Result<(), ChainError>)
        requires
            old(self).wf(),
        ensures
            final(self).wf(),
            final(self).node_seq() == old(self).node_seq(),
            !ids_of(old(self).node_seq()).contains(source@) ==> {
                &&& res matches Err(ChainError::ValidationError(m)) && m@ == missing_source_message(source@)
                &&& final(self).edge_seq() == old(self).edge_seq()
            },
            ids_of(old(self).node_seq()).contains(source@) && !ids_of(old(self).node_seq()).contains(target@) ==> {
                &&& res matches Err(ChainError::ValidationError(m)) && m@ == missing_target_message(target@)
                &&& final(self).edge_seq() == old(self).edge_seq()
            },
            ids_of(old(self).node_seq()).contains(source@) && ids_of(old(self).node_seq()).contains(target@) ==> {
                &&& res is Ok
                &&& final(self).edge_seq() == old(self).edge_seq().push(GraphEdge { source, target, condition })
            },
    {
        let si = self.index_of(source.as_str());
        let si = match si {
            Some(i) => i,
            None => {
                return Err(ChainError::ValidationError(framed("Source node '", source.as_str(), "' not in graph")));
            },
        };
        assert(ids_of(self.nodes@)[si as int] == source@);
        let ti = self.index_of(target.as_str());
        let ti = match ti {
            Some(i) => i,
            None => {
                return Err(ChainError::ValidationError(framed("Target node '", target.as_str(), "' not in graph")));
            },
        };
        assert(ids_of(self.nodes@)[ti as int] == target@);
        let ghost before = self.edges@;
        self.edges.push(GraphEdge { source, target, condition });
        proof {
            assert forall|j: int| 0 <= j < self.edges@.len() implies {
                &&& ids_of(self.nodes@).contains(#[trigger] self.edges@[j].source@)
                &&& ids_of(self.nodes@).contains(self.edges@[j].target@)
            } by {
                if j < before.len() {
                    assert(self.edges@[j] == old(self).edges@[j]);
                    assert(ids_of(old(self).nodes@).contains(old(self).edges@[j].source@));
                } else {
                    assert(ids_of(self.nodes@)[si as int] == self.edges@[j].source@);
                    assert(ids_of(self.nodes@)[ti as int] == self.edges@[j].target@);
                }
            }
        }
        Ok(())
    }

    /// Adds an edge that is always taken; refused when an end is not a node.
    pub fn add_edge<S: IntoText, T: IntoText>(&mut self, source: S, target: T) -> (res: Result<(), ChainError>)
        requires
            old(self).wf(),
        ensures
            final(self).wf(),
            final(self).node_seq() == old(self).node_seq(),
            !ids_of(old(self).node_seq()).contains(source.text_view()) ==> {
                &&& res matches Err(ChainError::ValidationError(m)) && m@ == missing_source_message(source.text_view())
                &&& final(self).edge_seq() == old(self).edge_seq()
            },
            ids_of(old(self).node_seq()).contains(source.text_view()) && !ids_of(old(self).node_seq()).contains(target.text_view()) ==> {
                &&& res matches Err(ChainError::ValidationError(m)) && m@ == missing_target_message(target.text_view())
                &&& final(self).edge_seq() == old(self).edge_seq()
            },
            ids_of(old(self).node_seq()).contains(source.text_view()) && ids_of(old(self).node_seq()).contains(target.text_view()) ==> {
                &&& res is Ok
                &&& final(self).edge_seq().drop_last() == old(self).edge_seq()
                &&& final(self).edge_seq().len() == old(self).edge_seq().len() + 1
                &&& final(self).edge_seq().last().source@ == source.text_view()
                &&& final(self).edge_seq().last().target@ == target.text_view()
                &&& final(self).edge_seq().last().condition is None
            },
    {
        let s = source.into_text();
        let t = target.into_text();
        self.push_edge(s, t, None)
    }

    /// Adds an edge taken under the named condition; refused when an end is
    /// not a node.
    pub fn add_conditional_edge<S: IntoText, T: IntoText, C: IntoText>(
        &mut self,
        source: S,
        target: T,
        condition: C,
    ) -> (res: Result<(), ChainError>)
        requires
            old(self).wf(),
        ensures
            final(self).wf(),
            final(self).node_seq() == old(self).node_seq(),
            !ids_of(old(self).node_seq()).contains(source.text_view()) ==> {
                &&& res matches Err(ChainError::ValidationError(m)) && m@ == missing_source_message(source.text_view())
                &&& final(self).edge_seq() == old(self).edge_seq()
            },
            ids_of(old(self).node_seq()).contains(source.text_view()) && !ids_of(old(self).node_seq()).contains(target.text_view()) ==> {
                &&& res matches Err(ChainError::ValidationError(m)) && m@ == missing_target_message(target.text_view())
                &&& final(self).edge_seq() == old(self).edge_seq()
            },
            ids_of(old(self).node_seq()).contains(source.text_view()) && ids_of(old(self).node_seq()).contains(target.text_view()) ==> {
                &&& res is Ok
                &&& final(self).edge_seq().drop_last() == old(self).edge_seq()
                &&& final(self).edge_seq().len() == old(self).edge_seq().len() + 1
                &&& final(self).edge_seq().last().source@ == source.text_view()
                &&& final(self).edge_seq().last().target@ == target.text_view()
                &&& final(self).edge_seq().last().condition matches Some(c) && c@ == condition.text_view()
            },
    {
        let s = source.into_text();
        let t = target.into_text();
        let c = condition.into_text();
        self.push_edge(s, t, Some(c))
    }
}

/// `ex` gives, for every edge, the positions of its source and target nodes.
pub open spec fn edge_positions_ok(nodes: Seq<GraphNode>, edges: Seq<GraphEdge>, ex: Seq<(usize, usize)>) -> bool {
    &&& ex.len() == edges.len()
    &&& forall|j: int|
        0 <= j < ex.len() ==> {
            &&& (#[trigger] ex[j]).0 < nodes.len()
            &&& ex[j].1 < nodes.len()
            &&& nodes[ex[j].0 as int].id@ == edges[j].source@
            &&& nodes[ex[j].1 as int].id@ == edges[j].target@
        }
}

/// The number of edges into `t` whose source is not yet `done`.
pub open spec fn open_in(ex: Seq<(usize, usize)>, t: int, done: Seq<bool>) -> nat
    decreases ex.len(),
{
    if ex.len() == 0 {
        0
    } else {
        open_in(ex.drop_last(), t, done) + if ex.last().1 == t && !done[ex.last().0 as int] {
            1nat
        } else {
            0nat
        }
    }
}

/// The number of edges from `u` to `t`.
pub open spec fn pairs(ex: Seq<(usize, usize)>, u: int, t: int) -> nat
    decreases ex.len(),
{
    if ex.len() == 0 {
        0
    } else {
        pairs(ex.drop_last(), u, t) + if ex.last().0 == u && ex.last().1 == t {
            1nat
        } else {
            0nat
        }
    }
}

/// The number of positions not yet placed in the queue (marked `-1`).
pub open spec fn unqueued(pos: Seq<int>) -> nat
    decreases pos.len(),
{
    if pos.len() == 0 {
        0
    } else {
        unqueued(pos.drop_last()) + if pos.last() == -1 {
            1nat
        } else {
            0nat
        }
    }
}

/// Marking `u` done removes exactly the edges from `u` from the open count.
proof fn lemma_open_in_done(ex: Seq<(usize, usize)>, t: int, done: Seq<bool>, u: int)
    requires
        0 <= u < done.len(),
        !done[u],
        forall|j: int| 0 <= j < ex.len() ==> (#[trigger] ex[j]).0 < done.len(),
    ensures
        open_in(ex, t, done) == open_in(ex, t, done.update(u, true)) + pairs(ex, u, t),
    decreases ex.len(),
{
    if ex.len() > 0 {
        assert forall|j: int| 0 <= j < ex.drop_last().len() implies (#[trigger] ex.drop_last()[j]).0 < done.len() by {
            assert(ex.drop_last()[j] == ex[j]);
        }
        lemma_open_in_done(ex.drop_last(), t, done, u);
        assert(ex[ex.len() - 1] == ex.last());
    }
}

/// Counting edges from `u` to `t` over a prefix never exceeds the full count.
proof fn lemma_pairs_prefix(ex: Seq<(usize, usize)>, j: int, u: int, t: int)
    requires
        0 <= j <= ex.len(),
    ensures
        pairs(ex.take(j), u, t) <= pairs(ex, u, t),
    decreases ex.len() - j,
{
    if j < ex.len() {
        lemma_pairs_prefix(ex, j + 1, u, t);
        assert(ex.take(j + 1).drop_last() =~= ex.take(j));
    } else {
        assert(ex.take(j) =~= ex);
    }
}

/// With no open edge into `t`, every edge into `t` comes from a done node.
proof fn lemma_open_in_zero(ex: Seq<(usize, usize)>, t: int, done: Seq<bool>)
    requires
        open_in(ex, t, done) == 0,
    ensures
        forall|j: int| 0 <= j < ex.len() && (#[trigger] ex[j]).1 == t ==> done[ex[j].0 as int],
    decreases ex.len(),
{
    if ex.len() > 0 {
        lemma_open_in_zero(ex.drop_last(), t, done);
        assert forall|j: int| 0 <= j < ex.len() && (#[trigger] ex[j]).1 == t implies done[ex[j].0 as int] by {
            if j < ex.len() - 1 {
                assert(ex.drop_last()[j] == ex[j]);
            }
        }
    }
}

/// An open edge into `t` has a source that is not done.
proof fn lemma_open_in_witness(ex: Seq<(usize, usize)>, t: int, done: Seq<bool>) -> (j: int)
    requires
        open_in(ex, t, done) > 0,
    ensures
        0 <= j < ex.len(),
        ex[j].1 == t,
        !done[ex[j].0 as int],
    decreases ex.len(),
{
    if ex.last().1 == t && !done[ex.last().0 as int] {
        ex.len() - 1
    } else {
        let j = lemma_open_in_witness(ex.drop_last(), t, done);
        assert(ex.drop_last()[j] == ex[j]);
        j
    }
}

/// Placing an unqueued position lowers the unqueued count by one.
proof fn lemma_unqueued_place(pos: Seq<int>, t: int, v: int)
    requires
        0 <= t < pos.len(),
        pos[t] == -1,
        v != -1,
    ensures
        unqueued(pos.update(t, v)) + 1 == unqueued(pos),
    decreases pos.len(),
{
    if t < pos.len() - 1 {
        lemma_unqueued_place(pos.drop_last(), t, v);
        assert(pos.update(t, v).drop_last() =~= pos.drop_last().update(t, v));
    } else {
        assert(pos.update(t, v).drop_last() =~= pos.drop_last());
    }
}

/// The unqueued count never exceeds the length.
proof fn lemma_unqueued_bound(pos: Seq<int>)
    ensures
        unqueued(pos) <= pos.len(),
        (forall|i: int| 0 <= i < pos.len() ==> pos[i] == -1) ==> unqueued(pos) == pos.len(),
    decreases pos.len(),
{
    if pos.len() > 0 {
        lemma_unqueued_bound(pos.drop_last());
        if forall|i: int| 0 <= i < pos.len() ==> pos[i] == -1 {
            assert forall|i: int| 0 <= i < pos.drop_last().len() implies pos.drop_last()[i] == -1 by {
                assert(pos[i] == -1);
            }
            assert(pos[pos.len() - 1] == -1);
        }
    }
}

/// The least `a <= k` at which `p` holds.
proof fn lemma_least(p: spec_fn(int) -> bool, k: int) -> (a: int)
    requires
        0 <= k,
        p(k),
    ensures
        0 <= a <= k,
        p(a),
        forall|c: int| 0 <= c < a ==> !#[trigger] p(c),
    decreases k,
{
    if exists|c: int| 0 <= c < k && #[trigger] p(c) {
        let c = choose|c: int| 0 <= c < k && #[trigger] p(c);
        lemma_least(p, c)
    } else {
        k
    }
}

/// When every node that is not done has an edge from another node that is
/// not done, no order can place all nodes after their predecessors.
proof fn lemma_stuck_is_cyclic(nodes: Seq<GraphNode>, edges: Seq<GraphEdge>, ex: Seq<(usize, usize)>, done: Seq<bool>, r0: int)
    requires
        edge_positions_ok(nodes, edges, ex),
        done.len() == nodes.len(),
        0 <= r0 < nodes.len(),
        !done[r0],
        forall|r: int|
            0 <= r < nodes.len() && !done[r] ==> exists|j: int|
                0 <= j < ex.len() && (#[trigger] ex[j]).1 == r && !done[ex[j].0 as int],
    ensures
        !acyclic(nodes, edges),
{
    if acyclic(nodes, edges) {
        let o = choose|o: Seq<Seq<char>>| is_topo_order(nodes, edges, o);
        let p = |a: int| 0 <= a < o.len() && exists|r: int| 0 <= r < nodes.len() && !done[r] && o[a] == nodes[r].id@;
        assert(o.contains(nodes[r0].id@));
        let a0 = choose|a: int| 0 <= a < o.len() && o[a] == nodes[r0].id@;
        assert(p(a0));
        let a = lemma_least(p, a0);
        let r = choose|r: int| 0 <= r < nodes.len() && !done[r] && o[a] == nodes[r].id@;
        let j = choose|j: int| 0 <= j < ex.len() && (#[trigger] ex[j]).1 == r && !done[ex[j].0 as int];
        let u = ex[j].0 as int;
        assert(o.contains(nodes[u].id@));
        let b = choose|b: int| 0 <= b < o.len() && o[b] == nodes[u].id@;
        assert(o[b] == edges[j].source@ && o[a] == edges[j].target@);
        assert(b < a);
        assert(p(b));
    }
}

impl RunnableGraph {
    /// The positions of the two ends of every edge.
    fn edge_positions(&self) -> (ex: Vec<(usize, usize)>)
        requires
            self.wf(),
        ensures
            edge_positions_ok(self.node_seq(), self.edge_seq(), ex@),
    {
        let mut ex: Vec<(usize, usize)> = Vec::new();
        let mut j: usize = 0;
        while j < self.edges.len()
            invariant
                self.wf(),
                j <= self.edges@.len(),
                ex@.len() == j,
                forall|i: int|
                    0 <= i < j ==> {
                        &&& (#[trigger] ex@[i]).0 < self.nodes@.len()
                        &&& ex@[i].1 < self.nodes@.len()
                        &&& self.nodes@[ex@[i].0 as int].id@ == self.edges@[i].source@
                        &&& self.nodes@[ex@[i].1 as int].id@ == self.edges@[i].target@
                    },
            decreases self.edges@.len() - j,
        {
            assert(ids_of(self.node_seq()).contains(self.edge_seq()[j as int].source@));
            let s = match self.index_of(self.edges[j].source.as_str()) {
                Some(i) => i,
                None => {
                    assert(false);
                    0
                },
            };
            let t = match self.index_of(self.edges[j].target.as_str()) {
                Some(i) => i,
                None => {
                    assert(false);
                    0
                },
            };
            ex.push((s, t));
            j += 1;
        }
        ex
    }
}

impl RunnableGraph {
    /// A topological order of the node ids (every edge's source before its
    /// target), or a validation error when the graph has a cycle.
    pub fn topological_order(&self) -> (res: Result<Vec<String>, ChainError>)
        requires
            self.wf(),
        ensures
            res is Ok <==> acyclic(self.node_seq(), self.edge_seq()),
            res matches Ok(o) ==> is_topo_order(self.node_seq(), self.edge_seq(), views(o@)),
            res matches Err(e) ==> e matches ChainError::ValidationError(m) && m@ == "Graph contains a cycle"@,
    {
        let n = self.nodes.len();
        let ex = self.edge_positions();
        let m = ex.len();
        let ghost all_false = Seq::new(n as nat, |i: int| false);
        // In-degrees.
        let mut indeg: Vec<usize> = Vec::new();
        let mut i: usize = 0;
        while i < n
            invariant
                i <= n,
                indeg@.len() == i,
                forall|t: int| 0 <= t < i ==> indeg@[t] == 0,
            decreases n - i,
        {
            indeg.push(0);
            i += 1;
        }
        let mut j: usize = 0;
        while j < m
            invariant
                m == ex@.len(),
                n == self.nodes@.len(),
                edge_positions_ok(self.nodes@, self.edges@, ex@),
                j <= m,
                indeg@.len() == n,
                all_false == Seq::new(n as nat, |i: int| false),
                forall|t: int| 0 <= t < n ==> #[trigger] indeg@[t] == open_in(ex@.take(j as int), t, all_false),
                forall|t: int| 0 <= t < n ==> #[trigger] indeg@[t] <= j,
            decreases m - j,
        {
            let t = ex[j].1;
            proof {
                assert(ex@.take(j + 1).drop_last() =~= ex@.take(j as int));
                assert(ex@[j as int] == ex@.take(j + 1).last());
            }
            indeg.set(t, indeg[t] + 1);
            j += 1;
        }
        assert(ex@.take(m as int) =~= ex@);
        // Initial queue: the nodes without incoming edges.
        let mut queue: Vec<usize> = Vec::new();
        let ghost mut pos: Seq<int> = Seq::new(n as nat, |i: int| -1int);
        let ghost done: Seq<bool> = all_false;
        proof {
            lemma_unqueued_bound(pos);
        }
        let mut i: usize = 0;
        while i < n
            invariant
                m == ex@.len(),
                n == self.nodes@.len(),
                edge_positions_ok(self.nodes@, self.edges@, ex@),
                i <= n,
                indeg@.len() == n,
                pos.len() == n,
                done == all_false,
                all_false == Seq::new(n as nat, |i: int| false),
                unqueued(pos) + queue@.len() == n,
                forall|t: int| 0 <= t < n ==> #[trigger] indeg@[t] == open_in(ex@, t, done),
                forall|k: int| 0 <= k < queue@.len() ==> (#[trigger] queue@[k]) < n && pos[queue@[k] as int] == k,
                forall|t: int| 0 <= t < n ==> #[trigger] pos[t] == -1 || (0 <= pos[t] < queue@.len() && queue@[pos[t]] == t),
                forall|t: int| i <= t < n ==> #[trigger] pos[t] == -1,
                forall|t: int| 0 <= t < i ==> (#[trigger] indeg@[t] == 0 <==> pos[t] != -1),
                forall|e: int| 0 <= e < m ==> #[trigger] pos[ex@[e].1 as int] == -1,
            decreases n - i,
        {
            if indeg[i] == 0 {
                proof {
                    lemma_open_in_zero(ex@, i as int, done);
                    assert forall|e: int| 0 <= e < m implies #[trigger] pos[ex@[e].1 as int] == -1 by {
                        if ex@[e].1 == i {
                            assert(!done[ex@[e].0 as int]);
                        }
                    }
                    lemma_unqueued_place(pos, i as int, queue@.len() as int);
                    pos = pos.update(i as int, queue@.len() as int);
                }
                queue.push(i);
            }
            i += 1;
        }
        // Repeatedly take the next queued node and release its successors.
        let mut head: usize = 0;
        let ghost mut done: Seq<bool> = done;
        while head < queue.len()
            invariant
                m == ex@.len(),
                n == self.nodes@.len(),
                edge_positions_ok(self.nodes@, self.edges@, ex@),
                indeg@.len() == n,
                pos.len() == n,
                done.len() == n,
                head <= queue@.len(),
                unqueued(pos) + queue@.len() == n,
                forall|k: int| 0 <= k < queue@.len() ==> (#[trigger] queue@[k]) < n && pos[queue@[k] as int] == k,
                forall|t: int| 0 <= t < n ==> #[trigger] pos[t] == -1 || (0 <= pos[t] < queue@.len() && queue@[pos[t]] == t),
                forall|t: int| 0 <= t < n ==> (#[trigger] done[t] <==> 0 <= pos[t] < head),
                forall|t: int| 0 <= t < n ==> #[trigger] indeg@[t] == open_in(ex@, t, done),
                forall|t: int| 0 <= t < n ==> (#[trigger] indeg@[t] == 0 <==> pos[t] != -1),
                forall|e: int|
                    0 <= e < m && #[trigger] pos[ex@[e].1 as int] != -1 ==> pos[ex@[e].0 as int] != -1 && pos[ex@[e].0 as int] < pos[ex@[e].1 as int],
            decreases n - head,
        {
            let u = queue[head];
            let ghost done_old = done;
            proof {
                lemma_unqueued_bound(pos);
                assert forall|t: int| 0 <= t < n implies #[trigger] open_in(ex@, t, done_old) == open_in(ex@, t, done_old.update(u as int, true)) + pairs(ex@, u as int, t) by {
                    lemma_open_in_done(ex@, t, done_old, u as int);
                }
                done = done.update(u as int, true);
                assert(ex@.take(0) =~= Seq::<(usize, usize)>::empty());
            }
            head += 1;
            let mut j: usize = 0;
            while j < m
                invariant
                    m == ex@.len(),
                    n == self.nodes@.len(),
                    edge_positions_ok(self.nodes@, self.edges@, ex@),
                    0 < head <= queue@.len(),
                    u == queue@[head - 1],
                    u < n,
                    j <= m,
                    indeg@.len() == n,
                    pos.len() == n,
                    done.len() == n,
                    done == done_old.update(u as int, true),
                    unqueued(pos) + queue@.len() == n,
                    forall|k: int| 0 <= k < queue@.len() ==> (#[trigger] queue@[k]) < n && pos[queue@[k] as int] == k,
                    forall|t: int| 0 <= t < n ==> #[trigger] pos[t] == -1 || (0 <= pos[t] < queue@.len() && queue@[pos[t]] == t),
                    forall|t: int| 0 <= t < n ==> (#[trigger] done[t] <==> 0 <= pos[t] < head),
                    forall|t: int|
                        0 <= t < n ==> #[trigger] indeg@[t] + pairs(ex@.take(j as int), u as int, t) == open_in(ex@, t, done) + pairs(ex@, u as int, t),
                    forall|t: int| 0 <= t < n ==> (#[trigger] indeg@[t] == 0 <==> pos[t] != -1),
                    forall|e: int|
                        0 <= e < m && #[trigger] pos[ex@[e].1 as int] != -1 ==> pos[ex@[e].0 as int] != -1 && pos[ex@[e].0 as int] < pos[ex@[e].1 as int],
                decreases m - j,
            {
                let (s, t) = ex[j];
                proof {
                    assert(ex@.take(j + 1).drop_last() =~= ex@.take(j as int));
                    assert(ex@[j as int] == ex@.take(j + 1).last());
                    lemma_pairs_prefix(ex@, j + 1, u as int, t as int);
                }
                if s == u {
                    let d = indeg[t] - 1;
                    indeg.set(t, d);
                    if d == 0 {
                        proof {
                            lemma_open_in_zero(ex@, t as int, done);
                            lemma_unqueued_place(pos, t as int, queue@.len() as int);
                            let q = queue@.len() as int;
                            let pos2 = pos.update(t as int, q);
                            assert forall|e: int|
                                0 <= e < m && #[trigger] pos2[ex@[e].1 as int] != -1 implies pos2[ex@[e].0 as int] != -1 && pos2[ex@[e].0 as int] < pos2[ex@[e].1 as int] by {
                                if ex@[e].1 == t {
                                    assert(done[ex@[e].0 as int]);
                                } else if ex@[e].0 == t {
                                    assert(pos[ex@[e].1 as int] != -1);
                                }
                            }
                            pos = pos2;
                        }
                        queue.push(t);
                    }
                }
                j += 1;
            }
            assert(ex@.take(m as int) =~= ex@);
        }
        // Every node must have been reached.
        let mut t: usize = 0;
        while t < n
            invariant
                n == self.nodes@.len(),
                m == ex@.len(),
                edge_positions_ok(self.nodes@, self.edges@, ex@),
                indeg@.len() == n,
                pos.len() == n,
                done.len() == n,
                head == queue@.len(),
                t <= n,
                forall|r: int| 0 <= r < t ==> #[trigger] indeg@[r] == 0,
                forall|k: int| 0 <= k < queue@.len() ==> (#[trigger] queue@[k]) < n && pos[queue@[k] as int] == k,
                forall|r: int| 0 <= r < n ==> #[trigger] pos[r] == -1 || (0 <= pos[r] < queue@.len() && queue@[pos[r]] == r),
                forall|r: int| 0 <= r < n ==> (#[trigger] done[r] <==> 0 <= pos[r] < head),
                forall|r: int| 0 <= r < n ==> #[trigger] indeg@[r] == open_in(ex@, r, done),
                forall|r: int| 0 <= r < n ==> (#[trigger] indeg@[r] == 0 <==> pos[r] != -1),
                forall|e: int|
                    0 <= e < m && #[trigger] pos[ex@[e].1 as int] != -1 ==> pos[ex@[e].0 as int] != -1 && pos[ex@[e].0 as int] < pos[ex@[e].1 as int],
            decreases n - t,
        {
            if indeg[t] != 0 {
                proof {
                    assert forall|r: int| 0 <= r < n && !done[r] implies exists|e: int|
                        0 <= e < ex@.len() && (#[trigger] ex@[e]).1 == r && !done[ex@[e].0 as int] by {
                        assert(pos[r] == -1);
                        assert(indeg@[r] != 0);
                        let e = lemma_open_in_witness(ex@, r, done);
                    }
                    lemma_stuck_is_cyclic(self.nodes@, self.edges@, ex@, done, t as int);
                }
                return Err(ChainError::ValidationError(String::from_str("Graph contains a cycle")));
            }
            t += 1;
        }
        // Read off the ids in queue order.
        let mut order: Vec<String> = Vec::new();
        let mut k: usize = 0;
        while k < queue.len()
            invariant
                n == self.nodes@.len(),
                m == ex@.len(),
                edge_positions_ok(self.nodes@, self.edges@, ex@),
                indeg@.len() == n,
                pos.len() == n,
                forall|r: int| 0 <= r < n ==> #[trigger] indeg@[r] == 0,
                forall|q: int| 0 <= q < queue@.len() ==> pos[queue@[q] as int] == q,
                forall|r: int| 0 <= r < n ==> #[trigger] pos[r] == -1 || (0 <= pos[r] < queue@.len() && queue@[pos[r]] == r),
                forall|r: int| 0 <= r < n ==> (#[trigger] indeg@[r] == 0 <==> pos[r] != -1),
                forall|e: int|
                    0 <= e < m && #[trigger] pos[ex@[e].1 as int] != -1 ==> pos[ex@[e].0 as int] != -1 && pos[ex@[e].0 as int] < pos[ex@[e].1 as int],
                k <= queue@.len(),
                order@.len() == k,
                forall|q: int| 0 <= q < queue@.len() ==> (#[trigger] queue@[q]) < n,
                forall|q: int| 0 <= q < k ==> (#[trigger] order@[q])@ == self.nodes@[queue@[q] as int].id@,
            decreases queue@.len() - k,
        {
            let id = self.nodes[queue[k]].id.clone();
            order.push(id);
            k += 1;
        }
        proof {
            let o = views(order@);
            let nodes = self.nodes@;
            let edges = self.edges@;
            assert forall|a: int, b: int| 0 <= a < o.len() && 0 <= b < o.len() && a != b implies o[a] != o[b] by {
                assert(o[a] == nodes[queue@[a] as int].id@);
                assert(o[b] == nodes[queue@[b] as int].id@);
                assert(ids_of(nodes)[queue@[a] as int] == o[a]);
                assert(ids_of(nodes)[queue@[b] as int] == o[b]);
            }
            assert forall|q: int| 0 <= q < o.len() implies ids_of(nodes).contains(#[trigger] o[q]) by {
                assert(ids_of(nodes)[queue@[q] as int] == o[q]);
            }
            assert forall|r: int| 0 <= r < nodes.len() implies o.contains(#[trigger] nodes[r].id@) by {
                assert(indeg@[r] == 0);
                assert(o[pos[r]] == nodes[r].id@);
            }
            assert forall|e: int, a: int, b: int|
                #![trigger edges[e], o[a], o[b]]
                0 <= e < edges.len() && 0 <= a < o.len() && 0 <= b < o.len() && o[a] == edges[e].source@
                    && o[b] == edges[e].target@ implies a < b by {
                let se = ex@[e].0 as int;
                let te = ex@[e].1 as int;
                assert(ids_of(nodes)[queue@[a] as int] == ids_of(nodes)[se]);
                assert(ids_of(nodes)[queue@[b] as int] == ids_of(nodes)[te]);
                assert(queue@[a] == se);
                assert(queue@[b] == te);
                assert(indeg@[te] == 0);
            }
            assert(is_topo_order(nodes, edges, o));
        }
        Ok(order)
    }
}

/// Whether some edge starts or ends at `id`.
pub open spec fn touches(edges: Seq<GraphEdge>, id: Seq<char>) -> bool {
    exists|j: int| 0 <= j < edges.len() && ((#[trigger] edges[j]).source@ == id || edges[j].target@ == id)
}

/// Whether some edge ends at `id`.
pub open spec fn is_target(edges: Seq<GraphEdge>, id: Seq<char>) -> bool {
    exists|j: int| 0 <= j < edges.len() && (#[trigger] edges[j]).target@ == id
}

/// Whether some edge starts at `id`.
pub open spec fn is_source(edges: Seq<GraphEdge>, id: Seq<char>) -> bool {
    exists|j: int| 0 <= j < edges.len() && (#[trigger] edges[j]).source@ == id
}

/// The ids of the nodes that no edge touches, in node order.
pub open spec fn orphan_ids(nodes: Seq<GraphNode>, edges: Seq<GraphEdge>) -> Seq<Seq<char>>
    decreases nodes.len(),
{
    if nodes.len() == 0 {
        Seq::empty()
    } else {
        let rest = orphan_ids(nodes.drop_last(), edges);
        if touches(edges, nodes.last().id@) {
            rest
        } else {
            rest.push(nodes.last().id@)
        }
    }
}

/// The nodes that no edge ends at, in node order.
pub open spec fn start_nodes(nodes: Seq<GraphNode>, edges: Seq<GraphEdge>) -> Seq<GraphNode>
    decreases nodes.len(),
{
    if nodes.len() == 0 {
        Seq::empty()
    } else {
        let rest = start_nodes(nodes.drop_last(), edges);
        if is_target(edges, nodes.last().id@) {
            rest
        } else {
            rest.push(nodes.last())
        }
    }
}

/// The nodes that no edge starts at, in node order.
pub open spec fn end_nodes(nodes: Seq<GraphNode>, edges: Seq<GraphEdge>) -> Seq<GraphNode>
    decreases nodes.len(),
{
    if nodes.len() == 0 {
        Seq::empty()
    } else {
        let rest = end_nodes(nodes.drop_last(), edges);
        if is_source(edges, nodes.last().id@) {
            rest
        } else {
            rest.push(nodes.last())
        }
    }
}

/// The text of the error for orphan nodes.
pub open spec fn orphan_message(nodes: Seq<GraphNode>, edges: Seq<GraphEdge>) -> Seq<char> {
    "Orphan nodes found: "@ + join(orphan_ids(nodes, edges), ", "@)
}

/// Whether `validate` accepts the graph: empty, or without cycle and, with
/// more than one node, without orphan nodes.
pub open spec fn valid_graph(nodes: Seq<GraphNode>, edges: Seq<GraphEdge>) -> bool {
    nodes.len() == 0 || (acyclic(nodes, edges) && (nodes.len() <= 1 || orphan_ids(nodes, edges).len() == 0))
}

impl RunnableGraph {
    /// Whether some edge starts or ends at `id`.
    fn touches_id(&self, id: &str) -> (b: bool)
        ensures
            b == touches(self.edge_seq(), id@),
    {
        let mut j: usize = 0;
        while j < self.edges.len()
            invariant
                j <= self.edges@.len(),
                forall|i: int| 0 <= i < j ==> !((#[trigger] self.edges@[i]).source@ == id@ || self.edges@[i].target@ == id@),
            decreases self.edges@.len() - j,
        {
            let a = str_equal(self.edges[j].source.as_str(), id);
            let b = str_equal(self.edges[j].target.as_str(), id);
            if a || b {
                return true;
            }
            j += 1;
        }
        false
    }

    /// Whether some edge ends at `id`.
    fn is_target_id(&self, id: &str) -> (b: bool)
        ensures
            b == is_target(self.edge_seq(), id@),
    {
        let mut j: usize = 0;
        while j < self.edges.len()
            invariant
                j <= self.edges@.len(),
                forall|i: int| 0 <= i < j ==> (#[trigger] self.edges@[i]).target@ != id@,
            decreases self.edges@.len() - j,
        {
            if str_equal(self.edges[j].target.as_str(), id) {
                return true;
            }
            j += 1;
        }
        false
    }

    /// Whether some edge starts at `id`.
    fn is_source_id(&self, id: &str) -> (b: bool)
        ensures
            b == is_source(self.edge_seq(), id@),
    {
        let mut j: usize = 0;
        while j < self.edges.len()
            invariant
                j <= self.edges@.len(),
                forall|i: int| 0 <= i < j ==> (#[trigger] self.edges@[i]).source@ != id@,
            decreases self.edges@.len() - j,
        {
            if str_equal(self.edges[j].source.as_str(), id) {
                return true;
            }
            j += 1;
        }
        false
    }

    /// The ids of the nodes that no edge touches, in node order.
    pub fn orphan_nodes(&self) -> (out: Vec<String>)
        ensures
            views(out@) == orphan_ids(self.node_seq(), self.edge_seq()),
    {
        let mut out: Vec<String> = Vec::new();
        let mut i: usize = 0;
        while i < self.nodes.len()
            invariant
                i <= self.nodes@.len(),
                views(out@) == orphan_ids(self.nodes@.take(i as int), self.edges@),
            decreases self.nodes@.len() - i,
        {
            proof {
                assert(self.nodes@.take(i + 1).drop_last() =~= self.nodes@.take(i as int));
                assert(self.nodes@.take(i + 1).last() == self.nodes@[i as int]);
            }
            if !self.touches_id(self.nodes[i].id.as_str()) {
                out.push(self.nodes[i].id.clone());
                assert(views(out@) =~= orphan_ids(self.nodes@.take(i + 1), self.edges@));
            }
            i += 1;
        }
        assert(self.nodes@.take(self.nodes@.len() as int) =~= self.nodes@);
        out
    }

    /// Checks that the graph has no cycle and, with more than one node, no
    /// node untouched by every edge. An empty graph is valid.
    pub fn validate(&self) -> (res: Result<(), ChainError>)
        requires
            self.wf(),
        ensures
            res is Ok <==> valid_graph(self.node_seq(), self.edge_seq()),
            self.node_seq().len() > 0 && !acyclic(self.node_seq(), self.edge_seq()) ==> (res matches Err(
                ChainError::ValidationError(m),
            ) && m@ == "Graph contains a cycle"@),
            self.node_seq().len() > 1 && acyclic(self.node_seq(), self.edge_seq()) && orphan_ids(self.node_seq(), self.edge_seq()).len() > 0
                ==> (res matches Err(ChainError::ValidationError(m)) && m@ == orphan_message(self.node_seq(), self.edge_seq())),
    {
        if self.nodes.len() == 0 {
            return Ok(());
        }
        match self.topological_order() {
            Err(e) => {
                return Err(e);
            },
            Ok(_) => {},
        }
        if self.nodes.len() > 1 {
            let orphans = self.orphan_nodes();
            if orphans.len() > 0 {
                let joined = join_strings(&orphans, ", ");
                let mut msg = String::from_str("Orphan nodes found: ");
                msg.append(joined.as_str());
                return Err(ChainError::ValidationError(msg));
            }
        }
        Ok(())
    }

    /// The single node that no edge ends at, if there is exactly one.
    pub fn first_node(&self) -> (res: Option<&GraphNode>)
        ensures
            res is Some <==> start_nodes(self.node_seq(), self.edge_seq()).len() == 1,
            res matches Some(nd) ==> *nd == start_nodes(self.node_seq(), self.edge_seq())[0],
    {
        let mut count: usize = 0;
        let mut first: usize = 0;
        let mut i: usize = 0;
        while i < self.nodes.len()
            invariant
                i <= self.nodes@.len(),
                count <= i,
                count == start_nodes(self.nodes@.take(i as int), self.edges@).len(),
                count > 0 ==> first < i && self.nodes@[first as int] == start_nodes(self.nodes@.take(i as int), self.edges@)[0],
            decreases self.nodes@.len() - i,
        {
            let ghost st = start_nodes(self.nodes@.take(i as int), self.edges@);
            proof {
                assert(self.nodes@.take(i + 1).drop_last() =~= self.nodes@.take(i as int));
                assert(self.nodes@.take(i + 1).last() == self.nodes@[i as int]);
            }
            if !self.is_target_id(self.nodes[i].id.as_str()) {
                assert(start_nodes(self.nodes@.take(i + 1), self.edges@) == st.push(self.nodes@[i as int]));
                if count == 0 {
                    first = i;
                }
                count += 1;
            } else {
                assert(start_nodes(self.nodes@.take(i + 1), self.edges@) == st);
            }
            i += 1;
        }
        assert(self.nodes@.take(self.nodes@.len() as int) =~= self.nodes@);
        if count == 1 {
            Some(&self.nodes[first])
        } else {
            None
        }
    }
}

impl RunnableGraph {
    /// The single node that no edge starts at, if there is exactly one.
    pub fn last_node(&self) -> (res: Option<&GraphNode>)
        ensures
            res is Some <==> end_nodes(self.node_seq(), self.edge_seq()).len() == 1,
            res matches Some(nd) ==> *nd == end_nodes(self.node_seq(), self.edge_seq())[0],
    {
        let mut count: usize = 0;
        let mut last: usize = 0;
        let mut i: usize = 0;
        while i < self.nodes.len()
            invariant
                i <= self.nodes@.len(),
                count <= i,
                count == end_nodes(self.nodes@.take(i as int), self.edges@).len(),
                count > 0 ==> last < i && self.nodes@[last as int] == end_nodes(self.nodes@.take(i as int), self.edges@)[0],
            decreases self.nodes@.len() - i,
        {
            let ghost en = end_nodes(self.nodes@.take(i as int), self.edges@);
            proof {
                assert(self.nodes@.take(i + 1).drop_last() =~= self.nodes@.take(i as int));
                assert(self.nodes@.take(i + 1).last() == self.nodes@[i as int]);
            }
            if !self.is_source_id(self.nodes[i].id.as_str()) {
                assert(end_nodes(self.nodes@.take(i + 1), self.edges@) == en.push(self.nodes@[i as int]));
                if count == 0 {
                    last = i;
                }
                count += 1;
            } else {
                assert(end_nodes(self.nodes@.take(i + 1), self.edges@) == en);
            }
            i += 1;
        }
        assert(self.nodes@.take(self.nodes@.len() as int) =~= self.nodes@);
        if count == 1 {
            Some(&self.nodes[last])
        } else {
            None
        }
    }

    /// The sources of the edges that end at `id`, in edge order.
    pub fn incoming_sources(&self, id: &str) -> (out: Vec<String>)
        ensures
            views(out@) == sources_into(self.edge_seq(), id@),
    {
        let mut out: Vec<String> = Vec::new();
        let mut j: usize = 0;
        while j < self.edges.len()
            invariant
                j <= self.edges@.len(),
                views(out@) == sources_into(self.edges@.take(j as int), id@),
            decreases self.edges@.len() - j,
        {
            proof {
                assert(self.edges@.take(j + 1).drop_last() =~= self.edges@.take(j as int));
                assert(self.edges@.take(j + 1).last() == self.edges@[j as int]);
            }
            if str_equal(self.edges[j].target.as_str(), id) {
                out.push(self.edges[j].source.clone());
                assert(views(out@) =~= sources_into(self.edges@.take(j + 1), id@));
            }
            j += 1;
        }
        assert(self.edges@.take(self.edges@.len() as int) =~= self.edges@);
        out
    }
}

/// The sources of the edges that end at `id`, in edge order.
pub open spec fn sources_into(edges: Seq<GraphEdge>, id: Seq<char>) -> Seq<Seq<char>>
    decreases edges.len(),
{
    if edges.len() == 0 {
        Seq::empty()
    } else {
        let rest = sources_into(edges.drop_last(), id);
        if edges.last().target@ == id {
            rest.push(edges.last().source@)
        } else {
            rest
        }
    }
}

/// The name of the node with id `id`.
pub open spec fn name_of(nodes: Seq<GraphNode>, id: Seq<char>) -> Seq<char> {
    nodes[choose|i: int| 0 <= i < nodes.len() && nodes[i].id@ == id].name@
}

/// Whether every edge that starts at `id` is conditional.
pub open spec fn all_out_conditional(edges: Seq<GraphEdge>, id: Seq<char>) -> bool {
    forall|j: int| 0 <= j < edges.len() && (#[trigger] edges[j]).source@ == id ==> edges[j].condition is Some
}

/// Whether every edge that ends at `id` is conditional.
pub open spec fn all_in_conditional(edges: Seq<GraphEdge>, id: Seq<char>) -> bool {
    forall|j: int| 0 <= j < edges.len() && (#[trigger] edges[j]).target@ == id ==> edges[j].condition is Some
}

/// The character drawn above a node: `.` when all its outgoing edges, or
/// all its incoming edges, are conditional (and there is at least one),
/// `*` otherwise.
pub open spec fn connector(edges: Seq<GraphEdge>, id: Seq<char>) -> char {
    if (is_source(edges, id) && all_out_conditional(edges, id)) || (is_target(edges, id) && all_in_conditional(edges, id)) {
        '.'
    } else {
        '*'
    }
}

/// A connector line: four spaces and the character three times.
pub open spec fn connector_line(c: char) -> Seq<char> {
    "    "@ + seq![c, c, c]
}

/// The box width for a name: its byte length, at least three.
pub open spec fn box_width(name: Seq<char>) -> nat {
    if blen(name) < 3 {
        3
    } else {
        blen(name)
    }
}

/// The top and bottom line of a node's box.
pub open spec fn box_border(name: Seq<char>) -> Seq<char> {
    "+"@ + Seq::new(box_width(name) + 2, |i: int| '-') + "+"@
}

/// The middle line of a node's box.
pub open spec fn box_label(name: Seq<char>) -> Seq<char> {
    "| "@ + name + " |"@
}

/// The lines of the ASCII drawing of the nodes in order `o`: each node's
/// box, with two connector lines above every box but the first.
pub open spec fn ascii_lines(nodes: Seq<GraphNode>, edges: Seq<GraphEdge>, o: Seq<Seq<char>>) -> Seq<Seq<char>>
    decreases o.len(),
{
    if o.len() == 0 {
        Seq::empty()
    } else {
        let name = name_of(nodes, o.last());
        let conn = if o.len() > 1 {
            seq![connector_line(connector(edges, o.last())), connector_line(connector(edges, o.last()))]
        } else {
            Seq::empty()
        };
        ascii_lines(nodes, edges, o.drop_last()) + conn + seq![box_border(name), box_label(name), box_border(name)]
    }
}

/// The ASCII drawing of the nodes in order `o`.
pub open spec fn ascii_art(nodes: Seq<GraphNode>, edges: Seq<GraphEdge>, o: Seq<Seq<char>>) -> Seq<char> {
    join(ascii_lines(nodes, edges, o), "\n"@)
}

/// The Mermaid line declaring a node.
pub open spec fn mermaid_node_line(n: GraphNode) -> Seq<char> {
    "    "@ + mermaid_id(n.id@) + "[\""@ + n.name@ + "\"]\n"@
}

/// The Mermaid line of an edge: dotted and labelled when conditional.
pub open spec fn mermaid_edge_line(e: GraphEdge) -> Seq<char> {
    match e.condition {
        Some(c) => "    "@ + mermaid_id(e.source@) + " -. \""@ + c@ + "\" .-> "@ + mermaid_id(e.target@) + "\n"@,
        None => "    "@ + mermaid_id(e.source@) + " --> "@ + mermaid_id(e.target@) + "\n"@,
    }
}

/// The node lines of a Mermaid diagram, in node order.
pub open spec fn mermaid_nodes(nodes: Seq<GraphNode>) -> Seq<char>
    decreases nodes.len(),
{
    if nodes.len() == 0 {
        Seq::empty()
    } else {
        mermaid_nodes(nodes.drop_last()) + mermaid_node_line(nodes.last())
    }
}

/// The edge lines of a Mermaid diagram, in edge order.
pub open spec fn mermaid_edges(edges: Seq<GraphEdge>) -> Seq<char>
    decreases edges.len(),
{
    if edges.len() == 0 {
        Seq::empty()
    } else {
        mermaid_edges(edges.drop_last()) + mermaid_edge_line(edges.last())
    }
}

/// The Mermaid flowchart of a graph.
pub open spec fn mermaid_text(nodes: Seq<GraphNode>, edges: Seq<GraphEdge>) -> Seq<char> {
    "graph TD;\n"@ + mermaid_nodes(nodes) + mermaid_edges(edges)
}

impl RunnableGraph {
    /// The connector character drawn above the node `id`.
    fn connector_char(&self, id: &str) -> (c: char)
        ensures
            c == connector(self.edge_seq(), id@),
    {
        let mut has_out = false;
        let mut all_out = true;
        let mut has_in = false;
        let mut all_in = true;
        let mut j: usize = 0;
        while j < self.edges.len()
            invariant
                j <= self.edges@.len(),
                has_out == exists|i: int| 0 <= i < j && (#[trigger] self.edges@[i]).source@ == id@,
                all_out == forall|i: int| 0 <= i < j && (#[trigger] self.edges@[i]).source@ == id@ ==> self.edges@[i].condition is Some,
                has_in == exists|i: int| 0 <= i < j && (#[trigger] self.edges@[i]).target@ == id@,
                all_in == forall|i: int| 0 <= i < j && (#[trigger] self.edges@[i]).target@ == id@ ==> self.edges@[i].condition is Some,
            decreases self.edges@.len() - j,
        {
            let cond = self.edges[j].condition.is_some();
            if str_equal(self.edges[j].source.as_str(), id) {
                has_out = true;
                all_out = all_out && cond;
            }
            if str_equal(self.edges[j].target.as_str(), id) {
                has_in = true;
                all_in = all_in && cond;
            }
            proof {
                let e = self.edges@[j as int];
                if e.source@ == id@ {
                    assert(has_out);
                }
                if e.target@ == id@ {
                    assert(has_in);
                }
            }
            j += 1;
        }
        if (has_out && all_out) || (has_in && all_in) {
            '.'
        } else {
            '*'
        }
    }

    /// The name of the node with id `id`, which must be a node of the graph.
    fn name_for(&self, id: &str) -> (name: String)
        requires
            self.wf(),
            ids_of(self.node_seq()).contains(id@),
        ensures
            name@ == name_of(self.node_seq(), id@),
    {
        match self.index_of(id) {
            Some(i) => {
                proof {
                    let nodes = self.nodes@;
                    let k = choose|k: int| 0 <= k < nodes.len() && nodes[k].id@ == id@;
                    assert(ids_of(nodes)[k] == ids_of(nodes)[i as int]);
                }
                self.nodes[i].name.clone()
            },
            None => {
                assert(false);
                String::new()
            },
        }
    }
}

/// Four spaces and the character three times.
fn connector_text(c: char) -> (s: String)
    ensures
        s@ == connector_line(c),
{
    let v: Vec<char> = vec![' ', ' ', ' ', ' ', c, c, c];
    proof {
        reveal_strlit("    ");
        assert(v@ =~= connector_line(c));
    }
    crate::text::string_from_chars(v.as_slice())
}

/// The top and bottom line of the box around `name`.
fn border_text(name: &str) -> (s: String)
    ensures
        s@ == box_border(name@),
{
    let b = byte_len(name);
    let w = if b < 3 {
        3
    } else {
        b
    };
    let mut v: Vec<char> = vec!['+', '-', '-'];
    let mut i: usize = 0;
    while i < w
        invariant
            i <= w,
            w == box_width(name@),
            v@ == seq!['+'] + Seq::new((i + 2) as nat, |k: int| '-'),
        decreases w - i,
    {
        v.push('-');
        i += 1;
        assert(v@ =~= seq!['+'] + Seq::new((i + 2) as nat, |k: int| '-'));
    }
    v.push('+');
    proof {
        reveal_strlit("+");
        assert(v@ =~= box_border(name@));
    }
    crate::text::string_from_chars(v.as_slice())
}

/// The middle line of the box around `name`.
fn label_text(name: &str) -> (s: String)
    ensures
        s@ == box_label(name@),
{
    let mut s = String::from_str("| ");
    s.append(name);
    s.append(" |");
    s
}

/// Draws the graph as stacked boxes in topological order, with two lines of
/// `*` (or of `.` when the edges involved are all conditional) between
/// consecutive boxes. An empty graph draws as nothing; a graph with a cycle
/// as `<graph contains cycle>`.
pub fn graph_ascii(graph: &RunnableGraph) -> (res: String)
    requires
        graph.wf(),
    ensures
        graph.node_seq().len() == 0 ==> res@ == Seq::<char>::empty(),
        graph.node_seq().len() > 0 && !acyclic(graph.node_seq(), graph.edge_seq()) ==> res@ == "<graph contains cycle>"@,
        graph.node_seq().len() > 0 && acyclic(graph.node_seq(), graph.edge_seq()) ==> exists|o: Seq<Seq<char>>|
            is_topo_order(graph.node_seq(), graph.edge_seq(), o) && res@ == ascii_art(graph.node_seq(), graph.edge_seq(), o),
{
    if graph.nodes().len() == 0 {
        return String::new();
    }
    let order = match graph.topological_order() {
        Ok(o) => o,
        Err(_) => {
            return String::from_str("<graph contains cycle>");
        },
    };
    let ghost o = views(order@);
    let mut lines: Vec<String> = Vec::new();
    let mut k: usize = 0;
    while k < order.len()
        invariant
            graph.wf(),
            o == views(order@),
            is_topo_order(graph.node_seq(), graph.edge_seq(), o),
            k <= order@.len(),
            views(lines@) == ascii_lines(graph.node_seq(), graph.edge_seq(), o.take(k as int)),
        decreases order@.len() - k,
    {
        let id = order[k].as_str();
        proof {
            assert(o.take(k + 1).drop_last() =~= o.take(k as int));
            assert(o.take(k + 1).last() == o[k as int]);
            assert(ids_of(graph.node_seq()).contains(o[k as int]));
        }
        let ghost before = views(lines@);
        if k > 0 {
            let c = graph.connector_char(id);
            lines.push(connector_text(c));
            lines.push(connector_text(c));
        }
        let name = graph.name_for(id);
        let border = border_text(name.as_str());
        lines.push(border.clone());
        lines.push(label_text(name.as_str()));
        lines.push(border);
        proof {
            let name_v = name_of(graph.node_seq(), o[k as int]);
            let conn = if k + 1 > 1 {
                seq![connector_line(connector(graph.edge_seq(), o[k as int])), connector_line(connector(graph.edge_seq(), o[k as int]))]
            } else {
                Seq::<Seq<char>>::empty()
            };
            assert(views(lines@) =~= before + conn + seq![box_border(name_v), box_label(name_v), box_border(name_v)]);
        }
        k += 1;
    }
    assert(o.take(order@.len() as int) =~= o);
    join_strings(&lines, "\n")
}

/// Pushes `x` onto the end of `s`.
fn append_text(s: &mut String, x: &str)
    ensures
        final(s)@ == old(s)@ + x@,
{
    s.append(x);
}

/// The Mermaid line of one edge.
fn mermaid_edge_text(e: &GraphEdge) -> (out: String)
    ensures
        out@ == mermaid_edge_line(*e),
{
    let src = to_safe_mermaid_id(e.source.as_str());
    let tgt = to_safe_mermaid_id(e.target.as_str());
    let mut out = String::from_str("    ");
    out.append(src.as_str());
    match &e.condition {
        Some(c) => {
            out.append(" -. \"");
            out.append(c.as_str());
            out.append("\" .-> ");
        },
        None => {
            out.append(" --> ");
        },
    }
    out.append(tgt.as_str());
    out.append("\n");
    out
}

/// The Mermaid flowchart of the graph: a `graph TD;` header, one line per
/// node in node order, then one line per edge in edge order, with dotted
/// labelled arrows for conditional edges.
pub fn graph_mermaid(graph: &RunnableGraph) -> (res: String)
    requires
        graph.wf(),
    ensures
        res@ == mermaid_text(graph.node_seq(), graph.edge_seq()),
{
    let mut out = String::from_str("graph TD;\n");
    if graph.nodes().len() == 0 {
        proof {
            if graph.edge_seq().len() > 0 {
                assert(ids_of(graph.node_seq()).contains(graph.edge_seq()[0].source@));
            }
            assert(graph.edge_seq() =~= Seq::<GraphEdge>::empty());
            assert(mermaid_text(graph.node_seq(), graph.edge_seq()) =~= "graph TD;\n"@);
        }
        return out;
    }
    let nodes = graph.nodes();
    let edges = graph.edges();
    let mut i: usize = 0;
    while i < nodes.len()
        invariant
            nodes@ == graph.node_seq(),
            i <= nodes@.len(),
            out@ == "graph TD;\n"@ + mermaid_nodes(nodes@.take(i as int)),
        decreases nodes@.len() - i,
    {
        proof {
            assert(nodes@.take(i + 1).drop_last() =~= nodes@.take(i as int));
            assert(nodes@.take(i + 1).last() == nodes@[i as int]);
        }
        let safe = to_safe_mermaid_id(nodes[i].id.as_str());
        append_text(&mut out, "    ");
        append_text(&mut out, safe.as_str());
        append_text(&mut out, "[\"");
        append_text(&mut out, nodes[i].name.as_str());
        append_text(&mut out, "\"]\n");
        i += 1;
    }
    assert(nodes@.take(nodes@.len() as int) =~= nodes@);
    let mut j: usize = 0;
    while j < edges.len()
        invariant
            nodes@ == graph.node_seq(),
            edges@ == graph.edge_seq(),
            j <= edges@.len(),
            out@ == "graph TD;\n"@ + mermaid_nodes(nodes@) + mermaid_edges(edges@.take(j as int)),
        decreases edges@.len() - j,
    {
        proof {
            assert(edges@.take(j + 1).drop_last() =~= edges@.take(j as int));
            assert(edges@.take(j + 1).last() == edges@[j as int]);
        }
        let line = mermaid_edge_text(&edges[j]);
        append_text(&mut out, line.as_str());
        j += 1;
    }
    assert(edges@.take(edges@.len() as int) =~= edges@);
    out
}

/// A graph without edges has no cycle: its node ids, in node order, are a
/// topological order.
pub proof fn law_edgeless_acyclic(nodes: Seq<GraphNode>)
    requires
        ids_of(nodes).no_duplicates(),
    ensures
        acyclic(nodes, Seq::<GraphEdge>::empty()),
{
    let o = ids_of(nodes);
    assert forall|i: int| 0 <= i < nodes.len() implies o.contains(#[trigger] nodes[i].id@) by {
        assert(o[i] == nodes[i].id@);
    }
    assert(is_topo_order(nodes, Seq::<GraphEdge>::empty(), o));
}

/// An edge from a node to itself is a cycle: no topological order exists.
pub proof fn law_self_loop_cyclic(nodes: Seq<GraphNode>, edges: Seq<GraphEdge>, j: int)
    requires
        0 <= j < edges.len(),
        edges[j].source@ == edges[j].target@,
        ids_of(nodes).contains(edges[j].source@),
    ensures
        !acyclic(nodes, edges),
{
    if acyclic(nodes, edges) {
        let o = choose|o: Seq<Seq<char>>| is_topo_order(nodes, edges, o);
        let i = choose|i: int| 0 <= i < ids_of(nodes).len() && ids_of(nodes)[i] == edges[j].source@;
        assert(o.contains(nodes[i].id@));
        let a = choose|a: int| 0 <= a < o.len() && o[a] == nodes[i].id@;
        assert(o[a] == edges[j].source@ && o[a] == edges[j].target@);
    }
}


/// The outputs of the nodes run so far: node id and output fields.
pub type NodeOutputs = Vec<(String, Vec<(String, serde_json::Value)>)>;

/// The output fields of node `id`: those of its first entry, if any.
pub open spec fn output_of(outs: Seq<(String, Vec<(String, serde_json::Value)>)>, id: Seq<char>) -> Option<Seq<(String, serde_json::Value)>>
    decreases outs.len(),
{
    if outs.len() == 0 {
        None
    } else if outs[0].0@ == id {
        Some(outs[0].1@)
    } else {
        output_of(outs.drop_first(), id)
    }
}

/// The input of a node with upstream `sources`: the outputs of those that
/// ran, merged in the order of `sources`, a later one's fields replacing an
/// earlier one's.
pub open spec fn merged_upstream(sources: Seq<Seq<char>>, outs: Seq<(String, Vec<(String, serde_json::Value)>)>) -> Map<Seq<char>, serde_json::Value>
    decreases sources.len(),
{
    if sources.len() == 0 {
        Map::empty()
    } else {
        let prev = merged_upstream(sources.drop_last(), outs);
        match output_of(outs, sources.last()) {
            Some(es) => prev.union_prefer_right(entries_map(es)),
            None => prev,
        }
    }
}

/// Every recorded output holds each field once.
pub open spec fn outputs_well_keyed(outs: Seq<(String, Vec<(String, serde_json::Value)>)>) -> bool {
    forall|i: int| 0 <= i < outs.len() ==> keys_distinct(#[trigger] outs[i].1@)
}

/// The index of the first recorded output of node `id`.
fn find_output(outs: &NodeOutputs, id: &str) -> (r: Option<usize>)
    ensures
        match r {
            Some(i) => i < outs@.len() && output_of(outs@, id@) == Some(outs@[i as int].1@),
            None => output_of(outs@, id@) is None,
        },
{
    let mut i: usize = 0;
    assert(outs@.skip(0) =~= outs@);
    while i < outs.len()
        invariant
            i <= outs@.len(),
            output_of(outs@, id@) == output_of(outs@.skip(i as int), id@),
        decreases outs@.len() - i,
    {
        assert(outs@.skip(i as int).drop_first() =~= outs@.skip(i + 1));
        assert(outs@.skip(i as int)[0] == outs@[i as int]);
        if str_equal(outs[i].0.as_str(), id) {
            return Some(i);
        }
        i += 1;
    }
    None
}

/// A copy of output fields.
fn copy_fields(es: &Vec<(String, serde_json::Value)>) -> (r: Vec<(String, serde_json::Value)>)
    ensures
        r@ == es@,
{
    let mut r: Vec<(String, serde_json::Value)> = Vec::new();
    let mut i: usize = 0;
    while i < es.len()
        invariant
            i <= es@.len(),
            r@ == es@.take(i as int),
        decreases es@.len() - i,
    {
        r.push((es[i].0.clone(), copy_value(&es[i].1)));
        assert(r@ =~= es@.take(i + 1));
        i += 1;
    }
    assert(es@.take(es@.len() as int) =~= es@);
    r
}

/// The input of a node whose upstream nodes are `sources`: the outputs of
/// those that ran, merged in order (see [`merged_upstream`]).
pub fn merge_upstream(sources: &Vec<String>, outs: &NodeOutputs) -> (r: Vec<(String, serde_json::Value)>)
    requires
        outputs_well_keyed(outs@),
    ensures
        keys_distinct(r@),
        entries_map(r@) == merged_upstream(views(sources@), outs@),
{
    let mut merged: Vec<(String, serde_json::Value)> = Vec::new();
    assert(entries_map(merged@) =~= Map::<Seq<char>, serde_json::Value>::empty());
    let mut i: usize = 0;
    while i < sources.len()
        invariant
            i <= sources@.len(),
            outputs_well_keyed(outs@),
            keys_distinct(merged@),
            entries_map(merged@) == merged_upstream(views(sources@).take(i as int), outs@),
        decreases sources@.len() - i,
    {
        proof {
            assert(views(sources@).take(i + 1).drop_last() =~= views(sources@).take(i as int));
            assert(views(sources@).take(i + 1).last() == sources@[i as int]@);
        }
        match find_output(outs, sources[i].as_str()) {
            Some(k) => {
                let added = copy_fields(&outs[k].1);
                assert(keys_distinct(outs@[k as int].1@));
                merged = assign_entries(merged, &added);
            },
            None => {},
        }
        i += 1;
    }
    assert(views(sources@).take(sources@.len() as int) =~= views(sources@));
    merged
}

/// What a graph run returns: the output of the single end node when there
/// is one, else of the last node in the order; no fields when that node
/// left none. An error when the graph has no nodes.
pub fn graph_result(end: Option<&str>, order: &Vec<String>, outs: &NodeOutputs) -> (r: Result<Vec<(String, serde_json::Value)>, ChainError>)
    ensures
        end matches Some(e) ==> (r matches Ok(v) && v@ == match output_of(outs@, e@) {
            Some(es) => es,
            None => Seq::<(String, serde_json::Value)>::empty(),
        }),
        end is None && order@.len() == 0 ==> (r matches Err(ChainError::ValidationError(m)) && m@ == "Graph has no nodes"@),
        end is None && order@.len() > 0 ==> (r matches Ok(v) && v@ == match output_of(outs@, order@.last()@) {
            Some(es) => es,
            None => Seq::<(String, serde_json::Value)>::empty(),
        }),
{
    let id: &str = match end {
        Some(e) => e,
        None => {
            if order.len() == 0 {
                return Err(ChainError::ValidationError(String::from_str("Graph has no nodes")));
            }
            order[order.len() - 1].as_str()
        },
    };
    match find_output(outs, id) {
        Some(k) => Ok(copy_fields(&outs[k].1)),
        None => Ok(Vec::new()),
    }
}

} // verus!
