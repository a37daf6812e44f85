//! An undirected graph with stable node indices and at most one edge between
//! any two nodes, kept in a `petgraph` stable graph.

use vstd::prelude::*;

use petgraph::graph::NodeIndex;
use petgraph::stable_graph::StableGraph;
use petgraph::Undirected;

use crate::molecule_builder::Particle;

verus! {

/// The integer order of a bond: 1 for a single bond, and so on.
pub type BondOrder = u8;

/// `petgraph`'s stable graph, opaque here; its contents are read through
/// `graph_nodes` and `graph_edges`.
#[verifier::external_type_specification]
#[verifier::external_body]
#[verifier::reject_recursive_types(N)]
#[verifier::reject_recursive_types(E)]
#[verifier::reject_recursive_types(Ty)]
#[verifier::reject_recursive_types(Ix)]
pub struct ExStableGraph<N, E, Ty, Ix>(StableGraph<N, E, Ty, Ix>);

/// `petgraph`'s marker for undirected edges.
#[verifier::external_type_specification]
#[verifier::external_body]
pub struct ExUndirected(Undirected);

/// The live nodes of a stable graph, by node index.
pub uninterp spec fn graph_nodes(g: StableGraph<Particle, u8, Undirected, usize>) -> Map<nat, Particle>;

/// The live edges of a stable graph, by edge index: the two endpoints in the
/// order they were given when the edge was added, and the edge's weight.
pub uninterp spec fn graph_edges(g: StableGraph<Particle, u8, Undirected, usize>) -> Map<nat, (nat, nat, u8)>;

type Inner = StableGraph<Particle, u8, Undirected, usize>;

/// Relies on `StableGraph::default`, which makes a graph without nodes or edges.
#[verifier::external_body]
fn inner_empty() -> (r: Inner)
    ensures
        graph_nodes(r).dom() == Set::<nat>::empty(),
        graph_edges(r).dom() == Set::<nat>::empty(),
{
    StableGraph::default()
}

/// Relies on `StableGraph::add_node`: the weight goes into a vacant slot or a
/// new one, so the index returned names no live node before the call; edges
/// are untouched. With `usize` indices the index-overflow assertion cannot fail.
#[verifier::external_body]
fn inner_add_node(g: &mut Inner, p: Particle) -> (r: usize)
    ensures
        !graph_nodes(*old(g)).contains_key(r as nat),
        graph_nodes(*final(g)) == graph_nodes(*old(g)).insert(r as nat, p),
        graph_edges(*final(g)) == graph_edges(*old(g)),
{
    g.add_node(p).index()
}

/// Relies on `StableGraph::remove_node`: a live node is removed together with
/// every edge that has it as an endpoint, other edges keep their indices, and
/// its weight is returned; for any other index the graph is unchanged and the
/// result is `None`.
#[verifier::external_body]
fn inner_remove_node(g: &mut Inner, a: usize) -> (r: Option<Particle>)
    ensures
        graph_nodes(*old(g)).contains_key(a as nat) ==> {
            &&& r == Some(graph_nodes(*old(g))[a as nat])
            &&& graph_nodes(*final(g)) == graph_nodes(*old(g)).remove(a as nat)
            &&& graph_edges(*final(g)) == graph_edges(*old(g)).restrict(
                graph_edges(*old(g)).dom().filter(|k: nat| !edge_touches(graph_edges(*old(g))[k], a as nat)),
            )
        },
        !graph_nodes(*old(g)).contains_key(a as nat) ==> {
            &&& r.is_none()
            &&& *final(g) == *old(g)
        },
{
    g.remove_node(NodeIndex::new(a))
}

/// Relies on `StableGraph::add_edge`, which panics unless both endpoints are
/// live nodes; the new edge takes a vacant or new edge index, and nodes and
/// other edges are untouched. It does not look for an existing edge.
#[verifier::external_body]
fn inner_add_edge(g: &mut Inner, a: usize, b: usize, w: u8) -> (r: usize)
    requires
        graph_nodes(*old(g)).contains_key(a as nat),
        graph_nodes(*old(g)).contains_key(b as nat),
    ensures
        !graph_edges(*old(g)).contains_key(r as nat),
        graph_edges(*final(g)) == graph_edges(*old(g)).insert(r as nat, (a as nat, b as nat, w)),
        graph_nodes(*final(g)) == graph_nodes(*old(g)),
{
    g.add_edge(NodeIndex::new(a), NodeIndex::new(b), w).index()
}

/// Relies on `StableGraph::node_weight`: the weight of a live node, `None`
/// for any other index.
#[verifier::external_body]
fn inner_node_weight(g: &Inner, a: usize) -> (r: Option<Particle>)
    ensures
        r == (if graph_nodes(*g).contains_key(a as nat) {
            Some(graph_nodes(*g)[a as nat])
        } else {
            None
        }),
{
    g.node_weight(NodeIndex::new(a)).copied()
}

/// Relies on `StableGraph::contains_edge`, which on an undirected graph looks
/// through the edges of a live node `a` for one whose other endpoint is `b`.
#[verifier::external_body]
fn inner_contains_edge(g: &Inner, a: usize, b: usize) -> (r: bool)
    ensures
        r == (graph_nodes(*g).contains_key(a as nat) && exists|k: nat|
            #![trigger graph_edges(*g)[k]]
            graph_edges(*g).contains_key(k) && edge_joins(graph_edges(*g)[k], a as nat, b as nat)),
{
    g.contains_edge(NodeIndex::new(a), NodeIndex::new(b))
}

/// Relies on `StableGraph::neighbors`, which on an undirected graph walks
/// every edge that has `a` as an endpoint and yields its other endpoint, once
/// per edge (a self loop, listed twice, is skipped the second time), and
/// yields nothing for an index that is not a live node.
#[verifier::external_body]
fn inner_neighbors(g: &Inner, a: usize) -> (r: Vec<usize>)
    ensures
        forall|i: int|
            #![trigger r@[i]]
            0 <= i < r@.len() ==> exists|k: nat|
                #![trigger graph_edges(*g)[k]]
                graph_edges(*g).contains_key(k) && edge_joins(graph_edges(*g)[k], a as nat, r@[i] as nat),
        graph_nodes(*g).contains_key(a as nat) ==> forall|k: nat|
            #![trigger graph_edges(*g)[k]]
            graph_edges(*g).contains_key(k) && edge_touches(graph_edges(*g)[k], a as nat)
                ==> r@.contains(other_end(graph_edges(*g)[k], a as nat) as usize),
        graph_nodes(*g).contains_key(a as nat) ==> r@.len() == graph_edges(*g).dom().filter(
            |k: nat| edge_touches(graph_edges(*g)[k], a as nat),
        ).len(),
        !graph_nodes(*g).contains_key(a as nat) ==> r@.len() == 0,
{
    g.neighbors(NodeIndex::new(a)).map(|n| n.index()).collect()
}

/// Relies on `StableGraph::node_indices`, which walks the node slots in
/// index order and yields those that hold a node.
#[verifier::external_body]
fn inner_node_indices(g: &Inner) -> (r: Vec<usize>)
    ensures
        forall|i: int, j: int| 0 <= i < j < r@.len() ==> r@[i] < r@[j],
        forall|i: int| 0 <= i < r@.len() ==> graph_nodes(*g).contains_key(#[trigger] r@[i] as nat),
        forall|n: nat| graph_nodes(*g).contains_key(n) ==> r@.contains(n as usize),
{
    g.node_indices().map(|n| n.index()).collect()
}

/// Whether an edge joins `x` and `y`, in either orientation.
pub open spec fn edge_joins(e: (nat, nat, u8), x: nat, y: nat) -> bool {
    (e.0 == x && e.1 == y) || (e.0 == y && e.1 == x)
}

/// Whether `x` is an endpoint of an edge.
pub open spec fn edge_touches(e: (nat, nat, u8), x: nat) -> bool {
    e.0 == x || e.1 == x
}

/// The endpoint of an edge that is not `x`.
pub open spec fn other_end(e: (nat, nat, u8), x: nat) -> nat {
    if e.0 == x { e.1 } else { e.0 }
}

/// The abstract content of a graph: nodes and edges by their indices.
pub struct GraphModel {
    pub nodes: Map<nat, Particle>,
    pub edges: Map<nat, (nat, nat, u8)>,
}

impl GraphModel {
    /// Whether some edge joins `x` and `y`.
    pub open spec fn adjacent(self, x: nat, y: nat) -> bool {
        exists|k: nat| #[trigger] self.edges.contains_key(k) && edge_joins(self.edges[k], x, y)
    }

    /// The edges that have `x` as an endpoint.
    pub open spec fn incident(self, x: nat) -> Set<nat> {
        self.edges.dom().filter(|k: nat| edge_touches(self.edges[k], x))
    }

    /// Finitely many nodes and edges, no self loops, no two edges between the
    /// same pair of nodes, every edge between live nodes and of order at
    /// least 1.
    pub open spec fn simple(self) -> bool {
        &&& self.nodes.dom().finite()
        &&& self.edges.dom().finite()
        &&& forall|n: nat| #[trigger] self.nodes.contains_key(n) ==> n <= usize::MAX
        &&& forall|k: nat| #[trigger] self.edges.contains_key(k) ==> {
            &&& self.nodes.contains_key(self.edges[k].0)
            &&& self.nodes.contains_key(self.edges[k].1)
            &&& self.edges[k].0 != self.edges[k].1
            &&& self.edges[k].2 >= 1
        }
        &&& forall|k1: nat, k2: nat|
            #![trigger self.edges[k1], self.edges[k2]]
            self.edges.contains_key(k1) && self.edges.contains_key(k2) && k1 != k2
                ==> !edge_joins(self.edges[k1], self.edges[k2].0, self.edges[k2].1)
    }
}

/// Why an edge could not be added.
#[derive(Debug, Clone, Copy, PartialEq, Eq, Structural)]
pub enum EdgeError {
    /// Both endpoints are the same node.
    SelfLoop,
    /// An endpoint is not a live node.
    MissingNode,
    /// The two nodes are already joined by an edge.
    DuplicateEdge,
    /// A bond order of zero.
    ZeroOrder,
}

/// An undirected graph of particles whose node indices stay valid until that
/// node is removed, with at most one edge between two nodes and none from a
/// node to itself.
pub struct MolGraph {
    inner: Inner,
}

impl View for MolGraph {
    type V = GraphModel;

    closed spec fn view(&self) -> GraphModel {
        GraphModel { nodes: graph_nodes(self.inner), edges: graph_edges(self.inner) }
    }
}

impl MolGraph {
    pub open spec fn wf(&self) -> bool {
        self@.simple()
    }

    /// A graph without nodes or edges.
    pub fn new() -> (r: Self)
        ensures
            r.wf(),
            r@.nodes.dom() == Set::<nat>::empty(),
            r@.edges.dom() == Set::<nat>::empty(),
    {
        MolGraph { inner: inner_empty() }
    }

    /// Adds a node and returns its index, which no live node had.
    pub fn add_node(&mut self, p: Particle) -> (r: usize)
        requires
            old(self).wf(),
        ensures
            final(self).wf(),
            !old(self)@.nodes.contains_key(r as nat),
            final(self)@.nodes == old(self)@.nodes.insert(r as nat, p),
            final(self)@.edges == old(self)@.edges,
    {
        let r = inner_add_node(&mut self.inner, p);
        assert forall|n: nat| #[trigger] self@.nodes.contains_key(n) implies n <= usize::MAX by {
            if n != r as nat {
                assert(old(self)@.nodes.contains_key(n));
            }
        }
        assert forall|k: nat| #[trigger] self@.edges.contains_key(k) implies {
            &&& self@.nodes.contains_key(self@.edges[k].0)
            &&& self@.nodes.contains_key(self@.edges[k].1)
        } by {
            assert(old(self)@.edges.contains_key(k));
        }
        r
    }

    /// Removes a node and every edge at it, returning its payload; `None`, with
    /// the graph unchanged, when `id` is not a live node.
    pub fn remove_node(&mut self, id: usize) -> (r: Option<Particle>)
        requires
            old(self).wf(),
        ensures
            final(self).wf(),
            old(self)@.nodes.contains_key(id as nat) ==> {
                &&& r == Some(old(self)@.nodes[id as nat])
                &&& final(self)@.nodes == old(self)@.nodes.remove(id as nat)
                &&& final(self)@.edges == old(self)@.edges.restrict(
                    old(self)@.edges.dom().filter(|k: nat| !edge_touches(old(self)@.edges[k], id as nat)),
                )
            },
            !old(self)@.nodes.contains_key(id as nat) ==> {
                &&& r.is_none()
                &&& final(self)@ == old(self)@
            },
    {
        let r = inner_remove_node(&mut self.inner, id);
        proof {
            if old(self)@.nodes.contains_key(id as nat) {
                vstd::set_lib::lemma_set_subset_finite(old(self)@.edges.dom(), self@.edges.dom());
                assert forall|k: nat| #[trigger] self@.edges.contains_key(k) implies {
                    &&& self@.nodes.contains_key(self@.edges[k].0)
                    &&& self@.nodes.contains_key(self@.edges[k].1)
                    &&& self@.edges[k] == old(self)@.edges[k]
                } by {
                    assert(old(self)@.edges.contains_key(k));
                }
            }
        }
        r
    }

    /// Joins `a` and `b` by an edge of the given order and returns the edge's
    /// index. Fails, leaving the graph unchanged, on a self loop, a missing
    /// endpoint, an existing edge between the two, or an order of zero.
    pub fn add_edge(&mut self, a: usize, b: usize, order: BondOrder) -> (r: Result<usize, EdgeError>)
        requires
            old(self).wf(),
        ensures
            final(self).wf(),
            a == b ==> r == Err::<usize, EdgeError>(EdgeError::SelfLoop),
            a != b && !(old(self)@.nodes.contains_key(a as nat) && old(self)@.nodes.contains_key(b as nat))
                ==> r == Err::<usize, EdgeError>(EdgeError::MissingNode),
            a != b && old(self)@.nodes.contains_key(a as nat) && old(self)@.nodes.contains_key(b as nat)
                && old(self)@.adjacent(a as nat, b as nat) ==> r == Err::<usize, EdgeError>(EdgeError::DuplicateEdge),
            a != b && old(self)@.nodes.contains_key(a as nat) && old(self)@.nodes.contains_key(b as nat)
                && !old(self)@.adjacent(a as nat, b as nat) && order == 0
                ==> r == Err::<usize, EdgeError>(EdgeError::ZeroOrder),
            r is Ok <==> (a != b && old(self)@.nodes.contains_key(a as nat) && old(self)@.nodes.contains_key(b as nat)
                && !old(self)@.adjacent(a as nat, b as nat) && order >= 1),
            r is Err ==> final(self)@ == old(self)@,
            r matches Ok(k) ==> {
                &&& a != b && order >= 1 && !old(self)@.adjacent(a as nat, b as nat)
                &&& !old(self)@.edges.contains_key(k as nat)
                &&& final(self)@.edges == old(self)@.edges.insert(k as nat, (a as nat, b as nat, order))
                &&& final(self)@.nodes == old(self)@.nodes
            },
    {
        if a == b {
            return Err(EdgeError::SelfLoop);
        }
        if inner_node_weight(&self.inner, a).is_none() || inner_node_weight(&self.inner, b).is_none() {
            return Err(EdgeError::MissingNode);
        }
        if self.contains_edge(a, b) {
            return Err(EdgeError::DuplicateEdge);
        }
        if order == 0 {
            return Err(EdgeError::ZeroOrder);
        }
        let k = inner_add_edge(&mut self.inner, a, b, order);
        proof {
            assert(self@.nodes == old(self)@.nodes);
            assert forall|k1: nat, k2: nat|
                #![trigger self@.edges[k1], self@.edges[k2]]
                self@.edges.contains_key(k1) && self@.edges.contains_key(k2) && k1 != k2
                    implies !edge_joins(self@.edges[k1], self@.edges[k2].0, self@.edges[k2].1) by {
                if k1 != k as nat && k2 != k as nat {
                    assert(old(self)@.edges.contains_key(k1) && old(self)@.edges.contains_key(k2));
                } else if k1 == k as nat {
                    assert(old(self)@.edges.contains_key(k2));
                    if edge_joins(self@.edges[k1], self@.edges[k2].0, self@.edges[k2].1) {
                        assert(edge_joins(old(self)@.edges[k2], a as nat, b as nat));
                        assert(old(self)@.adjacent(a as nat, b as nat));
                    }
                } else {
                    assert(old(self)@.edges.contains_key(k1));
                    if edge_joins(self@.edges[k1], self@.edges[k2].0, self@.edges[k2].1) {
                        assert(edge_joins(old(self)@.edges[k1], a as nat, b as nat));
                        assert(old(self)@.adjacent(a as nat, b as nat));
                    }
                }
            }
            assert forall|k1: nat| #[trigger] self@.edges.contains_key(k1) implies {
                &&& self@.nodes.contains_key(self@.edges[k1].0)
                &&& self@.nodes.contains_key(self@.edges[k1].1)
                &&& self@.edges[k1].0 != self@.edges[k1].1
                &&& self@.edges[k1].2 >= 1
            } by {
                if k1 != k as nat {
                    assert(old(self)@.edges.contains_key(k1));
                }
            }
        }
        Ok(k)
    }

    /// The payload of a live node; `None` for any other index.
    pub fn node_weight(&self, id: usize) -> (r: Option<Particle>)
        ensures
            r == (if self@.nodes.contains_key(id as nat) {
                Some(self@.nodes[id as nat])
            } else {
                None
            }),
    {
        inner_node_weight(&self.inner, id)
    }

    /// Whether an edge joins `a` and `b`.
    pub fn contains_edge(&self, a: usize, b: usize) -> (r: bool)
        requires
            self.wf(),
        ensures
            r == self@.adjacent(a as nat, b as nat),
    {
        let r = inner_contains_edge(&self.inner, a, b);
        proof {
            if self@.adjacent(a as nat, b as nat) {
                let k = choose|k: nat| #[trigger] self@.edges.contains_key(k) && edge_joins(self@.edges[k], a as nat, b as nat);
                assert(graph_edges(self.inner).contains_key(k) && edge_joins(graph_edges(self.inner)[k], a as nat, b as nat));
            }
            if r {
                let k = choose|k: nat| #[trigger] graph_edges(self.inner)[k] == graph_edges(self.inner)[k]
                    && graph_edges(self.inner).contains_key(k) && edge_joins(graph_edges(self.inner)[k], a as nat, b as nat);
                assert(self@.edges.contains_key(k));
            }
        }
        r
    }

    /// The nodes that share an edge with `id`, in no particular order.
    pub fn neighbors(&self, id: usize) -> (r: Vec<usize>)
        requires
            self.wf(),
        ensures
            forall|i: int| 0 <= i < r@.len() ==> self@.adjacent(id as nat, #[trigger] r@[i] as nat),
            forall|m: nat| self@.adjacent(id as nat, m) ==> r@.contains(m as usize),
            r@.len() == self@.incident(id as nat).len(),
    {
        let r = inner_neighbors(&self.inner, id);
        proof {
            assert forall|i: int| 0 <= i < r@.len() implies self@.adjacent(id as nat, #[trigger] r@[i] as nat) by {
                let k = choose|k: nat| #[trigger] graph_edges(self.inner)[k] == graph_edges(self.inner)[k]
                    && graph_edges(self.inner).contains_key(k) && edge_joins(graph_edges(self.inner)[k], id as nat, r@[i] as nat);
                assert(self@.edges.contains_key(k));
            }
            assert forall|m: nat| self@.adjacent(id as nat, m) implies r@.contains(m as usize) by {
                let k = choose|k: nat| #[trigger] self@.edges.contains_key(k) && edge_joins(self@.edges[k], id as nat, m);
                assert(graph_edges(self.inner)[k] == self@.edges[k]);
                assert(edge_touches(self@.edges[k], id as nat));
                assert(other_end(self@.edges[k], id as nat) == m);
            }
            if !self@.nodes.contains_key(id as nat) {
                assert(self@.incident(id as nat) =~= Set::empty()) by {
                    assert forall|k: nat| self@.edges.contains_key(k) implies !edge_touches(self@.edges[k], id as nat) by {}
                }
            }
        }
        r
    }

    /// The indices of the live nodes, in increasing order.
    pub fn node_indices(&self) -> (r: Vec<usize>)
        ensures
            forall|i: int, j: int| 0 <= i < j < r@.len() ==> r@[i] < r@[j],
            forall|i: int| 0 <= i < r@.len() ==> self@.nodes.contains_key(#[trigger] r@[i] as nat),
            forall|n: nat| self@.nodes.contains_key(n) ==> r@.contains(n as usize),
    {
        inner_node_indices(&self.inner)
    }
}

} // verus!
