//! Molecules as graphs of atoms and bonding sites, and the edit that grows a
//! molecule when one of its bonding sites is activated.

use vstd::prelude::*;

use crate::mol_graph::{edge_joins, edge_touches, other_end, GraphModel, MolGraph};
use crate::periodic_table::Element;

verus! {

/// What an atom node of a molecule graph carries.
#[derive(Debug, Clone, Copy, PartialEq, Eq, Structural)]
pub struct Atom {
    pub element: Element,
    /// The node this atom's local +z axis points towards. `None` for a root
    /// atom, whose +z axis is the molecule's +z axis.
    pub facing: Option<usize>,
}

/// The payload of a molecule graph node.
#[derive(Debug, Clone, Copy, PartialEq, Eq, Structural)]
pub enum Particle {
    Atom(Atom),
    /// An open valence position of the single atom it is bonded to.
    BondingSite,
}

/// The largest coordination number that the bond geometry table covers:
/// coordination numbers 1 to this one each have an idealized set of bonding
/// directions.
pub const MAX_COORDINATION: usize = 6;

/// Whether the bond geometry table has an entry for `k` directions.
pub open spec fn valid_coordination(k: usize) -> bool {
    1 <= k <= MAX_COORDINATION
}

/// The payload of a carbon atom with the given facing.
pub open spec fn carbon(facing: Option<usize>) -> Particle {
    Particle::Atom(Atom { element: Element::Carbon, facing })
}

/// Edge `k` is the one and only edge at node `n`, and its other end is an atom.
pub open spec fn sole_bond(m: GraphModel, n: nat, k: nat) -> bool {
    &&& m.edges.contains_key(k)
    &&& edge_touches(m.edges[k], n)
    &&& m.nodes.contains_key(other_end(m.edges[k], n))
    &&& m.nodes[other_end(m.edges[k], n)] is Atom
    &&& forall|k2: nat| #[trigger] m.edges.contains_key(k2) && edge_touches(m.edges[k2], n) ==> k2 == k
}

/// Node `n` has exactly one edge, and it leads to an atom.
pub open spec fn site_bonded(m: GraphModel, n: nat) -> bool {
    exists|k: nat| #[trigger] sole_bond(m, n, k)
}

/// A facing reference is absent or names a live atom.
pub open spec fn facing_target_ok(m: GraphModel, facing: Option<usize>) -> bool {
    match facing {
        Some(t) => m.nodes.contains_key(t as nat) && m.nodes[t as nat] is Atom,
        None => true,
    }
}

/// What a live node must satisfy in a molecule.
pub open spec fn node_ok(m: GraphModel, n: nat) -> bool {
    match m.nodes[n] {
        Particle::BondingSite => site_bonded(m, n),
        Particle::Atom(a) => facing_target_ok(m, a.facing),
    }
}

/// A molecule graph: simple, every bonding site bonded to exactly one atom,
/// and every facing reference naming a live atom.
pub open spec fn well_formed(m: GraphModel) -> bool {
    &&& m.simple()
    &&& forall|n: nat| #[trigger] m.nodes.contains_key(n) ==> node_ok(m, n)
}

/// The graph with node `n` and every edge at it removed.
pub open spec fn without_node(m: GraphModel, n: nat) -> GraphModel {
    GraphModel {
        nodes: m.nodes.remove(n),
        edges: m.edges.restrict(m.edges.dom().filter(|k: nat| !edge_touches(m.edges[k], n))),
    }
}

/// Removing a bonding site from a molecule leaves a molecule.
proof fn lemma_remove_site(m: GraphModel, n: nat)
    requires
        well_formed(m),
        m.nodes.contains_key(n),
        m.nodes[n] is BondingSite,
    ensures
        well_formed(without_node(m, n)),
{
    let r = without_node(m, n);
    vstd::set_lib::lemma_set_subset_finite(m.edges.dom(), r.edges.dom());
    assert forall|k: nat| #[trigger] r.edges.contains_key(k) implies {
        &&& m.edges.contains_key(k)
        &&& r.edges[k] == m.edges[k]
        &&& !edge_touches(m.edges[k], n)
    } by {}
    assert forall|x: nat| #[trigger] r.nodes.contains_key(x) implies node_ok(r, x) by {
        assert(m.nodes.contains_key(x));
        assert(node_ok(m, x));
        match m.nodes[x] {
            Particle::BondingSite => {
                let k = choose|k: nat| #[trigger] sole_bond(m, x, k);
                assert(m.edges.contains_key(k));
                assert(r.edges.contains_key(k));
                assert(sole_bond(r, x, k));
            },
            Particle::Atom(a) => {},
        }
    }
}

/// Adding a carbon atom with an acceptable facing keeps a molecule.
proof fn lemma_add_atom(m: GraphModel, a: nat, facing: Option<usize>)
    requires
        well_formed(m),
        !m.nodes.contains_key(a),
        a <= usize::MAX,
        facing_target_ok(m, facing),
    ensures
        well_formed(GraphModel { nodes: m.nodes.insert(a, carbon(facing)), edges: m.edges }),
{
    let r = GraphModel { nodes: m.nodes.insert(a, carbon(facing)), edges: m.edges };
    assert forall|x: nat| #[trigger] r.nodes.contains_key(x) implies node_ok(r, x) by {
        if x != a {
            assert(m.nodes.contains_key(x));
            assert(node_ok(m, x));
            match m.nodes[x] {
                Particle::BondingSite => {
                    let k = choose|k: nat| #[trigger] sole_bond(m, x, k);
                    assert(sole_bond(r, x, k));
                },
                Particle::Atom(at) => {},
            }
        }
    }
    assert forall|k: nat| #[trigger] r.edges.contains_key(k) implies {
        &&& r.nodes.contains_key(r.edges[k].0)
        &&& r.nodes.contains_key(r.edges[k].1)
    } by {
        assert(m.edges.contains_key(k));
    }
}

/// Adding a new bonding site with a single bond to an existing atom keeps a
/// molecule.
proof fn lemma_add_site(m: GraphModel, atom: nat, s: nat, k: nat)
    requires
        well_formed(m),
        m.nodes.contains_key(atom),
        m.nodes[atom] is Atom,
        !m.nodes.contains_key(s),
        s <= usize::MAX,
        !m.edges.contains_key(k),
    ensures
        well_formed(GraphModel {
            nodes: m.nodes.insert(s, Particle::BondingSite),
            edges: m.edges.insert(k, (atom, s, 1u8)),
        }),
{
    let r = GraphModel { nodes: m.nodes.insert(s, Particle::BondingSite), edges: m.edges.insert(k, (atom, s, 1u8)) };
    assert forall|k2: nat| #[trigger] m.edges.contains_key(k2) implies !edge_touches(m.edges[k2], s) by {}
    assert forall|k1: nat| #[trigger] r.edges.contains_key(k1) implies {
        &&& r.nodes.contains_key(r.edges[k1].0)
        &&& r.nodes.contains_key(r.edges[k1].1)
        &&& r.edges[k1].0 != r.edges[k1].1
        &&& r.edges[k1].2 >= 1
    } by {
        if k1 != k {
            assert(m.edges.contains_key(k1));
        }
    }
    assert forall|k1: nat, k2: nat|
        #![trigger r.edges[k1], r.edges[k2]]
        r.edges.contains_key(k1) && r.edges.contains_key(k2) && k1 != k2
            implies !edge_joins(r.edges[k1], r.edges[k2].0, r.edges[k2].1) by {
        if k1 != k && k2 != k {
            assert(m.edges.contains_key(k1) && m.edges.contains_key(k2));
        } else if k1 == k {
            assert(m.edges.contains_key(k2));
        } else {
            assert(m.edges.contains_key(k1));
        }
    }
    assert forall|x: nat| #[trigger] r.nodes.contains_key(x) implies node_ok(r, x) by {
        if x == s {
            assert(sole_bond(r, s, k));
        } else {
            assert(m.nodes.contains_key(x));
            assert(node_ok(m, x));
            match m.nodes[x] {
                Particle::BondingSite => {
                    let k0 = choose|k0: nat| #[trigger] sole_bond(m, x, k0);
                    assert(m.edges.contains_key(k0));
                    assert(sole_bond(r, x, k0));
                },
                Particle::Atom(at) => {},
            }
        }
    }
}

/// Adding a single bond between two atoms that share none keeps a molecule.
proof fn lemma_add_bond(m: GraphModel, a: nat, b: nat, k: nat)
    requires
        well_formed(m),
        m.nodes.contains_key(a),
        m.nodes.contains_key(b),
        m.nodes[a] is Atom,
        m.nodes[b] is Atom,
        a != b,
        !m.adjacent(a, b),
        !m.edges.contains_key(k),
    ensures
        well_formed(GraphModel { nodes: m.nodes, edges: m.edges.insert(k, (a, b, 1u8)) }),
{
    let r = GraphModel { nodes: m.nodes, edges: m.edges.insert(k, (a, b, 1u8)) };
    assert forall|k1: nat| #[trigger] r.edges.contains_key(k1) implies {
        &&& r.nodes.contains_key(r.edges[k1].0)
        &&& r.nodes.contains_key(r.edges[k1].1)
        &&& r.edges[k1].0 != r.edges[k1].1
        &&& r.edges[k1].2 >= 1
    } by {
        if k1 != k {
            assert(m.edges.contains_key(k1));
        }
    }
    assert forall|k1: nat, k2: nat|
        #![trigger r.edges[k1], r.edges[k2]]
        r.edges.contains_key(k1) && r.edges.contains_key(k2) && k1 != k2
            implies !edge_joins(r.edges[k1], r.edges[k2].0, r.edges[k2].1) by {
        if k1 != k && k2 != k {
            assert(m.edges.contains_key(k1) && m.edges.contains_key(k2));
        } else if k1 == k {
            assert(m.edges.contains_key(k2));
            assert(!edge_joins(m.edges[k2], a, b));
        } else {
            assert(m.edges.contains_key(k1));
            assert(!edge_joins(m.edges[k1], a, b));
        }
    }
    assert forall|x: nat| #[trigger] r.nodes.contains_key(x) implies node_ok(r, x) by {
        assert(node_ok(m, x));
        match m.nodes[x] {
            Particle::BondingSite => {
                let k0 = choose|k0: nat| #[trigger] sole_bond(m, x, k0);
                assert(m.edges.contains_key(k0));
                assert(x != a && x != b);
                assert(sole_bond(r, x, k0));
            },
            Particle::Atom(at) => {},
        }
    }
}

/// Node `n` is one of `sites`.
pub open spec fn listed(sites: Seq<usize>, n: nat) -> bool {
    exists|i: int| 0 <= i < sites.len() && #[trigger] sites[i] as nat == n
}

/// `after` holds the nodes of `before`, unchanged, plus a new carbon atom
/// `atom` with the given facing and the new bonding sites `sites`, and no
/// other nodes.
pub open spec fn grown(
    before: GraphModel,
    after: GraphModel,
    atom: usize,
    facing: Option<usize>,
    sites: Seq<usize>,
) -> bool {
    &&& !before.nodes.contains_key(atom as nat)
    &&& sites.no_duplicates()
    &&& forall|i: int|
        0 <= i < sites.len() ==> !before.nodes.contains_key(#[trigger] sites[i] as nat) && sites[i] != atom
    &&& forall|n: nat|
        #[trigger] after.nodes.contains_key(n) <==> (before.nodes.contains_key(n) || n == atom as nat
            || listed(sites, n))
    &&& forall|n: nat| #[trigger] before.nodes.contains_key(n) ==> after.nodes[n] == before.nodes[n]
    &&& after.nodes[atom as nat] == carbon(facing)
    &&& forall|i: int| 0 <= i < sites.len() ==> after.nodes[#[trigger] sites[i] as nat] == Particle::BondingSite
}

/// `after` holds the edges of `before`, unchanged, plus one single bond from
/// `atom` to each of `sites` and, if given, to `partner`, and no other edges.
pub open spec fn bonds_grown(
    before: GraphModel,
    after: GraphModel,
    atom: usize,
    sites: Seq<usize>,
    partner: Option<usize>,
) -> bool {
    &&& forall|k: nat| #[trigger] before.edges.contains_key(k) ==> after.edges.contains_key(k) && after.edges[k] == before.edges[k]
    &&& forall|k: nat|
        #[trigger] after.edges.contains_key(k) && !before.edges.contains_key(k) ==> {
            &&& after.edges[k].0 == atom as nat
            &&& after.edges[k].2 == 1
            &&& (listed(sites, after.edges[k].1) || partner == Some(after.edges[k].1 as usize))
        }
    &&& forall|i: int| 0 <= i < sites.len() ==> after.adjacent(atom as nat, #[trigger] sites[i] as nat)
    &&& partner matches Some(p) ==> after.adjacent(atom as nat, p as nat)
}

/// The nodes that spawning an atom created.
pub struct SpawnedAtom {
    /// The new atom.
    pub atom: usize,
    /// Its new bonding sites: `sites[i]` takes the direction numbered
    /// `first_direction + i` of the bond geometry table's entry.
    pub sites: Vec<usize>,
    /// 1 when the first direction was left for the bond to the atom's
    /// partner, else 0.
    pub first_direction: usize,
}

/// Adds a carbon atom with the given facing and one bonding site, singly
/// bonded to it, for each direction of the geometry entry for `coordination`,
/// leaving out the first direction when `skip_first` holds.
fn spawn_atom(g: &mut MolGraph, coordination: usize, skip_first: bool, facing: Option<usize>) -> (r: SpawnedAtom)
    requires
        old(g).wf(),
        well_formed(old(g)@),
        valid_coordination(coordination),
        facing_target_ok(old(g)@, facing),
    ensures
        final(g).wf(),
        well_formed(final(g)@),
        grown(old(g)@, final(g)@, r.atom, facing, r.sites@),
        bonds_grown(old(g)@, final(g)@, r.atom, r.sites@, None),
        r.first_direction == (if skip_first { 1usize } else { 0usize }),
        r.sites@.len() == coordination - r.first_direction,
{
    let ghost g0 = g@;
    let atom = g.add_node(Particle::Atom(Atom { element: Element::Carbon, facing }));
    proof {
        lemma_add_atom(g0, atom as nat, facing);
    }
    let first: usize = if skip_first { 1 } else { 0 };
    let mut sites: Vec<usize> = Vec::new();
    let mut i: usize = first;
    while i < coordination
        invariant
            g.wf(),
            well_formed(g@),
            first <= i <= coordination,
            first <= 1,
            sites@.len() == i - first,
            grown(g0, g@, atom, facing, sites@),
            bonds_grown(g0, g@, atom, sites@, None),
        decreases coordination - i,
    {
        let ghost before = g@;
        let s = g.add_node(Particle::BondingSite);
        let ghost mid = g@;
        assert(before.nodes.contains_key(atom as nat));
        assert(!mid.adjacent(atom as nat, s as nat)) by {
            if mid.adjacent(atom as nat, s as nat) {
                let k = choose|k: nat| #[trigger] mid.edges.contains_key(k) && edge_joins(mid.edges[k], atom as nat, s as nat);
                assert(before.edges.contains_key(k));
            }
        }
        assert(atom != s);
        assert(mid.nodes.contains_key(atom as nat) && mid.nodes.contains_key(s as nat));
        let e = g.add_edge(atom, s, 1);
        assert(e is Ok);
        if let Ok(k) = e {
            proof {
                lemma_add_site(before, atom as nat, s as nat, k as nat);
                assert(g@.nodes == before.nodes.insert(s as nat, Particle::BondingSite));
                assert(g@.edges == before.edges.insert(k as nat, (atom as nat, s as nat, 1u8)));
            }
        }
        let ghost old_sites = sites@;
        sites.push(s);
        proof {
            assert(sites@ == old_sites.push(s));
            assert(sites@[sites@.len() - 1] == s);
            assert forall|n: nat| listed(old_sites, n) implies listed(sites@, n) by {
                let j = choose|j: int| 0 <= j < old_sites.len() && #[trigger] old_sites[j] as nat == n;
                assert(sites@[j] == old_sites[j]);
            }
            assert(listed(sites@, s as nat));
            assert forall|n: nat| listed(sites@, n) implies listed(old_sites, n) || n == s as nat by {
                let j = choose|j: int| 0 <= j < sites@.len() && #[trigger] sites@[j] as nat == n;
                if j < old_sites.len() {
                    assert(old_sites[j] == sites@[j]);
                }
            }
            assert forall|j: int| 0 <= j < old_sites.len() implies #[trigger] old_sites[j] != s by {
                assert(before.nodes.contains_key(old_sites[j] as nat));
            }
            assert(sites@.no_duplicates());
            assert(grown(g0, g@, atom, facing, sites@));
            assert(bonds_grown(g0, g@, atom, sites@, None));
        }
        i = i + 1;
    }
    SpawnedAtom { atom, sites, first_direction: first }
}

/// Every bonding site of a molecule is bonded to exactly one node, and that
/// node is an atom: activating it can always find the atom it extends.
pub proof fn lemma_site_has_bond_target(m: GraphModel, n: nat) -> (t: nat)
    requires
        well_formed(m),
        m.nodes.contains_key(n),
        m.nodes[n] is BondingSite,
    ensures
        m.adjacent(n, t),
        m.nodes.contains_key(t),
        m.nodes[t] is Atom,
        forall|u: nat| m.adjacent(n, u) ==> u == t,
        m.incident(n) == set![choose|k: nat| sole_bond(m, n, k)],
        m.incident(n).len() == 1,
{
    assert(node_ok(m, n));
    let k = choose|k: nat| sole_bond(m, n, k);
    assert(sole_bond(m, n, k));
    let t = other_end(m.edges[k], n);
    assert(m.edges[k].0 != m.edges[k].1);
    assert(edge_joins(m.edges[k], n, t));
    assert forall|u: nat| m.adjacent(n, u) implies u == t by {
        let k2 = choose|k2: nat| #[trigger] m.edges.contains_key(k2) && edge_joins(m.edges[k2], n, u);
        assert(edge_touches(m.edges[k2], n));
    }
    assert(m.incident(n) =~= set![k]);
    assert(set![k].len() == 1);
    t
}

/// Why an edit of a molecule was refused. The molecule is then unchanged.
#[derive(Debug, Clone, Copy, PartialEq, Eq, Structural)]
pub enum EditError {
    /// No live node has the given index.
    NotFound,
    /// The node is an atom, not a bonding site.
    NotABondingSite,
    /// The bond geometry table has no entry for the coordination number.
    InvalidCoordination,
}

/// What activating a bonding site did.
pub struct Activation {
    /// The atom that the activated bonding site was bonded to, and that the
    /// new atom is now bonded to and faces.
    pub bond_target: usize,
    /// The new atom and its bonding sites.
    pub spawned: SpawnedAtom,
}

/// `after` is `before` with bonding site `clicked` removed and a new carbon
/// atom, facing and singly bonded to the site's atom, added together with
/// `coordination - 1` new bonding sites bonded to it.
pub open spec fn activated(before: GraphModel, after: GraphModel, clicked: usize, coordination: usize, act: Activation) -> bool {
    let mid = without_node(before, clicked as nat);
    &&& before.adjacent(clicked as nat, act.bond_target as nat)
    &&& before.nodes[act.bond_target as nat] is Atom
    &&& act.spawned.first_direction == 1
    &&& act.spawned.sites@.len() == coordination - 1
    &&& grown(mid, after, act.spawned.atom, Some(act.bond_target), act.spawned.sites@)
    &&& bonds_grown(mid, after, act.spawned.atom, act.spawned.sites@, Some(act.bond_target))
}

/// Ties a displayed particle to the node of its molecule's graph that it
/// shows.
#[derive(Debug, Clone, Copy, PartialEq, Eq, Structural)]
pub struct TrackedParticle {
    pub node_index: usize,
}

/// A molecule: a graph of atoms and bonding sites joined by bonds.
pub struct Molecule {
    graph: MolGraph,
}

impl View for Molecule {
    type V = GraphModel;

    closed spec fn view(&self) -> GraphModel {
        self.graph@
    }
}

/// A molecule made of one carbon atom, whose +z axis is the molecule's, and
/// a bonding site for each direction of the geometry entry for
/// `coordination`.
pub fn init_molecule(coordination: usize) -> (r: Result<(Molecule, SpawnedAtom), EditError>)
    ensures
        r is Ok <==> valid_coordination(coordination),
        r is Err ==> r == Err::<(Molecule, SpawnedAtom), EditError>(EditError::InvalidCoordination),
        r matches Ok((m, sp)) ==> {
            &&& well_formed(m@)
            &&& sp.first_direction == 0
            &&& sp.sites@.len() == coordination
            &&& grown(GraphModel { nodes: Map::empty(), edges: Map::empty() }, m@, sp.atom, None, sp.sites@)
            &&& bonds_grown(GraphModel { nodes: Map::empty(), edges: Map::empty() }, m@, sp.atom, sp.sites@, None)
        },
{
    if coordination < 1 || coordination > MAX_COORDINATION {
        return Err(EditError::InvalidCoordination);
    }
    let mut graph = MolGraph::new();
    proof {
        assert(graph@.nodes =~= Map::empty());
        assert(graph@.edges =~= Map::empty());
        assert(graph@ == GraphModel { nodes: Map::empty(), edges: Map::empty() });
    }
    let sp = spawn_atom(&mut graph, coordination, false, None);
    Ok((Molecule { graph }, sp))
}

impl Molecule {
    #[verifier::type_invariant]
    spec fn inv(self) -> bool {
        self.graph.wf() && well_formed(self.graph@)
    }

    /// Activates bonding site `clicked`: removes it, and adds a carbon atom
    /// facing the atom the site was bonded to, singly bonded to that atom, with
    /// a bonding site for each direction of the geometry entry for
    /// `coordination` but the first, which the new bond takes.
    pub fn activate_bonding_site(&mut self, clicked: usize, coordination: usize) -> (r: Result<Activation, EditError>)
        ensures
            well_formed(final(self)@),
            !old(self)@.nodes.contains_key(clicked as nat) ==> r == Err::<Activation, EditError>(EditError::NotFound),
            old(self)@.nodes.contains_key(clicked as nat) && old(self)@.nodes[clicked as nat] is Atom
                ==> r == Err::<Activation, EditError>(EditError::NotABondingSite),
            old(self)@.nodes.contains_key(clicked as nat) && old(self)@.nodes[clicked as nat] is BondingSite
                && !valid_coordination(coordination) ==> r == Err::<Activation, EditError>(EditError::InvalidCoordination),
            r is Ok <==> (old(self)@.nodes.contains_key(clicked as nat) && old(self)@.nodes[clicked as nat] is BondingSite
                && valid_coordination(coordination)),
            r is Err ==> final(self)@ == old(self)@,
            r matches Ok(act) ==> activated(old(self)@, final(self)@, clicked, coordination, act),
    {
        proof {
            use_type_invariant(&*self);
        }
        match self.graph.node_weight(clicked) {
            None => {
                return Err(EditError::NotFound);
            },
            Some(Particle::Atom(_)) => {
                return Err(EditError::NotABondingSite);
            },
            Some(Particle::BondingSite) => {},
        }
        if coordination < 1 || coordination > MAX_COORDINATION {
            return Err(EditError::InvalidCoordination);
        }
        let ghost m0 = self@;
        let ghost t = lemma_site_has_bond_target(m0, clicked as nat);
        let neighbors = self.graph.neighbors(clicked);
        assert(neighbors@.contains(t as usize));
        let bond_target = neighbors[0];
        assert(m0.adjacent(clicked as nat, bond_target as nat));
        let mut graph = MolGraph::new();
        std::mem::swap(&mut graph, &mut self.graph);
        assert(graph@ == m0);
        let _ = graph.remove_node(clicked);
        let ghost mid = graph@;
        proof {
            lemma_remove_site(m0, clicked as nat);
            assert(mid == without_node(m0, clicked as nat));
            assert(bond_target as nat == t);
            assert(mid.nodes.contains_key(bond_target as nat));
        }
        let spawned = spawn_atom(&mut graph, coordination, true, Some(bond_target));
        let ghost grown_g = graph@;
        let atom = spawned.atom;
        proof {
            assert(grown_g.nodes.contains_key(atom as nat));
            assert(grown_g.nodes.contains_key(bond_target as nat));
            assert(grown_g.nodes[bond_target as nat] is Atom);
            assert(!grown_g.adjacent(atom as nat, bond_target as nat)) by {
                if grown_g.adjacent(atom as nat, bond_target as nat) {
                    let k = choose|k: nat| #[trigger] grown_g.edges.contains_key(k) && edge_joins(grown_g.edges[k], atom as nat, bond_target as nat);
                    if mid.edges.contains_key(k) {
                        assert(mid.nodes.contains_key(mid.edges[k].0));
                        assert(mid.nodes.contains_key(mid.edges[k].1));
                    } else {
                        assert(listed(spawned.sites@, grown_g.edges[k].1));
                        let j = choose|j: int| 0 <= j < spawned.sites@.len() && #[trigger] spawned.sites@[j] as nat == grown_g.edges[k].1;
                        assert(!mid.nodes.contains_key(spawned.sites@[j] as nat));
                    }
                }
            }
        }
        let e = graph.add_edge(atom, bond_target, 1);
        assert(e is Ok);
        if let Ok(k) = e {
            proof {
                lemma_add_bond(grown_g, atom as nat, bond_target as nat, k as nat);
                assert(graph@.nodes == grown_g.nodes);
                assert(graph@.edges == grown_g.edges.insert(k as nat, (atom as nat, bond_target as nat, 1u8)));
                assert(graph@.edges.contains_key(k as nat));
                assert(edge_joins(graph@.edges[k as nat], atom as nat, bond_target as nat));
                assert(graph@.adjacent(atom as nat, bond_target as nat));
                assert forall|j: int| 0 <= j < spawned.sites@.len() implies graph@.adjacent(atom as nat, #[trigger] spawned.sites@[j] as nat) by {
                    assert(grown_g.adjacent(atom as nat, spawned.sites@[j] as nat));
                    let k2 = choose|k2: nat| #[trigger] grown_g.edges.contains_key(k2) && edge_joins(grown_g.edges[k2], atom as nat, spawned.sites@[j] as nat);
                    assert(graph@.edges.contains_key(k2));
                }
            }
        }
        self.graph = graph;
        Ok(Activation { bond_target, spawned })
    }

    /// The payload of a live node; `None` for any other index.
    pub fn particle(&self, id: usize) -> (r: Option<Particle>)
        ensures
            r == (if self@.nodes.contains_key(id as nat) {
                Some(self@.nodes[id as nat])
            } else {
                None
            }),
    {
        self.graph.node_weight(id)
    }

    /// The indices of the live nodes, in increasing order.
    pub fn node_indices(&self) -> (r: Vec<usize>)
        ensures
            forall|i: int, j: int| 0 <= i < j < r@.len() ==> r@[i] < r@[j],
            forall|i: int| 0 <= i < r@.len() ==> self@.nodes.contains_key(#[trigger] r@[i] as nat),
            forall|n: nat| self@.nodes.contains_key(n) ==> r@.contains(n as usize),
    {
        self.graph.node_indices()
    }

    /// The nodes bonded to `id`, in no particular order.
    pub fn neighbors(&self, id: usize) -> (r: Vec<usize>)
        ensures
            forall|i: int| 0 <= i < r@.len() ==> self@.adjacent(id as nat, #[trigger] r@[i] as nat),
            forall|m: nat| self@.adjacent(id as nat, m) ==> r@.contains(m as usize),
            r@.len() == self@.incident(id as nat).len(),
            self@.nodes.contains_key(id as nat) && self@.nodes[id as nat] is BondingSite ==> r@.len() == 1,
    {
        proof {
            use_type_invariant(self);
            if self@.nodes.contains_key(id as nat) && self@.nodes[id as nat] is BondingSite {
                lemma_site_has_bond_target(self@, id as nat);
            }
        }
        self.graph.neighbors(id)
    }

    /// Whether a bond joins `a` and `b`.
    pub fn bonded(&self, a: usize, b: usize) -> (r: bool)
        ensures
            r == self@.adjacent(a as nat, b as nat),
    {
        proof {
            use_type_invariant(self);
        }
        self.graph.contains_edge(a, b)
    }

    /// Every ordered pair of distinct nodes, once each and in increasing
    /// order, with whether the two are bonded: the pairs between which the
    /// relaxation step applies a force, a spring along a bond and a repulsion
    /// otherwise.
    pub fn interactions(&self) -> (r: Vec<Interaction>)
        ensures
            forall|i: int|
                0 <= i < r@.len() ==> {
                    &&& self@.nodes.contains_key(#[trigger] r@[i].node as nat)
                    &&& self@.nodes.contains_key(r@[i].other as nat)
                    &&& r@[i].node != r@[i].other
                    &&& r@[i].bonded == self@.adjacent(r@[i].node as nat, r@[i].other as nat)
                },
            forall|a: nat, b: nat|
                self@.nodes.contains_key(a) && self@.nodes.contains_key(b) && a != b
                    ==> r@.contains(#[trigger] interaction(self@, a, b)),
            forall|i: int, j: int| 0 <= i < j < r@.len() ==> pair_lt(r@[i], r@[j]),
    {
        proof {
            use_type_invariant(self);
        }
        let ids = self.graph.node_indices();
        let n = ids.len();
        let ghost m = self@;
        let mut r: Vec<Interaction> = Vec::new();
        let mut p: usize = 0;
        while p < n
            invariant
                n == ids@.len(),
                p <= n,
                self.graph.wf(),
                m == self@,
                m.simple(),
                forall|i: int, j: int| 0 <= i < j < ids@.len() ==> ids@[i] < ids@[j],
                forall|i: int| 0 <= i < ids@.len() ==> m.nodes.contains_key(#[trigger] ids@[i] as nat),
                forall|i: int| 0 <= i < r@.len() ==> interaction_ok(m, #[trigger] r@[i]),
                forall|x: int, y: int|
                    0 <= x < p && 0 <= y < n && x != y ==> r@.contains(
                        #[trigger] interaction(m, ids@[x] as nat, ids@[y] as nat),
                    ),
                forall|i: int, j: int| 0 <= i < j < r@.len() ==> pair_lt(r@[i], r@[j]),
                p < n && r@.len() > 0 ==> r@[r@.len() - 1].node < ids@[p as int],
            decreases n - p,
        {
            let mut q: usize = 0;
            while q < n
                invariant
                    n == ids@.len(),
                    p < n,
                    q <= n,
                    self.graph.wf(),
                    m == self@,
                    m.simple(),
                    forall|i: int, j: int| 0 <= i < j < ids@.len() ==> ids@[i] < ids@[j],
                    forall|i: int| 0 <= i < ids@.len() ==> m.nodes.contains_key(#[trigger] ids@[i] as nat),
                    forall|i: int| 0 <= i < r@.len() ==> interaction_ok(m, #[trigger] r@[i]),
                    forall|x: int, y: int|
                        ((0 <= x < p && 0 <= y < n) || (x == p && 0 <= y < q)) && x != y ==> r@.contains(
                            #[trigger] interaction(m, ids@[x] as nat, ids@[y] as nat),
                        ),
                    forall|i: int, j: int| 0 <= i < j < r@.len() ==> pair_lt(r@[i], r@[j]),
                    r@.len() > 0 ==> {
                        ||| r@[r@.len() - 1].node < ids@[p as int]
                        ||| (r@[r@.len() - 1].node == ids@[p as int] && q > 0 && r@[r@.len() - 1].other <= ids@[q - 1])
                    },
                decreases n - q,
            {
                if p != q {
                    let bonded = self.graph.contains_edge(ids[p], ids[q]);
                    let ghost before = r@;
                    let it = Interaction { node: ids[p], other: ids[q], bonded };
                    proof {
                        if q > 0 {
                            assert(ids@[q - 1] < ids@[q as int]);
                        }
                        assert(ids@[p as int] != ids@[q as int]) by {
                            if p < q {
                                assert(ids@[p as int] < ids@[q as int]);
                            } else {
                                assert(ids@[q as int] < ids@[p as int]);
                            }
                        }
                        assert(m.nodes.contains_key(ids@[p as int] as nat));
                        assert(m.nodes.contains_key(ids@[q as int] as nat));
                        assert(it == interaction(m, ids@[p as int] as nat, ids@[q as int] as nat));
                        if before.len() > 0 {
                            assert(pair_lt(before[before.len() - 1], it));
                            assert forall|i: int| 0 <= i < before.len() implies pair_lt(before[i], it) by {
                                if i < before.len() - 1 {
                                    assert(pair_lt(before[i], before[before.len() - 1]));
                                }
                            }
                        }
                    }
                    r.push(it);
                    proof {
                        assert(r@ == before.push(it));
                        assert forall|i: int| 0 <= i < r@.len() implies interaction_ok(m, #[trigger] r@[i]) by {
                            if i < before.len() {
                                assert(r@[i] == before[i]);
                            }
                        }
                        assert forall|x: int, y: int|
                            ((0 <= x < p && 0 <= y < n) || (x == p && 0 <= y < q + 1)) && x != y implies r@.contains(
                                #[trigger] interaction(m, ids@[x] as nat, ids@[y] as nat),
                            ) by {
                            if x == p && y == q {
                                assert(r@[before.len() as int] == it);
                            } else {
                                lemma_push_keeps(before, it, interaction(m, ids@[x] as nat, ids@[y] as nat));
                            }
                        }
                    }
                }
                q = q + 1;
            }
            proof {
                if p + 1 < n {
                    assert(ids@[p as int] < ids@[p + 1]);
                }
            }
            p = p + 1;
        }
        proof {
            assert forall|a: nat, b: nat|
                m.nodes.contains_key(a) && m.nodes.contains_key(b) && a != b implies r@.contains(
                    #[trigger] interaction(m, a, b),
                ) by {
                assert(ids@.contains(a as usize));
                assert(ids@.contains(b as usize));
                let x = ids@.index_of(a as usize);
                let y = ids@.index_of(b as usize);
                assert(ids@[x] as nat == a);
                assert(ids@[y] as nat == b);
            }
            assert forall|i: int| 0 <= i < r@.len() implies {
                &&& m.nodes.contains_key(#[trigger] r@[i].node as nat)
                &&& m.nodes.contains_key(r@[i].other as nat)
                &&& r@[i].node != r@[i].other
                &&& r@[i].bonded == m.adjacent(r@[i].node as nat, r@[i].other as nat)
            } by {
                assert(interaction_ok(m, r@[i]));
            }
        }
        r
    }

    /// Every bond once, as its two nodes with the smaller index first.
    pub fn bonds(&self) -> (r: Vec<(usize, usize)>)
        ensures
            forall|i: int| 0 <= i < r@.len() ==> (#[trigger] r@[i]).0 < r@[i].1 && self@.adjacent(r@[i].0 as nat, r@[i].1 as nat),
            forall|a: nat, b: nat| a < b && self@.adjacent(a, b) ==> r@.contains((a as usize, b as usize)),
            forall|i: int, j: int| 0 <= i < j < r@.len() ==> bond_lt(r@[i], r@[j]),
    {
        proof {
            use_type_invariant(self);
        }
        let pairs = self.interactions();
        let mut r: Vec<(usize, usize)> = Vec::new();
        let mut i: usize = 0;
        let ghost mut last: int = 0;
        while i < pairs.len()
            invariant
                i <= pairs@.len(),
                forall|x: int, y: int| 0 <= x < y < pairs@.len() ==> pair_lt(pairs@[x], pairs@[y]),
                forall|x: int, y: int| 0 <= x < y < r@.len() ==> bond_lt(r@[x], r@[y]),
                r@.len() > 0 ==> 0 <= last < i && r@[r@.len() - 1] == (pairs@[last].node, pairs@[last].other),
                forall|j: int|
                    0 <= j < pairs@.len() ==> {
                        &&& #[trigger] pairs@[j].node != pairs@[j].other
                        &&& pairs@[j].bonded == self@.adjacent(pairs@[j].node as nat, pairs@[j].other as nat)
                    },
                forall|j: int| 0 <= j < r@.len() ==> (#[trigger] r@[j]).0 < r@[j].1 && self@.adjacent(r@[j].0 as nat, r@[j].1 as nat),
                forall|j: int| 0 <= j < i && (#[trigger] pairs@[j]).bonded && pairs@[j].node < pairs@[j].other
                    ==> r@.contains((pairs@[j].node, pairs@[j].other)),
            decreases pairs@.len() - i,
        {
            let it = pairs[i];
            let ghost rb = r@;
            if it.bonded && it.node < it.other {
                proof {
                    if rb.len() > 0 {
                        assert(pair_lt(pairs@[last], pairs@[i as int]));
                        assert forall|x: int| 0 <= x < rb.len() implies bond_lt(rb[x], (it.node, it.other)) by {
                            if x < rb.len() - 1 {
                                assert(bond_lt(rb[x], rb[rb.len() - 1]));
                            }
                        }
                    }
                }
                r.push((it.node, it.other));
                proof {
                    last = i as int;
                }
            }
            proof {
                assert forall|j: int| 0 <= j < i + 1 && (#[trigger] pairs@[j]).bonded && pairs@[j].node < pairs@[j].other
                    implies r@.contains((pairs@[j].node, pairs@[j].other)) by {
                    if j < i {
                        assert(rb.contains((pairs@[j].node, pairs@[j].other)));
                        let w = choose|w: int| 0 <= w < rb.len() && rb[w] == (pairs@[j].node, pairs@[j].other);
                        assert(r@[w] == rb[w]);
                    } else {
                        assert(r@[r@.len() - 1] == (it.node, it.other));
                    }
                }
            }
            i = i + 1;
        }
        proof {
            assert forall|a: nat, b: nat| a < b && self@.adjacent(a, b) implies r@.contains((a as usize, b as usize)) by {
                let k = choose|k: nat| #[trigger] self@.edges.contains_key(k) && edge_joins(self@.edges[k], a, b);
                assert(self@.nodes.contains_key(a) && self@.nodes.contains_key(b));
                assert(pairs@.contains(interaction(self@, a, b)));
                let j = choose|j: int| 0 <= j < pairs@.len() && pairs@[j] == interaction(self@, a, b);
                assert(pairs@[j].bonded && pairs@[j].node < pairs@[j].other);
            }
        }
        r
    }
}

/// An ordered pair of distinct nodes of a molecule, and whether they are
/// bonded.
#[derive(Debug, Clone, Copy, PartialEq, Eq, Structural)]
pub struct Interaction {
    pub node: usize,
    pub other: usize,
    pub bonded: bool,
}

/// Lexicographic order on bonds given as node pairs.
pub open spec fn bond_lt(x: (usize, usize), y: (usize, usize)) -> bool {
    x.0 < y.0 || (x.0 == y.0 && x.1 < y.1)
}

/// Lexicographic order on (node, other).
pub open spec fn pair_lt(x: Interaction, y: Interaction) -> bool {
    x.node < y.node || (x.node == y.node && x.other < y.other)
}

/// The entry that `interactions` lists for nodes `a` and `b`.
pub open spec fn interaction(m: GraphModel, a: nat, b: nat) -> Interaction {
    Interaction { node: a as usize, other: b as usize, bonded: m.adjacent(a, b) }
}

/// An entry of `interactions` names two distinct live nodes and whether they
/// are bonded.
pub open spec fn interaction_ok(m: GraphModel, it: Interaction) -> bool {
    &&& m.nodes.contains_key(it.node as nat)
    &&& m.nodes.contains_key(it.other as nat)
    &&& it.node != it.other
    &&& it.bonded == m.adjacent(it.node as nat, it.other as nat)
}

proof fn lemma_push_keeps<T>(s: Seq<T>, v: T, x: T)
    requires
        s.contains(x),
    ensures
        s.push(v).contains(x),
{
    let i = choose|i: int| 0 <= i < s.len() && s[i] == x;
    assert(s.push(v)[i] == x);
}

/// The atom nodes of a graph.
pub open spec fn atom_nodes(m: GraphModel) -> Set<nat> {
    m.nodes.dom().filter(|n: nat| m.nodes[n] is Atom)
}

/// The bonding-site nodes of a graph.
pub open spec fn site_nodes(m: GraphModel) -> Set<nat> {
    m.nodes.dom().filter(|n: nat| m.nodes[n] is BondingSite)
}

/// In a molecule no bond joins a node to itself, and no two bonds join the
/// same two nodes.
pub proof fn lemma_bonds_simple(m: GraphModel)
    requires
        well_formed(m),
    ensures
        forall|k: nat| #[trigger] m.edges.contains_key(k) ==> m.edges[k].0 != m.edges[k].1,
        forall|k1: nat, k2: nat|
            #![trigger m.edges[k1], m.edges[k2]]
            m.edges.contains_key(k1) && m.edges.contains_key(k2) && k1 != k2
                ==> !edge_joins(m.edges[k1], m.edges[k2].0, m.edges[k2].1),
{
}

/// Every bonding site generated with a new atom, by `init_molecule` or by an
/// activation, is a live bonding site afterwards whose one bond leads to that
/// atom: activating it next (with a coordination number the geometry table
/// covers) succeeds and never meets a site without a bond.
pub proof fn lemma_spawned_site_activatable(
    before: GraphModel,
    after: GraphModel,
    atom: usize,
    facing: Option<usize>,
    sites: Seq<usize>,
    partner: Option<usize>,
    i: int,
)
    requires
        well_formed(after),
        grown(before, after, atom, facing, sites),
        bonds_grown(before, after, atom, sites, partner),
        0 <= i < sites.len(),
    ensures
        after.nodes.contains_key(sites[i] as nat),
        after.nodes[sites[i] as nat] is BondingSite,
        forall|u: nat| after.adjacent(sites[i] as nat, u) <==> u == atom as nat,
{
    assert(listed(sites, sites[i] as nat));
    assert(after.nodes.contains_key(sites[i] as nat));
    let t = lemma_site_has_bond_target(after, sites[i] as nat);
    assert(after.adjacent(atom as nat, sites[i] as nat));
    let k = choose|k: nat| #[trigger] after.edges.contains_key(k) && edge_joins(after.edges[k], atom as nat, sites[i] as nat);
    assert(after.edges.contains_key(k) && edge_joins(after.edges[k], sites[i] as nat, atom as nat));
}

/// Activating a bonding site with coordination number `k` removes that site
/// and its one bond, and adds one atom, `k - 1` bonding sites and `k` bonds:
/// the molecule gains one atom, `k - 2` bonding sites and `k - 1` bonds.
pub proof fn lemma_activation_counts(
    before: GraphModel,
    after: GraphModel,
    clicked: usize,
    coordination: usize,
    act: Activation,
)
    requires
        well_formed(before),
        well_formed(after),
        before.nodes.contains_key(clicked as nat),
        before.nodes[clicked as nat] is BondingSite,
        valid_coordination(coordination),
        activated(before, after, clicked, coordination, act),
    ensures
        atom_nodes(after).len() == atom_nodes(before).len() + 1,
        site_nodes(after).len() + 1 == site_nodes(before).len() + (coordination - 1),
        after.edges.dom().len() + 1 == before.edges.dom().len() + coordination,
{
    let c = clicked as nat;
    let mid = without_node(before, c);
    let atom = act.spawned.atom;
    let sites = act.spawned.sites@;
    let target = act.bond_target;
    vstd::set_lib::lemma_set_subset_finite(before.edges.dom(), mid.edges.dom());
    lemma_remove_site(before, c);
    // The new bonding sites, as a set of node indices.
    let sset = Set::new(|n: nat| listed(sites, n));
    let f = |s: usize| s as nat;
    sites.unique_seq_to_set();
    assert(sites.to_set().map(f) =~= sset) by {
        assert forall|n: nat| sset.contains(n) implies sites.to_set().map(f).contains(n) by {
            let j = choose|j: int| 0 <= j < sites.len() && #[trigger] sites[j] as nat == n;
            assert(sites.to_set().contains(sites[j]));
        }
        assert forall|n: nat| sites.to_set().map(f).contains(n) implies sset.contains(n) by {
            let s = choose|s: usize| sites.to_set().contains(s) && f(s) == n;
            let j = choose|j: int| 0 <= j < sites.len() && sites[j] == s;
            assert(listed(sites, n));
        }
    }
    vstd::set_lib::lemma_map_size(sites.to_set(), sset, f);
    assert(sset.len() == coordination - 1);
    assert forall|n: nat| sset.contains(n) implies !mid.nodes.contains_key(n) && n != atom as nat by {
        let j = choose|j: int| 0 <= j < sites.len() && #[trigger] sites[j] as nat == n;
    }
    // Atoms: the old ones and the new atom.
    assert(atom_nodes(after) =~= atom_nodes(before).insert(atom as nat)) by {
        assert forall|n: nat| atom_nodes(after).contains(n) implies atom_nodes(before).insert(atom as nat).contains(n) by {
            if n != atom as nat {
                if sset.contains(n) {
                    let j = choose|j: int| 0 <= j < sites.len() && #[trigger] sites[j] as nat == n;
                    assert(after.nodes[sites[j] as nat] == Particle::BondingSite);
                } else {
                    assert(mid.nodes.contains_key(n));
                }
            }
        }
        assert forall|n: nat| atom_nodes(before).insert(atom as nat).contains(n) implies atom_nodes(after).contains(n) by {
            if n != atom as nat {
                assert(n != c);
                assert(mid.nodes.contains_key(n));
            }
        }
    }
    assert(!atom_nodes(before).contains(atom as nat)) by {
        if atom as nat != c {
            assert(!mid.nodes.contains_key(atom as nat));
        }
    }
    // Bonding sites: the old ones but the activated one, and the new ones.
    let kept = site_nodes(before).remove(c);
    assert(site_nodes(after) =~= kept + sset) by {
        assert forall|n: nat| site_nodes(after).contains(n) implies (kept + sset).contains(n) by {
            if !sset.contains(n) && n != atom as nat {
                assert(mid.nodes.contains_key(n));
            }
        }
        assert forall|n: nat| (kept + sset).contains(n) implies site_nodes(after).contains(n) by {
            if sset.contains(n) {
                let j = choose|j: int| 0 <= j < sites.len() && #[trigger] sites[j] as nat == n;
                assert(after.nodes[sites[j] as nat] == Particle::BondingSite);
            } else {
                assert(mid.nodes.contains_key(n));
            }
        }
    }
    assert(kept.disjoint(sset));
    vstd::set_lib::lemma_set_disjoint_lens(kept, sset);
    // Bonds: the activated site's one bond goes; one bond to each partner comes.
    let k0 = choose|k: nat| sole_bond(before, c, k);
    lemma_site_has_bond_target(before, c);
    assert(mid.edges.dom() =~= before.edges.dom().remove(k0)) by {
        assert forall|k: nat| before.edges.contains_key(k) && k != k0 implies !edge_touches(before.edges[k], c) by {
            if edge_touches(before.edges[k], c) {
                assert(before.incident(c).contains(k));
            }
        }
        assert(before.incident(c).contains(k0));
    }
    let added = after.edges.dom().difference(mid.edges.dom());
    let partners = sset.insert(target as nat);
    let g = |k: nat| after.edges[k].1;
    vstd::set_lib::lemma_set_subset_finite(after.edges.dom(), added);
    assert(added.map(g) =~= partners) by {
        assert forall|p: nat| added.map(g).contains(p) implies partners.contains(p) by {
            let k = choose|k: nat| added.contains(k) && g(k) == p;
            assert(after.edges.contains_key(k) && !mid.edges.contains_key(k));
        }
        assert forall|p: nat| partners.contains(p) implies added.map(g).contains(p) by {
            let k = if p == target as nat {
                choose|k: nat| #[trigger] after.edges.contains_key(k) && edge_joins(after.edges[k], atom as nat, target as nat)
            } else {
                let j = choose|j: int| 0 <= j < sites.len() && #[trigger] sites[j] as nat == p;
                assert(after.adjacent(atom as nat, sites[j] as nat));
                choose|k: nat| #[trigger] after.edges.contains_key(k) && edge_joins(after.edges[k], atom as nat, p)
            };
            assert(after.edges.contains_key(k) && edge_joins(after.edges[k], atom as nat, p));
            assert(!mid.edges.contains_key(k)) by {
                if mid.edges.contains_key(k) {
                    assert(mid.nodes.contains_key(mid.edges[k].0) && mid.nodes.contains_key(mid.edges[k].1));
                }
            }
            assert(p != atom as nat) by {
                if p == target as nat {
                    assert(mid.nodes.contains_key(target as nat));
                }
            }
            assert(added.contains(k));
            assert(g(k) == p);
        }
    }
    assert(vstd::relations::injective_on(g, added)) by {
        assert forall|k1: nat, k2: nat| added.contains(k1) && added.contains(k2) && g(k1) == g(k2) implies k1 == k2 by {
            assert(after.edges.contains_key(k1) && !mid.edges.contains_key(k1));
            assert(after.edges.contains_key(k2) && !mid.edges.contains_key(k2));
            if k1 != k2 {
                assert(!edge_joins(after.edges[k1], after.edges[k2].0, after.edges[k2].1));
            }
        }
    }
    vstd::set_lib::lemma_map_size(added, partners, g);
    assert(!sset.contains(target as nat));
    assert(after.edges.dom() =~= mid.edges.dom() + added);
    assert(mid.edges.dom().disjoint(added));
    vstd::set_lib::lemma_set_disjoint_lens(mid.edges.dom(), added);
}

} // verus!
