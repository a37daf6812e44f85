use atomcad::mol_graph::{EdgeError, MolGraph};
use atomcad::molecule_builder::{Atom, Particle};
use atomcad::periodic_table::Element;

fn carbon() -> Particle {
    Particle::Atom(Atom { element: Element::Carbon, facing: None })
}

#[test]
fn add_edge_refuses_self_loops_missing_nodes_duplicates_and_zero_order() {
    let mut g = MolGraph::new();
    let a = g.add_node(carbon());
    let b = g.add_node(Particle::BondingSite);
    assert_ne!(a, b);
    assert_eq!(g.add_edge(a, a, 1), Err(EdgeError::SelfLoop));
    assert_eq!(g.add_edge(a, 77, 1), Err(EdgeError::MissingNode));
    assert_eq!(g.add_edge(a, b, 0), Err(EdgeError::ZeroOrder));
    assert!(g.add_edge(a, b, 1).is_ok());
    assert_eq!(g.add_edge(a, b, 1), Err(EdgeError::DuplicateEdge));
    assert_eq!(g.add_edge(b, a, 2), Err(EdgeError::DuplicateEdge));
    assert!(g.contains_edge(a, b));
    assert!(g.contains_edge(b, a));
}

#[test]
fn remove_node_drops_its_edges() {
    let mut g = MolGraph::new();
    let a = g.add_node(carbon());
    let b = g.add_node(carbon());
    let c = g.add_node(Particle::BondingSite);
    g.add_edge(a, b, 1).unwrap();
    g.add_edge(a, c, 1).unwrap();
    assert_eq!(g.remove_node(a), Some(carbon()));
    assert_eq!(g.node_weight(a), None);
    assert!(!g.contains_edge(b, c));
    assert!(g.neighbors(b).is_empty());
    assert!(g.neighbors(c).is_empty());
    assert_eq!(g.remove_node(a), None);
    assert_eq!(g.node_indices(), vec![b, c]);
    assert_eq!(g.add_edge(a, b, 1), Err(EdgeError::MissingNode));
}

#[test]
fn added_node_takes_an_index_no_live_node_has() {
    let mut g = MolGraph::new();
    let a = g.add_node(carbon());
    let b = g.add_node(carbon());
    g.remove_node(a);
    let c = g.add_node(Particle::BondingSite);
    assert_ne!(c, b);
    assert_eq!(g.node_weight(c), Some(Particle::BondingSite));
    assert_eq!(g.node_weight(b), Some(carbon()));
}

#[test]
fn neighbors_report_the_other_endpoint() {
    let mut g = MolGraph::new();
    let a = g.add_node(carbon());
    let b = g.add_node(carbon());
    let c = g.add_node(carbon());
    g.add_edge(a, b, 1).unwrap();
    g.add_edge(c, a, 1).unwrap();
    let mut n = g.neighbors(a);
    n.sort();
    assert_eq!(n, vec![b, c]);
    assert_eq!(g.neighbors(b), vec![a]);
    assert_eq!(g.neighbors(c), vec![a]);
}
