use atomcad::molecule_builder::{init_molecule, EditError, Molecule, Particle, MAX_COORDINATION};
use atomcad::periodic_table::Element;

struct Counts {
    atoms: usize,
    sites: usize,
    bonds: usize,
}

fn counts(m: &Molecule) -> Counts {
    let mut atoms = 0;
    let mut sites = 0;
    for id in m.node_indices() {
        match m.particle(id) {
            Some(Particle::Atom(_)) => atoms += 1,
            Some(Particle::BondingSite) => sites += 1,
            None => panic!("listed node {} is not live", id),
        }
    }
    Counts { atoms, sites, bonds: m.bonds().len() }
}

/// Checks the molecule invariants from the outside: each bonding site has
/// exactly one neighbour, an atom; no node is bonded to itself; every facing
/// names a live atom.
fn check_invariants(m: &Molecule) {
    for id in m.node_indices() {
        assert!(!m.bonded(id, id));
        match m.particle(id).unwrap() {
            Particle::BondingSite => {
                let n = m.neighbors(id);
                assert_eq!(n.len(), 1);
                assert!(matches!(m.particle(n[0]), Some(Particle::Atom(_))));
            }
            Particle::Atom(a) => {
                if let Some(f) = a.facing {
                    assert!(matches!(m.particle(f), Some(Particle::Atom(_))));
                }
            }
        }
    }
    let bonds = m.bonds();
    for i in 0..bonds.len() {
        assert!(bonds[i].0 < bonds[i].1);
        for j in (i + 1)..bonds.len() {
            assert_ne!(bonds[i], bonds[j]);
        }
    }
}

#[test]
fn seed_molecule_has_one_atom_and_four_sites() {
    let (m, sp) = init_molecule(4).unwrap();
    let c = counts(&m);
    assert_eq!((c.atoms, c.sites, c.bonds), (1, 4, 4));
    assert_eq!(sp.sites.len(), 4);
    assert_eq!(sp.first_direction, 0);
    assert_eq!(
        m.particle(sp.atom),
        Some(Particle::Atom(atomcad::molecule_builder::Atom { element: Element::Carbon, facing: None }))
    );
    for &s in sp.sites.iter() {
        assert_eq!(m.particle(s), Some(Particle::BondingSite));
        assert!(m.bonded(sp.atom, s));
        assert!(m.bonded(s, sp.atom));
    }
    check_invariants(&m);
}

#[test]
fn activating_a_seed_site_gives_two_atoms_and_six_sites() {
    let (mut m, sp) = init_molecule(4).unwrap();
    let clicked = sp.sites[2];
    let act = m.activate_bonding_site(clicked, 4).unwrap();
    let c = counts(&m);
    assert_eq!((c.atoms, c.sites, c.bonds), (2, 6, 7));
    assert_eq!(act.bond_target, sp.atom);
    assert_eq!(act.spawned.first_direction, 1);
    assert_eq!(act.spawned.sites.len(), 3);
    assert_eq!(
        m.particle(act.spawned.atom),
        Some(Particle::Atom(atomcad::molecule_builder::Atom { element: Element::Carbon, facing: Some(sp.atom) }))
    );
    assert!(m.bonded(act.spawned.atom, sp.atom));
    for &s in act.spawned.sites.iter() {
        assert!(m.bonded(act.spawned.atom, s));
    }
    // The activated site is gone, unless a new node took over its index.
    if m.particle(clicked).is_some() {
        assert!(clicked == act.spawned.atom || act.spawned.sites.contains(&clicked));
    }
    check_invariants(&m);
}

#[test]
fn activation_counts_for_every_coordination() {
    for k in 1..=MAX_COORDINATION {
        let (mut m, sp) = init_molecule(4).unwrap();
        let before = counts(&m);
        let act = m.activate_bonding_site(sp.sites[0], k).unwrap();
        let after = counts(&m);
        assert_eq!(after.atoms, before.atoms + 1);
        assert_eq!(after.sites + 1, before.sites + (k - 1));
        assert_eq!(after.bonds + 1, before.bonds + k);
        assert_eq!(act.spawned.sites.len(), k - 1);
        check_invariants(&m);
    }
}

#[test]
fn every_generated_site_can_be_activated() {
    for k in 1..=MAX_COORDINATION {
        let (m0, sp) = init_molecule(k).unwrap();
        assert_eq!(sp.sites.len(), k);
        for &s in sp.sites.iter() {
            let mut m = init_molecule(k).unwrap().0;
            assert_eq!(m.node_indices(), m0.node_indices());
            let act = m.activate_bonding_site(s, k).unwrap();
            for &s2 in act.spawned.sites.iter() {
                let mut m2 = init_molecule(k).unwrap().0;
                let act2 = m2.activate_bonding_site(s, k).unwrap();
                assert_eq!(act2.spawned.sites, act.spawned.sites);
                assert!(m2.activate_bonding_site(s2, k).is_ok());
                check_invariants(&m2);
            }
        }
    }
}

#[test]
fn growing_a_chain_keeps_the_invariants() {
    let (mut m, sp) = init_molecule(4).unwrap();
    let mut site = sp.sites[0];
    for step in 0..10 {
        let act = m.activate_bonding_site(site, 4).unwrap();
        check_invariants(&m);
        let c = counts(&m);
        assert_eq!(c.atoms, step + 2);
        site = act.spawned.sites[0];
    }
}

#[test]
fn activation_errors_leave_the_molecule_unchanged() {
    let (mut m, sp) = init_molecule(4).unwrap();
    let ids = m.node_indices();
    let bonds = m.bonds();
    assert_eq!(m.activate_bonding_site(1000, 4).err(), Some(EditError::NotFound));
    assert_eq!(m.activate_bonding_site(sp.atom, 4).err(), Some(EditError::NotABondingSite));
    assert_eq!(m.activate_bonding_site(sp.sites[0], 0).err(), Some(EditError::InvalidCoordination));
    assert_eq!(
        m.activate_bonding_site(sp.sites[0], MAX_COORDINATION + 1).err(),
        Some(EditError::InvalidCoordination)
    );
    assert_eq!(m.node_indices(), ids);
    assert_eq!(m.bonds(), bonds);
}

#[test]
fn activating_a_removed_site_is_not_found() {
    let (mut m, sp) = init_molecule(3).unwrap();
    let act = m.activate_bonding_site(sp.sites[1], 3).unwrap();
    if !act.spawned.sites.contains(&sp.sites[1]) && act.spawned.atom != sp.sites[1] {
        assert_eq!(m.activate_bonding_site(sp.sites[1], 3).err(), Some(EditError::NotFound));
    }
}

#[test]
fn init_rejects_coordination_out_of_table() {
    assert_eq!(init_molecule(0).err().unwrap(), EditError::InvalidCoordination);
    assert_eq!(init_molecule(MAX_COORDINATION + 1).err().unwrap(), EditError::InvalidCoordination);
    assert!(init_molecule(1).is_ok());
    assert!(init_molecule(MAX_COORDINATION).is_ok());
}

#[test]
fn single_direction_atom_grows_without_new_sites() {
    let (mut m, sp) = init_molecule(1).unwrap();
    assert_eq!(sp.sites.len(), 1);
    let act = m.activate_bonding_site(sp.sites[0], 1).unwrap();
    assert!(act.spawned.sites.is_empty());
    let c = counts(&m);
    assert_eq!((c.atoms, c.sites, c.bonds), (2, 0, 1));
    check_invariants(&m);
}

#[test]
fn interactions_list_every_ordered_pair_once() {
    let (mut m, sp) = init_molecule(4).unwrap();
    m.activate_bonding_site(sp.sites[0], 4).unwrap();
    let n = m.node_indices().len();
    let pairs = m.interactions();
    assert_eq!(pairs.len(), n * (n - 1));
    let mut bonded = 0;
    for (i, p) in pairs.iter().enumerate() {
        assert_ne!(p.node, p.other);
        assert_eq!(p.bonded, m.bonded(p.node, p.other));
        if p.bonded {
            bonded += 1;
        }
        if i > 0 {
            let q = pairs[i - 1];
            assert!((q.node, q.other) < (p.node, p.other));
        }
    }
    assert_eq!(bonded, 2 * m.bonds().len());
}

#[test]
fn neighbors_of_an_atom_are_its_sites() {
    let (m, sp) = init_molecule(3).unwrap();
    let mut n = m.neighbors(sp.atom);
    n.sort();
    let mut s = sp.sites.clone();
    s.sort();
    assert_eq!(n, s);
    assert_eq!(m.neighbors(sp.sites[0]), vec![sp.atom]);
    assert!(m.neighbors(999).is_empty());
}

#[test]
fn node_indices_are_increasing() {
    let (m, _) = init_molecule(6).unwrap();
    let ids = m.node_indices();
    assert_eq!(ids.len(), 7);
    for w in ids.windows(2) {
        assert!(w[0] < w[1]);
    }
}
