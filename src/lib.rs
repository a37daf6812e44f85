//! A molecule editor's core: molecules as graphs of atoms and open bonding
//! sites, the edit that grows a molecule from a bonding site, and the
//! bookkeeping around it.

pub mod menubar;
pub mod mol_graph;
pub mod molecule_builder;
pub mod periodic_table;
pub mod platform;

use vstd::prelude::*;

verus! {

/// The application's display name.
pub const APP_NAME: &'static str = "atomCAD";

} // verus!
