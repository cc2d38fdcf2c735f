//! The sparse grid: a hash map from grid position to cell.

use vstd::prelude::*;

use crate::cell::{Cell, GridPos};

verus! {

/// The cells of the grid, keyed by position, in a `hashbrown::HashMap`.
#[verifier::external_body]
pub struct CellGrid {
    map: hashbrown::HashMap<GridPos, Cell>,
}

/// What the grid holds.
pub uninterp spec fn grid_cells(g: CellGrid) -> Map<GridPos, Cell>;

/// The empty grid.
pub open spec fn no_cells() -> Map<GridPos, Cell> {
    Map::empty()
}

impl CellGrid {
    pub open spec fn cells(&self) -> Map<GridPos, Cell> {
        grid_cells(*self)
    }

    /// Relies on `hashbrown::HashMap::new`: the map starts empty.
    #[verifier::external_body]
    pub(crate) fn new() -> (r: CellGrid)
        ensures
            grid_cells(r) == no_cells(),
    {
        CellGrid { map: hashbrown::HashMap::new() }
    }

    /// Relies on `hashbrown::HashMap::get`: the value stored under `pos`, if any.
    #[verifier::external_body]
    pub(crate) fn get(&self, pos: &GridPos) -> (r: Option<Cell>)
        ensures
            r == (if grid_cells(*self).contains_key(*pos) {
                Some(grid_cells(*self)[*pos])
            } else {
                None
            }),
    {
        self.map.get(pos).copied()
    }

    /// Relies on `hashbrown::HashMap::insert`: `pos` maps to `cell` afterwards,
    /// and nothing else changes.
    #[verifier::external_body]
    pub(crate) fn insert(&mut self, pos: GridPos, cell: Cell)
        ensures
            grid_cells(*final(self)) == grid_cells(*old(self)).insert(pos, cell),
    {
        self.map.insert(pos, cell);
    }

    /// Relies on `hashbrown::HashMap::remove`: returns the value that was stored
    /// under `pos` and takes the key out.
    #[verifier::external_body]
    pub(crate) fn remove(&mut self, pos: &GridPos) -> (r: Option<Cell>)
        ensures
            grid_cells(*final(self)) == grid_cells(*old(self)).remove(*pos),
            r == (if grid_cells(*old(self)).contains_key(*pos) {
                Some(grid_cells(*old(self))[*pos])
            } else {
                None
            }),
    {
        self.map.remove(pos)
    }

    /// Relies on `hashbrown::HashMap::keys`: every key once, in no fixed order.
    #[verifier::external_body]
    pub(crate) fn keys(&self) -> (r: Vec<GridPos>)
        ensures
            r@.no_duplicates(),
            forall|p: GridPos| r@.contains(p) <==> grid_cells(*self).contains_key(p),
    {
        self.map.keys().copied().collect()
    }
}

} // verus!
