//! Values that are shared instead of copied: a recorded path, a committed
//! grid and the list of committed grids.
//!
//! They are kept in the immutable containers of `implicit_clone`, which
//! clone by taking another reference. The verifier does not look into
//! those containers. What it knows of one is what the functions at the
//! head of this file state: a container made from a list holds that list,
//! and the list read from a container is what the container holds.

use crate::grid::{distinct_cells, entries_model, Grid, GridModel};
use crate::history::{ActionType, Direction};
use crate::pattern::{GridCell, GridSize, Thread};
use implicit_clone::sync::{IArray, IMap};
use implicit_clone::ImplicitClone;
use indexmap::IndexMap;
use std::sync::Arc;
use vstd::prelude::*;

verus! {

// The plain values of a pattern are small, so they may be cloned wherever
// a shared container hands one out.
impl ImplicitClone for Thread {}

impl ImplicitClone for Direction {}

impl ImplicitClone for GridCell {}

impl ImplicitClone for GridSize {}

impl ImplicitClone for ActionType {}

/// A path in an `implicit_clone::sync::IArray`.
#[verifier::external_body]
#[derive(Debug)]
pub struct SharedPath {
    inner: IArray<Direction>,
}

/// A grid in an `implicit_clone::sync::IMap`, which keeps its cells in the
/// order in which they were put in. A cell is keyed by its column and row.
#[verifier::external_body]
#[derive(Debug)]
pub struct SharedGrid {
    inner: IMap<(usize, usize), IArray<Thread>>,
}

/// A list of grids in an `implicit_clone::sync::IArray`.
#[verifier::external_body]
#[derive(Debug)]
pub struct SharedHistory {
    inner: IArray<IMap<(usize, usize), IArray<Thread>>>,
}

/// The steps that a shared path holds, in order.
pub uninterp spec fn path_steps(path: SharedPath) -> Seq<Direction>;

/// The cells that a shared grid holds, each with its threads, in order.
pub uninterp spec fn grid_cells(grid: SharedGrid) -> Seq<(GridCell, Seq<Thread>)>;

/// The grids that a shared list holds, in order.
pub uninterp spec fn history_grids(history: SharedHistory) -> Seq<Seq<(GridCell, Seq<Thread>)>>;

/// What each grid of a list holds.
pub open spec fn grids_model(grids: Seq<SharedGrid>) -> Seq<GridModel> {
    Seq::new(grids.len(), |i: int| grid_cells(grids[i]))
}

/// `IArray::from` on a `Vec`: the array holds the elements of the vector,
/// in order.
#[verifier::external_body]
fn share_path(steps: Vec<Direction>) -> (path: SharedPath)
    ensures
        path_steps(path) == steps@,
{
    SharedPath { inner: IArray::from(steps) }
}

/// `IArray::iter`: it hands out a copy of every element, first to last.
#[verifier::external_body]
fn copy_path(path: &SharedPath) -> (steps: Vec<Direction>)
    ensures
        steps@ == path_steps(*path),
{
    path.inner.iter().collect()
}

/// Collecting into an `indexmap::IndexMap`, which `IMap::Rc` then shares:
/// the map holds the pairs in the order in which they came. Where a key
/// comes twice the map keeps one pair only, so the cells must differ.
#[verifier::external_body]
fn share_grid(cells: Vec<(GridCell, Vec<Thread>)>) -> (grid: SharedGrid)
    requires
        distinct_cells(entries_model(cells@)),
    ensures
        grid_cells(grid) == entries_model(cells@),
{
    let index_map: IndexMap<(usize, usize), IArray<Thread>> = cells
        .into_iter()
        .map(|(cell, marks)| ((cell.0, cell.1), IArray::from(marks)))
        .collect();
    SharedGrid { inner: IMap::Rc(Arc::new(index_map)) }
}

/// `IMap::iter`: it hands out a copy of every pair, in the order of the
/// map.
#[verifier::external_body]
fn copy_grid(grid: &SharedGrid) -> (cells: Vec<(GridCell, Vec<Thread>)>)
    ensures
        entries_model(cells@) == grid_cells(*grid),
{
    grid.inner
        .iter()
        .map(|(cell, marks)| (GridCell(cell.0, cell.1), marks.iter().collect()))
        .collect()
}

/// `IMap::clone`: the clone shares the map, so it holds the same.
#[verifier::external_body]
fn clone_grid(grid: &SharedGrid) -> (copy: SharedGrid)
    ensures
        grid_cells(copy) == grid_cells(*grid),
{
    SharedGrid { inner: grid.inner.clone() }
}

/// `IArray::from` on a `Vec`: the array holds the elements of the vector,
/// in order.
#[verifier::external_body]
fn share_history(grids: Vec<SharedGrid>) -> (history: SharedHistory)
    ensures
        history_grids(history) == grids_model(grids@),
{
    let maps: Vec<IMap<(usize, usize), IArray<Thread>>> = grids.into_iter().map(|grid| grid.inner).collect();
    SharedHistory { inner: IArray::from(maps) }
}

/// `IArray::len`: the number of elements that the array holds.
#[verifier::external_body]
fn history_len(history: &SharedHistory) -> (count: usize)
    ensures
        count == history_grids(*history).len(),
{
    history.inner.len()
}

/// `IArray::iter`: it hands out a copy of every element, first to last.
#[verifier::external_body]
fn copy_history(history: &SharedHistory) -> (grids: Vec<SharedGrid>)
    ensures
        grids_model(grids@) == history_grids(*history),
{
    history.inner.iter().map(|inner| SharedGrid { inner }).collect()
}

impl View for SharedPath {
    type V = Seq<Direction>;

    open spec fn view(&self) -> Seq<Direction> {
        path_steps(*self)
    }
}

impl View for SharedGrid {
    type V = GridModel;

    open spec fn view(&self) -> GridModel {
        grid_cells(*self)
    }
}

impl View for SharedHistory {
    type V = Seq<GridModel>;

    open spec fn view(&self) -> Seq<GridModel> {
        history_grids(*self)
    }
}

impl SharedPath {
    /// Shares a path.
    pub fn from_vec(steps: Vec<Direction>) -> (path: SharedPath)
        ensures
            path@ == steps@,
    {
        share_path(steps)
    }

    /// A copy of the steps of the path.
    pub fn to_vec(&self) -> (steps: Vec<Direction>)
        ensures
            steps@ == self@,
    {
        copy_path(self)
    }
}

impl SharedGrid {
    /// Shares a copy of a grid.
    pub fn from_grid(grid: &Grid) -> (shared: SharedGrid)
        ensures
            shared@ == grid@,
    {
        grid.recall_well_formed();
        share_grid(grid.to_entries())
    }

    /// The cells of the shared grid with their threads, in order.
    pub fn to_entries(&self) -> (cells: Vec<(GridCell, Vec<Thread>)>)
        ensures
            entries_model(cells@) == self@,
    {
        copy_grid(self)
    }

    /// A grid with the cells of the shared grid, merged into it one after
    /// the other.
    pub fn to_grid(&self) -> (grid: Grid)
        ensures
            grid@ == crate::grid::overlaid(GridModel::empty(), self@),
    {
        Grid::from_entries(&copy_grid(self))
    }
}

impl Clone for SharedGrid {
    fn clone(&self) -> (copy: SharedGrid)
        ensures
            copy@ == self@,
    {
        clone_grid(self)
    }
}

impl SharedHistory {
    /// Shares a list of grids.
    pub fn from_vec(grids: Vec<SharedGrid>) -> (history: SharedHistory)
        ensures
            history@ == grids_model(grids@),
    {
        share_history(grids)
    }

    /// The number of grids in the list.
    pub fn len(&self) -> (count: usize)
        ensures
            count == self@.len(),
    {
        history_len(self)
    }

    /// The grids of the list, in order.
    pub fn to_vec(&self) -> (grids: Vec<SharedGrid>)
        ensures
            grids_model(grids@) == self@,
    {
        copy_history(self)
    }
}

} // verus!
