//! The sparse grid: the cells that hold threads, in the order in which
//! they were first stitched.
//!
//! A cell that is not in the grid is empty. No cell is in the grid twice,
//! and no cell holds two threads of one type.

use crate::marks::{copy_marks, distinct_kinds, lemma_merged_marks_distinct, merge_marks, merged_marks};
use crate::pattern::{GridCell, GridSize, Thread};
use vstd::prelude::*;

verus! {

/// What a grid holds: its cells with their threads, in order.
pub type GridModel = Seq<(GridCell, Seq<Thread>)>;

/// Whether `cell` is in the grid.
pub open spec fn has_cell(grid: GridModel, cell: GridCell) -> bool {
    exists|i: int| 0 <= i < grid.len() && (#[trigger] grid[i]).0 == cell
}

/// A place of `cell` in the grid, where it has one.
pub open spec fn index_of_cell(grid: GridModel, cell: GridCell) -> int {
    choose|i: int| 0 <= i < grid.len() && (#[trigger] grid[i]).0 == cell
}

/// The threads of `cell`: none where the cell is not in the grid.
pub open spec fn marks_at(grid: GridModel, cell: GridCell) -> Seq<Thread> {
    if has_cell(grid, cell) {
        grid[index_of_cell(grid, cell)].1
    } else {
        Seq::empty()
    }
}

/// Whether no cell is in the grid twice.
pub open spec fn distinct_cells(grid: GridModel) -> bool {
    forall|i: int, j: int| 0 <= i < j < grid.len() ==> (#[trigger] grid[i]).0 != (#[trigger] grid[j]).0
}

/// Whether no cell is in the grid twice and none holds two threads of one
/// type.
pub open spec fn well_formed(grid: GridModel) -> bool {
    &&& distinct_cells(grid)
    &&& forall|i: int| 0 <= i < grid.len() ==> distinct_kinds((#[trigger] grid[i]).1)
}

/// The grid after `marks` are merged into `cell`. A cell that was not in
/// the grid comes last.
pub open spec fn with_merged(grid: GridModel, cell: GridCell, marks: Seq<Thread>) -> GridModel {
    if has_cell(grid, cell) {
        let i = index_of_cell(grid, cell);
        grid.update(i, (cell, merged_marks(grid[i].1, marks)))
    } else {
        grid.push((cell, merged_marks(Seq::empty(), marks)))
    }
}

/// The grid after `marks` are merged into the first `columns` cells of
/// the row `row`, left to right.
pub open spec fn filled_row(grid: GridModel, row: usize, columns: int, marks: Seq<Thread>) -> GridModel
    decreases columns,
{
    if columns <= 0 {
        grid
    } else {
        with_merged(
            filled_row(grid, row, columns - 1, marks),
            GridCell((columns - 1) as usize, row),
            marks,
        )
    }
}

/// The grid after `marks` are merged into the first `columns` cells of
/// each of the first `rows` rows, top to bottom.
pub open spec fn filled_rows(grid: GridModel, columns: usize, rows: int, marks: Seq<Thread>) -> GridModel
    decreases rows,
{
    if rows <= 0 {
        grid
    } else {
        filled_row(filled_rows(grid, columns, rows - 1, marks), (rows - 1) as usize, columns as int, marks)
    }
}

/// The grid after `marks` are merged into every cell of a region that
/// starts at the origin.
pub open spec fn filled(grid: GridModel, size: GridSize, marks: Seq<Thread>) -> GridModel {
    filled_rows(grid, size.0, size.1 as int, marks)
}

/// The grid after the first `count` cells of `delta` are merged into it,
/// each with its threads.
pub open spec fn with_delta(grid: GridModel, delta: GridModel, count: int) -> GridModel
    decreases count,
{
    if count <= 0 {
        grid
    } else {
        with_merged(with_delta(grid, delta, count - 1), delta[count - 1].0, delta[count - 1].1)
    }
}

/// The grid after all of `delta` is merged into it.
pub open spec fn overlaid(grid: GridModel, delta: GridModel) -> GridModel {
    with_delta(grid, delta, delta.len() as int)
}

/// What a list of cells with their threads holds.
pub open spec fn entries_model(entries: Seq<(GridCell, Vec<Thread>)>) -> GridModel {
    Seq::new(entries.len(), |i: int| (entries[i].0, entries[i].1@))
}

/// A sparse grid of threads.
#[derive(Debug)]
pub struct Grid {
    entries: Vec<(GridCell, Vec<Thread>)>,
}

impl View for Grid {
    type V = GridModel;

    closed spec fn view(&self) -> GridModel {
        entries_model(self.entries@)
    }
}

impl Clone for Grid {
    fn clone(&self) -> (copy: Grid)
        ensures
            copy@ == self@,
    {
        proof {
            use_type_invariant(self);
        }
        let entries = self.to_entries();
        Grid { entries }
    }
}

impl Grid {
    #[verifier::type_invariant]
    spec fn inv(self) -> bool {
        well_formed(self@)
    }

    /// A grid in which every cell is empty.
    pub fn new() -> (grid: Grid)
        ensures
            grid@ == GridModel::empty(),
    {
        let grid = Grid { entries: Vec::new() };
        assert(grid@ =~= GridModel::empty());
        grid
    }

    /// Recalls what holds of every grid: no cell is in it twice, and none
    /// holds two threads of one type.
    pub fn recall_well_formed(&self)
        ensures
            well_formed(self@),
    {
        proof {
            use_type_invariant(self);
        }
    }

    /// A grid with the cells of `entries` merged into it, each with its
    /// threads, one after the other.
    pub fn from_entries(entries: &Vec<(GridCell, Vec<Thread>)>) -> (grid: Grid)
        ensures
            grid@ == overlaid(GridModel::empty(), entries_model(entries@)),
    {
        let mut grid = Grid::new();
        let ghost delta = entries_model(entries@);
        let mut i: usize = 0;
        while i < entries.len()
            invariant
                i <= entries.len(),
                delta == entries_model(entries@),
                grid@ == with_delta(GridModel::empty(), delta, i as int),
            decreases entries.len() - i,
        {
            grid.merge(entries[i].0, &entries[i].1);
            i += 1;
        }
        grid
    }

    /// A copy of the cells of the grid with their threads, in order.
    pub fn to_entries(&self) -> (entries: Vec<(GridCell, Vec<Thread>)>)
        ensures
            entries_model(entries@) == self@,
    {
        let mut entries: Vec<(GridCell, Vec<Thread>)> = Vec::new();
        let mut i: usize = 0;
        while i < self.entries.len()
            invariant
                i <= self.entries.len(),
                entries@.len() == i,
                forall|j: int|
                    0 <= j < i ==> (#[trigger] entries@[j]).0 == self.entries@[j].0 && entries@[j].1@
                        == self.entries@[j].1@,
            decreases self.entries.len() - i,
        {
            entries.push((self.entries[i].0, copy_marks(&self.entries[i].1)));
            i += 1;
        }
        assert(entries_model(entries@) =~= self@);
        entries
    }

    /// The number of cells in the grid.
    pub fn len(&self) -> (count: usize)
        ensures
            count == self@.len(),
    {
        self.entries.len()
    }

    /// Whether every cell is empty and none was ever stitched.
    pub fn is_empty(&self) -> (empty: bool)
        ensures
            empty == (self@.len() == 0),
    {
        self.entries.len() == 0
    }

    /// The cell at place `index` and its threads, while `index` is below
    /// [`Grid::len`].
    pub fn entry(&self, index: usize) -> (found: Option<(GridCell, Vec<Thread>)>)
        ensures
            match found {
                Some((cell, marks)) => index < self@.len() && self@[index as int] == (cell, marks@),
                None => index >= self@.len(),
            },
    {
        if index < self.entries.len() {
            Some((self.entries[index].0, copy_marks(&self.entries[index].1)))
        } else {
            None
        }
    }

    /// The place of `cell` among the cells of the grid.
    fn position(&self, cell: GridCell) -> (place: Option<usize>)
        ensures
            match place {
                Some(i) => i < self@.len() && self@[i as int].0 == cell && has_cell(self@, cell)
                    && index_of_cell(self@, cell) == i,
                None => !has_cell(self@, cell),
            },
    {
        proof {
            use_type_invariant(self);
        }
        let mut i: usize = 0;
        while i < self.entries.len()
            invariant
                i <= self.entries.len(),
                well_formed(self@),
                forall|j: int| 0 <= j < i ==> (#[trigger] self@[j]).0 != cell,
            decreases self.entries.len() - i,
        {
            if self.entries[i].0 == cell {
                assert(self@[i as int].0 == cell);
                proof {
                    lemma_index_of_cell(self@, cell, i as int);
                }
                return Some(i);
            }
            assert(self@[i as int].0 != cell);
            i += 1;
        }
        None
    }

    /// Whether `cell` is in the grid.
    pub fn contains(&self, cell: GridCell) -> (found: bool)
        ensures
            found == has_cell(self@, cell),
    {
        self.position(cell).is_some()
    }

    /// The threads of `cell`: none where the cell is not in the grid.
    pub fn get(&self, cell: GridCell) -> (marks: Vec<Thread>)
        ensures
            marks@ == marks_at(self@, cell),
    {
        match self.position(cell) {
            Some(i) => copy_marks(&self.entries[i].1),
            None => Vec::new(),
        }
    }

    /// Merges `marks` into `cell`, first to last: each takes the place of
    /// the thread of its type, or comes last where the cell has none of
    /// that type. A cell that was not in the grid comes last in it.
    pub fn merge(&mut self, cell: GridCell, marks: &Vec<Thread>)
        ensures
            final(self)@ == with_merged(old(self)@, cell, marks@),
    {
        proof {
            use_type_invariant(&*self);
            lemma_with_merged_well_formed(self@, cell, marks@);
        }
        let place = self.position(cell);
        let mut entries: Vec<(GridCell, Vec<Thread>)> = Vec::new();
        core::mem::swap(&mut self.entries, &mut entries);
        match place {
            Some(i) => {
                let mut merged = copy_marks(&entries[i].1);
                merge_marks(&mut merged, marks);
                entries.set(i, (cell, merged));
            },
            None => {
                let mut merged: Vec<Thread> = Vec::new();
                merge_marks(&mut merged, marks);
                entries.push((cell, merged));
            },
        }
        let ghost after = Seq::new(entries@.len(), |i: int| (entries@[i].0, entries@[i].1@));
        assert(after =~= with_merged(old(self)@, cell, marks@));
        core::mem::swap(&mut self.entries, &mut entries);
        assert(self@ =~= after);
    }

    /// Merges `marks` into every cell whose column is below `size.0` and
    /// whose row is below `size.1`, row by row from the top and left to
    /// right within a row.
    pub fn fill_region(&mut self, size: GridSize, marks: &Vec<Thread>)
        ensures
            final(self)@ == filled(old(self)@, size, marks@),
    {
        let mut row: usize = 0;
        while row < size.1
            invariant
                row <= size.1,
                self@ == filled_rows(old(self)@, size.0, row as int, marks@),
            decreases size.1 - row,
        {
            let ghost before = self@;
            let mut column: usize = 0;
            while column < size.0
                invariant
                    column <= size.0,
                    self@ == filled_row(before, row, column as int, marks@),
                decreases size.0 - column,
            {
                self.merge(GridCell(column, row), marks);
                column += 1;
            }
            row += 1;
        }
    }

    /// Merges every cell of `delta` into the grid, each with its threads,
    /// in the order of `delta`.
    pub fn merge_grid(&mut self, delta: &Grid)
        ensures
            final(self)@ == overlaid(old(self)@, delta@),
    {
        let mut i: usize = 0;
        while i < delta.entries.len()
            invariant
                i <= delta.entries.len(),
                delta.entries@.len() == delta@.len(),
                self@ == with_delta(old(self)@, delta@, i as int),
            decreases delta.entries.len() - i,
        {
            assert(delta@[i as int] == (delta.entries@[i as int].0, delta.entries@[i as int].1@));
            self.merge(delta.entries[i].0, &delta.entries[i].1);
            i += 1;
        }
    }
}

/// In a grid that holds no cell twice, the place of a cell is the one
/// place where it stands.
pub proof fn lemma_index_of_cell(grid: GridModel, cell: GridCell, i: int)
    requires
        distinct_cells(grid),
        0 <= i < grid.len(),
        grid[i].0 == cell,
    ensures
        has_cell(grid, cell),
        index_of_cell(grid, cell) == i,
{
    let k = index_of_cell(grid, cell);
    if k < i {
        assert(grid[k].0 != grid[i].0);
    } else if i < k {
        assert(grid[i].0 != grid[k].0);
    }
}

/// Merging keeps a grid well formed.
pub proof fn lemma_with_merged_well_formed(grid: GridModel, cell: GridCell, marks: Seq<Thread>)
    requires
        well_formed(grid),
    ensures
        well_formed(with_merged(grid, cell, marks)),
{
    let after = with_merged(grid, cell, marks);
    if has_cell(grid, cell) {
        let i = index_of_cell(grid, cell);
        lemma_merged_marks_distinct(grid[i].1, marks);
        assert forall|a: int, b: int| 0 <= a < b < after.len() implies (#[trigger] after[a]).0 != (
        #[trigger] after[b]).0 by {
            assert(after[a].0 == grid[a].0);
            assert(after[b].0 == grid[b].0);
        }
        assert forall|a: int| 0 <= a < after.len() implies distinct_kinds((#[trigger] after[a]).1) by {
            if a != i {
                assert(after[a] == grid[a]);
            }
        }
    } else {
        lemma_merged_marks_distinct(Seq::empty(), marks);
        assert forall|a: int, b: int| 0 <= a < b < after.len() implies (#[trigger] after[a]).0 != (
        #[trigger] after[b]).0 by {
            assert(after[a] == grid[a]);
            if b < grid.len() {
                assert(after[b] == grid[b]);
            }
        }
        assert forall|a: int| 0 <= a < after.len() implies distinct_kinds((#[trigger] after[a]).1) by {
            if a < grid.len() {
                assert(after[a] == grid[a]);
            }
        }
    }
}

/// What a merge does, cell by cell: the merged cell is in the grid with
/// its old threads and the new ones merged; every other cell is as
/// before.
pub proof fn lemma_with_merged_cells(
    grid: GridModel,
    cell: GridCell,
    marks: Seq<Thread>,
    other: GridCell,
)
    requires
        well_formed(grid),
    ensures
        has_cell(with_merged(grid, cell, marks), cell),
        marks_at(with_merged(grid, cell, marks), cell) == merged_marks(marks_at(grid, cell), marks),
        other != cell ==> has_cell(with_merged(grid, cell, marks), other) == has_cell(grid, other),
        other != cell ==> marks_at(with_merged(grid, cell, marks), other) == marks_at(grid, other),
{
    let after = with_merged(grid, cell, marks);
    lemma_with_merged_well_formed(grid, cell, marks);
    // The merged cell stands where it stood, or last where it is new.
    let place = if has_cell(grid, cell) {
        index_of_cell(grid, cell)
    } else {
        grid.len() as int
    };
    assert(after[place].0 == cell);
    lemma_index_of_cell(after, cell, place);
    // Every other cell stands where it stood, with what it held.
    if other != cell {
        if has_cell(grid, other) {
            let k = index_of_cell(grid, other);
            assert(after[k] == grid[k]);
            lemma_index_of_cell(after, other, k);
        }
        if has_cell(after, other) {
            let k = index_of_cell(after, other);
            assert(after[k] == grid[k]);
            lemma_index_of_cell(grid, other, k);
        }
    }
}

/// What filling a row does, cell by cell: each of its first `columns`
/// cells is in the grid with the threads merged into it; every other cell
/// is as before.
pub proof fn lemma_filled_row_cells(
    grid: GridModel,
    row: usize,
    columns: int,
    marks: Seq<Thread>,
    cell: GridCell,
)
    requires
        well_formed(grid),
        columns <= usize::MAX,
    ensures
        well_formed(filled_row(grid, row, columns, marks)),
        has_cell(filled_row(grid, row, columns, marks), cell) == (has_cell(grid, cell) || (cell.1
            == row && cell.0 < columns)),
        marks_at(filled_row(grid, row, columns, marks), cell) == if cell.1 == row && cell.0
            < columns {
            merged_marks(marks_at(grid, cell), marks)
        } else {
            marks_at(grid, cell)
        },
    decreases columns,
{
    if columns > 0 {
        let before = filled_row(grid, row, columns - 1, marks);
        lemma_filled_row_cells(grid, row, columns - 1, marks, cell);
        lemma_with_merged_well_formed(before, GridCell((columns - 1) as usize, row), marks);
        lemma_with_merged_cells(before, GridCell((columns - 1) as usize, row), marks, cell);
    }
}

/// What filling a region does, cell by cell: each cell of the region is
/// in the grid with the threads merged into it; every other cell is as
/// before.
pub proof fn lemma_filled_rows_cells(
    grid: GridModel,
    columns: usize,
    rows: int,
    marks: Seq<Thread>,
    cell: GridCell,
)
    requires
        well_formed(grid),
        rows <= usize::MAX,
    ensures
        well_formed(filled_rows(grid, columns, rows, marks)),
        has_cell(filled_rows(grid, columns, rows, marks), cell) == (has_cell(grid, cell) || (cell.0
            < columns && cell.1 < rows)),
        marks_at(filled_rows(grid, columns, rows, marks), cell) == if cell.0 < columns && cell.1
            < rows {
            merged_marks(marks_at(grid, cell), marks)
        } else {
            marks_at(grid, cell)
        },
    decreases rows,
{
    if rows > 0 {
        let before = filled_rows(grid, columns, rows - 1, marks);
        lemma_filled_rows_cells(grid, columns, rows - 1, marks, cell);
        lemma_filled_row_cells(before, (rows - 1) as usize, columns as int, marks, cell);
    }
}

/// Filling a region merges the threads into every cell of the region and
/// into no other.
pub proof fn lemma_filled_cells(grid: GridModel, size: GridSize, marks: Seq<Thread>, cell: GridCell)
    requires
        well_formed(grid),
    ensures
        well_formed(filled(grid, size, marks)),
        has_cell(filled(grid, size, marks), cell) == (has_cell(grid, cell) || size.holds(cell)),
        marks_at(filled(grid, size, marks), cell) == if size.holds(cell) {
            merged_marks(marks_at(grid, cell), marks)
        } else {
            marks_at(grid, cell)
        },
{
    lemma_filled_rows_cells(grid, size.0, size.1 as int, marks, cell);
}

/// What merging the first cells of a delta does, cell by cell.
pub proof fn lemma_with_delta_cells(grid: GridModel, delta: GridModel, count: int, cell: GridCell)
    requires
        well_formed(grid),
        well_formed(delta),
        count <= delta.len(),
    ensures
        well_formed(with_delta(grid, delta, count)),
        has_cell(with_delta(grid, delta, count), cell) == (has_cell(grid, cell) || has_cell(
            delta.subrange(0, if count < 0 { 0 } else { count }),
            cell,
        )),
        marks_at(with_delta(grid, delta, count), cell) == if has_cell(
            delta.subrange(0, if count < 0 { 0 } else { count }),
            cell,
        ) {
            merged_marks(marks_at(grid, cell), marks_at(delta, cell))
        } else {
            marks_at(grid, cell)
        },
    decreases count,
{
    if count > 0 {
        let before = with_delta(grid, delta, count - 1);
        let shorter = delta.subrange(0, count - 1);
        let longer = delta.subrange(0, count);
        let added = delta[count - 1].0;
        lemma_with_delta_cells(grid, delta, count - 1, cell);
        lemma_with_merged_well_formed(before, added, delta[count - 1].1);
        lemma_with_merged_cells(before, added, delta[count - 1].1, cell);
        assert(longer[count - 1] == delta[count - 1]);
        if cell == added {
            assert(has_cell(longer, cell));
            lemma_index_of_cell(delta, cell, count - 1);
            if has_cell(shorter, cell) {
                let k = index_of_cell(shorter, cell);
                assert(shorter[k] == delta[k]);
                assert(delta[k].0 != delta[count - 1].0);
            }
        } else {
            if has_cell(shorter, cell) {
                let k = index_of_cell(shorter, cell);
                assert(longer[k] == shorter[k]);
            }
            if has_cell(longer, cell) {
                let k = index_of_cell(longer, cell);
                assert(k < count - 1);
                assert(shorter[k] == longer[k]);
            }
        }
    }
}

/// Merging a delta into a grid merges, into each cell of the delta, the
/// threads that the delta holds for it, and leaves every other cell as it
/// was.
pub proof fn lemma_overlaid_cells(grid: GridModel, delta: GridModel, cell: GridCell)
    requires
        well_formed(grid),
        well_formed(delta),
    ensures
        well_formed(overlaid(grid, delta)),
        has_cell(overlaid(grid, delta), cell) == (has_cell(grid, cell) || has_cell(delta, cell)),
        marks_at(overlaid(grid, delta), cell) == if has_cell(delta, cell) {
            merged_marks(marks_at(grid, cell), marks_at(delta, cell))
        } else {
            marks_at(grid, cell)
        },
{
    lemma_with_delta_cells(grid, delta, delta.len() as int, cell);
    assert(delta.subrange(0, delta.len() as int) =~= delta);
}

/// Merged into an empty grid, a well-formed grid gives itself.
pub proof fn lemma_overlaid_empty(delta: GridModel)
    requires
        well_formed(delta),
    ensures
        overlaid(GridModel::empty(), delta) == delta,
{
    lemma_with_delta_empty(delta, delta.len() as int);
    assert(delta.subrange(0, delta.len() as int) =~= delta);
}

/// Merged into an empty grid, the first cells of a well-formed grid give
/// those cells.
pub proof fn lemma_with_delta_empty(delta: GridModel, count: int)
    requires
        well_formed(delta),
        0 <= count <= delta.len(),
    ensures
        with_delta(GridModel::empty(), delta, count) == delta.subrange(0, count),
    decreases count,
{
    if count == 0 {
        assert(delta.subrange(0, 0) =~= GridModel::empty());
    } else {
        lemma_with_delta_empty(delta, count - 1);
        let before = delta.subrange(0, count - 1);
        let cell = delta[count - 1].0;
        if has_cell(before, cell) {
            let k = index_of_cell(before, cell);
            assert(before[k] == delta[k]);
            assert(delta[k].0 != delta[count - 1].0);
        }
        crate::marks::lemma_merged_into_empty(delta[count - 1].1);
        assert(before.push(delta[count - 1]) =~= delta.subrange(0, count));
    }
}

} // verus!
