//! The editing session: what the pointer does to the pattern under each
//! tool.
//!
//! While the pointer is held down, the brush and the fill collect a
//! pending change. Releasing the pointer merges that change into the grid
//! on show and commits the result. The pointer tool selects a cell
//! instead and changes nothing in the grid.

use crate::color::{Rgb, RgbError};
use crate::form::{parse_count, written_count};
use crate::grid::{
    filled, has_cell, marks_at, overlaid, well_formed, with_merged, Grid, GridModel,
};
use crate::marks::{copy_marks, merged_marks};
use crate::pattern::{GridCell, GridSize, Thread, ThreadType};
use crate::reducer::{committed, undone, visible, PatternEditorState};
use vstd::prelude::*;

verus! {

/// The tool in hand.
#[derive(Clone, Copy, Debug, PartialEq, Eq, Structural)]
pub enum PatternEditorFeature {
    Brush,
    Fill,
    Pointer,
}

/// The colour that a new session paints with: red.
pub open spec fn default_color_spec() -> Rgb {
    Rgb { r: 255, g: 0, b: 0 }
}

/// The colour that a new session paints with: red.
#[verifier::when_used_as_spec(default_color_spec)]
pub fn default_color() -> (color: Rgb)
    ensures
        color == default_color_spec(),
{
    Rgb { r: 255, g: 0, b: 0 }
}

/// What a session holds.
pub struct EditorModel {
    /// The committed grids, oldest first.
    pub history: Seq<GridModel>,
    /// The change collected since the pointer went down.
    pub pending: GridModel,
    /// The tool in hand.
    pub feature: PatternEditorFeature,
    /// Whether the pointer is held down with the brush or the fill.
    pub dragging: bool,
    /// The size of the pattern, once it is known.
    pub size: Option<GridSize>,
    /// The colour that the next stroke paints with.
    pub color: Rgb,
    /// The colour of the stroke under way.
    pub stroke_color: Rgb,
    /// The cell that the cell editor shows, with its threads.
    pub active: (GridCell, Seq<Thread>),
    /// The selected cells: one at most.
    pub selection: Seq<GridCell>,
    /// Whether the next drawing starts from a cleared surface.
    pub clear: bool,
}

/// The two diagonal threads that the brush and the fill stitch.
pub open spec fn stroke_marks(color: Rgb) -> Seq<Thread> {
    seq![
        Thread { color, thread_type: ThreadType::SlashForwards },
        Thread { color, thread_type: ThreadType::SlashBackwards },
    ]
}

/// The selection after a click on `cell`: a click on the only selected
/// cell clears it, any other click selects the cell alone.
pub open spec fn toggled(selection: Seq<GridCell>, cell: GridCell) -> Seq<GridCell> {
    if selection.len() == 1 && selection[0] == cell {
        Seq::empty()
    } else {
        seq![cell]
    }
}

/// The size to fill: the known size, or no cell at all while none is
/// known.
pub open spec fn size_or_none(size: Option<GridSize>) -> GridSize {
    match size {
        Some(size) => size,
        None => GridSize(0, 0),
    }
}

impl EditorModel {
    /// A new session: the brush in hand, the default colour, no size, an
    /// empty history and a surface to clear.
    pub open spec fn initial() -> EditorModel {
        EditorModel {
            history: Seq::empty(),
            pending: GridModel::empty(),
            feature: PatternEditorFeature::Brush,
            dragging: false,
            size: None,
            color: default_color(),
            stroke_color: default_color(),
            active: (GridCell(0, 0), Seq::empty()),
            selection: Seq::empty(),
            clear: true,
        }
    }

    /// The grid on show: the last commit, or the empty grid.
    pub open spec fn grid(self) -> GridModel {
        visible(self.history)
    }

    /// The session after the pointer goes down on `cell`.
    pub open spec fn pointer_down(self, cell: GridCell) -> EditorModel {
        match self.feature {
            PatternEditorFeature::Brush => EditorModel {
                pending: seq![(cell, stroke_marks(self.color))],
                dragging: true,
                stroke_color: self.color,
                ..self
            },
            PatternEditorFeature::Fill => EditorModel {
                pending: filled(GridModel::empty(), size_or_none(self.size), stroke_marks(self.color)),
                dragging: true,
                stroke_color: self.color,
                ..self
            },
            PatternEditorFeature::Pointer => EditorModel {
                active: if size_or_none(self.size).holds(cell) {
                    (cell, marks_at(self.grid(), cell))
                } else {
                    self.active
                },
                selection: toggled(self.selection, cell),
                ..self
            },
        }
    }

    /// Whether a move of the pointer to `cell` stitches: only a brush that
    /// is held down does, and only into a cell that the stroke has not
    /// reached yet.
    pub open spec fn stitches(self, cell: GridCell) -> bool {
        self.dragging && self.feature == PatternEditorFeature::Brush && !has_cell(self.pending, cell)
    }

    /// The session after the pointer moves to `cell`.
    pub open spec fn pointer_move(self, cell: GridCell) -> EditorModel {
        if self.stitches(cell) {
            EditorModel { pending: self.pending.push((cell, stroke_marks(self.stroke_color))), ..self }
        } else {
            self
        }
    }

    /// Whether releasing the pointer commits.
    pub open spec fn commits_on_release(self) -> bool {
        self.dragging && self.feature != PatternEditorFeature::Pointer
    }

    /// The session after the pointer is released.
    pub open spec fn pointer_up(self) -> EditorModel {
        if self.commits_on_release() {
            EditorModel {
                history: committed(self.history, overlaid(self.grid(), self.pending)),
                pending: GridModel::empty(),
                dragging: false,
                ..self
            }
        } else {
            self
        }
    }

    /// The session after `feature` is taken in hand. Leaving the pointer
    /// tool clears the selection.
    pub open spec fn set_feature(self, feature: PatternEditorFeature) -> EditorModel {
        EditorModel {
            feature,
            selection: if feature != PatternEditorFeature::Pointer {
                Seq::empty()
            } else {
                self.selection
            },
            ..self
        }
    }

    /// The session after the colour is set from its notation. Text that
    /// writes no colour changes nothing.
    pub open spec fn set_color(self, hex: Seq<char>) -> EditorModel {
        match Rgb::parse_hex(hex) {
            Some(color) => EditorModel { color, ..self },
            None => self,
        }
    }

    /// The session after the size of the pattern is set.
    pub open spec fn set_grid_size(self, size: GridSize) -> EditorModel {
        EditorModel { size: Some(size), ..self }
    }

    /// The session after the form for the size is sent with the two texts.
    /// Unless both write a count, nothing changes.
    pub open spec fn submit_dimensions(self, columns: Seq<char>, rows: Seq<char>) -> EditorModel {
        match (written_count(columns), written_count(rows)) {
            (Some(column_count), Some(row_count)) => self.set_grid_size(
                GridSize(column_count, row_count),
            ),
            _ => self,
        }
    }

    /// The session after the last commit is taken back.
    pub open spec fn undo(self) -> EditorModel {
        EditorModel {
            history: undone(self.history),
            pending: GridModel::empty(),
            clear: true,
            ..self
        }
    }

    /// The session after the surface was drawn afresh.
    pub open spec fn rendered(self) -> EditorModel {
        EditorModel { clear: false, ..self }
    }

    /// The session after the cell editor changed threads of `cell`.
    pub open spec fn thread_change(self, cell: GridCell, threads: Seq<Thread>) -> EditorModel {
        let grid = with_merged(self.grid(), cell, threads);
        EditorModel {
            history: committed(self.history, grid),
            active: (cell, marks_at(grid, cell)),
            ..self
        }
    }

    /// The session after the cell editor is closed.
    pub open spec fn close_cell_editor(self) -> EditorModel {
        EditorModel { selection: Seq::empty(), ..self }
    }
}

/// An editing session.
#[derive(Debug)]
pub struct Editor {
    state: PatternEditorState,
    pending: Grid,
    active_feature: PatternEditorFeature,
    is_mousedown: bool,
    grid_size: Option<GridSize>,
    thread_color: Rgb,
    stroke_color: Rgb,
    active_thread_cell: (GridCell, Vec<Thread>),
    selected_cell: Option<GridCell>,
    clear: bool,
}

impl View for Editor {
    type V = EditorModel;

    closed spec fn view(&self) -> EditorModel {
        EditorModel {
            history: self.state.snapshots(),
            pending: self.pending@,
            feature: self.active_feature,
            dragging: self.is_mousedown,
            size: self.grid_size,
            color: self.thread_color,
            stroke_color: self.stroke_color,
            active: (self.active_thread_cell.0, self.active_thread_cell.1@),
            selection: match self.selected_cell {
                Some(cell) => seq![cell],
                None => Seq::empty(),
            },
            clear: self.clear,
        }
    }
}

/// The two diagonal threads that the brush and the fill stitch.
pub fn make_stroke_marks(color: Rgb) -> (marks: Vec<Thread>)
    ensures
        marks@ == stroke_marks(color),
{
    let mut marks: Vec<Thread> = Vec::new();
    marks.push(Thread::new(color, ThreadType::SlashForwards));
    marks.push(Thread::new(color, ThreadType::SlashBackwards));
    assert(marks@ =~= stroke_marks(color));
    marks
}

impl Editor {
    /// A session with the brush in hand, the default colour, no size, an
    /// empty history and a surface to clear.
    pub fn new() -> (editor: Editor)
        ensures
            editor@ == EditorModel::initial(),
    {
        Editor {
            state: PatternEditorState::new(),
            pending: Grid::new(),
            active_feature: PatternEditorFeature::Brush,
            is_mousedown: false,
            grid_size: None,
            thread_color: default_color(),
            stroke_color: default_color(),
            active_thread_cell: (GridCell(0, 0), Vec::new()),
            selected_cell: None,
            clear: true,
        }
    }

    /// The grid on show.
    pub fn grid(&self) -> (grid: &Grid)
        ensures
            grid@ == self@.grid(),
    {
        self.state.grid()
    }

    /// The history of commits.
    pub fn state(&self) -> (state: &PatternEditorState)
        ensures
            state.snapshots() == self@.history,
    {
        &self.state
    }

    /// The change collected since the pointer went down.
    pub fn pending(&self) -> (pending: &Grid)
        ensures
            pending@ == self@.pending,
    {
        &self.pending
    }

    /// The tool in hand.
    pub fn active_feature(&self) -> (feature: PatternEditorFeature)
        ensures
            feature == self@.feature,
    {
        self.active_feature
    }

    /// Whether the pointer is held down with the brush or the fill.
    pub fn is_mousedown(&self) -> (dragging: bool)
        ensures
            dragging == self@.dragging,
    {
        self.is_mousedown
    }

    /// The size of the pattern, once it is known.
    pub fn grid_size(&self) -> (size: Option<GridSize>)
        ensures
            size == self@.size,
    {
        self.grid_size
    }

    /// The colour that the next stroke paints with.
    pub fn thread_color(&self) -> (color: Rgb)
        ensures
            color == self@.color,
    {
        self.thread_color
    }

    /// The cell that the cell editor shows, with its threads.
    pub fn active_thread_cell(&self) -> (active: (GridCell, Vec<Thread>))
        ensures
            active.0 == self@.active.0,
            active.1@ == self@.active.1,
    {
        (self.active_thread_cell.0, copy_marks(&self.active_thread_cell.1))
    }

    /// The selected cell, if one is selected.
    pub fn selected_cell(&self) -> (selected: Option<GridCell>)
        ensures
            match selected {
                Some(cell) => self@.selection == seq![cell],
                None => self@.selection == Seq::<GridCell>::empty(),
            },
    {
        self.selected_cell
    }

    /// Whether the next drawing starts from a cleared surface.
    pub fn clear(&self) -> (clear: bool)
        ensures
            clear == self@.clear,
    {
        self.clear
    }

    /// The pointer goes down on `cell`.
    ///
    /// The brush starts a stroke in that cell, and the fill one that covers
    /// the whole pattern; both stitch the two diagonals in the current
    /// colour. The pointer tool shows the cell in the cell editor, if the
    /// cell lies inside the pattern, and toggles the selection.
    pub fn pointer_down(&mut self, cell: GridCell)
        ensures
            final(self)@ == old(self)@.pointer_down(cell),
    {
        match self.active_feature {
            PatternEditorFeature::Brush => {
                let marks = make_stroke_marks(self.thread_color);
                let mut pending = Grid::new();
                pending.merge(cell, &marks);
                proof {
                    lemma_stroke_marks_merged(self.thread_color);
                    assert(pending@ =~= seq![(cell, stroke_marks(self.thread_color))]);
                }
                self.pending = pending;
                self.is_mousedown = true;
                self.stroke_color = self.thread_color;
            },
            PatternEditorFeature::Fill => {
                let marks = make_stroke_marks(self.thread_color);
                let size = match self.grid_size {
                    Some(size) => size,
                    None => GridSize(0, 0),
                };
                let mut pending = Grid::new();
                pending.fill_region(size, &marks);
                self.pending = pending;
                self.is_mousedown = true;
                self.stroke_color = self.thread_color;
            },
            PatternEditorFeature::Pointer => {
                let size = match self.grid_size {
                    Some(size) => size,
                    None => GridSize(0, 0),
                };
                if size.contains(cell) {
                    let marks = self.state.grid().get(cell);
                    self.active_thread_cell = (cell, marks);
                }
                self.selected_cell = match self.selected_cell {
                    Some(selected) if selected == cell => None,
                    _ => Some(cell),
                };
            },
        }
    }

    /// The pointer moves to `cell`.
    ///
    /// A brush that is held down stitches the cell in the colour of its
    /// stroke, unless the stroke has reached the cell before. Nothing else
    /// reacts. Returns whether the cell was stitched.
    pub fn pointer_move(&mut self, cell: GridCell) -> (stitched: bool)
        ensures
            final(self)@ == old(self)@.pointer_move(cell),
            stitched == old(self)@.stitches(cell),
    {
        let stitches = self.is_mousedown && self.active_feature == PatternEditorFeature::Brush
            && !self.pending.contains(cell);
        if stitches {
            let marks = make_stroke_marks(self.stroke_color);
            self.pending.merge(cell, &marks);
            proof {
                lemma_stroke_marks_merged(self.stroke_color);
                assert(self.pending@ =~= old(self)@.pending.push((cell, stroke_marks(self.stroke_color))));
            }
        }
        stitches
    }

    /// The pointer is released.
    ///
    /// After a stroke of the brush or the fill, the pending change is merged
    /// into the grid on show and the result is committed. Otherwise nothing
    /// happens. Returns whether a grid was committed.
    pub fn pointer_up(&mut self) -> (did_commit: bool)
        ensures
            final(self)@ == old(self)@.pointer_up(),
            did_commit == old(self)@.commits_on_release(),
    {
        let commits = self.is_mousedown && match self.active_feature {
            PatternEditorFeature::Brush | PatternEditorFeature::Fill => true,
            PatternEditorFeature::Pointer => false,
        };
        if commits {
            let mut grid = self.state.grid().clone();
            grid.merge_grid(&self.pending);
            self.state.commit(grid);
            self.pending = Grid::new();
            self.is_mousedown = false;
        }
        commits
    }

    /// Takes `feature` in hand. Leaving the pointer tool clears the
    /// selection.
    pub fn set_feature(&mut self, feature: PatternEditorFeature)
        ensures
            final(self)@ == old(self)@.set_feature(feature),
    {
        if feature != PatternEditorFeature::Pointer {
            self.selected_cell = None;
        }
        self.active_feature = feature;
    }

    /// Sets the colour from its notation and returns it. Text that writes
    /// no colour is refused, and the colour stays as it was.
    pub fn set_color(&mut self, hex: String) -> (result: Result<Rgb, RgbError>)
        ensures
            final(self)@ == old(self)@.set_color(hex@),
            match result {
                Ok(color) => Rgb::parse_hex(hex@) == Some(color),
                Err(error) => Rgb::parse_hex(hex@) is None && error.refuses(hex@),
            },
    {
        match Rgb::from_hex(hex) {
            Ok(color) => {
                self.thread_color = color;
                Ok(color)
            },
            Err(error) => Err(error),
        }
    }

    /// Sets the size of the pattern.
    pub fn set_grid_size(&mut self, size: GridSize)
        ensures
            final(self)@ == old(self)@.set_grid_size(size),
    {
        self.grid_size = Some(size);
    }

    /// The form for the size is sent with the text of its two fields. Where
    /// both write a count, the pattern has that many columns and rows;
    /// otherwise nothing changes. Returns whether the size was set.
    pub fn submit_dimensions(&mut self, columns: &str, rows: &str) -> (accepted: bool)
        ensures
            final(self)@ == old(self)@.submit_dimensions(columns@, rows@),
            accepted == (written_count(columns@) is Some && written_count(rows@) is Some),
    {
        match (parse_count(columns), parse_count(rows)) {
            (Some(column_count), Some(row_count)) => {
                self.grid_size = Some(GridSize(column_count, row_count));
                true
            },
            _ => false,
        }
    }

    /// Takes the last commit back, drops the pending change and asks for a
    /// drawing from a cleared surface.
    pub fn undo(&mut self)
        ensures
            final(self)@ == old(self)@.undo(),
    {
        self.state.undo();
        self.pending = Grid::new();
        self.clear = true;
    }

    /// Notes that the surface was drawn afresh.
    pub fn rendered(&mut self)
        ensures
            final(self)@ == old(self)@.rendered(),
    {
        self.clear = false;
    }

    /// Merges `threads`, as the cell editor changed them, into `cell` of
    /// the grid on show, commits the result and shows the cell in the cell
    /// editor.
    pub fn thread_change(&mut self, cell: GridCell, threads: &Vec<Thread>)
        ensures
            final(self)@ == old(self)@.thread_change(cell, threads@),
    {
        let mut grid = self.state.grid().clone();
        grid.merge(cell, threads);
        let marks = grid.get(cell);
        self.state.commit(grid);
        self.active_thread_cell = (cell, marks);
    }

    /// Closes the cell editor, which clears the selection.
    pub fn close_cell_editor(&mut self)
        ensures
            final(self)@ == old(self)@.close_cell_editor(),
    {
        self.selected_cell = None;
    }
}

impl Default for Editor {
    fn default() -> (editor: Editor)
        ensures
            editor@ == EditorModel::initial(),
    {
        Editor::new()
    }
}

/// Stitched into an empty cell, the two diagonals stand as they are.
pub proof fn lemma_stroke_marks_merged(color: Rgb)
    ensures
        merged_marks(Seq::empty(), stroke_marks(color)) == stroke_marks(color),
{
    crate::marks::lemma_merged_into_empty(stroke_marks(color));
}

/// Whatever is done in a session, at most one cell is selected.
pub proof fn lemma_selection_bound(
    session: EditorModel,
    cell: GridCell,
    feature: PatternEditorFeature,
    hex: Seq<char>,
    columns: Seq<char>,
    rows: Seq<char>,
    size: GridSize,
    threads: Seq<Thread>,
)
    requires
        session.selection.len() <= 1,
    ensures
        session.pointer_down(cell).selection.len() <= 1,
        session.pointer_move(cell).selection.len() <= 1,
        session.pointer_up().selection.len() <= 1,
        session.set_feature(feature).selection.len() <= 1,
        session.set_color(hex).selection.len() <= 1,
        session.set_grid_size(size).selection.len() <= 1,
        session.submit_dimensions(columns, rows).selection.len() <= 1,
        session.undo().selection.len() <= 1,
        session.rendered().selection.len() <= 1,
        session.thread_change(cell, threads).selection.len() <= 1,
        session.close_cell_editor().selection.len() <= 1,
{
}

/// With the pointer tool, a click selects the cell alone and a second
/// click on it clears the selection; neither click touches the grid, the
/// pending change or the history.
pub proof fn lemma_click_twice_clears(session: EditorModel, cell: GridCell)
    requires
        session.feature == PatternEditorFeature::Pointer,
        session.selection != seq![cell],
    ensures
        session.pointer_down(cell).selection == seq![cell],
        session.pointer_down(cell).pointer_down(cell).selection == Seq::<GridCell>::empty(),
        session.pointer_down(cell).history == session.history,
        session.pointer_down(cell).pending == session.pending,
        session.pointer_down(cell).dragging == session.dragging,
{
    if session.selection.len() == 1 && session.selection[0] == cell {
        assert(session.selection =~= seq![cell]);
    }
}

/// A stroke of the brush over one cell: pressing and releasing commits the
/// grid on show with the two diagonals merged into that cell, and leaves
/// nothing pending. Taking the commit back gives the history from before
/// the stroke.
pub proof fn lemma_brush_stroke_commits(session: EditorModel, cell: GridCell)
    requires
        session.feature == PatternEditorFeature::Brush,
    ensures
        ({
            let after = session.pointer_down(cell).pointer_up();
            &&& after.grid() == with_merged(session.grid(), cell, stroke_marks(session.color))
            &&& after.history == session.history.push(after.grid())
            &&& after.pending == GridModel::empty()
            &&& !after.dragging
            &&& after.undo().history == session.history
        }),
{
    let down = session.pointer_down(cell);
    let after = down.pointer_up();
    let marks = stroke_marks(session.color);
    assert(down.pending[0] == (cell, marks));
    reveal_with_fuel(crate::grid::with_delta, 2);
    assert(overlaid(session.grid(), down.pending) == with_merged(session.grid(), cell, marks));
    assert(after.history.drop_last() =~= session.history);
}

/// A fill commits the grid on show with the two diagonals merged into
/// every cell of the pattern and into no other.
pub proof fn lemma_fill_stroke_cells(session: EditorModel, at: GridCell, cell: GridCell)
    requires
        session.feature == PatternEditorFeature::Fill,
        well_formed(session.grid()),
    ensures
        ({
            let after = session.pointer_down(at).pointer_up();
            &&& well_formed(after.grid())
            &&& marks_at(after.grid(), cell) == if size_or_none(session.size).holds(cell) {
                merged_marks(marks_at(session.grid(), cell), stroke_marks(session.color))
            } else {
                marks_at(session.grid(), cell)
            }
        }),
{
    let size = size_or_none(session.size);
    let marks = stroke_marks(session.color);
    let down = session.pointer_down(at);
    crate::grid::lemma_filled_cells(GridModel::empty(), size, marks, cell);
    crate::grid::lemma_overlaid_cells(session.grid(), down.pending, cell);
    lemma_stroke_marks_merged(session.color);
    assert(marks_at(GridModel::empty(), cell) == Seq::<Thread>::empty());
}

} // verus!
