//! Drawing a pattern: the primitives that one frame sends to a surface.
//!
//! Lengths are in surface units. A cell is twenty units wide and high, and
//! a border is one unit thick.

use crate::color::Rgb;
use crate::editor::{size_or_none, Editor};
use crate::grid::{overlaid, Grid, GridModel};
use crate::pattern::{GridCell, GridSize, Thread, ThreadType};
use vstd::prelude::*;

verus! {

/// The width of a cell.
pub const CELL_WIDTH: u128 = 20;

/// The height of a cell.
pub const CELL_HEIGHT: u128 = 20;

/// The thickness of a border and of a line.
pub const BORDER_WIDTH: u128 = 1;

/// One call on an immediate-mode drawing surface.
#[derive(Clone, Copy, Debug, PartialEq, Eq, Structural)]
pub enum DrawCommand {
    ClearRect { x: u128, y: u128, width: u128, height: u128 },
    SetStrokeStyle(Rgb),
    SetFillStyle(Rgb),
    SetLineWidth(u128),
    BeginPath,
    MoveTo { x: u128, y: u128 },
    LineTo { x: u128, y: u128 },
    Stroke,
    FillRect { x: u128, y: u128, width: u128, height: u128 },
}

/// What one frame draws.
#[derive(Debug)]
pub struct Render {
    /// Whether the frame starts from a cleared surface with fresh grid
    /// lines.
    pub redraw: bool,
    /// The size of the pattern.
    pub size: GridSize,
    /// The colour of the grid lines.
    pub default_color: Rgb,
    /// The cells to draw.
    pub thread_cells: Grid,
    /// The selected cells. They are drawn like any other.
    pub selected_cells: Vec<GridCell>,
}

/// What a frame holds.
pub struct RenderModel {
    pub redraw: bool,
    pub size: GridSize,
    pub default_color: Rgb,
    pub thread_cells: GridModel,
    pub selected_cells: Seq<GridCell>,
}

impl View for Render {
    type V = RenderModel;

    open spec fn view(&self) -> RenderModel {
        RenderModel {
            redraw: self.redraw,
            size: self.size,
            default_color: self.default_color,
            thread_cells: self.thread_cells@,
            selected_cells: self.selected_cells@,
        }
    }
}

/// The frames that were asked for and not drawn yet, as one: between two
/// repaints the surface is drawn once, with what was asked for last.
#[derive(Debug)]
pub struct FrameQueue {
    waiting: Option<Render>,
}

/// The frame to draw where `next` is asked for while `waiting` is not
/// drawn yet: `next`, from a cleared surface if either of them asks for
/// one.
pub open spec fn coalesced(waiting: Option<RenderModel>, next: RenderModel) -> RenderModel {
    match waiting {
        Some(frame) => RenderModel { redraw: frame.redraw || next.redraw, ..next },
        None => next,
    }
}

/// The size of the surface for a pattern: its width, then its height. The
/// width follows the number of rows and the height the number of columns.
pub open spec fn canvas_size_spec(size: GridSize) -> (u128, u128) {
    ((size.1 * CELL_WIDTH) as u128, (size.0 * CELL_HEIGHT) as u128)
}

/// A straight line from one point to another, stroked.
pub open spec fn path_commands(from: (int, int), to: (int, int)) -> Seq<DrawCommand> {
    seq![
        DrawCommand::BeginPath,
        DrawCommand::MoveTo { x: from.0 as u128, y: from.1 as u128 },
        DrawCommand::LineTo { x: to.0 as u128, y: to.1 as u128 },
        DrawCommand::Stroke,
    ]
}

/// The grid line along the column boundary `column`: upright, from the top
/// of the grid to its bottom. The boundary `0` is the left edge of the
/// grid, and the boundary after the last column is its right edge.
pub open spec fn column_line(size: GridSize, column: int) -> Seq<DrawCommand> {
    path_commands((column * CELL_WIDTH, 0), (column * CELL_WIDTH, size.1 * CELL_HEIGHT))
}

/// The grid line along the row boundary `row`: level, from the left of the
/// grid to its right. The boundary `0` is the top edge of the grid, and the
/// boundary after the last row is its bottom edge.
pub open spec fn row_line(size: GridSize, row: int) -> Seq<DrawCommand> {
    path_commands((0, row * CELL_HEIGHT), (size.0 * CELL_WIDTH, row * CELL_HEIGHT))
}

/// The grid lines along the first `count` column boundaries, left to
/// right.
pub open spec fn columns_commands(size: GridSize, count: int) -> Seq<DrawCommand>
    decreases count,
{
    if count <= 0 {
        Seq::empty()
    } else {
        columns_commands(size, count - 1) + column_line(size, count - 1)
    }
}

/// The grid lines along the first `count` row boundaries, top to bottom.
pub open spec fn rows_commands(size: GridSize, count: int) -> Seq<DrawCommand>
    decreases count,
{
    if count <= 0 {
        Seq::empty()
    } else {
        rows_commands(size, count - 1) + row_line(size, count - 1)
    }
}

/// What comes before the grid lines: the whole surface is cleared, and
/// the colour and the thickness of the lines are set.
pub open spec fn grid_head(size: GridSize, color: Rgb) -> Seq<DrawCommand> {
    seq![
        DrawCommand::ClearRect {
            x: 0,
            y: 0,
            width: canvas_size_spec(size).0,
            height: canvas_size_spec(size).1,
        },
        DrawCommand::SetStrokeStyle(color),
        DrawCommand::SetLineWidth(BORDER_WIDTH),
    ]
}

/// Clearing the surface and drawing the grid lines in `color`: one line
/// along every column boundary, then one along every row boundary. A grid
/// has one boundary more than it has columns, and one more than it has
/// rows.
pub open spec fn grid_commands(size: GridSize, color: Rgb) -> Seq<DrawCommand> {
    grid_head(size, color) + columns_commands(size, size.0 + 1) + rows_commands(size, size.1 + 1)
}

/// Drawing one thread in its cell: a border as a filled bar along its
/// edge, a diagonal as a line from corner to corner. The forward diagonal
/// runs from the bottom left to the top right, the backward one from the
/// top left to the bottom right.
pub open spec fn thread_commands(cell: GridCell, thread: Thread) -> Seq<DrawCommand> {
    let x = cell.0 * CELL_WIDTH;
    let y = cell.1 * CELL_HEIGHT;
    match thread.thread_type {
        ThreadType::BorderTop => seq![
            DrawCommand::SetFillStyle(thread.color),
            DrawCommand::FillRect {
                x: x as u128,
                y: y as u128,
                width: CELL_WIDTH,
                height: BORDER_WIDTH,
            },
        ],
        ThreadType::BorderRight => seq![
            DrawCommand::SetFillStyle(thread.color),
            DrawCommand::FillRect {
                x: (x + CELL_WIDTH - BORDER_WIDTH) as u128,
                y: y as u128,
                width: BORDER_WIDTH,
                height: CELL_HEIGHT,
            },
        ],
        ThreadType::BorderBottom => seq![
            DrawCommand::SetFillStyle(thread.color),
            DrawCommand::FillRect {
                x: x as u128,
                y: (y + CELL_HEIGHT - BORDER_WIDTH) as u128,
                width: CELL_WIDTH,
                height: BORDER_WIDTH,
            },
        ],
        ThreadType::BorderLeft => seq![
            DrawCommand::SetFillStyle(thread.color),
            DrawCommand::FillRect {
                x: x as u128,
                y: y as u128,
                width: BORDER_WIDTH,
                height: CELL_HEIGHT,
            },
        ],
        ThreadType::SlashForwards => seq![DrawCommand::SetStrokeStyle(thread.color)]
            + path_commands((x, y + CELL_HEIGHT), (x + CELL_WIDTH, y)),
        ThreadType::SlashBackwards => seq![DrawCommand::SetStrokeStyle(thread.color)]
            + path_commands((x, y), (x + CELL_WIDTH, y + CELL_HEIGHT)),
    }
}

/// Drawing the first `count` threads of a cell.
pub open spec fn threads_commands(cell: GridCell, marks: Seq<Thread>, count: int) -> Seq<DrawCommand>
    decreases count,
{
    if count <= 0 {
        Seq::empty()
    } else {
        threads_commands(cell, marks, count - 1) + thread_commands(cell, marks[count - 1])
    }
}

/// Drawing a cell: its rectangle is cleared, then its threads are drawn
/// in order.
pub open spec fn cell_commands(cell: GridCell, marks: Seq<Thread>) -> Seq<DrawCommand> {
    seq![
        DrawCommand::SetLineWidth(BORDER_WIDTH),
        DrawCommand::ClearRect {
            x: (cell.0 * CELL_WIDTH) as u128,
            y: (cell.1 * CELL_HEIGHT) as u128,
            width: CELL_WIDTH,
            height: CELL_HEIGHT,
        },
    ] + threads_commands(cell, marks, marks.len() as int)
}

/// Drawing the first `count` cells of a grid.
pub open spec fn cells_commands(grid: GridModel, count: int) -> Seq<DrawCommand>
    decreases count,
{
    if count <= 0 {
        Seq::empty()
    } else {
        cells_commands(grid, count - 1) + cell_commands(grid[count - 1].0, grid[count - 1].1)
    }
}

/// A whole frame: the grid lines on a cleared surface where `redraw` asks
/// for them, then every cell of the grid.
pub open spec fn frame_commands(redraw: bool, size: GridSize, color: Rgb, grid: GridModel) -> Seq<
    DrawCommand,
> {
    if redraw {
        grid_commands(size, color) + cells_commands(grid, grid.len() as int)
    } else {
        cells_commands(grid, grid.len() as int)
    }
}

/// How many cells lie between the origin of the surface and a pointer, along
/// one axis. A pointer before the origin counts as in the first cell.
pub open spec fn cell_index(client: int, origin: int, extent: int) -> int {
    if client <= origin {
        0
    } else if (client - origin) / extent > usize::MAX {
        usize::MAX as int
    } else {
        (client - origin) / extent
    }
}

/// The cell under a pointer.
pub open spec fn cell_under(client: (i32, i32), origin: (i64, i64)) -> GridCell {
    GridCell(
        cell_index(client.0 as int, origin.0 as int, CELL_WIDTH as int) as usize,
        cell_index(client.1 as int, origin.1 as int, CELL_HEIGHT as int) as usize,
    )
}

/// The size of the surface for a pattern: its width, then its height. The
/// width follows the number of rows and the height the number of columns.
pub fn canvas_size(size: GridSize) -> (extent: (u128, u128))
    ensures
        extent == canvas_size_spec(size),
{
    (size.1 as u128 * CELL_WIDTH, size.0 as u128 * CELL_HEIGHT)
}

/// The cell under a pointer at `client`, on a surface whose top left
/// corner is at `origin`. Both are in the units of the view that holds the
/// surface; where the corner lies between two units, `origin` is the next
/// whole unit to the right and below.
pub fn get_thread_cell(client: (i32, i32), origin: (i64, i64)) -> (cell: GridCell)
    ensures
        cell == cell_under(client, origin),
{
    GridCell(
        index_on_axis(client.0, origin.0, CELL_WIDTH),
        index_on_axis(client.1, origin.1, CELL_HEIGHT),
    )
}

/// How many whole cells of `extent` units lie between `origin` and
/// `client`.
fn index_on_axis(client: i32, origin: i64, extent: u128) -> (index: usize)
    requires
        extent > 0,
    ensures
        index == cell_index(client as int, origin as int, extent as int),
{
    let client = client as i128;
    let origin = origin as i128;
    if client <= origin {
        0
    } else {
        let offset = (client - origin) as u128;
        let cells = offset / extent;
        if cells > usize::MAX as u128 {
            usize::MAX
        } else {
            cells as usize
        }
    }
}

/// Appends a straight line, stroked.
fn push_path(commands: &mut Vec<DrawCommand>, from: (u128, u128), to: (u128, u128))
    ensures
        final(commands)@ == old(commands)@ + path_commands(
            (from.0 as int, from.1 as int),
            (to.0 as int, to.1 as int),
        ),
{
    commands.push(DrawCommand::BeginPath);
    commands.push(DrawCommand::MoveTo { x: from.0, y: from.1 });
    commands.push(DrawCommand::LineTo { x: to.0, y: to.1 });
    commands.push(DrawCommand::Stroke);
    assert(commands@ =~= old(commands)@ + path_commands(
        (from.0 as int, from.1 as int),
        (to.0 as int, to.1 as int),
    ));
}

/// Appends the commands that clear the whole surface and draw the grid
/// lines of a pattern of `size` in `color`: an upright line along every
/// column boundary, then a level line along every row boundary.
pub fn draw_grid(size: GridSize, color: Rgb, commands: &mut Vec<DrawCommand>)
    ensures
        final(commands)@ == old(commands)@ + grid_commands(size, color),
{
    let columns = size.0 as u128;
    let rows = size.1 as u128;
    let grid_width = columns * CELL_WIDTH;
    let grid_height = rows * CELL_HEIGHT;
    let surface = canvas_size(size);
    commands.push(DrawCommand::ClearRect { x: 0, y: 0, width: surface.0, height: surface.1 });
    commands.push(DrawCommand::SetStrokeStyle(color));
    commands.push(DrawCommand::SetLineWidth(BORDER_WIDTH));
    let ghost head = old(commands)@ + grid_head(size, color);
    assert(commands@ =~= head + columns_commands(size, 0));
    let mut column: u128 = 0;
    while column <= columns
        invariant
            column <= columns + 1,
            columns == size.0,
            rows == size.1,
            grid_height == rows * CELL_HEIGHT,
            commands@ == head + columns_commands(size, column as int),
        decreases columns + 1 - column,
    {
        let ghost before = commands@;
        push_path(commands, (column * CELL_WIDTH, 0), (column * CELL_WIDTH, grid_height));
        assert(commands@ =~= before + column_line(size, column as int));
        assert(commands@ =~= head + columns_commands(size, column + 1));
        column += 1;
    }
    let ghost columns_done = commands@;
    assert(commands@ =~= columns_done + rows_commands(size, 0));
    let mut row: u128 = 0;
    while row <= rows
        invariant
            row <= rows + 1,
            columns == size.0,
            rows == size.1,
            grid_width == columns * CELL_WIDTH,
            commands@ == columns_done + rows_commands(size, row as int),
        decreases rows + 1 - row,
    {
        let ghost before = commands@;
        push_path(commands, (0, row * CELL_HEIGHT), (grid_width, row * CELL_HEIGHT));
        assert(commands@ =~= before + row_line(size, row as int));
        assert(commands@ =~= columns_done + rows_commands(size, row + 1));
        row += 1;
    }
    assert(commands@ =~= old(commands)@ + grid_commands(size, color));
}

/// Appends the commands that draw one thread in its cell.
fn draw_thread(cell: GridCell, thread: Thread, commands: &mut Vec<DrawCommand>)
    ensures
        final(commands)@ == old(commands)@ + thread_commands(cell, thread),
{
    let x = cell.0 as u128 * CELL_WIDTH;
    let y = cell.1 as u128 * CELL_HEIGHT;
    match thread.thread_type {
        ThreadType::BorderTop => {
            commands.push(DrawCommand::SetFillStyle(thread.color));
            commands.push(
                DrawCommand::FillRect { x, y, width: CELL_WIDTH, height: BORDER_WIDTH },
            );
        },
        ThreadType::BorderRight => {
            commands.push(DrawCommand::SetFillStyle(thread.color));
            commands.push(
                DrawCommand::FillRect {
                    x: x + CELL_WIDTH - BORDER_WIDTH,
                    y,
                    width: BORDER_WIDTH,
                    height: CELL_HEIGHT,
                },
            );
        },
        ThreadType::BorderBottom => {
            commands.push(DrawCommand::SetFillStyle(thread.color));
            commands.push(
                DrawCommand::FillRect {
                    x,
                    y: y + CELL_HEIGHT - BORDER_WIDTH,
                    width: CELL_WIDTH,
                    height: BORDER_WIDTH,
                },
            );
        },
        ThreadType::BorderLeft => {
            commands.push(DrawCommand::SetFillStyle(thread.color));
            commands.push(
                DrawCommand::FillRect { x, y, width: BORDER_WIDTH, height: CELL_HEIGHT },
            );
        },
        ThreadType::SlashForwards => {
            commands.push(DrawCommand::SetStrokeStyle(thread.color));
            push_path(commands, (x, y + CELL_HEIGHT), (x + CELL_WIDTH, y));
        },
        ThreadType::SlashBackwards => {
            commands.push(DrawCommand::SetStrokeStyle(thread.color));
            push_path(commands, (x, y), (x + CELL_WIDTH, y + CELL_HEIGHT));
        },
    }
    assert(commands@ =~= old(commands)@ + thread_commands(cell, thread));
}

/// Appends the commands that clear the rectangle of `cell` and draw
/// `marks` in it, in order.
pub fn draw_cell(cell: GridCell, marks: &Vec<Thread>, commands: &mut Vec<DrawCommand>)
    ensures
        final(commands)@ == old(commands)@ + cell_commands(cell, marks@),
{
    commands.push(DrawCommand::SetLineWidth(BORDER_WIDTH));
    commands.push(
        DrawCommand::ClearRect {
            x: cell.0 as u128 * CELL_WIDTH,
            y: cell.1 as u128 * CELL_HEIGHT,
            width: CELL_WIDTH,
            height: CELL_HEIGHT,
        },
    );
    let ghost head = commands@;
    assert(commands@ =~= head + threads_commands(cell, marks@, 0));
    let mut i: usize = 0;
    while i < marks.len()
        invariant
            i <= marks.len(),
            commands@ == head + threads_commands(cell, marks@, i as int),
        decreases marks.len() - i,
    {
        draw_thread(cell, marks[i], commands);
        assert(commands@ =~= head + threads_commands(cell, marks@, i + 1));
        i += 1;
    }
    assert(commands@ =~= old(commands)@ + cell_commands(cell, marks@));
}

impl Render {
    /// What the frame sends to the surface.
    pub open spec fn commands(self) -> Seq<DrawCommand> {
        frame_commands(self.redraw, self.size, self.default_color, self.thread_cells@)
    }

    /// The frame of a session: the grid on show with the pending change
    /// merged into it, from a cleared surface where the session asks for
    /// one, with grid lines in `default_color`.
    pub fn new(editor: &Editor, default_color: Rgb) -> (render: Render)
        ensures
            render.redraw == editor@.clear,
            render.size == size_or_none(editor@.size),
            render.default_color == default_color,
            render.thread_cells@ == overlaid(editor@.grid(), editor@.pending),
            render.selected_cells@ == editor@.selection,
    {
        let mut thread_cells = editor.grid().clone();
        thread_cells.merge_grid(editor.pending());
        let size = match editor.grid_size() {
            Some(size) => size,
            None => GridSize(0, 0),
        };
        let mut selected_cells: Vec<GridCell> = Vec::new();
        match editor.selected_cell() {
            Some(cell) => {
                selected_cells.push(cell);
                assert(selected_cells@ =~= seq![cell]);
            },
            None => {},
        }
        Render { redraw: editor.clear(), size, default_color, thread_cells, selected_cells }
    }

    /// The commands of the frame, in order, and whether the surface was
    /// cleared and its grid lines drawn afresh, which the session wants to
    /// hear of.
    pub fn render(&self) -> (drawn: (Vec<DrawCommand>, bool))
        ensures
            drawn.0@ == self.commands(),
            drawn.1 == self.redraw,
    {
        let mut commands: Vec<DrawCommand> = Vec::new();
        if self.redraw {
            draw_grid(self.size, self.default_color, &mut commands);
        }
        let ghost head = commands@;
        let ghost grid = self.thread_cells@;
        assert(commands@ =~= head + cells_commands(grid, 0));
        let count = self.thread_cells.len();
        let mut i: usize = 0;
        while i < count
            invariant
                i <= count,
                count == grid.len(),
                grid == self.thread_cells@,
                commands@ == head + cells_commands(grid, i as int),
            decreases count - i,
        {
            match self.thread_cells.entry(i) {
                Some((cell, marks)) => {
                    draw_cell(cell, &marks, &mut commands);
                },
                None => {},
            }
            assert(commands@ =~= head + cells_commands(grid, i + 1));
            i += 1;
        }
        assert(commands@ =~= self.commands());
        (commands, self.redraw)
    }
}

impl FrameQueue {
    /// The frame that waits to be drawn, if one does.
    pub closed spec fn waiting(self) -> Option<RenderModel> {
        match self.waiting {
            Some(frame) => Some(frame@),
            None => None,
        }
    }

    /// A queue in which no frame waits.
    pub fn new() -> (queue: FrameQueue)
        ensures
            queue.waiting() is None,
    {
        FrameQueue { waiting: None }
    }

    /// Asks for `frame` to be drawn before the next repaint. It takes the
    /// place of the frame that waits, and keeps the cleared surface that
    /// that frame asked for. Returns whether no frame waited, in which case
    /// the caller has to ask for a callback before the next repaint.
    pub fn request(&mut self, frame: Render) -> (schedule: bool)
        ensures
            final(self).waiting() == Some(coalesced(old(self).waiting(), frame@)),
            schedule == old(self).waiting() is None,
    {
        let mut frame = frame;
        let schedule = match &self.waiting {
            Some(waiting) => {
                if waiting.redraw {
                    frame.redraw = true;
                }
                false
            },
            None => true,
        };
        self.waiting = Some(frame);
        schedule
    }

    /// Hands out the frame that waits, at the repaint. No frame waits
    /// after it.
    pub fn take(&mut self) -> (frame: Option<Render>)
        ensures
            final(self).waiting() is None,
            match frame {
                Some(frame) => old(self).waiting() == Some(frame@),
                None => old(self).waiting() is None,
            },
    {
        let mut frame: Option<Render> = None;
        core::mem::swap(&mut self.waiting, &mut frame);
        frame
    }

    /// Drops the frame that waits, when the surface is torn down.
    pub fn cancel(&mut self)
        ensures
            final(self).waiting() is None,
    {
        self.waiting = None;
    }
}

/// However many frames are asked for between two repaints, the one that
/// is drawn shows what the last of them shows, and starts from a cleared
/// surface if any of them asked for one.
pub proof fn lemma_coalesced_latest(waiting: Option<RenderModel>, first: RenderModel, second: RenderModel)
    ensures
        coalesced(Some(coalesced(waiting, first)), second).thread_cells == second.thread_cells,
        coalesced(Some(coalesced(waiting, first)), second).size == second.size,
        coalesced(Some(coalesced(waiting, first)), second).redraw == (second.redraw || first.redraw || (
        waiting matches Some(frame) && frame.redraw)),
{
}

} // verus!
