//! Strokes as compressed paths.
//!
//! A stroke visits a run of neighbouring cells. Its path keeps the cell it
//! started from and, for every maximal stretch that moves in one direction,
//! the direction and the cell where the stretch ends.

use crate::pattern::GridCell;
use crate::shared::SharedPath;
use vstd::prelude::*;

verus! {

/// The gesture that made a stroke.
#[derive(Clone, Copy, Debug, PartialEq, Eq, Structural)]
pub enum ActionType {
    Fill,
    Brush,
    Erase,
}

/// Why a stroke has no path.
#[derive(Clone, Copy, Debug, PartialEq, Eq, Structural)]
pub enum HistoryError {
    /// Two cells in a row are the same cell, or more than one step apart.
    InvalidGridCellPosition,
}

/// A step of a path: where the stroke starts, or the way it moves and the
/// cell it reaches. Rows grow downwards and columns to the right.
#[derive(Clone, Copy, Debug, PartialEq, Eq, Structural)]
pub enum Direction {
    Start(GridCell),
    Up(GridCell),
    Right(GridCell),
    Down(GridCell),
    Left(GridCell),
    UpRight(GridCell),
    DownRight(GridCell),
    DownLeft(GridCell),
    UpLeft(GridCell),
}

/// A recorded stroke.
#[derive(Debug)]
pub struct History {
    pub path: SharedPath,
    pub action_type: ActionType,
}

impl Direction {
    /// A number that tells the variants apart, whatever cell they hold.
    pub open spec fn kind(self) -> int {
        match self {
            Direction::Start(_) => 0,
            Direction::Up(_) => 1,
            Direction::Right(_) => 2,
            Direction::Down(_) => 3,
            Direction::Left(_) => 4,
            Direction::UpRight(_) => 5,
            Direction::DownRight(_) => 6,
            Direction::DownLeft(_) => 7,
            Direction::UpLeft(_) => 8,
        }
    }

    /// The cell that the step holds.
    pub open spec fn cell(self) -> GridCell {
        match self {
            Direction::Start(c) => c,
            Direction::Up(c) => c,
            Direction::Right(c) => c,
            Direction::Down(c) => c,
            Direction::Left(c) => c,
            Direction::UpRight(c) => c,
            Direction::DownRight(c) => c,
            Direction::DownLeft(c) => c,
            Direction::UpLeft(c) => c,
        }
    }

    /// Whether two steps are the same variant.
    pub fn same_kind(&self, other: &Direction) -> (same: bool)
        ensures
            same == (self.kind() == other.kind()),
    {
        match (self, other) {
            (Direction::Start(_), Direction::Start(_)) => true,
            (Direction::Up(_), Direction::Up(_)) => true,
            (Direction::Right(_), Direction::Right(_)) => true,
            (Direction::Down(_), Direction::Down(_)) => true,
            (Direction::Left(_), Direction::Left(_)) => true,
            (Direction::UpRight(_), Direction::UpRight(_)) => true,
            (Direction::DownRight(_), Direction::DownRight(_)) => true,
            (Direction::DownLeft(_), Direction::DownLeft(_)) => true,
            (Direction::UpLeft(_), Direction::UpLeft(_)) => true,
            _ => false,
        }
    }
}

/// How far apart two coordinates are.
pub open spec fn distance(a: usize, b: usize) -> int {
    if a >= b {
        a - b
    } else {
        b - a
    }
}

/// Whether `to` is one of the eight neighbours of `from`.
pub open spec fn adjacent(from: GridCell, to: GridCell) -> bool {
    &&& distance(from.0, to.0) <= 1
    &&& distance(from.1, to.1) <= 1
    &&& from != to
}

/// The way from a cell to one of its neighbours; none to any other cell.
pub open spec fn direction_between(from: GridCell, to: GridCell) -> Option<Direction> {
    if !adjacent(from, to) {
        None
    } else if from.0 == to.0 {
        if from.1 > to.1 {
            Some(Direction::Up(to))
        } else {
            Some(Direction::Down(to))
        }
    } else if from.1 == to.1 {
        if from.0 > to.0 {
            Some(Direction::Left(to))
        } else {
            Some(Direction::Right(to))
        }
    } else if from.0 < to.0 {
        if from.1 < to.1 {
            Some(Direction::DownRight(to))
        } else {
            Some(Direction::UpRight(to))
        }
    } else {
        if from.1 > to.1 {
            Some(Direction::UpLeft(to))
        } else {
            Some(Direction::DownLeft(to))
        }
    }
}

/// Whether every cell of the stroke but the first neighbours the one
/// before it.
pub open spec fn valid_stroke(raw: Seq<GridCell>) -> bool {
    forall|i: int| 1 <= i < raw.len() ==> adjacent(#[trigger] raw[i - 1], raw[i])
}

/// The move that brings the stroke to its cell `i`, for `1 <= i`.
pub open spec fn step(raw: Seq<GridCell>, i: int) -> Direction {
    direction_between(raw[i - 1], raw[i]).unwrap()
}

/// Whether the move to cell `i` is the last of its stretch: the stroke
/// ends there, or goes on another way.
pub open spec fn ends_run(raw: Seq<GridCell>, i: int) -> bool {
    i == raw.len() - 1 || step(raw, i + 1).kind() != step(raw, i).kind()
}

/// The moves among those to the cells `1 .. upto` that end a stretch, in
/// order.
pub open spec fn run_ends(raw: Seq<GridCell>, upto: int) -> Seq<Direction>
    decreases upto,
{
    if upto <= 1 {
        Seq::empty()
    } else if ends_run(raw, upto - 1) {
        run_ends(raw, upto - 1).push(step(raw, upto - 1))
    } else {
        run_ends(raw, upto - 1)
    }
}

/// The cell that a path starts from: the first of the stroke, or the
/// origin for a stroke without cells.
pub open spec fn start_cell(raw: Seq<GridCell>) -> GridCell {
    if raw.len() == 0 {
        GridCell(0, 0)
    } else {
        raw[0]
    }
}

/// The path of a valid stroke: its start, then the end of every stretch.
pub open spec fn encoded(raw: Seq<GridCell>) -> Seq<Direction> {
    seq![Direction::Start(start_cell(raw))] + run_ends(raw, raw.len() as int)
}

/// Compresses a stroke into its path.
///
/// A stroke without cells has the path that starts at the origin and goes
/// nowhere. A stroke in which some cell does not neighbour the one before
/// it has no path.
pub fn encode(raw: &Vec<GridCell>) -> (result: Result<Vec<Direction>, HistoryError>)
    ensures
        result is Ok <==> valid_stroke(raw@),
        result matches Ok(path) ==> path@ == encoded(raw@),
{
    let mut path: Vec<Direction> = Vec::new();
    let count = raw.len();
    if count == 0 {
        path.push(Direction::Start(GridCell(0, 0)));
        assert(path@ =~= encoded(raw@));
        return Ok(path);
    }
    path.push(Direction::Start(raw[0]));
    if count == 1 {
        assert(path@ =~= encoded(raw@));
        return Ok(path);
    }
    let mut current = match History::get_direction(raw[0], raw[1]) {
        Ok(direction) => direction,
        Err(error) => {
            assert(!adjacent(raw@[1 - 1], raw@[1]));
            return Err(error);
        },
    };
    assert(path@ =~= seq![Direction::Start(start_cell(raw@))] + run_ends(raw@, 1));
    let mut i: usize = 2;
    while i < count
        invariant
            2 <= i <= count,
            count == raw@.len(),
            forall|j: int| 1 <= j < i ==> adjacent(#[trigger] raw@[j - 1], raw@[j]),
            current == step(raw@, i - 1),
            path@ == seq![Direction::Start(start_cell(raw@))] + run_ends(raw@, i - 1),
        decreases count - i,
    {
        let next = match History::get_direction(raw[i - 1], raw[i]) {
            Ok(direction) => direction,
            Err(error) => {
                assert(!adjacent(raw@[i - 1], raw@[i as int]));
                return Err(error);
            },
        };
        assert(next == step(raw@, i as int));
        if !next.same_kind(&current) {
            path.push(current);
        }
        assert(path@ =~= seq![Direction::Start(start_cell(raw@))] + run_ends(raw@, i as int));
        current = next;
        i += 1;
    }
    path.push(current);
    assert(path@ =~= encoded(raw@));
    Ok(path)
}

/// Between a cell and each of its eight neighbours, and between no other
/// two cells, there is a direction; it is a move, not a start, and holds
/// the neighbour.
pub proof fn lemma_direction_of_neighbours(from: GridCell, to: GridCell)
    ensures
        adjacent(from, to) <==> direction_between(from, to) is Some,
        direction_between(from, to) matches Some(direction) ==> {
            &&& direction.cell() == to
            &&& 1 <= direction.kind() <= 8
        },
{
}

/// A path starts at the first cell of its stroke and has at most one step
/// for each further cell; every step after the first is a move.
pub proof fn lemma_encoded_shape(raw: Seq<GridCell>)
    requires
        valid_stroke(raw),
    ensures
        encoded(raw)[0] == Direction::Start(start_cell(raw)),
        1 <= encoded(raw).len() <= if raw.len() == 0 {
            1
        } else {
            raw.len()
        },
        forall|k: int| 1 <= k < encoded(raw).len() ==> (#[trigger] encoded(raw)[k]).kind() != 0,
{
    lemma_run_ends_shape(raw, raw.len() as int);
}

/// The stretches that end among the first moves of a stroke are no more
/// than those moves, and each is a move.
pub proof fn lemma_run_ends_shape(raw: Seq<GridCell>, upto: int)
    requires
        valid_stroke(raw),
        upto <= raw.len(),
    ensures
        run_ends(raw, upto).len() <= if upto <= 1 {
            0
        } else {
            upto - 1
        },
        forall|k: int| 0 <= k < run_ends(raw, upto).len() ==> (#[trigger] run_ends(raw, upto)[k]).kind() != 0,
    decreases upto,
{
    if upto > 1 {
        lemma_run_ends_shape(raw, upto - 1);
        assert(adjacent(raw[upto - 1 - 1], raw[upto - 1]));
        lemma_direction_of_neighbours(raw[upto - 2], raw[upto - 1]);
    }
}

/// A stroke that keeps one direction has a path of two steps: its start
/// and the move to its last cell.
pub proof fn lemma_straight_stroke(raw: Seq<GridCell>)
    requires
        valid_stroke(raw),
        raw.len() >= 2,
        forall|i: int| 1 <= i < raw.len() ==> (#[trigger] step(raw, i)).kind() == step(raw, 1).kind(),
    ensures
        encoded(raw) == seq![Direction::Start(raw[0]), step(raw, raw.len() - 1)],
{
    lemma_straight_prefix(raw, raw.len() - 1);
    assert(ends_run(raw, raw.len() - 1));
    assert(encoded(raw) =~= seq![Direction::Start(raw[0]), step(raw, raw.len() - 1)]);
}

/// While a stroke keeps its direction, no stretch ends before its last
/// move.
pub proof fn lemma_straight_prefix(raw: Seq<GridCell>, upto: int)
    requires
        raw.len() >= 2,
        upto <= raw.len() - 1,
        forall|i: int| 1 <= i < raw.len() ==> (#[trigger] step(raw, i)).kind() == step(raw, 1).kind(),
    ensures
        run_ends(raw, upto) == Seq::<Direction>::empty(),
    decreases upto,
{
    if upto > 1 {
        lemma_straight_prefix(raw, upto - 1);
        assert(step(raw, upto).kind() == step(raw, 1).kind());
        assert(step(raw, upto - 1).kind() == step(raw, 1).kind());
    }
}

/// Whether `to` lies `count` steps from `from` in the direction `way`.
pub open spec fn on_way(from: GridCell, way: Direction, count: int, to: GridCell) -> bool {
    match way {
        Direction::Start(_) => to == from && count == 0,
        Direction::Up(_) => to.0 == from.0 && to.1 == from.1 - count,
        Direction::Right(_) => to.0 == from.0 + count && to.1 == from.1,
        Direction::Down(_) => to.0 == from.0 && to.1 == from.1 + count,
        Direction::Left(_) => to.0 == from.0 - count && to.1 == from.1,
        Direction::UpRight(_) => to.0 == from.0 + count && to.1 == from.1 - count,
        Direction::DownRight(_) => to.0 == from.0 + count && to.1 == from.1 + count,
        Direction::DownLeft(_) => to.0 == from.0 - count && to.1 == from.1 + count,
        Direction::UpLeft(_) => to.0 == from.0 - count && to.1 == from.1 - count,
    }
}

/// The cell `count` steps from `from` in the direction `way`.
pub open spec fn moved(from: GridCell, way: Direction, count: int) -> GridCell {
    match way {
        Direction::Start(_) => from,
        Direction::Up(_) => GridCell(from.0, (from.1 - count) as usize),
        Direction::Right(_) => GridCell((from.0 + count) as usize, from.1),
        Direction::Down(_) => GridCell(from.0, (from.1 + count) as usize),
        Direction::Left(_) => GridCell((from.0 - count) as usize, from.1),
        Direction::UpRight(_) => GridCell((from.0 + count) as usize, (from.1 - count) as usize),
        Direction::DownRight(_) => GridCell((from.0 + count) as usize, (from.1 + count) as usize),
        Direction::DownLeft(_) => GridCell((from.0 - count) as usize, (from.1 + count) as usize),
        Direction::UpLeft(_) => GridCell((from.0 - count) as usize, (from.1 - count) as usize),
    }
}

/// How many steps lie between two cells of one stretch.
pub open spec fn span(from: GridCell, to: GridCell) -> int {
    if distance(from.0, to.0) >= distance(from.1, to.1) {
        distance(from.0, to.0)
    } else {
        distance(from.1, to.1)
    }
}

/// The cells that a move of a path visits after `from`, up to the cell
/// that the move holds.
pub open spec fn stretch(from: GridCell, way: Direction) -> Seq<GridCell> {
    Seq::new(span(from, way.cell()) as nat, |k: int| moved(from, way, k + 1))
}

/// The cells that the first `count` steps of a path visit.
pub open spec fn replayed(path: Seq<Direction>, count: int) -> Seq<GridCell>
    decreases count,
{
    if count <= 0 {
        Seq::empty()
    } else if count == 1 {
        seq![path[0].cell()]
    } else {
        replayed(path, count - 1) + stretch(replayed(path, count - 1).last(), path[count - 1])
    }
}

/// The last move among those to the cells `1 .. upto` that ends a
/// stretch, or zero where none does.
pub open spec fn last_end(raw: Seq<GridCell>, upto: int) -> int
    decreases upto,
{
    if upto <= 1 {
        0
    } else if ends_run(raw, upto - 1) {
        upto - 1
    } else {
        last_end(raw, upto - 1)
    }
}

/// Replaying its path gives a stroke back, cell by cell.
pub proof fn lemma_replay_restores(raw: Seq<GridCell>)
    requires
        valid_stroke(raw),
        raw.len() >= 1,
    ensures
        replayed(encoded(raw), encoded(raw).len() as int) == raw,
{
    lemma_replay_prefix(raw, raw.len() as int);
    assert(raw.subrange(0, raw.len() as int) =~= raw);
}

/// What the first steps of a path visit does not depend on the steps
/// after them.
pub proof fn lemma_replayed_of_prefix(path: Seq<Direction>, longer: Seq<Direction>, count: int)
    requires
        count <= path.len() <= longer.len(),
        forall|k: int| 0 <= k < path.len() ==> path[k] == longer[k],
    ensures
        replayed(longer, count) == replayed(path, count),
    decreases count,
{
    if count > 1 {
        lemma_replayed_of_prefix(path, longer, count - 1);
    }
}

/// A move to a neighbour is one step on its way.
pub proof fn lemma_step_on_way(from: GridCell, to: GridCell)
    requires
        adjacent(from, to),
    ensures
        on_way(from, direction_between(from, to).unwrap(), 1, to),
{
}

/// Whether the moves to the cells after `from` and before `upto` all go
/// one way, so that each of those cells lies on that way from the cell
/// `from`, as many steps off as its place tells.
pub open spec fn on_one_way(raw: Seq<GridCell>, from: int, upto: int) -> bool {
    forall|i: int|
        from < i < upto ==> step(raw, i).kind() == step(raw, from + 1).kind() && on_way(
            raw[from],
            step(raw, from + 1),
            i - from,
            #[trigger] raw[i],
        )
}

/// Where the cells after `from` lie on one way and the move to the next
/// cell goes that way too, the next cell lies on it as well.
pub proof fn lemma_way_goes_on(raw: Seq<GridCell>, from: int, last: int)
    requires
        valid_stroke(raw),
        0 <= from < last < raw.len(),
        on_one_way(raw, from, last),
        last > from + 1 ==> step(raw, last).kind() == step(raw, last - 1).kind(),
    ensures
        on_one_way(raw, from, last + 1),
{
    assert(adjacent(raw[last - 1], raw[last]));
    lemma_step_on_way(raw[last - 1], raw[last]);
    if last > from + 1 {
        assert(on_way(raw[from], step(raw, from + 1), last - 1 - from, raw[last - 1]));
    }
    assert(step(raw, last).kind() == step(raw, from + 1).kind());
    assert(on_way(raw[from], step(raw, from + 1), last - from, raw[last]));
}

/// Where the cells after `from` up to `last` lie on one way, the move to
/// `last`, replayed from `from`, visits exactly those cells.
pub proof fn lemma_stretch_restores(raw: Seq<GridCell>, from: int, last: int)
    requires
        valid_stroke(raw),
        0 <= from < last < raw.len(),
        on_one_way(raw, from, last + 1),
    ensures
        stretch(raw[from], step(raw, last)) == raw.subrange(from + 1, last + 1),
{
    let way = step(raw, last);
    assert(adjacent(raw[last - 1], raw[last]));
    lemma_direction_of_neighbours(raw[last - 1], raw[last]);
    assert(adjacent(raw[from + 1 - 1], raw[from + 1]));
    lemma_direction_of_neighbours(raw[from], raw[from + 1]);
    assert(on_way(raw[from], step(raw, from + 1), last - from, raw[last]));
    assert(way.kind() == step(raw, from + 1).kind());
    assert(span(raw[from], raw[last]) == last - from);
    let added = stretch(raw[from], way);
    assert forall|k: int| 0 <= k < added.len() implies added[k] == raw[from + 1 + k] by {
        assert(on_way(raw[from], step(raw, from + 1), k + 1, raw[from + 1 + k]));
    }
    assert(added =~= raw.subrange(from + 1, last + 1));
}

/// Replaying the path of the first cells of a stroke, as far as their
/// stretches have ended, gives those cells back up to the end of the last
/// such stretch; the cells after it lie on one way from there.
pub proof fn lemma_replay_prefix(raw: Seq<GridCell>, upto: int)
    requires
        valid_stroke(raw),
        1 <= upto <= raw.len(),
    ensures
        ({
            let end = last_end(raw, upto);
            let path = seq![Direction::Start(raw[0])] + run_ends(raw, upto);
            &&& 0 <= end < upto
            &&& upto == raw.len() ==> end == upto - 1
            &&& replayed(path, path.len() as int) == raw.subrange(0, end + 1)
            &&& on_one_way(raw, end, upto)
        }),
    decreases upto,
{
    let path = seq![Direction::Start(raw[0])] + run_ends(raw, upto);
    if upto == 1 {
        assert(path =~= seq![Direction::Start(raw[0])]);
        assert(replayed(path, 1) =~= raw.subrange(0, 1));
    } else {
        let last = upto - 1;
        let before = last_end(raw, last);
        let shorter = seq![Direction::Start(raw[0])] + run_ends(raw, last);
        lemma_replay_prefix(raw, last);
        if last > before + 1 {
            assert(!ends_run(raw, last - 1));
        }
        lemma_way_goes_on(raw, before, last);
        if ends_run(raw, last) {
            assert(path =~= shorter.push(step(raw, last)));
            lemma_replayed_of_prefix(shorter, path, shorter.len() as int);
            lemma_stretch_restores(raw, before, last);
            let visited = replayed(shorter, shorter.len() as int);
            assert(visited.last() == raw[before]);
            assert(visited + raw.subrange(before + 1, last + 1) =~= raw.subrange(0, last + 1));
        }
    }
}

impl History {
    /// The way from `start_grid_cell` to `end_grid_cell`, which must be one
    /// of its eight neighbours.
    pub fn get_direction(start_grid_cell: GridCell, end_grid_cell: GridCell) -> (result: Result<
        Direction,
        HistoryError,
    >)
        ensures
            result == match direction_between(start_grid_cell, end_grid_cell) {
                Some(direction) => Ok::<Direction, HistoryError>(direction),
                None => Err(HistoryError::InvalidGridCellPosition),
            },
    {
        let from = start_grid_cell;
        let to = end_grid_cell;
        let column_near = if from.0 >= to.0 {
            from.0 - to.0 <= 1
        } else {
            to.0 - from.0 <= 1
        };
        let row_near = if from.1 >= to.1 {
            from.1 - to.1 <= 1
        } else {
            to.1 - from.1 <= 1
        };
        if !column_near || !row_near {
            Err(HistoryError::InvalidGridCellPosition)
        } else if from.0 == to.0 {
            if from.1 > to.1 {
                Ok(Direction::Up(to))
            } else if from.1 < to.1 {
                Ok(Direction::Down(to))
            } else {
                Err(HistoryError::InvalidGridCellPosition)
            }
        } else if from.1 == to.1 {
            if from.0 > to.0 {
                Ok(Direction::Left(to))
            } else {
                Ok(Direction::Right(to))
            }
        } else if from.0 < to.0 {
            if from.1 < to.1 {
                Ok(Direction::DownRight(to))
            } else {
                Ok(Direction::UpRight(to))
            }
        } else {
            if from.1 > to.1 {
                Ok(Direction::UpLeft(to))
            } else {
                Ok(Direction::DownLeft(to))
            }
        }
    }

    /// The path that a stroke records.
    pub open spec fn recorded(raw: Seq<GridCell>, action_type: ActionType) -> Seq<Direction> {
        match action_type {
            ActionType::Fill => Seq::empty(),
            _ => encoded(raw),
        }
    }

    /// Records a stroke. A brush or erase stroke keeps its compressed path
    /// and fails where the stroke has none; a fill covers the whole grid and
    /// keeps no path.
    pub fn from_raw_path(raw_path: Vec<GridCell>, action_type: ActionType) -> (result: Result<
        History,
        HistoryError,
    >)
        ensures
            result is Ok <==> action_type == ActionType::Fill || valid_stroke(raw_path@),
            result matches Ok(history) ==> {
                &&& history.action_type == action_type
                &&& history.path@ == History::recorded(raw_path@, action_type)
            },
    {
        let path = match action_type {
            ActionType::Brush | ActionType::Erase => {
                match encode(&raw_path) {
                    Ok(path) => path,
                    Err(error) => {
                        return Err(error);
                    },
                }
            },
            ActionType::Fill => Vec::new(),
        };
        Ok(History { action_type, path: SharedPath::from_vec(path) })
    }
}

} // verus!
