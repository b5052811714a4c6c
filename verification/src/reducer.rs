//! The undo history: the grids that were committed, oldest first.
//!
//! The grid on show is the last one committed, or the empty grid where
//! nothing is committed. Committed grids are shared, so that a commit
//! costs no copy of the ones before it.

use crate::grid::{lemma_overlaid_empty, well_formed, Grid, GridModel};
use crate::shared::{grids_model, SharedGrid, SharedHistory};
use vstd::prelude::*;

verus! {

/// What can be done to the history.
#[derive(Debug)]
pub enum PatternEditorAction {
    /// Commit a grid.
    AddHistory(Grid),
    /// Take the last commit back.
    RemoveHistory,
}

/// The history and the grid on show.
#[derive(Debug)]
pub struct PatternEditorState {
    history: SharedHistory,
    grid: SharedGrid,
    working: Grid,
}

/// The grid that a history shows: the last one committed, or the empty
/// grid.
pub open spec fn visible(history: Seq<GridModel>) -> GridModel {
    if history.len() == 0 {
        GridModel::empty()
    } else {
        history.last()
    }
}

/// The history after `snapshot` is committed.
pub open spec fn committed(history: Seq<GridModel>, snapshot: GridModel) -> Seq<GridModel> {
    history.push(snapshot)
}

/// The history after its last commit is taken back. An empty history
/// stays empty.
pub open spec fn undone(history: Seq<GridModel>) -> Seq<GridModel> {
    if history.len() == 0 {
        history
    } else {
        history.drop_last()
    }
}

/// Whether every grid of a history is well formed.
pub open spec fn all_well_formed(history: Seq<GridModel>) -> bool {
    forall|i: int| 0 <= i < history.len() ==> well_formed(#[trigger] history[i])
}

impl PatternEditorAction {
    /// The history after the action.
    pub open spec fn applied(self, history: Seq<GridModel>) -> Seq<GridModel> {
        match self {
            PatternEditorAction::AddHistory(grid) => committed(history, grid@),
            PatternEditorAction::RemoveHistory => undone(history),
        }
    }
}

impl PatternEditorState {
    #[verifier::type_invariant]
    spec fn inv(self) -> bool {
        &&& self.grid@ == visible(self.history@)
        &&& self.working@ == self.grid@
        &&& all_well_formed(self.history@)
    }

    /// The committed grids, oldest first.
    pub closed spec fn snapshots(self) -> Seq<GridModel> {
        self.history@
    }

    /// The grid on show.
    pub closed spec fn shown(self) -> GridModel {
        self.grid@
    }

    /// A history without commits.
    pub fn new() -> (state: PatternEditorState)
        ensures
            state.snapshots() == Seq::<GridModel>::empty(),
            state.shown() == GridModel::empty(),
    {
        let history = SharedHistory::from_vec(Vec::new());
        let working = Grid::new();
        let grid = SharedGrid::from_grid(&working);
        assert(history@ =~= Seq::<GridModel>::empty());
        PatternEditorState { history, grid, working }
    }

    /// The grid on show: the last one committed, or the empty grid.
    pub fn grid(&self) -> (grid: &Grid)
        ensures
            grid@ == visible(self.snapshots()),
            grid@ == self.shown(),
    {
        proof {
            use_type_invariant(self);
        }
        &self.working
    }

    /// The grid on show, shared.
    pub fn shared_grid(&self) -> (grid: SharedGrid)
        ensures
            grid@ == visible(self.snapshots()),
            grid@ == self.shown(),
    {
        proof {
            use_type_invariant(self);
        }
        self.grid.clone()
    }

    /// The number of commits.
    pub fn len(&self) -> (count: usize)
        ensures
            count == self.snapshots().len(),
    {
        self.history.len()
    }

    /// A copy of the commit at place `index`, oldest first, while `index`
    /// is below [`PatternEditorState::len`].
    pub fn snapshot(&self, index: usize) -> (found: Option<Grid>)
        ensures
            match found {
                Some(grid) => index < self.snapshots().len() && grid@ == self.snapshots()[index as int],
                None => index >= self.snapshots().len(),
            },
    {
        proof {
            use_type_invariant(self);
        }
        let grids = self.history.to_vec();
        if index < grids.len() {
            proof {
                assert(grids_model(grids@)[index as int] == grids@[index as int]@);
                lemma_overlaid_empty(grids@[index as int]@);
            }
            Some(grids[index].to_grid())
        } else {
            None
        }
    }

    /// Commits `snapshot`: it becomes the last commit and the grid on show.
    pub fn commit(&mut self, snapshot: Grid)
        ensures
            final(self).snapshots() == committed(old(self).snapshots(), snapshot@),
            final(self).shown() == snapshot@,
    {
        proof {
            use_type_invariant(&*self);
        }
        snapshot.recall_well_formed();
        let grid = SharedGrid::from_grid(&snapshot);
        let mut grids = self.history.to_vec();
        grids.push(grid.clone());
        let history = SharedHistory::from_vec(grids);
        assert(history@ =~= committed(old(self).snapshots(), snapshot@));
        *self = PatternEditorState { history, grid, working: snapshot };
    }

    /// Takes the last commit back. The grid on show is then the commit
    /// before it, or the empty grid where that was the only one. Where
    /// nothing is committed, nothing changes.
    pub fn undo(&mut self)
        ensures
            final(self).snapshots() == undone(old(self).snapshots()),
            final(self).shown() == visible(undone(old(self).snapshots())),
    {
        proof {
            use_type_invariant(&*self);
        }
        let mut grids = self.history.to_vec();
        grids.pop();
        let ghost after = grids_model(grids@);
        assert(after =~= undone(old(self).snapshots()));
        let working = if grids.len() > 0 {
            proof {
                assert(after[grids.len() - 1] == grids@[grids.len() - 1]@);
                lemma_overlaid_empty(grids@[grids.len() - 1]@);
            }
            grids[grids.len() - 1].to_grid()
        } else {
            Grid::new()
        };
        let grid = SharedGrid::from_grid(&working);
        let history = SharedHistory::from_vec(grids);
        *self = PatternEditorState { history, grid, working };
    }

    /// The state after `action`.
    pub fn reduce(self, action: PatternEditorAction) -> (next: PatternEditorState)
        ensures
            next.snapshots() == action.applied(self.snapshots()),
            next.shown() == visible(action.applied(self.snapshots())),
    {
        let mut next = self;
        match action {
            PatternEditorAction::AddHistory(grid) => {
                next.commit(grid);
            },
            PatternEditorAction::RemoveHistory => {
                next.undo();
            },
        }
        next
    }
}

impl Default for PatternEditorState {
    fn default() -> (state: PatternEditorState)
        ensures
            state.snapshots() == Seq::<GridModel>::empty(),
            state.shown() == GridModel::empty(),
    {
        PatternEditorState::new()
    }
}

/// Taking back the second of two commits shows the first; taking back an
/// only commit shows the empty grid; taking back from an empty history
/// changes nothing; and taking back a commit gives the history before it.
pub proof fn lemma_undo_restores(history: Seq<GridModel>, first: GridModel, second: GridModel)
    ensures
        visible(undone(committed(committed(history, first), second))) == first,
        visible(undone(committed(Seq::empty(), first))) == GridModel::empty(),
        undone(Seq::<GridModel>::empty()) == Seq::<GridModel>::empty(),
        undone(committed(history, first)) == history,
        visible(committed(history, first)) == first,
{
    assert(committed(history, first).drop_last() =~= history);
    assert(committed(committed(history, first), second).drop_last() =~= committed(history, first));
    assert(committed(Seq::empty(), first).drop_last() =~= Seq::<GridModel>::empty());
}

} // verus!
