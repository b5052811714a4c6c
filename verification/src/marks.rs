//! The threads of one cell.
//!
//! A cell holds at most one thread of each type. A thread merged into a
//! cell takes the place of the thread of its type, or comes last where the
//! cell has none of that type.

use crate::pattern::{Thread, ThreadType};
use vstd::prelude::*;

verus! {

/// Whether some thread in `marks` is of type `kind`.
pub open spec fn has_kind(marks: Seq<Thread>, kind: ThreadType) -> bool {
    exists|i: int| 0 <= i < marks.len() && (#[trigger] marks[i]).thread_type == kind
}

/// Whether no two threads in `marks` are of one type.
pub open spec fn distinct_kinds(marks: Seq<Thread>) -> bool {
    forall|i: int, j: int|
        0 <= i < j < marks.len() ==> (#[trigger] marks[i]).thread_type != (
        #[trigger] marks[j]).thread_type
}

/// `marks` after `mark` is merged into it: in the place of every thread of
/// its type, or at the end where there is none.
pub open spec fn with_mark(marks: Seq<Thread>, mark: Thread) -> Seq<Thread> {
    if has_kind(marks, mark.thread_type) {
        Seq::new(
            marks.len(),
            |i: int|
                if marks[i].thread_type == mark.thread_type {
                    mark
                } else {
                    marks[i]
                },
        )
    } else {
        marks.push(mark)
    }
}

/// `marks` after each thread of `incoming` is merged into it, first to
/// last.
pub open spec fn merged_marks(marks: Seq<Thread>, incoming: Seq<Thread>) -> Seq<Thread>
    decreases incoming.len(),
{
    if incoming.len() == 0 {
        marks
    } else {
        with_mark(merged_marks(marks, incoming.drop_last()), incoming.last())
    }
}

/// The first thread of type `kind` in `marks`.
pub open spec fn first_of_kind(marks: Seq<Thread>, kind: ThreadType) -> Option<Thread>
    decreases marks.len(),
{
    if marks.len() == 0 {
        None
    } else if marks[0].thread_type == kind {
        Some(marks[0])
    } else {
        first_of_kind(marks.drop_first(), kind)
    }
}

/// A copy of `marks`.
pub fn copy_marks(marks: &Vec<Thread>) -> (copy: Vec<Thread>)
    ensures
        copy@ == marks@,
{
    let mut copy: Vec<Thread> = Vec::new();
    let mut i: usize = 0;
    while i < marks.len()
        invariant
            i <= marks.len(),
            copy@ == marks@.subrange(0, i as int),
        decreases marks.len() - i,
    {
        copy.push(marks[i]);
        assert(copy@ =~= marks@.subrange(0, i + 1));
        i += 1;
    }
    assert(copy@ =~= marks@);
    copy
}

/// Looks for the first thread of type `kind`.
pub fn find_mark(marks: &[Thread], kind: ThreadType) -> (found: Option<Thread>)
    ensures
        found == first_of_kind(marks@, kind),
        found is Some <==> has_kind(marks@, kind),
{
    let mut i: usize = 0;
    assert(marks@.subrange(0, marks@.len() as int) =~= marks@);
    while i < marks.len()
        invariant
            i <= marks.len(),
            first_of_kind(marks@, kind) == first_of_kind(marks@.subrange(i as int, marks@.len() as int), kind),
            forall|j: int| 0 <= j < i ==> (#[trigger] marks@[j]).thread_type != kind,
        decreases marks.len() - i,
    {
        let ghost rest = marks@.subrange(i as int, marks@.len() as int);
        assert(rest[0] == marks@[i as int]);
        if marks[i].thread_type == kind {
            return Some(marks[i]);
        }
        assert(rest.drop_first() =~= marks@.subrange(i + 1, marks@.len() as int));
        i += 1;
    }
    assert(marks@.subrange(i as int, marks@.len() as int).len() == 0);
    None
}

/// Merges one thread into the threads of a cell.
pub fn merge_mark(marks: &mut Vec<Thread>, mark: Thread)
    ensures
        final(marks)@ == with_mark(old(marks)@, mark),
{
    let mut found = false;
    let mut i: usize = 0;
    while i < marks.len()
        invariant
            i <= marks.len(),
            marks@.len() == old(marks)@.len(),
            found <==> exists|j: int| 0 <= j < i && (#[trigger] old(marks)@[j]).thread_type == mark.thread_type,
            forall|j: int|
                0 <= j < i ==> #[trigger] marks@[j] == if old(marks)@[j].thread_type
                    == mark.thread_type {
                    mark
                } else {
                    old(marks)@[j]
                },
            forall|j: int| i <= j < marks@.len() ==> #[trigger] marks@[j] == old(marks)@[j],
        decreases marks.len() - i,
    {
        if marks[i].thread_type == mark.thread_type {
            marks.set(i, mark);
            found = true;
        }
        i += 1;
    }
    if !found {
        marks.push(mark);
    }
    assert(marks@ =~= with_mark(old(marks)@, mark));
}

/// Merges threads into the threads of a cell, first to last.
pub fn merge_marks(marks: &mut Vec<Thread>, incoming: &Vec<Thread>)
    ensures
        final(marks)@ == merged_marks(old(marks)@, incoming@),
{
    let mut i: usize = 0;
    while i < incoming.len()
        invariant
            i <= incoming.len(),
            marks@ == merged_marks(old(marks)@, incoming@.subrange(0, i as int)),
        decreases incoming.len() - i,
    {
        merge_mark(marks, incoming[i]);
        assert(incoming@.subrange(0, i + 1).drop_last() =~= incoming@.subrange(0, i as int));
        i += 1;
    }
    assert(incoming@.subrange(0, i as int) =~= incoming@);
}

/// Merging a thread keeps a cell free of two threads of one type, and
/// leaves a thread of the merged type in it.
pub proof fn lemma_with_mark_distinct(marks: Seq<Thread>, mark: Thread)
    requires
        distinct_kinds(marks),
    ensures
        distinct_kinds(with_mark(marks, mark)),
        has_kind(with_mark(marks, mark), mark.thread_type),
{
    let merged = with_mark(marks, mark);
    if has_kind(marks, mark.thread_type) {
        let i = choose|i: int| 0 <= i < marks.len() && (#[trigger] marks[i]).thread_type == mark.thread_type;
        assert(merged[i].thread_type == mark.thread_type);
        assert forall|a: int, b: int| 0 <= a < b < merged.len() implies (#[trigger] merged[a]).thread_type != (
        #[trigger] merged[b]).thread_type by {
            assert(merged[a].thread_type == marks[a].thread_type);
            assert(merged[b].thread_type == marks[b].thread_type);
        }
    } else {
        assert(merged[marks.len() as int].thread_type == mark.thread_type);
        assert forall|a: int, b: int| 0 <= a < b < merged.len() implies (#[trigger] merged[a]).thread_type != (
        #[trigger] merged[b]).thread_type by {
            if b < marks.len() {
                assert(merged[a] == marks[a] && merged[b] == marks[b]);
            } else {
                assert(merged[a] == marks[a]);
            }
        }
    }
}

/// Merging threads keeps a cell free of two threads of one type,
/// whatever is merged.
pub proof fn lemma_merged_marks_distinct(marks: Seq<Thread>, incoming: Seq<Thread>)
    requires
        distinct_kinds(marks),
    ensures
        distinct_kinds(merged_marks(marks, incoming)),
    decreases incoming.len(),
{
    if incoming.len() > 0 {
        lemma_merged_marks_distinct(marks, incoming.drop_last());
        lemma_with_mark_distinct(merged_marks(marks, incoming.drop_last()), incoming.last());
    }
}

/// In a cell without two threads of one type, a merged thread replaces
/// the thread of its type where that stands and changes nothing else;
/// where the cell has none of its type, it comes last.
pub proof fn lemma_with_mark_in_place(marks: Seq<Thread>, mark: Thread)
    requires
        distinct_kinds(marks),
    ensures
        forall|i: int|
            0 <= i < marks.len() && (#[trigger] marks[i]).thread_type == mark.thread_type
                ==> with_mark(marks, mark) == marks.update(i, mark),
        !has_kind(marks, mark.thread_type) ==> with_mark(marks, mark) == marks.push(mark),
{
    assert forall|i: int|
        0 <= i < marks.len() && (#[trigger] marks[i]).thread_type
            == mark.thread_type implies with_mark(marks, mark) == marks.update(i, mark) by {
        assert forall|j: int| 0 <= j < marks.len() implies with_mark(marks, mark)[j]
            == marks.update(i, mark)[j] by {
            if j != i {
                if j < i {
                    assert(marks[j].thread_type != marks[i].thread_type);
                } else {
                    assert(marks[i].thread_type != marks[j].thread_type);
                }
            }
        }
        assert(with_mark(marks, mark) =~= marks.update(i, mark));
    }
}

/// Merged into an empty cell, threads of different types stand as they
/// are.
pub proof fn lemma_merged_into_empty(marks: Seq<Thread>)
    requires
        distinct_kinds(marks),
    ensures
        merged_marks(Seq::empty(), marks) == marks,
    decreases marks.len(),
{
    if marks.len() > 0 {
        let before = marks.drop_last();
        assert forall|i: int, j: int| 0 <= i < j < before.len() implies (#[trigger] before[i]).thread_type != (
        #[trigger] before[j]).thread_type by {
            assert(before[i] == marks[i] && before[j] == marks[j]);
        }
        lemma_merged_into_empty(before);
        if has_kind(before, marks.last().thread_type) {
            let k = choose|k: int| 0 <= k < before.len() && (#[trigger] before[k]).thread_type == marks.last().thread_type;
            assert(before[k] == marks[k]);
            assert(marks[k].thread_type != marks[marks.len() - 1].thread_type);
        }
        assert(before.push(marks.last()) =~= marks);
    }
}

} // verus!
