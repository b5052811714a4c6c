//! The cell editor: one colour field for each type of thread.

use crate::color::{Rgb, RgbError};
use crate::marks::{copy_marks, find_mark, first_of_kind, merge_mark, with_mark};
use crate::pattern::{GridCell, Thread, ThreadType};
use vstd::prelude::*;

verus! {

/// The colour that the field of `thread_type` shows: that of the first
/// thread of the type, or `default_color` where the cell has none.
pub open spec fn shown_color(threads: Seq<Thread>, thread_type: ThreadType, default_color: Rgb) -> Rgb {
    match first_of_kind(threads, thread_type) {
        Some(thread) => thread.color,
        None => default_color,
    }
}

/// The notation of the colour that the field of `thread_type` shows.
pub fn find_thread_type_hex_value(
    thread_type: ThreadType,
    threads: &[Thread],
    default_color: Rgb,
) -> (text: String)
    ensures
        text@ == shown_color(threads@, thread_type, default_color).hex_spec(),
{
    match find_mark(threads, thread_type) {
        Some(thread) => thread.color.as_hex(),
        None => default_color.as_hex(),
    }
}

/// The cell after the field of `thread_type` was set to `value`: the
/// thread of that type has the colour that `value` writes, in its old
/// place or, if it is new, at the end. Text that writes no colour is
/// refused.
pub fn on_change_event(
    thread_type: ThreadType,
    thread_cell: &(GridCell, Vec<Thread>),
    value: String,
) -> (result: Result<(GridCell, Vec<Thread>), RgbError>)
    ensures
        match result {
            Ok((cell, threads)) => {
                &&& Rgb::parse_hex(value@) matches Some(color)
                &&& cell == thread_cell.0
                &&& threads@ == with_mark(thread_cell.1@, Thread { color, thread_type })
            },
            Err(error) => Rgb::parse_hex(value@) is None && error.refuses(value@),
        },
{
    match Rgb::from_hex(value) {
        Ok(color) => {
            let mut threads = copy_marks(&thread_cell.1);
            merge_mark(&mut threads, Thread::new(color, thread_type));
            Ok((thread_cell.0, threads))
        },
        Err(error) => Err(error),
    }
}

} // verus!
