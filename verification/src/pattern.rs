//! The pieces of a pattern: cells, grid sizes and the threads stitched
//! into a cell.

use crate::color::Rgb;
use vstd::prelude::*;
use vstd::string::*;

verus! {

/// Where in its cell a thread lies: on one of the two diagonals or along
/// one of the four edges.
#[derive(Clone, Copy, Debug, PartialEq, Eq, Hash, Structural)]
pub enum ThreadType {
    SlashBackwards,
    SlashForwards,
    BorderTop,
    BorderRight,
    BorderBottom,
    BorderLeft,
}

impl ThreadType {
    /// The name of the variant.
    pub open spec fn name(self) -> Seq<char> {
        match self {
            ThreadType::SlashBackwards => "SlashBackwards"@,
            ThreadType::SlashForwards => "SlashForwards"@,
            ThreadType::BorderTop => "BorderTop"@,
            ThreadType::BorderRight => "BorderRight"@,
            ThreadType::BorderBottom => "BorderBottom"@,
            ThreadType::BorderLeft => "BorderLeft"@,
        }
    }

    /// The name of the variant, as text.
    pub fn to_string(&self) -> (text: String)
        ensures
            text@ == self.name(),
    {
        self.as_str()
    }

    /// The name of the variant, as text.
    pub fn as_str(&self) -> (text: String)
        ensures
            text@ == self.name(),
    {
        match self {
            ThreadType::SlashBackwards => String::from_str("SlashBackwards"),
            ThreadType::SlashForwards => String::from_str("SlashForwards"),
            ThreadType::BorderTop => String::from_str("BorderTop"),
            ThreadType::BorderRight => String::from_str("BorderRight"),
            ThreadType::BorderBottom => String::from_str("BorderBottom"),
            ThreadType::BorderLeft => String::from_str("BorderLeft"),
        }
    }
}

/// One coloured thread in a cell.
#[derive(Clone, Copy, Debug, PartialEq, Eq, Structural)]
pub struct Thread {
    pub color: Rgb,
    pub thread_type: ThreadType,
}

impl Thread {
    /// The thread in two lines: its colour, then its type.
    pub open spec fn text(self) -> Seq<char> {
        "color: "@ + self.color.text() + "\n"@ + "thread_type: "@ + self.thread_type.name() + "\n"@
    }

    /// Writes the thread in two lines: its colour, then its type.
    pub fn to_string(&self) -> (text: String)
        ensures
            text@ == self.text(),
    {
        let mut text = String::from_str("color: ");
        text.append(self.color.to_string().as_str());
        text.append("\n");
        text.append("thread_type: ");
        text.append(self.thread_type.as_str().as_str());
        text.append("\n");
        text
    }

    /// A thread of the given colour and type.
    pub fn new(color: Rgb, thread_type: ThreadType) -> (thread: Thread)
        ensures
            thread == (Thread { color, thread_type }),
    {
        Thread { color, thread_type }
    }
}

/// The extent of a grid: its number of columns, then of rows.
#[derive(Clone, Copy, Debug, PartialEq, Eq, Hash, Structural)]
pub struct GridSize(pub usize, pub usize);

/// A position in a grid: its column, then its row.
#[derive(Clone, Copy, Debug, PartialEq, Eq, Hash, Structural)]
pub struct GridCell(pub usize, pub usize);

impl GridSize {
    /// Whether `cell` lies inside a grid of this size.
    pub open spec fn holds(self, cell: GridCell) -> bool {
        cell.0 < self.0 && cell.1 < self.1
    }

    /// Whether `cell` lies inside a grid of this size.
    pub fn contains(&self, cell: GridCell) -> (inside: bool)
        ensures
            inside == self.holds(cell),
    {
        self.0 > cell.0 && self.1 > cell.1
    }
}

} // verus!
