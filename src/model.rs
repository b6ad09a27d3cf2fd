use vstd::prelude::*;

use crate::style::{Span, spans_text};

verus! {

/// How a file changed between the two sides of a diff.
#[derive(Clone, Copy, Debug, PartialEq, Eq, Structural)]
pub enum FileStatus {
    Added,
    Deleted,
    Modified,
    Renamed,
    Copied,
}

/// Whether a diff line was added, deleted or left unchanged.
#[derive(Clone, Copy, Debug, PartialEq, Eq, Structural)]
pub enum LineOrigin {
    Addition,
    Deletion,
    Context,
}

/// A side of a diff.
#[derive(Clone, Copy, Debug, PartialEq, Eq, Structural)]
pub enum Side {
    Old,
    New,
}

/// One line of a hunk.
#[derive(Clone, Debug)]
pub struct DiffLine {
    pub origin: LineOrigin,
    /// The line's text, without its line ending.
    pub content: String,
    pub old_lineno: Option<u32>,
    pub new_lineno: Option<u32>,
    /// Styled pieces whose texts, in order, make up `content`.
    pub highlighted_spans: Option<Vec<Span>>,
}

/// A contiguous block of changes with its context lines.
#[derive(Clone, Debug)]
pub struct DiffHunk {
    pub header: String,
    pub lines: Vec<DiffLine>,
    pub old_start: u32,
    pub old_count: u32,
    pub new_start: u32,
    pub new_count: u32,
}

/// One file of a diff.
#[derive(Clone, Debug)]
pub struct DiffFile {
    pub old_path: Option<String>,
    pub new_path: Option<String>,
    pub status: FileStatus,
    pub hunks: Vec<DiffHunk>,
    pub is_binary: bool,
}

/// Whether a line exists on the old side of the diff.
pub open spec fn on_old_side(o: LineOrigin) -> bool {
    o != LineOrigin::Addition
}

/// Whether a line exists on the new side of the diff.
pub open spec fn on_new_side(o: LineOrigin) -> bool {
    o != LineOrigin::Deletion
}

/// The number of lines that exist on the old side.
pub open spec fn old_side_count(lines: Seq<DiffLine>) -> nat
    decreases lines.len(),
{
    if lines.len() == 0 {
        0
    } else {
        old_side_count(lines.drop_last()) + if on_old_side(lines.last().origin) {
            1nat
        } else {
            0nat
        }
    }
}

/// The number of lines that exist on the new side.
pub open spec fn new_side_count(lines: Seq<DiffLine>) -> nat
    decreases lines.len(),
{
    if lines.len() == 0 {
        0
    } else {
        new_side_count(lines.drop_last()) + if on_new_side(lines.last().origin) {
            1nat
        } else {
            0nat
        }
    }
}

impl DiffLine {
    /// The line's number on side `s`, if it exists there.
    pub open spec fn number_on(self, s: Side) -> Option<u32> {
        match s {
            Side::Old => self.old_lineno,
            Side::New => self.new_lineno,
        }
    }

    /// A line carries the line number of each side it exists on, and only
    /// those; its spans, if any, show exactly its content.
    pub open spec fn wf(self) -> bool {
        &&& (self.old_lineno is Some <==> on_old_side(self.origin))
        &&& (self.new_lineno is Some <==> on_new_side(self.origin))
        &&& (self.highlighted_spans matches Some(s) ==> spans_text(s@) == self.content@)
    }
}

impl DiffLine {
    /// The line carries the numbers `old_next` and `new_next` on the sides it
    /// exists on.
    pub open spec fn numbered_from(self, old_next: int, new_next: int) -> bool {
        &&& (on_old_side(self.origin) ==> self.old_lineno == Some(old_next as u32))
        &&& (on_new_side(self.origin) ==> self.new_lineno == Some(new_next as u32))
    }
}

impl DiffHunk {
    /// The first line number of the hunk on side `s`.
    pub open spec fn start_on(self, s: Side) -> int {
        match s {
            Side::Old => self.old_start as int,
            Side::New => self.new_start as int,
        }
    }

    /// The number of lines of the hunk on side `s`.
    pub open spec fn count_on(self, s: Side) -> int {
        match s {
            Side::Old => self.old_count as int,
            Side::New => self.new_count as int,
        }
    }

    /// The header's counts agree with the hunk's lines, whose numbers run on
    /// each side from the hunk's start there, without gaps.
    pub open spec fn wf(self) -> bool {
        &&& self.old_count == old_side_count(self.lines@)
        &&& self.new_count == new_side_count(self.lines@)
        &&& forall|i: int| 0 <= i < self.lines@.len() ==> (#[trigger] self.lines@[i]).wf()
        &&& forall|i: int|
            0 <= i < self.lines@.len() ==> (#[trigger] self.lines@[i]).numbered_from(
                self.old_start + old_side_count(self.lines@.take(i)),
                self.new_start + new_side_count(self.lines@.take(i)),
            )
    }
}

impl DiffFile {
    /// A file has at least one path, a binary file has no hunk, and each hunk
    /// is well formed.
    pub open spec fn wf(self) -> bool {
        &&& (self.old_path is Some || self.new_path is Some)
        &&& (self.is_binary ==> self.hunks@.len() == 0)
        &&& forall|i: int| 0 <= i < self.hunks@.len() ==> (#[trigger] self.hunks@[i]).wf()
    }

    /// The path that identifies the file: the new path, else the old one.
    pub open spec fn identity(self) -> Option<Seq<char>> {
        match self.new_path {
            Some(p) => Some(p@),
            None => match self.old_path {
                Some(p) => Some(p@),
                None => None,
            },
        }
    }
}

} // verus!
