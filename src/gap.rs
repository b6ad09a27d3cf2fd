use vstd::prelude::*;

use crate::error::TuicrError;
use crate::model::{DiffHunk, Side};

verus! {

/// Where a gap lies: before the hunk of the given index (after the previous
/// hunk, or after the start of the file), or after the last hunk.
#[derive(Clone, Copy, Debug, PartialEq, Eq, Structural)]
pub enum GapBoundary {
    BeforeHunk(usize),
    FileEnd,
}

/// Unchanged lines that a diff leaves out: `size` lines from `old_start` on
/// the old side, which are the `size` lines from `new_start` on the new side.
#[derive(Clone, Copy, Debug, PartialEq, Eq, Structural)]
pub struct ContextGap {
    pub boundary: GapBoundary,
    pub old_start: u64,
    pub new_start: u64,
    pub size: u64,
}

impl GapBoundary {
    /// The boundary exists in a file of `n` hunks.
    pub open spec fn is_within(self, n: int) -> bool {
        match self {
            GapBoundary::BeforeHunk(i) => i < n,
            GapBoundary::FileEnd => true,
        }
    }
}

/// The first line on side `s` after hunk `h`. A hunk with no line on a side
/// sits after line `start` there.
pub open spec fn line_after(h: DiffHunk, s: Side) -> int {
    if h.count_on(s) == 0 {
        h.start_on(s) + 1
    } else {
        h.start_on(s) + h.count_on(s)
    }
}

/// The last line on side `s` before hunk `h`.
pub open spec fn line_before(h: DiffHunk, s: Side) -> int {
    if h.count_on(s) == 0 {
        h.start_on(s)
    } else {
        h.start_on(s) - 1
    }
}

/// The first line of the gap at boundary `b` on side `s`.
pub open spec fn gap_first(hunks: Seq<DiffHunk>, b: GapBoundary, s: Side) -> int {
    match b {
        GapBoundary::BeforeHunk(i) => if i == 0 {
            1
        } else {
            line_after(hunks[i - 1], s)
        },
        GapBoundary::FileEnd => if hunks.len() == 0 {
            1
        } else {
            line_after(hunks.last(), s)
        },
    }
}

/// The last line of the gap at boundary `b` on side `s`, where the file has
/// `total` lines on that side.
pub open spec fn gap_last(hunks: Seq<DiffHunk>, b: GapBoundary, s: Side, total: int) -> int {
    match b {
        GapBoundary::BeforeHunk(i) => line_before(hunks[i as int], s),
        GapBoundary::FileEnd => total,
    }
}

/// The number of lines from `first` to `last`, none where `last` comes first.
pub open spec fn range_size(first: int, last: int) -> nat {
    if last < first {
        0
    } else {
        (last - first + 1) as nat
    }
}

/// The gap's sides are well formed: on neither does its last line come before
/// its first line minus one, which would mean that the hunks around it overlap.
pub open spec fn gap_sides_ok(hunks: Seq<DiffHunk>, b: GapBoundary, old_total: int, new_total: int) -> bool {
    &&& gap_last(hunks, b, Side::Old, old_total) >= gap_first(hunks, b, Side::Old) - 1
    &&& gap_last(hunks, b, Side::New, new_total) >= gap_first(hunks, b, Side::New) - 1
}

/// The size of the gap at boundary `b` on side `s`.
pub open spec fn gap_size(hunks: Seq<DiffHunk>, b: GapBoundary, s: Side, total: int) -> nat {
    range_size(gap_first(hunks, b, s), gap_last(hunks, b, s, total))
}

fn after_exec(h: &DiffHunk, s: Side) -> (r: i64)
    ensures
        r == line_after(*h, s),
{
    let (start, count) = match s {
        Side::Old => (h.old_start as i64, h.old_count as i64),
        Side::New => (h.new_start as i64, h.new_count as i64),
    };
    if count == 0 {
        start + 1
    } else {
        start + count
    }
}

fn before_exec(h: &DiffHunk, s: Side) -> (r: i64)
    ensures
        r == line_before(*h, s),
{
    let (start, count) = match s {
        Side::Old => (h.old_start as i64, h.old_count as i64),
        Side::New => (h.new_start as i64, h.new_count as i64),
    };
    if count == 0 {
        start
    } else {
        start - 1
    }
}

/// The first and last line of the gap at `boundary` on side `s`.
fn gap_bounds(hunks: &Vec<DiffHunk>, boundary: GapBoundary, s: Side, total: u32) -> (r: (i64, i64))
    requires
        boundary.is_within(hunks@.len() as int),
    ensures
        r.0 == gap_first(hunks@, boundary, s),
        r.1 == gap_last(hunks@, boundary, s, total as int),
        1 <= r.0,
{
    match boundary {
        GapBoundary::BeforeHunk(i) => {
            let first = if i == 0 {
                1
            } else {
                after_exec(&hunks[i - 1], s)
            };
            (first, before_exec(&hunks[i], s))
        },
        GapBoundary::FileEnd => {
            let n = hunks.len();
            let first = if n == 0 {
                1
            } else {
                after_exec(&hunks[n - 1], s)
            };
            (first, total as i64)
        },
    }
}

/// The gap at `boundary` among the hunks of one file, whose sides have
/// `old_total` and `new_total` lines. `GapIntegrity` where the old and new
/// sides of the gap differ in size, or where hunks overlap on a side: the
/// hunks' metadata is malformed.
pub fn calculate_gap(hunks: &Vec<DiffHunk>, boundary: GapBoundary, old_total: u32, new_total: u32) -> (r:
    Result<ContextGap, TuicrError>)
    requires
        boundary.is_within(hunks@.len() as int),
    ensures
        r is Ok <==> gap_sides_ok(hunks@, boundary, old_total as int, new_total as int) && gap_size(
            hunks@,
            boundary,
            Side::Old,
            old_total as int,
        ) == gap_size(hunks@, boundary, Side::New, new_total as int),
        r matches Ok(g) ==> {
            &&& g.boundary == boundary
            &&& g.old_start == gap_first(hunks@, boundary, Side::Old)
            &&& g.new_start == gap_first(hunks@, boundary, Side::New)
            &&& g.size == gap_size(hunks@, boundary, Side::Old, old_total as int)
        },
        r matches Err(e) ==> e == TuicrError::GapIntegrity,
{
    let (old_first, old_last) = gap_bounds(hunks, boundary, Side::Old, old_total);
    let (new_first, new_last) = gap_bounds(hunks, boundary, Side::New, new_total);
    let old_size: i64 = if old_last < old_first {
        0
    } else {
        old_last - old_first + 1
    };
    let new_size: i64 = if new_last < new_first {
        0
    } else {
        new_last - new_first + 1
    };
    if old_last < old_first - 1 || new_last < new_first - 1 || old_size != new_size {
        return Err(TuicrError::GapIntegrity);
    }
    Ok(
        ContextGap {
            boundary,
            old_start: old_first as u64,
            new_start: new_first as u64,
            size: old_size as u64,
        },
    )
}

/// The lines numbered `start` to `start + size - 1` (from 1) of a file's
/// lines, as far as the file reaches.
pub open spec fn line_slice(lines: Seq<String>, start: int, size: int) -> Seq<String> {
    let lo = if start < 1 { 0 } else if start - 1 > lines.len() { lines.len() as int } else { start - 1 };
    let hi = if lo + size > lines.len() { lines.len() as int } else { lo + size };
    lines.subrange(lo, hi)
}

/// The content of a gap on one side: the lines `start` to `start + size - 1`
/// of that side's file, taken by line number alone.
pub fn fetch_context_lines(file_lines: &Vec<String>, start: u64, size: u64) -> (r: Vec<String>)
    ensures
        r@ == line_slice(file_lines@, start as int, size as int),
{
    let n = file_lines.len();
    let lo: usize = if start < 1 {
        0
    } else if start - 1 > n as u64 {
        n
    } else {
        (start - 1) as usize
    };
    let hi: usize = if size > (n - lo) as u64 {
        n
    } else {
        lo + size as usize
    };
    let mut out: Vec<String> = Vec::new();
    let mut i: usize = lo;
    while i < hi
        invariant
            lo <= i <= hi <= file_lines@.len(),
            out@ =~= file_lines@.subrange(lo as int, i as int),
        decreases hi - i,
    {
        out.push(file_lines[i].clone());
        i = i + 1;
    }
    out
}

/// The content of an expanded gap, with the file and boundary it belongs to.
#[derive(Clone, Debug)]
pub struct GapEntry {
    pub path: String,
    pub boundary: GapBoundary,
    pub lines: Vec<String>,
}

/// Expanded gaps of one diff, each kept under its file and boundary.
pub struct GapCache {
    entries: Vec<GapEntry>,
}

impl View for GapCache {
    type V = Seq<GapEntry>;

    closed spec fn view(&self) -> Seq<GapEntry> {
        self.entries@
    }
}

/// Entry `e` belongs to file `path` and boundary `b`.
pub open spec fn entry_is(e: GapEntry, path: Seq<char>, b: GapBoundary) -> bool {
    e.path@ == path && e.boundary == b
}

/// No two entries share a file and a boundary.
pub open spec fn keys_unique(s: Seq<GapEntry>) -> bool {
    forall|i: int, j: int|
        0 <= i < s.len() && 0 <= j < s.len() && #[trigger] entry_is(s[i], s[j].path@, s[j].boundary)
            && #[trigger] entry_is(s[j], s[i].path@, s[i].boundary) ==> i == j
}

impl GapCache {
    pub fn new() -> (r: GapCache)
        ensures
            r@ == Seq::<GapEntry>::empty(),
    {
        GapCache { entries: Vec::new() }
    }

    /// The content of `gap` of file `path`: kept from an earlier expansion of
    /// the same file and boundary, else lines `start` to `start + size - 1` of
    /// `side_lines`, the file's lines on `side`, which are then kept.
    pub fn expand(&mut self, path: &String, gap: &ContextGap, side: Side, side_lines: &Vec<String>) -> (r:
        Vec<String>)
        requires
            keys_unique(old(self)@),
        ensures
            keys_unique(final(self)@),
            (exists|i: int| 0 <= i < old(self)@.len() && entry_is(old(self)@[i], path@, gap.boundary))
                ==> {
                &&& final(self)@ == old(self)@
                &&& exists|i: int|
                    0 <= i < old(self)@.len() && entry_is(old(self)@[i], path@, gap.boundary)
                        && r@ == old(self)@[i].lines@
            },
            !(exists|i: int| 0 <= i < old(self)@.len() && entry_is(old(self)@[i], path@, gap.boundary))
                ==> {
                &&& r@ == line_slice(
                    side_lines@,
                    match side {
                        Side::Old => gap.old_start as int,
                        Side::New => gap.new_start as int,
                    },
                    gap.size as int,
                )
                &&& final(self)@.len() == old(self)@.len() + 1
                &&& final(self)@.drop_last() == old(self)@
                &&& entry_is(final(self)@.last(), path@, gap.boundary)
                &&& final(self)@.last().lines@ == r@
            },
    {
        let mut i: usize = 0;
        while i < self.entries.len()
            invariant
                self.entries@ == old(self).entries@,
                keys_unique(old(self)@),
                i <= self.entries@.len(),
                forall|j: int| 0 <= j < i ==> !entry_is(#[trigger] self.entries@[j], path@, gap.boundary),
            decreases self.entries@.len() - i,
        {
            let e = &self.entries[i];
            if e.path == *path && e.boundary == gap.boundary {
                let mut copy: Vec<String> = Vec::new();
                let mut k: usize = 0;
                while k < e.lines.len()
                    invariant
                        self.entries@ == old(self).entries@,
                        keys_unique(old(self)@),
                        i < self.entries@.len(),
                        *e == self.entries@[i as int],
                        entry_is(self.entries@[i as int], path@, gap.boundary),
                        k <= e.lines@.len(),
                        copy@ =~= e.lines@.take(k as int),
                    decreases e.lines@.len() - k,
                {
                    copy.push(e.lines[k].clone());
                    k = k + 1;
                }
                proof {
                    assert(e.lines@.take(k as int) =~= e.lines@);
                }
                return copy;
            }
            i = i + 1;
        }
        let start = match side {
            Side::Old => gap.old_start,
            Side::New => gap.new_start,
        };
        let lines = fetch_context_lines(side_lines, start, gap.size);
        let mut kept: Vec<String> = Vec::new();
        let mut k: usize = 0;
        while k < lines.len()
            invariant
                k <= lines@.len(),
                kept@ =~= lines@.take(k as int),
            decreases lines@.len() - k,
        {
            kept.push(lines[k].clone());
            k = k + 1;
        }
        proof {
            assert(lines@.take(k as int) =~= lines@);
        }
        let ghost before = self.entries@;
        self.entries.push(GapEntry { path: path.clone(), boundary: gap.boundary, lines: kept });
        proof {
            assert(self.entries@.drop_last() =~= before);
            assert forall|a: int, b: int|
                0 <= a < self.entries@.len() && 0 <= b < self.entries@.len() && #[trigger] entry_is(
                    self.entries@[a],
                    self.entries@[b].path@,
                    self.entries@[b].boundary,
                ) && #[trigger] entry_is(
                    self.entries@[b],
                    self.entries@[a].path@,
                    self.entries@[a].boundary,
                ) implies a == b by {
                if a < before.len() && b < before.len() {
                    assert(self.entries@[a] == before[a]);
                    assert(self.entries@[b] == before[b]);
                } else if a < before.len() {
                    assert(self.entries@[a] == before[a]);
                    assert(!entry_is(before[a], path@, gap.boundary));
                } else if b < before.len() {
                    assert(self.entries@[b] == before[b]);
                    assert(!entry_is(before[b], path@, gap.boundary));
                }
            }
        }
        lines
    }
}

/// Expanding a gap again gives the content of its first expansion: once a
/// file's gap is kept, every entry for that file and boundary holds it.
pub proof fn law_expand_idempotent(before: Seq<GapEntry>, after: Seq<GapEntry>, path: Seq<char>, b: GapBoundary)
    requires
        keys_unique(after),
        after.len() == before.len() + 1,
        after.drop_last() == before,
        entry_is(after.last(), path, b),
    ensures
        forall|i: int|
            0 <= i < after.len() && entry_is(#[trigger] after[i], path, b) ==> after[i] == after.last(),
{
    assert forall|i: int| 0 <= i < after.len() && entry_is(#[trigger] after[i], path, b) implies after[i]
        == after.last() by {
        let l = after.len() - 1;
        assert(entry_is(after[i], after[l].path@, after[l].boundary));
        assert(entry_is(after[l], after[i].path@, after[i].boundary));
    }
}

} // verus!
