use vstd::prelude::*;

verus! {

/// The byte ranges `[start, end)` of the lines of a text, split at each
/// newline, which belongs to no line.
pub open spec fn is_line_split(b: Seq<u8>, rows: Seq<(usize, usize)>) -> bool {
    &&& rows.len() >= 1
    &&& rows[0].0 == 0
    &&& rows.last().1 == b.len()
    &&& forall|k: int|
        0 <= k < rows.len() ==> (#[trigger] rows[k]).0 <= rows[k].1 <= b.len() && forall|j: int|
            rows[k].0 <= j < rows[k].1 ==> b[j] != 10
    &&& forall|k: int|
        0 <= k < rows.len() - 1 ==> b[(#[trigger] rows[k]).1 as int] == 10 && rows[k + 1].0 == rows[k].1
            + 1
}

/// The lines of text `b`: the byte range of each, in order.
pub fn line_ranges(b: &[u8]) -> (r: Vec<(usize, usize)>)
    ensures
        is_line_split(b@, r@),
{
    let mut rows: Vec<(usize, usize)> = Vec::new();
    let mut start: usize = 0;
    let mut i: usize = 0;
    while i < b.len()
        invariant
            start <= i <= b@.len(),
            forall|j: int| start <= j < i ==> b@[j] != 10,
            rows@.len() == 0 ==> start == 0,
            rows@.len() > 0 ==> rows@[0].0 == 0 && rows@.last().1 + 1 == start,
            forall|k: int|
                0 <= k < rows@.len() ==> (#[trigger] rows@[k]).0 <= rows@[k].1 < b@.len()
                    && b@[rows@[k].1 as int] == 10 && forall|j: int|
                    rows@[k].0 <= j < rows@[k].1 ==> b@[j] != 10,
            forall|k: int|
                0 <= k < rows@.len() - 1 ==> rows@[k + 1].0 == (#[trigger] rows@[k]).1 + 1,
        decreases b@.len() - i,
    {
        if b[i] == 10 {
            rows.push((start, i));
            start = i + 1;
        }
        i = i + 1;
    }
    let ghost before = rows@;
    rows.push((start, b.len()));
    proof {
        assert forall|k: int| 0 <= k < rows@.len() - 1 implies b@[(#[trigger] rows@[k]).1 as int] == 10
            && rows@[k + 1].0 == rows@[k].1 + 1 by {
            assert(rows@[k] == before[k]);
        }
    }
    rows
}

/// Where the cursor at byte `cursor` of a text of `len` bytes shows on line
/// `[start, end)`, the `last` one: its offset in the line, if it is on it.
pub open spec fn cursor_spot(start: int, end: int, last: bool, cursor: int, len: int) -> Option<int> {
    if cursor >= start && (cursor <= end || (last && cursor == len)) {
        Some(if cursor - start < end - start { cursor - start } else { end - start })
    } else {
        None
    }
}

/// The offset at which the cursor at byte `cursor` shows on line `[start,
/// end)` of a text of `len` bytes, `last` telling whether it is the last line;
/// none where it is on another line.
pub fn cursor_column(start: usize, end: usize, last: bool, cursor: usize, len: usize) -> (r: Option<usize>)
    requires
        start <= end,
    ensures
        r is Some <==> cursor_spot(start as int, end as int, last, cursor as int, len as int) is Some,
        r matches Some(c) ==> Some(c as int) == cursor_spot(
            start as int,
            end as int,
            last,
            cursor as int,
            len as int,
        ),
{
    if cursor >= start && (cursor <= end || (last && cursor == len)) {
        let off = cursor - start;
        let width = end - start;
        Some(if off < width { off } else { width })
    } else {
        None
    }
}

} // verus!
