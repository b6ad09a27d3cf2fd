use vstd::prelude::*;

use crate::error::TuicrError;
use crate::model::{DiffFile, Side};

verus! {

/// The kind of a comment on code.
#[derive(Clone, Copy, Debug, PartialEq, Eq, Structural)]
pub enum CommentType {
    Note,
    Suggestion,
    Issue,
    Praise,
}

impl CommentType {
    /// The name of the kind.
    pub open spec fn name(self) -> Seq<char> {
        match self {
            CommentType::Note => "Note"@,
            CommentType::Suggestion => "Suggestion"@,
            CommentType::Issue => "Issue"@,
            CommentType::Praise => "Praise"@,
        }
    }

    pub fn as_str(&self) -> (r: &'static str)
        ensures
            r@ == self.name(),
    {
        match self {
            CommentType::Note => "Note",
            CommentType::Suggestion => "Suggestion",
            CommentType::Issue => "Issue",
            CommentType::Praise => "Praise",
        }
    }
}

/// An inclusive range of line numbers.
#[derive(Clone, Copy, Debug, PartialEq, Eq, Structural)]
pub struct LineRange {
    pub start: u32,
    pub end: u32,
}

/// A comment bound to a file, a side and, unless it is about the whole file,
/// a range of lines.
#[derive(Clone, Debug)]
pub struct CommentAnchor {
    pub id: u64,
    pub path: String,
    pub side: Side,
    pub range: Option<LineRange>,
    pub kind: CommentType,
    pub content: String,
}

/// Where a line of a diff stands: file, hunk and line index.
#[derive(Clone, Copy, Debug, PartialEq, Eq, Structural)]
pub struct LineLocation {
    pub file: usize,
    pub hunk: usize,
    pub line: usize,
}

/// What an anchor refers to in the current diff.
#[derive(Clone, Debug)]
pub enum Resolution {
    /// A file-level comment, on the file of this index.
    File(usize),
    /// The lines of the anchor's range, in order.
    Lines(Vec<LineLocation>),
    /// The anchor has no match in the current diff.
    Unresolved,
}

impl LineRange {
    /// Both bounds are positive and the start does not exceed the end.
    pub open spec fn is_valid(self) -> bool {
        1 <= self.start <= self.end
    }
}

/// Whether an optional range is absent or valid.
pub open spec fn range_ok(r: Option<LineRange>) -> bool {
    r matches Some(rg) ==> rg.is_valid()
}

/// `i` is the first file of `files` identified by `path`.
pub open spec fn is_first_match(files: Seq<DiffFile>, path: Seq<char>, i: int) -> bool {
    &&& 0 <= i < files.len()
    &&& files[i].identity() == Some(path)
    &&& forall|j: int| 0 <= j < i ==> (#[trigger] files[j]).identity() != Some(path)
}

/// `loc` is a line of `files` with number `n` on side `s`.
pub open spec fn locates(files: Seq<DiffFile>, loc: LineLocation, s: Side, n: int) -> bool {
    &&& loc.file < files.len()
    &&& loc.hunk < files[loc.file as int].hunks@.len()
    &&& loc.line < files[loc.file as int].hunks@[loc.hunk as int].lines@.len()
    &&& files[loc.file as int].hunks@[loc.hunk as int].lines@[loc.line as int].number_on(s) == Some(
        n as u32,
    )
    &&& 0 <= n <= u32::MAX
}

/// File `f` has a line with number `n` on side `s`.
pub open spec fn has_line(f: DiffFile, s: Side, n: int) -> bool {
    exists|h: int, l: int|
        0 <= h < f.hunks@.len() && 0 <= l < f.hunks@[h].lines@.len() && (
        #[trigger] f.hunks@[h].lines@[l]).number_on(s) == Some(n as u32)
}

/// File `f` has every line of anchor `a`'s range on its side.
pub open spec fn covers(f: DiffFile, a: CommentAnchor) -> bool {
    a.range matches Some(rg) ==> forall|n: int|
        rg.start <= n <= rg.end ==> #[trigger] has_line(f, a.side, n)
}

/// Anchor `a` has a match in `files`: the first file identified by its path
/// has every line of its range.
pub open spec fn resolvable(a: CommentAnchor, files: Seq<DiffFile>) -> bool {
    exists|i: int| is_first_match(files, a.path@, i) && covers(files[i], a)
}

/// `r` is what anchor `a` refers to in `files`: unresolved exactly when `a`
/// has no match; else its file, for a file-level comment, or each line of its
/// range in order, all in the first file identified by its path.
pub open spec fn resolves_as(r: Resolution, a: CommentAnchor, files: Seq<DiffFile>) -> bool {
    &&& (r is Unresolved <==> !resolvable(a, files))
    &&& (r matches Resolution::File(i) ==> a.range is None && is_first_match(files, a.path@, i as int))
    &&& (r matches Resolution::Lines(locs) ==> a.range matches Some(rg) && exists|i: int|
        is_first_match(files, a.path@, i) && locs@.len() == rg.end - rg.start + 1 && forall|k: int|
            0 <= k < locs@.len() ==> (#[trigger] locs@[k]).file == i && locates(
                files,
                locs@[k],
                a.side,
                rg.start + k,
            ))
}

/// The line of file `f` with number `n` on side `s`, if any: its hunk and line index.
fn find_line(f: &DiffFile, s: Side, n: u32) -> (r: Option<(usize, usize)>)
    ensures
        r matches Some((h, l)) ==> h < f.hunks@.len() && l < f.hunks@[h as int].lines@.len()
            && f.hunks@[h as int].lines@[l as int].number_on(s) == Some(n),
        r is None ==> !has_line(*f, s, n as int),
{
    let mut h: usize = 0;
    while h < f.hunks.len()
        invariant
            h <= f.hunks@.len(),
            forall|h2: int, l2: int|
                0 <= h2 < h && 0 <= l2 < f.hunks@[h2].lines@.len() ==> (
                #[trigger] f.hunks@[h2].lines@[l2]).number_on(s) != Some(n),
        decreases f.hunks@.len() - h,
    {
        let lines = &f.hunks[h].lines;
        let mut l: usize = 0;
        while l < lines.len()
            invariant
                h < f.hunks@.len(),
                *lines == f.hunks@[h as int].lines,
                l <= lines@.len(),
                forall|h2: int, l2: int|
                    0 <= h2 < h && 0 <= l2 < f.hunks@[h2].lines@.len() ==> (
                    #[trigger] f.hunks@[h2].lines@[l2]).number_on(s) != Some(n),
                forall|l2: int| 0 <= l2 < l ==> (#[trigger] lines@[l2]).number_on(s) != Some(n),
            decreases lines@.len() - l,
        {
            let num = match s {
                Side::Old => lines[l].old_lineno,
                Side::New => lines[l].new_lineno,
            };
            if num == Some(n) {
                return Some((h, l));
            }
            l = l + 1;
        }
        h = h + 1;
    }
    None
}

/// The index of the first file of `files` identified by `path`, if any.
fn find_file(files: &Vec<DiffFile>, path: &String) -> (r: Option<usize>)
    ensures
        r matches Some(i) ==> is_first_match(files@, path@, i as int),
        r is None ==> forall|i: int| 0 <= i < files@.len() ==> (#[trigger] files@[i]).identity() != Some(path@),
{
    let mut i: usize = 0;
    while i < files.len()
        invariant
            i <= files@.len(),
            forall|j: int| 0 <= j < i ==> (#[trigger] files@[j]).identity() != Some(path@),
        decreases files@.len() - i,
    {
        let f = &files[i];
        let id = match &f.new_path {
            Some(p) => Some(p),
            None => match &f.old_path {
                Some(p) => Some(p),
                None => None,
            },
        };
        match id {
            Some(p) => {
                if *p == *path {
                    return Some(i);
                }
            },
            None => {},
        }
        i = i + 1;
    }
    None
}

/// What anchor `a` refers to in `files`, matched exactly by path, side and
/// line number.
pub fn resolve_anchor(a: &CommentAnchor, files: &Vec<DiffFile>) -> (r: Resolution)
    requires
        range_ok(a.range),
    ensures
        resolves_as(r, *a, files@),
{
    let fi = match find_file(files, &a.path) {
        Some(i) => i,
        None => {
            proof {
                assert forall|i: int| !(is_first_match(files@, a.path@, i) && covers(files@[i], *a)) by {
                    if 0 <= i < files@.len() {
                        assert(files@[i].identity() != Some(a.path@));
                    }
                }
            }
            return Resolution::Unresolved;
        },
    };
    let f = &files[fi];
    match a.range {
        None => Resolution::File(fi),
        Some(rg) => {
            let mut locs: Vec<LineLocation> = Vec::new();
            let mut n: u64 = rg.start as u64;
            while n <= rg.end as u64
                invariant
                    *f == files@[fi as int],
                    is_first_match(files@, a.path@, fi as int),
                    a.range == Some(rg),
                    rg.start <= n <= rg.end as u64 + 1,
                    locs@.len() == n - rg.start,
                    forall|k: int|
                        0 <= k < locs@.len() ==> (#[trigger] locs@[k]).file == fi && locates(
                            files@,
                            locs@[k],
                            a.side,
                            rg.start + k,
                        ),
                    forall|m: int| rg.start <= m < n ==> #[trigger] has_line(*f, a.side, m),
                decreases rg.end as u64 + 1 - n,
            {
                match find_line(f, a.side, n as u32) {
                    Some((h, l)) => {
                        let ghost prev = locs@;
                        locs.push(LineLocation { file: fi, hunk: h, line: l });
                        proof {
                            assert(locates(files@, locs@[locs@.len() - 1], a.side, n as int));
                            assert(has_line(*f, a.side, n as int));
                            assert(forall|k: int| 0 <= k < prev.len() ==> locs@[k] == prev[k]);
                        }
                    },
                    None => {
                        proof {
                            assert forall|i: int| !(is_first_match(files@, a.path@, i) && covers(files@[i], *a)) by {
                                if is_first_match(files@, a.path@, i) && i != fi {
                                    if i < fi {
                                        assert(files@[i].identity() != Some(a.path@));
                                    } else {
                                        assert(files@[fi as int].identity() != Some(a.path@));
                                    }
                                }
                            }
                        }
                        return Resolution::Unresolved;
                    },
                }
                n = n + 1;
            }
            proof {
                assert(covers(files@[fi as int], *a));
            }
            Resolution::Lines(locs)
        },
    }
}

/// When a rebuilt diff no longer holds the file of comment `a` (the diff
/// `files` without its file `k`, the only one identified by `a`'s path), `a`
/// does not resolve, and a comment `b` on another path resolves exactly as it
/// did before.
pub proof fn law_removed_file_unresolved(
    a: CommentAnchor,
    b: CommentAnchor,
    files: Seq<DiffFile>,
    k: int,
)
    requires
        0 <= k < files.len(),
        files[k].identity() == Some(a.path@),
        forall|j: int| 0 <= j < files.len() && j != k ==> (#[trigger] files[j]).identity() != Some(a.path@),
        b.path@ != a.path@,
    ensures
        !resolvable(a, files.remove(k)),
        resolvable(b, files.remove(k)) == resolvable(b, files),
{
    let rest = files.remove(k);
    assert forall|i: int| !(is_first_match(rest, a.path@, i) && covers(rest[i], a)) by {
        if 0 <= i < rest.len() {
            if i < k {
                assert(rest[i] == files[i]);
            } else {
                assert(rest[i] == files[i + 1]);
            }
        }
    }
    if resolvable(b, files) {
        let i = choose|i: int| is_first_match(files, b.path@, i) && covers(files[i], b);
        assert(i != k);
        let i2 = if i < k { i } else { i - 1 };
        assert(rest[i2] == files[i]);
        assert forall|j: int| 0 <= j < i2 implies (#[trigger] rest[j]).identity() != Some(b.path@) by {
            if j < k {
                assert(rest[j] == files[j]);
            } else {
                assert(rest[j] == files[j + 1]);
            }
        }
        assert(is_first_match(rest, b.path@, i2) && covers(rest[i2], b));
    }
    if resolvable(b, rest) {
        let i2 = choose|i: int| is_first_match(rest, b.path@, i) && covers(rest[i], b);
        let i = if i2 < k { i2 } else { i2 + 1 };
        assert(rest[i2] == files[i]);
        assert forall|j: int| 0 <= j < i implies (#[trigger] files[j]).identity() != Some(b.path@) by {
            if j < k {
                assert(rest[j] == files[j]);
            } else if j > k {
                assert(rest[j - 1] == files[j]);
            }
        }
        assert(is_first_match(files, b.path@, i) && covers(files[i], b));
    }
}

/// The comments of one session.
pub struct CommentStore {
    anchors: Vec<CommentAnchor>,
    next_id: u64,
}

impl View for CommentStore {
    type V = Seq<CommentAnchor>;

    closed spec fn view(&self) -> Seq<CommentAnchor> {
        self.anchors@
    }
}

/// Whether `handle` names one of `anchors`.
pub open spec fn has_handle(anchors: Seq<CommentAnchor>, handle: u64) -> bool {
    exists|i: int| 0 <= i < anchors.len() && (#[trigger] anchors[i]).id == handle
}

impl CommentStore {
    /// The handle that the next comment gets.
    pub closed spec fn next_handle(&self) -> u64 {
        self.next_id
    }

    /// Handles are unique and below the next one; every range is valid.
    pub closed spec fn wf(&self) -> bool {
        &&& forall|i: int, j: int|
            0 <= i < j < self.anchors@.len() ==> (#[trigger] self.anchors@[i]).id
                != (#[trigger] self.anchors@[j]).id
        &&& forall|i: int|
            0 <= i < self.anchors@.len() ==> (#[trigger] self.anchors@[i]).id < self.next_id
                && range_ok(self.anchors@[i].range)
    }

    /// Every anchor of a well-formed store has a valid range, and no two share a handle.
    pub proof fn lemma_wf(&self)
        requires
            self.wf(),
        ensures
            forall|i: int| 0 <= i < self@.len() ==> range_ok(#[trigger] self@[i].range),
            forall|i: int, j: int|
                0 <= i < self@.len() && 0 <= j < self@.len() && self@[i].id == self@[j].id ==> i
                    == j,
    {
        assert forall|i: int, j: int|
            0 <= i < self@.len() && 0 <= j < self@.len() && self@[i].id == self@[j].id implies i
                == j by {
            if i < j {
                assert(self.anchors@[i].id != self.anchors@[j].id);
            } else if j < i {
                assert(self.anchors@[j].id != self.anchors@[i].id);
            }
        }
    }

    /// An empty store.
    pub fn new() -> (r: CommentStore)
        ensures
            r@ == Seq::<CommentAnchor>::empty(),
            r.wf(),
            r.next_handle() == 0,
    {
        CommentStore { anchors: Vec::new(), next_id: 0 }
    }

    /// The comments, in the order they were created.
    pub fn anchors(&self) -> (r: &[CommentAnchor])
        ensures
            r@ == self@,
    {
        self.anchors.as_slice()
    }

    /// A new comment on `path`'s side `side`, over `range` or, with none, on
    /// the whole file. `InvalidRange`, with nothing changed, where the range's
    /// start exceeds its end or a bound is zero.
    pub fn create(
        &mut self,
        path: String,
        side: Side,
        range: Option<LineRange>,
        kind: CommentType,
        content: String,
    ) -> (r: Result<u64, TuicrError>)
        requires
            old(self).wf(),
            old(self).next_handle() < u64::MAX,
        ensures
            final(self).wf(),
            r is Ok <==> range_ok(range),
            r matches Ok(id) ==> {
                &&& !has_handle(old(self)@, id)
                &&& final(self)@ == old(self)@.push(
                    CommentAnchor { id, path, side, range, kind, content },
                )
                &&& final(self).next_handle() == old(self).next_handle() + 1
            },
            r matches Err(e) ==> e == TuicrError::InvalidRange && *final(self) == *old(self),
    {
        match range {
            Some(rg) => {
                if rg.start == 0 || rg.start > rg.end {
                    return Err(TuicrError::InvalidRange);
                }
            },
            None => {},
        }
        let id = self.next_id;
        self.anchors.push(CommentAnchor { id, path, side, range, kind, content });
        self.next_id = id + 1;
        Ok(id)
    }

    /// The index of the comment with handle `handle`, if any.
    fn index_of(&self, handle: u64) -> (r: Option<usize>)
        ensures
            r matches Some(i) ==> i < self@.len() && self@[i as int].id == handle,
            r is None ==> !has_handle(self@, handle),
    {
        let mut i: usize = 0;
        while i < self.anchors.len()
            invariant
                i <= self.anchors@.len(),
                forall|j: int| 0 <= j < i ==> (#[trigger] self.anchors@[j]).id != handle,
            decreases self.anchors@.len() - i,
        {
            if self.anchors[i].id == handle {
                return Some(i);
            }
            i = i + 1;
        }
        None
    }

    /// Replaces the content of the comment with handle `handle`, which keeps
    /// its handle and place; false, with nothing changed, where there is none.
    pub fn edit(&mut self, handle: u64, content: String) -> (r: bool)
        requires
            old(self).wf(),
        ensures
            final(self).wf(),
            r == has_handle(old(self)@, handle),
            final(self).next_handle() == old(self).next_handle(),
            final(self)@.len() == old(self)@.len(),
            forall|i: int|
                0 <= i < old(self)@.len() ==> #[trigger] final(self)@[i] == if old(self)@[i].id
                    == handle {
                    CommentAnchor { content, ..old(self)@[i] }
                } else {
                    old(self)@[i]
                },
    {
        proof {
            self.lemma_wf();
        }
        match self.index_of(handle) {
            None => false,
            Some(i) => {
                let a = &self.anchors[i];
                let updated = CommentAnchor {
                    id: a.id,
                    path: a.path.clone(),
                    side: a.side,
                    range: a.range,
                    kind: a.kind,
                    content,
                };
                self.anchors.set(i, updated);
                true
            },
        }
    }

    /// Removes the comment with handle `handle`; false, with nothing changed,
    /// where there is none.
    pub fn delete(&mut self, handle: u64) -> (r: bool)
        requires
            old(self).wf(),
        ensures
            final(self).wf(),
            r == has_handle(old(self)@, handle),
            final(self).next_handle() == old(self).next_handle(),
            r ==> exists|i: int|
                0 <= i < old(self)@.len() && old(self)@[i].id == handle && final(self)@
                    == old(self)@.remove(i),
            !r ==> final(self)@ == old(self)@,
    {
        match self.index_of(handle) {
            None => false,
            Some(i) => {
                self.anchors.remove(i);
                proof {
                    assert(self.anchors@ == old(self).anchors@.remove(i as int));
                }
                true
            },
        }
    }

    /// What the comment with handle `handle` refers to in `files`; none where
    /// there is no such comment. The comments stay as they are, resolved or not.
    pub fn resolve(&self, handle: u64, files: &Vec<DiffFile>) -> (r: Option<Resolution>)
        requires
            self.wf(),
        ensures
            r is None <==> !has_handle(self@, handle),
            r matches Some(res) ==> exists|i: int|
                0 <= i < self@.len() && self@[i].id == handle && resolves_as(
                    res,
                    #[trigger] self@[i],
                    files@,
                ),
    {
        proof {
            self.lemma_wf();
        }
        match self.index_of(handle) {
            None => None,
            Some(i) => Some(resolve_anchor(&self.anchors[i], files)),
        }
    }
}

} // verus!
