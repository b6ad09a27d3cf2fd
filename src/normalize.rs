use vstd::prelude::*;

use crate::error::TuicrError;
use crate::model::{
    DiffFile, DiffHunk, DiffLine, FileStatus, LineOrigin, new_side_count, old_side_count,
    on_new_side, on_old_side,
};
use crate::style::{Piece, Span, lemma_spans_row_text, pieces_of};
use crate::syntax::{SyntaxHighlighter, fitting, span_rows, tokens_cover, tokens_fit};
use crate::text::{lossy_text, text_of_bytes, trim_text, trimmed_text};

verus! {

/// The status that the version-control backend gives a file delta.
#[derive(Clone, Copy, Debug, PartialEq, Eq, Structural)]
pub enum BackendStatus {
    Unmodified,
    Added,
    Deleted,
    Modified,
    Renamed,
    Copied,
    Ignored,
    Untracked,
    Typechange,
    Unreadable,
    Conflicted,
}

/// A line record as the backend gives it.
#[derive(Clone, Debug)]
pub struct RawLine {
    /// The backend's origin marker: `+`, `-`, ` `, or a marker of a line that
    /// is not part of either file (such as an end-of-file newline note).
    pub origin: char,
    /// The line's bytes, line ending included.
    pub content: Vec<u8>,
    pub old_lineno: Option<u32>,
    pub new_lineno: Option<u32>,
}

/// A hunk record as the backend gives it.
#[derive(Clone, Debug)]
pub struct RawHunk {
    pub header: Vec<u8>,
    pub old_start: u32,
    pub old_count: u32,
    pub new_start: u32,
    pub new_count: u32,
    pub lines: Vec<RawLine>,
}

/// A file delta as the backend gives it.
#[derive(Clone, Debug)]
pub struct RawDelta {
    pub status: BackendStatus,
    pub old_path: Option<String>,
    pub new_path: Option<String>,
    pub old_binary: bool,
    pub new_binary: bool,
    pub hunks: Vec<RawHunk>,
}

/// The file status of a backend status; an unrecognized one counts as a
/// modification.
pub open spec fn status_of(s: BackendStatus) -> FileStatus {
    match s {
        BackendStatus::Added | BackendStatus::Untracked => FileStatus::Added,
        BackendStatus::Deleted => FileStatus::Deleted,
        BackendStatus::Renamed => FileStatus::Renamed,
        BackendStatus::Copied => FileStatus::Copied,
        _ => FileStatus::Modified,
    }
}

/// The origin of a line marker; none for a marker of a line outside both files.
pub open spec fn origin_of(c: char) -> Option<LineOrigin> {
    if c == '+' {
        Some(LineOrigin::Addition)
    } else if c == '-' {
        Some(LineOrigin::Deletion)
    } else if c == ' ' {
        Some(LineOrigin::Context)
    } else {
        None
    }
}

/// `b` without the trailing bytes equal to `c`.
pub open spec fn trim_trailing(b: Seq<u8>, c: u8) -> Seq<u8>
    decreases b.len(),
{
    if b.len() > 0 && b.last() == c {
        trim_trailing(b.drop_last(), c)
    } else {
        b
    }
}

/// `b` without its line ending: trailing newlines, then trailing carriage returns.
pub open spec fn trim_eol(b: Seq<u8>) -> Seq<u8> {
    trim_trailing(trim_trailing(b, 10), 13)
}

/// The line records that stand for lines of the files.
pub open spec fn kept(s: Seq<RawLine>) -> Seq<RawLine>
    decreases s.len(),
{
    if s.len() == 0 {
        Seq::empty()
    } else if origin_of(s.last().origin) is Some {
        kept(s.drop_last()).push(s.last())
    } else {
        kept(s.drop_last())
    }
}

/// The number of records of lines on the old side.
pub open spec fn raw_old_count(s: Seq<RawLine>) -> nat
    decreases s.len(),
{
    if s.len() == 0 {
        0
    } else {
        raw_old_count(s.drop_last()) + if s.last().origin == '-' || s.last().origin == ' ' {
            1nat
        } else {
            0nat
        }
    }
}

/// The number of records of lines on the new side.
pub open spec fn raw_new_count(s: Seq<RawLine>) -> nat
    decreases s.len(),
{
    if s.len() == 0 {
        0
    } else {
        raw_new_count(s.drop_last()) + if s.last().origin == '+' || s.last().origin == ' ' {
            1nat
        } else {
            0nat
        }
    }
}

/// The text of a line record: its bytes without line ending, as text.
pub open spec fn line_text_of(l: RawLine) -> Seq<char> {
    lossy_text(trim_eol(l.content@))
}

impl RawLine {
    /// A line of a file carries the line number of each side it exists on, and
    /// only those.
    pub open spec fn numbers_fit(self) -> bool {
        origin_of(self.origin) matches Some(o) ==> {
            &&& (self.old_lineno is Some <==> on_old_side(o))
            &&& (self.new_lineno is Some <==> on_new_side(o))
        }
    }
}

impl RawLine {
    /// A line of a file carries `old_next` and `new_next` as its numbers on
    /// the sides it exists on.
    pub open spec fn numbers_run(self, old_next: int, new_next: int) -> bool {
        origin_of(self.origin) matches Some(o) ==> {
            &&& (on_old_side(o) ==> self.old_lineno == Some(old_next as u32) && old_next <= u32::MAX)
            &&& (on_new_side(o) ==> self.new_lineno == Some(new_next as u32) && new_next <= u32::MAX)
        }
    }
}

impl RawHunk {
    /// The header's counts agree with the line records, whose numbers run on
    /// each side from the hunk's start there, without gaps.
    pub open spec fn is_consistent(self) -> bool {
        &&& forall|i: int| 0 <= i < self.lines@.len() ==> (#[trigger] self.lines@[i]).numbers_fit()
        &&& forall|i: int|
            0 <= i < self.lines@.len() ==> (#[trigger] self.lines@[i]).numbers_run(
                self.old_start + raw_old_count(self.lines@.take(i)),
                self.new_start + raw_new_count(self.lines@.take(i)),
            )
        &&& self.old_count == raw_old_count(self.lines@)
        &&& self.new_count == raw_new_count(self.lines@)
    }

    /// The texts of the hunk's lines of the files, in order.
    pub open spec fn texts(self) -> Seq<Seq<char>> {
        kept(self.lines@).map_values(|l: RawLine| line_text_of(l))
    }

    /// The row of `rows` for the `k`-th line of the files, where the rows
    /// show each line exactly.
    pub open spec fn spans_for(self, rows: Option<Seq<Seq<Piece>>>, k: int) -> Option<Seq<Piece>> {
        match fitting(rows, self.texts()) {
            Some(r) => Some(r[k]),
            None => None,
        }
    }
}

impl RawDelta {
    pub open spec fn is_binary(self) -> bool {
        self.old_binary || self.new_binary
    }

    pub open spec fn has_path(self) -> bool {
        self.old_path is Some || self.new_path is Some
    }

    /// The path whose grammar highlights the file: the new one, else the old one.
    pub open spec fn highlight_path(self) -> Seq<char> {
        match self.new_path {
            Some(p) => p@,
            None => match self.old_path {
                Some(p) => p@,
                None => Seq::empty(),
            },
        }
    }

    /// A delta can be normalized: it has a path, and unless it is binary each
    /// of its hunks is consistent.
    pub open spec fn is_valid(self) -> bool {
        &&& self.has_path()
        &&& !self.is_binary() ==> forall|i: int|
            0 <= i < self.hunks@.len() ==> (#[trigger] self.hunks@[i]).is_consistent()
    }
}

/// The texts of the lines of the files of all `hunks`, in order.
pub open spec fn file_texts(hunks: Seq<RawHunk>) -> Seq<Seq<char>>
    decreases hunks.len(),
{
    if hunks.len() == 0 {
        Seq::empty()
    } else {
        file_texts(hunks.drop_last()) + hunks.last().texts()
    }
}

/// Rows `lo` to `hi` (exclusive) of `rows`, if any.
pub open spec fn row_slice(rows: Option<Seq<Seq<Piece>>>, lo: int, hi: int) -> Option<Seq<Seq<Piece>>> {
    match rows {
        Some(r) => Some(r.subrange(lo, hi)),
        None => None,
    }
}

proof fn lemma_file_texts_prefix(hunks: Seq<RawHunk>, i: int)
    requires
        0 <= i <= hunks.len(),
    ensures
        file_texts(hunks.take(i)).len() <= file_texts(hunks).len(),
    decreases hunks.len(),
{
    if i == hunks.len() {
        assert(hunks.take(i) =~= hunks);
    } else {
        assert(hunks.take(i) =~= hunks.drop_last().take(i));
        lemma_file_texts_prefix(hunks.drop_last(), i);
    }
}

/// A copy of a row of spans.
fn copy_row(row: &Vec<Span>) -> (r: Vec<Span>)
    ensures
        pieces_of(r@) == pieces_of(row@),
{
    let mut out: Vec<Span> = Vec::new();
    let mut j: usize = 0;
    while j < row.len()
        invariant
            j <= row@.len(),
            pieces_of(out@) =~= pieces_of(row@.take(j as int)),
        decreases row@.len() - j,
    {
        let s = Span { style: row[j].style, text: row[j].text.clone() };
        let ghost prev = out@;
        out.push(s);
        proof {
            assert(pieces_of(out@) =~= pieces_of(prev).push(s@));
            assert(row@.take(j + 1) =~= row@.take(j as int).push(row@[j as int]));
        }
        j = j + 1;
    }
    proof {
        assert(row@.take(j as int) =~= row@);
    }
    out
}

/// A copy of rows `lo` to `hi` (exclusive) of `rows`.
fn copy_rows(rows: &Vec<Vec<Span>>, lo: usize, hi: usize) -> (r: Vec<Vec<Span>>)
    requires
        lo <= hi <= rows@.len(),
    ensures
        r@.map_values(|x: Vec<Span>| pieces_of(x@)) == rows@.map_values(|x: Vec<Span>| pieces_of(x@)).subrange(
            lo as int,
            hi as int,
        ),
{
    let mut out: Vec<Vec<Span>> = Vec::new();
    let mut j: usize = lo;
    while j < hi
        invariant
            lo <= j <= hi <= rows@.len(),
            out@.map_values(|x: Vec<Span>| pieces_of(x@)) =~= rows@.map_values(
                |x: Vec<Span>| pieces_of(x@),
            ).subrange(lo as int, j as int),
        decreases hi - j,
    {
        let row = copy_row(&rows[j]);
        let ghost prev = out@;
        out.push(row);
        proof {
            assert(out@.map_values(|x: Vec<Span>| pieces_of(x@)) =~= prev.map_values(
                |x: Vec<Span>| pieces_of(x@),
            ).push(pieces_of(row@)));
        }
        j = j + 1;
    }
    out
}

/// Whether two optional strings hold the same text.
pub open spec fn same_text(a: Option<String>, b: Option<String>) -> bool {
    match (a, b) {
        (Some(x), Some(y)) => x@ == y@,
        (None, None) => true,
        _ => false,
    }
}

impl SyntaxHighlighter {
    /// `l` is the line made of record `raw`, with `spans` from the tokenizer.
    pub open spec fn line_built(self, l: DiffLine, raw: RawLine, spans: Option<Seq<Piece>>) -> bool {
        &&& origin_of(raw.origin) == Some(l.origin)
        &&& l.content@ == line_text_of(raw)
        &&& l.old_lineno == raw.old_lineno
        &&& l.new_lineno == raw.new_lineno
        &&& match spans {
            None => l.highlighted_spans is None,
            Some(t) => l.highlighted_spans matches Some(s) && self.overlaid(s@, t, l.origin),
        }
    }

    /// `h` is the hunk made of record `raw`, highlighted with `rows`.
    pub open spec fn hunk_built(self, h: DiffHunk, raw: RawHunk, rows: Option<Seq<Seq<Piece>>>) -> bool {
        &&& h.header@ == trimmed_text(lossy_text(raw.header@))
        &&& h.old_start == raw.old_start
        &&& h.old_count == raw.old_count
        &&& h.new_start == raw.new_start
        &&& h.new_count == raw.new_count
        &&& h.lines@.len() == kept(raw.lines@).len()
        &&& forall|k: int|
            0 <= k < h.lines@.len() ==> self.line_built(
                #[trigger] h.lines@[k],
                kept(raw.lines@)[k],
                raw.spans_for(rows, k),
            )
    }

    /// `h` is the hunk made of record `hunks[i]` of file `path`, highlighted
    /// with its part of the rows of all the file's lines.
    pub open spec fn hunk_from(self, h: DiffHunk, hunks: Seq<RawHunk>, i: int, path: Seq<char>) -> bool {
        let lo = file_texts(hunks.take(i)).len() as int;
        self.hunk_built(
            h,
            hunks[i],
            row_slice(self.highlight_spec(path, file_texts(hunks)), lo, lo + hunks[i].texts().len()),
        )
    }

    /// `f` is the file made of record `d`.
    pub open spec fn file_built(self, f: DiffFile, d: RawDelta) -> bool {
        &&& same_text(f.old_path, d.old_path)
        &&& same_text(f.new_path, d.new_path)
        &&& f.status == status_of(d.status)
        &&& f.is_binary == d.is_binary()
        &&& if d.is_binary() {
            f.hunks@.len() == 0
        } else {
            &&& f.hunks@.len() == d.hunks@.len()
            &&& forall|i: int|
                0 <= i < f.hunks@.len() ==> #[trigger] self.hunk_from(f.hunks@[i], d.hunks@, i, d.highlight_path())
        }
    }
}

/// The file status of backend status `s`.
pub fn file_status_of(s: BackendStatus) -> (r: FileStatus)
    ensures
        r == status_of(s),
{
    match s {
        BackendStatus::Added | BackendStatus::Untracked => FileStatus::Added,
        BackendStatus::Deleted => FileStatus::Deleted,
        BackendStatus::Modified => FileStatus::Modified,
        BackendStatus::Renamed => FileStatus::Renamed,
        BackendStatus::Copied => FileStatus::Copied,
        _ => FileStatus::Modified,
    }
}

/// The origin of line marker `c`.
pub fn line_origin_of(c: char) -> (r: Option<LineOrigin>)
    ensures
        r == origin_of(c),
{
    if c == '+' {
        Some(LineOrigin::Addition)
    } else if c == '-' {
        Some(LineOrigin::Deletion)
    } else if c == ' ' {
        Some(LineOrigin::Context)
    } else {
        None
    }
}

/// The length of `b` without its trailing bytes equal to `c`.
fn trimmed_len(b: &[u8], len: usize, c: u8) -> (r: usize)
    requires
        len <= b@.len(),
    ensures
        r <= len,
        b@.take(r as int) == trim_trailing(b@.take(len as int), c),
{
    let mut n = len;
    while n > 0 && b[n - 1] == c
        invariant
            n <= len <= b@.len(),
            trim_trailing(b@.take(n as int), c) == trim_trailing(b@.take(len as int), c),
        decreases n,
    {
        proof {
            assert(b@.take(n as int).drop_last() =~= b@.take(n - 1));
        }
        n = n - 1;
    }
    n
}

/// The bytes of a line without its line ending.
pub fn strip_line_ending(b: &[u8]) -> (r: Vec<u8>)
    ensures
        r@ == trim_eol(b@),
{
    let n1 = trimmed_len(b, b.len(), 10);
    let n2 = trimmed_len(b, n1, 13);
    proof {
        assert(b@.take(b@.len() as int) =~= b@);
    }
    let mut out: Vec<u8> = Vec::new();
    let mut i: usize = 0;
    while i < n2
        invariant
            n2 <= b@.len(),
            i <= n2,
            out@ =~= b@.take(i as int),
        decreases n2 - i,
    {
        out.push(b[i]);
        i = i + 1;
    }
    out
}

/// The text of line record `l`: its bytes without line ending, as text.
pub fn line_text(l: &RawLine) -> (r: String)
    ensures
        r@ == line_text_of(*l),
{
    let b = strip_line_ending(l.content.as_slice());
    text_of_bytes(b.as_slice())
}

/// The texts of a hunk's lines of the files, in order: what the tokenizer is
/// given.
pub fn hunk_line_texts(lines: &Vec<RawLine>) -> (r: Vec<String>)
    ensures
        r@.map_values(|s: String| s@) == kept(lines@).map_values(|l: RawLine| line_text_of(l)),
{
    let mut out: Vec<String> = Vec::new();
    let mut i: usize = 0;
    while i < lines.len()
        invariant
            i <= lines@.len(),
            out@.map_values(|s: String| s@) =~= kept(lines@.take(i as int)).map_values(
                |l: RawLine| line_text_of(l),
            ),
        decreases lines@.len() - i,
    {
        proof {
            assert(lines@.take(i + 1).drop_last() =~= lines@.take(i as int));
        }
        let ghost prev = out@;
        if line_origin_of(lines[i].origin).is_some() {
            let t = line_text(&lines[i]);
            out.push(t);
            proof {
                assert(kept(lines@.take(i + 1)) == kept(lines@.take(i as int)).push(lines@[i as int]));
                assert(out@ == prev.push(t));
                assert(out@.map_values(|s: String| s@) =~= prev.map_values(|s: String| s@).push(
                    t@,
                ));
                assert(kept(lines@.take(i + 1)).map_values(|l: RawLine| line_text_of(l))
                    =~= kept(lines@.take(i as int)).map_values(|l: RawLine| line_text_of(l)).push(
                    line_text_of(lines@[i as int]),
                ));
            }
        } else {
            proof {
                assert(kept(lines@.take(i + 1)) == kept(lines@.take(i as int)));
            }
        }
        i = i + 1;
    }
    proof {
        assert(lines@.take(i as int) =~= lines@);
    }
    out
}

/// The records kept from a prefix of `s` are a prefix of those kept from `s`.
proof fn lemma_kept_prefix(s: Seq<RawLine>, i: int)
    requires
        0 <= i <= s.len(),
    ensures
        kept(s.take(i)).len() <= kept(s).len(),
        forall|q: int| 0 <= q < kept(s.take(i)).len() ==> kept(s.take(i))[q] == kept(s)[q],
    decreases s.len(),
{
    if i == s.len() {
        assert(s.take(i) =~= s);
    } else {
        assert(s.take(i) =~= s.drop_last().take(i));
        lemma_kept_prefix(s.drop_last(), i);
    }
}

/// The hunk made of record `raw`, its lines highlighted with `tokens` where
/// they show each line exactly; `MalformedHunk` where its header's counts or
/// its line numbers disagree with its line records.
#[verifier::rlimit(100)]
pub fn parse_hunk(
    raw: &RawHunk,
    tokens: &Option<Vec<Vec<Span>>>,
    highlighter: &SyntaxHighlighter,
) -> (r: Result<DiffHunk, TuicrError>)
    ensures
        r is Ok <==> raw.is_consistent(),
        r matches Ok(h) ==> highlighter.hunk_built(h, *raw, span_rows(*tokens)) && h.wf(),
        r matches Err(e) ==> e == TuicrError::MalformedHunk,
{
    let texts = hunk_line_texts(&raw.lines);
    let fit = tokens_cover(&texts, tokens);
    let ghost all = raw.lines@;
    let mut lines: Vec<DiffLine> = Vec::new();
    let mut old_n: u64 = 0;
    let mut new_n: u64 = 0;
    let mut i: usize = 0;
    while i < raw.lines.len()
        invariant
            all == raw.lines@,
            i <= all.len(),
            fit == tokens_fit(*tokens, raw.texts()),
            lines@.len() == kept(all.take(i as int)).len(),
            old_n == raw_old_count(all.take(i as int)),
            new_n == raw_new_count(all.take(i as int)),
            old_n <= i,
            new_n <= i,
            old_side_count(lines@) == old_n,
            new_side_count(lines@) == new_n,
            forall|j: int| 0 <= j < i ==> (#[trigger] all[j]).numbers_fit(),
            forall|j: int|
                0 <= j < i ==> (#[trigger] all[j]).numbers_run(
                    raw.old_start + raw_old_count(all.take(j)),
                    raw.new_start + raw_new_count(all.take(j)),
                ),
            forall|q: int|
                0 <= q < lines@.len() ==> (#[trigger] lines@[q]).numbered_from(
                    raw.old_start + old_side_count(lines@.take(q)),
                    raw.new_start + new_side_count(lines@.take(q)),
                ),
            forall|q: int|
                0 <= q < lines@.len() ==> (#[trigger] lines@[q]).wf() && highlighter.line_built(
                    lines@[q],
                    kept(all)[q],
                    raw.spans_for(span_rows(*tokens), q),
                ),
        decreases all.len() - i,
    {
        let ghost prev = lines@;
        proof {
            assert(all.take(i + 1).drop_last() =~= all.take(i as int));
            lemma_kept_prefix(all, i + 1);
        }
        let l = &raw.lines[i];
        match line_origin_of(l.origin) {
            None => {
                proof {
                    assert(kept(all.take(i + 1)) == kept(all.take(i as int)));
                }
            },
            Some(o) => {
                let old_side = match o {
                    LineOrigin::Addition => false,
                    _ => true,
                };
                let new_side = match o {
                    LineOrigin::Deletion => false,
                    _ => true,
                };
                if l.old_lineno.is_some() != old_side || l.new_lineno.is_some() != new_side {
                    proof {
                        assert(!all[i as int].numbers_fit());
                    }
                    return Err(TuicrError::MalformedHunk);
                }
                let old_ok = match l.old_lineno {
                    Some(n) => n as u64 >= raw.old_start as u64 && n as u64 - raw.old_start as u64 == old_n,
                    None => true,
                };
                let new_ok = match l.new_lineno {
                    Some(n) => n as u64 >= raw.new_start as u64 && n as u64 - raw.new_start as u64 == new_n,
                    None => true,
                };
                if !old_ok || !new_ok {
                    proof {
                        assert(!all[i as int].numbers_run(
                            raw.old_start + raw_old_count(all.take(i as int)),
                            raw.new_start + raw_new_count(all.take(i as int)),
                        ));
                    }
                    return Err(TuicrError::MalformedHunk);
                }
                let k = lines.len();
                proof {
                    assert(kept(all.take(i + 1)) == kept(all.take(i as int)).push(all[i as int]));
                    assert(kept(all)[k as int] == all[i as int]);
                }
                let content = line_text(l);
                let spans = if fit {
                    match *tokens {
                        Some(ref t) => {
                            let s = highlighter.apply_diff_background(&t[k], o);
                            proof {
                                assert(raw.texts()[k as int] == line_text_of(all[i as int]));
                                assert(span_rows(*tokens)->0[k as int] == pieces_of(t@[k as int]@));
                                lemma_spans_row_text(t@[k as int]@);
                            }
                            Some(s)
                        },
                        None => None,
                    }
                } else {
                    None
                };
                let line = DiffLine {
                    origin: o,
                    content,
                    old_lineno: l.old_lineno,
                    new_lineno: l.new_lineno,
                    highlighted_spans: spans,
                };
                lines.push(line);
                if old_side {
                    old_n = old_n + 1;
                }
                if new_side {
                    new_n = new_n + 1;
                }
                proof {
                    assert(lines@.drop_last() =~= prev);
                    assert(lines@.take(k as int) =~= prev);
                    assert forall|q: int| 0 <= q < k implies lines@.take(q) == prev.take(q) by {
                        assert(lines@.take(q) =~= prev.take(q));
                    }
                }
            },
        }
        i = i + 1;
    }
    proof {
        assert(all.take(i as int) =~= all);
    }
    if old_n != raw.old_count as u64 || new_n != raw.new_count as u64 {
        return Err(TuicrError::MalformedHunk);
    }
    let header_text = text_of_bytes(raw.header.as_slice());
    let header = trim_text(header_text.as_str());
    Ok(
        DiffHunk {
            header,
            lines,
            old_start: raw.old_start,
            old_count: raw.old_count,
            new_start: raw.new_start,
            new_count: raw.new_count,
        },
    )
}

/// The hunks made of records `raw` of file `file_path`, in order; all the
/// file's lines are highlighted at once, and each hunk gets its part of the
/// result. `MalformedHunk` where one of them is not consistent.
pub fn parse_hunks(raw: &Vec<RawHunk>, file_path: &String, highlighter: &SyntaxHighlighter) -> (r: Result<
    Vec<DiffHunk>,
    TuicrError,
>)
    ensures
        r is Ok <==> forall|i: int| 0 <= i < raw@.len() ==> (#[trigger] raw@[i]).is_consistent(),
        r matches Ok(hs) ==> hs@.len() == raw@.len() && forall|i: int|
            0 <= i < hs@.len() ==> highlighter.hunk_from(#[trigger] hs@[i], raw@, i, file_path@)
                && hs@[i].wf(),
        r matches Err(e) ==> e == TuicrError::MalformedHunk,
{
    let mut all: Vec<String> = Vec::new();
    let mut i: usize = 0;
    while i < raw.len()
        invariant
            i <= raw@.len(),
            all@.map_values(|s: String| s@) =~= file_texts(raw@.take(i as int)),
        decreases raw@.len() - i,
    {
        let texts = hunk_line_texts(&raw[i].lines);
        proof {
            assert(raw@.take(i + 1).drop_last() =~= raw@.take(i as int));
            assert(texts@.map_values(|s: String| s@) == raw@[i as int].texts());
        }
        let ghost start = all@;
        let mut j: usize = 0;
        while j < texts.len()
            invariant
                j <= texts@.len(),
                all@.map_values(|s: String| s@) =~= start.map_values(|s: String| s@) + texts@.take(
                    j as int,
                ).map_values(|s: String| s@),
            decreases texts@.len() - j,
        {
            let t = texts[j].clone();
            let ghost prev = all@;
            all.push(t);
            proof {
                assert(all@.map_values(|s: String| s@) =~= prev.map_values(|s: String| s@).push(t@));
                assert(texts@.take(j + 1) =~= texts@.take(j as int).push(texts@[j as int]));
            }
            j = j + 1;
        }
        proof {
            assert(texts@.take(j as int) =~= texts@);
        }
        i = i + 1;
    }
    proof {
        assert(raw@.take(i as int) =~= raw@);
    }
    proof {
        assert(file_texts(raw@).len() == all@.len());
    }
    let total = all.len();
    let rows = highlighter.highlight_file_lines(file_path.as_str(), &all);
    let ghost want = highlighter.highlight_spec(file_path@, file_texts(raw@));
    let mut hunks: Vec<DiffHunk> = Vec::new();
    let mut off: usize = 0;
    let mut i: usize = 0;
    while i < raw.len()
        invariant
            i <= raw@.len(),
            hunks@.len() == i,
            span_rows(rows) == want,
            want == highlighter.highlight_spec(file_path@, file_texts(raw@)),
            want matches Some(w) ==> w.len() == file_texts(raw@).len(),
            file_texts(raw@).len() == total,
            off == file_texts(raw@.take(i as int)).len(),
            forall|j: int| 0 <= j < i ==> (#[trigger] raw@[j]).is_consistent(),
            forall|j: int|
                0 <= j < i ==> highlighter.hunk_from(#[trigger] hunks@[j], raw@, j, file_path@)
                    && hunks@[j].wf(),
        decreases raw@.len() - i,
    {
        let texts_i = hunk_line_texts(&raw[i].lines);
        let n = texts_i.len();
        proof {
            assert(texts_i@.map_values(|s: String| s@) == raw@[i as int].texts());
            assert(n == raw@[i as int].texts().len());
            assert(raw@.take(i + 1).drop_last() =~= raw@.take(i as int));
            assert(raw@.take(i + 1).last() == raw@[i as int]);
            assert(file_texts(raw@.take(i + 1)) == file_texts(raw@.take(i as int)) + raw@[i as int].texts());
            lemma_file_texts_prefix(raw@, i + 1);
            assert(file_texts(raw@.take(i + 1)).len() == off + n);
            assert(off + n <= total);
        }
        let tokens = match rows {
            Some(ref r) => Some(copy_rows(r, off, off + n)),
            None => None,
        };
        proof {
            assert(span_rows(tokens) == row_slice(want, off as int, off + n));
        }
        match parse_hunk(&raw[i], &tokens, highlighter) {
            Ok(h) => {
                hunks.push(h);
                proof {
                    assert(highlighter.hunk_from(hunks@[i as int], raw@, i as int, file_path@));
                }
            },
            Err(e) => return Err(e),
        }
        off = off + n;
        i = i + 1;
    }
    Ok(hunks)
}

/// A copy of an optional string.
fn copy_text(s: &Option<String>) -> (r: Option<String>)
    ensures
        same_text(r, *s),
{
    match s {
        Some(p) => Some(p.clone()),
        None => None,
    }
}

/// The files of a diff, made of the backend's deltas in their order.
/// `NoChanges` where there is no delta; `MissingPath` or `MalformedHunk` where
/// a delta has no path or a non-binary delta has an inconsistent hunk.
pub fn parse_diff(deltas: &Vec<RawDelta>, highlighter: &SyntaxHighlighter) -> (r: Result<
    Vec<DiffFile>,
    TuicrError,
>)
    ensures
        r is Ok <==> deltas@.len() > 0 && forall|i: int|
            0 <= i < deltas@.len() ==> (#[trigger] deltas@[i]).is_valid(),
        r matches Ok(fs) ==> fs@.len() == deltas@.len() && forall|i: int|
            0 <= i < fs@.len() ==> highlighter.file_built(#[trigger] fs@[i], deltas@[i])
                && fs@[i].wf(),
        r matches Err(e) ==> match e {
            TuicrError::NoChanges => deltas@.len() == 0,
            TuicrError::MissingPath => exists|i: int|
                0 <= i < deltas@.len() && !(#[trigger] deltas@[i]).has_path() && forall|j: int|
                    0 <= j < i ==> (#[trigger] deltas@[j]).is_valid(),
            TuicrError::MalformedHunk => exists|i: int|
                0 <= i < deltas@.len() && (#[trigger] deltas@[i]).has_path() && !deltas@[i].is_valid()
                    && forall|j: int| 0 <= j < i ==> (#[trigger] deltas@[j]).is_valid(),
            _ => false,
        },
{
    let mut files: Vec<DiffFile> = Vec::new();
    let mut i: usize = 0;
    while i < deltas.len()
        invariant
            i <= deltas@.len(),
            files@.len() == i,
            forall|j: int| 0 <= j < i ==> (#[trigger] deltas@[j]).is_valid(),
            forall|j: int|
                0 <= j < i ==> highlighter.file_built(#[trigger] files@[j], deltas@[j])
                    && files@[j].wf(),
        decreases deltas@.len() - i,
    {
        let d = &deltas[i];
        if d.old_path.is_none() && d.new_path.is_none() {
            return Err(TuicrError::MissingPath);
        }
        let status = file_status_of(d.status);
        let is_binary = d.old_binary || d.new_binary;
        let hunks = if is_binary {
            Vec::new()
        } else {
            let path = match &d.new_path {
                Some(p) => p,
                None => match &d.old_path {
                    Some(p) => p,
                    None => {
                        return Err(TuicrError::MissingPath);
                    },
                },
            };
            match parse_hunks(&d.hunks, path, highlighter) {
                Ok(hs) => hs,
                Err(e) => return Err(e),
            }
        };
        let f = DiffFile {
            old_path: copy_text(&d.old_path),
            new_path: copy_text(&d.new_path),
            status,
            hunks,
            is_binary,
        };
        files.push(f);
        i = i + 1;
    }
    if files.len() == 0 {
        return Err(TuicrError::NoChanges);
    }
    Ok(files)
}

/// The oldest and the newest of commit ids ordered oldest first: the range's
/// diff runs from the oldest one's parent to the newest one. `NoChanges` where
/// there is no id.
pub fn commit_range_ends(commit_ids: &Vec<String>) -> (r: Result<(String, String), TuicrError>)
    ensures
        r is Err <==> commit_ids@.len() == 0,
        r matches Err(e) ==> e == TuicrError::NoChanges,
        r matches Ok((oldest, newest)) ==> oldest@ == commit_ids@[0]@ && newest@
            == commit_ids@.last()@,
{
    let n = commit_ids.len();
    if n == 0 {
        return Err(TuicrError::NoChanges);
    }
    Ok((commit_ids[0].clone(), commit_ids[n - 1].clone()))
}

/// The line ending that `trim_eol` takes off `b`.
pub open spec fn eol_of(b: Seq<u8>) -> Seq<u8> {
    b.subrange(trim_eol(b).len() as int, b.len() as int)
}

proof fn lemma_trim_trailing(b: Seq<u8>, c: u8)
    ensures
        trim_trailing(b, c).len() <= b.len(),
        trim_trailing(b, c) == b.take(trim_trailing(b, c).len() as int),
        forall|j: int| trim_trailing(b, c).len() <= j < b.len() ==> b[j] == c,
    decreases b.len(),
{
    if b.len() > 0 && b.last() == c {
        lemma_trim_trailing(b.drop_last(), c);
        assert(b.drop_last().take(trim_trailing(b, c).len() as int) =~= b.take(
            trim_trailing(b, c).len() as int,
        ));
        assert forall|j: int| trim_trailing(b, c).len() <= j < b.len() implies b[j] == c by {
            if j < b.len() - 1 {
                assert(b.drop_last()[j] == b[j]);
            }
        }
    } else {
        assert(b.take(b.len() as int) =~= b);
    }
}

/// A line without its ending, followed by that ending, is the line again, and
/// the ending holds only newlines and carriage returns.
pub proof fn lemma_eol_split(b: Seq<u8>)
    ensures
        trim_eol(b) + eol_of(b) == b,
        forall|j: int| 0 <= j < eol_of(b).len() ==> #[trigger] eol_of(b)[j] == 10 || eol_of(b)[j] == 13,
{
    let t1 = trim_trailing(b, 10);
    lemma_trim_trailing(b, 10);
    lemma_trim_trailing(t1, 13);
    assert(trim_eol(b) + eol_of(b) =~= b);
    assert forall|j: int| 0 <= j < eol_of(b).len() implies #[trigger] eol_of(b)[j] == 10 || eol_of(
        b,
    )[j] == 13 by {
        let p = trim_eol(b).len() + j;
        if p < t1.len() {
            assert(t1[p] == 13);
        }
    }
}

/// Restoring each line's ending after its stripped bytes, in order, gives back
/// the hunk's raw text: the concatenation of its line records.
pub proof fn law_line_endings_restore_text(lines: Seq<RawLine>)
    ensures
        lines.map_values(|l: RawLine| trim_eol(l.content@) + eol_of(l.content@)).flatten()
            == lines.map_values(|l: RawLine| l.content@).flatten(),
{
    assert forall|k: int| 0 <= k < lines.len() implies trim_eol(#[trigger] lines[k].content@) + eol_of(
        lines[k].content@,
    ) == lines[k].content@ by {
        lemma_eol_split(lines[k].content@);
    }
    assert(lines.map_values(|l: RawLine| trim_eol(l.content@) + eol_of(l.content@))
        =~= lines.map_values(|l: RawLine| l.content@));
}

} // verus!
