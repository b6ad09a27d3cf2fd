use tuicr::anchor::{CommentStore, CommentType, LineRange, Resolution, resolve_anchor};
use tuicr::editor::{cursor_column, line_ranges};
use tuicr::error::TuicrError;
use tuicr::gap::{GapBoundary, GapCache, calculate_gap, fetch_context_lines};
use tuicr::model::{DiffFile, DiffHunk, DiffLine, FileStatus, LineOrigin, Side};
use tuicr::normalize::{
    BackendStatus, RawDelta, commit_range_ends, RawHunk, RawLine, file_status_of, hunk_line_texts, line_origin_of,
    line_text, parse_diff, parse_hunk, strip_line_ending,
};
use tuicr::style::{Color, Span, Style, spans_joined};
use tuicr::syntax::{SyntaxHighlighter, checked_highlights, spans_of_tokens, tokens_cover};
use tuicr::styles::{border_style, comment_type_style, file_status_style, header_style};

fn raw_line(origin: char, text: &str, old: Option<u32>, new: Option<u32>) -> RawLine {
    RawLine { origin, content: text.as_bytes().to_vec(), old_lineno: old, new_lineno: new }
}

fn sample_hunk() -> RawHunk {
    RawHunk {
        header: b"@@ -1,3 +1,3 @@ fn main()\n".to_vec(),
        old_start: 1,
        old_count: 3,
        new_start: 1,
        new_count: 3,
        lines: vec![
            raw_line(' ', "fn main() {\n", Some(1), Some(1)),
            raw_line('-', "    old();\r\n", Some(2), None),
            raw_line('+', "    new();\n", None, Some(2)),
            raw_line(' ', "}", Some(3), Some(3)),
            raw_line('\\', "\n\\ No newline at end of file\n", None, None),
        ],
    }
}

fn highlighter() -> SyntaxHighlighter {
    SyntaxHighlighter::new("base16-eighties.dark", Color::Rgb(0, 35, 12), Color::Rgb(45, 0, 0))
}

fn span(text: &str) -> Span {
    Span { style: Style::new().fg(Color::Rgb(1, 2, 3)), text: text.to_string() }
}

fn delta(path: &str, hunks: Vec<RawHunk>) -> RawDelta {
    RawDelta {
        status: BackendStatus::Modified,
        old_path: Some(path.to_string()),
        new_path: Some(path.to_string()),
        old_binary: false,
        new_binary: false,
        hunks,
    }
}

fn hunk(old_start: u32, old_count: u32, new_start: u32, new_count: u32) -> DiffHunk {
    DiffHunk {
        header: String::new(),
        lines: Vec::new(),
        old_start,
        old_count,
        new_start,
        new_count,
    }
}

fn file_with_lines(path: &str, numbers: &[u32]) -> DiffFile {
    let lines = numbers
        .iter()
        .map(|n| DiffLine {
            origin: LineOrigin::Context,
            content: format!("line {}", n),
            old_lineno: Some(*n),
            new_lineno: Some(*n),
            highlighted_spans: None,
        })
        .collect::<Vec<_>>();
    DiffFile {
        old_path: Some(path.to_string()),
        new_path: Some(path.to_string()),
        status: FileStatus::Modified,
        hunks: vec![DiffHunk {
            header: String::new(),
            old_start: numbers[0],
            old_count: numbers.len() as u32,
            new_start: numbers[0],
            new_count: numbers.len() as u32,
            lines,
        }],
        is_binary: false,
    }
}

#[test]
fn should_return_no_changes_for_clean_repo() {
    let result = parse_diff(&Vec::new(), &highlighter());
    assert!(matches!(result, Err(TuicrError::NoChanges)));
}

#[test]
fn hunk_counts_match_line_origins() {
    let h = parse_hunk(&sample_hunk(), &None, &highlighter()).unwrap();
    assert_eq!(h.lines.len(), 4);
    let old = h.lines.iter().filter(|l| l.origin != LineOrigin::Addition).count();
    let new = h.lines.iter().filter(|l| l.origin != LineOrigin::Deletion).count();
    assert_eq!(old as u32, h.old_count);
    assert_eq!(new as u32, h.new_count);
    assert_eq!(h.header, "@@ -1,3 +1,3 @@ fn main()");
    assert_eq!(h.lines[1].content, "    old();");
    assert_eq!(h.lines[1].origin, LineOrigin::Deletion);
    assert_eq!(h.lines[2].new_lineno, Some(2));
    assert_eq!(h.lines[2].old_lineno, None);
}

#[test]
fn hunk_with_wrong_counts_is_malformed() {
    let mut raw = sample_hunk();
    raw.old_count = 4;
    assert!(matches!(parse_hunk(&raw, &None, &highlighter()), Err(TuicrError::MalformedHunk)));
    let mut raw = sample_hunk();
    raw.lines[2].old_lineno = Some(7);
    assert!(matches!(parse_hunk(&raw, &None, &highlighter()), Err(TuicrError::MalformedHunk)));
    let mut raw = sample_hunk();
    raw.lines[3].old_lineno = Some(4);
    assert!(matches!(parse_hunk(&raw, &None, &highlighter()), Err(TuicrError::MalformedHunk)));
    let mut raw = sample_hunk();
    raw.lines[2].new_lineno = Some(5);
    assert!(matches!(parse_hunk(&raw, &None, &highlighter()), Err(TuicrError::MalformedHunk)));
    let mut raw = sample_hunk();
    raw.old_start = 7;
    raw.new_start = 7;
    assert!(matches!(parse_hunk(&raw, &None, &highlighter()), Err(TuicrError::MalformedHunk)));
}

#[test]
fn line_endings_are_stripped_and_restorable() {
    assert_eq!(strip_line_ending(b"abc\r\n"), b"abc".to_vec());
    assert_eq!(strip_line_ending(b"abc\n\n"), b"abc".to_vec());
    assert_eq!(strip_line_ending(b"abc"), b"abc".to_vec());
    assert_eq!(strip_line_ending(b""), Vec::<u8>::new());
    let raw = sample_hunk();
    let texts = hunk_line_texts(&raw.lines);
    let mut rebuilt = Vec::new();
    for l in raw.lines.iter().filter(|l| l.origin != '\\') {
        let stripped = strip_line_ending(&l.content);
        rebuilt.extend_from_slice(&stripped);
        rebuilt.extend_from_slice(&l.content[stripped.len()..]);
    }
    assert_eq!(rebuilt, b"fn main() {\n    old();\r\n    new();\n}".to_vec());
    assert_eq!(texts, vec!["fn main() {", "    old();", "    new();", "}"]);
}

#[test]
fn invalid_utf8_is_replaced() {
    let l = raw_line('+', "", None, Some(1));
    let l = RawLine { content: vec![b'a', 0xff, b'\n'], ..l };
    assert_eq!(line_text(&l), "a\u{FFFD}");
}

#[test]
fn backend_status_maps_to_file_status() {
    assert_eq!(file_status_of(BackendStatus::Added), FileStatus::Added);
    assert_eq!(file_status_of(BackendStatus::Untracked), FileStatus::Added);
    assert_eq!(file_status_of(BackendStatus::Deleted), FileStatus::Deleted);
    assert_eq!(file_status_of(BackendStatus::Renamed), FileStatus::Renamed);
    assert_eq!(file_status_of(BackendStatus::Copied), FileStatus::Copied);
    assert_eq!(file_status_of(BackendStatus::Typechange), FileStatus::Modified);
    assert_eq!(file_status_of(BackendStatus::Conflicted), FileStatus::Modified);
    assert_eq!(line_origin_of('+'), Some(LineOrigin::Addition));
    assert_eq!(line_origin_of('='), None);
}

#[test]
fn parse_diff_keeps_order_and_skips_binary_hunks() {
    let mut bin = delta("img.png", vec![sample_hunk()]);
    bin.new_binary = true;
    bin.status = BackendStatus::Added;
    let files = parse_diff(&vec![delta("a.rs", vec![sample_hunk()]), bin], &highlighter()).unwrap();
    assert_eq!(files.len(), 2);
    assert_eq!(files[0].new_path.as_deref(), Some("a.rs"));
    assert_eq!(files[0].hunks.len(), 1);
    assert!(files[1].is_binary);
    assert!(files[1].hunks.is_empty());
    assert_eq!(files[1].status, FileStatus::Added);
}

#[test]
fn parse_diff_rejects_delta_without_path() {
    let mut d = delta("a.rs", vec![]);
    d.old_path = None;
    d.new_path = None;
    assert!(matches!(parse_diff(&vec![d.clone()], &highlighter()), Err(TuicrError::MissingPath)));
    let mut bad = sample_hunk();
    bad.old_count = 9;
    let first = delta("a.rs", vec![bad]);
    assert!(matches!(parse_diff(&vec![first.clone(), d.clone()], &highlighter()), Err(TuicrError::MalformedHunk)));
    assert!(matches!(parse_diff(&vec![d, first], &highlighter()), Err(TuicrError::MissingPath)));
}

#[test]
fn gap_between_hunks_is_exact_and_repeatable() {
    let hunks = vec![hunk(10, 5, 10, 5), hunk(30, 3, 30, 3)];
    let gap = calculate_gap(&hunks, GapBoundary::BeforeHunk(1), 100, 100).unwrap();
    assert_eq!(gap.old_start, 15);
    assert_eq!(gap.new_start, 15);
    assert_eq!(gap.size, 15);
    let file: Vec<String> = (1..=40).map(|n| format!("line {}", n)).collect();
    let first = fetch_context_lines(&file, gap.old_start, gap.size);
    let second = fetch_context_lines(&file, gap.old_start, gap.size);
    assert_eq!(first, second);
    assert_eq!(first.len(), 15);
    assert_eq!(first[0], "line 15");
    assert_eq!(first[14], "line 29");
}

#[test]
fn gap_at_file_start_and_end() {
    let hunks = vec![hunk(10, 5, 12, 5)];
    assert!(matches!(
        calculate_gap(&hunks, GapBoundary::BeforeHunk(0), 20, 22),
        Err(TuicrError::GapIntegrity)
    ));
    let hunks = vec![hunk(10, 5, 10, 7)];
    let start = calculate_gap(&hunks, GapBoundary::BeforeHunk(0), 20, 22).unwrap();
    assert_eq!((start.old_start, start.size), (1, 9));
    let end = calculate_gap(&hunks, GapBoundary::FileEnd, 20, 22).unwrap();
    assert_eq!((end.old_start, end.new_start, end.size), (15, 17, 6));
    let added = vec![hunk(0, 0, 1, 4)];
    let end = calculate_gap(&added, GapBoundary::FileEnd, 0, 4).unwrap();
    assert_eq!(end.size, 0);
}

#[test]
fn overlapping_hunks_give_integrity_error() {
    let hunks = vec![hunk(10, 5, 10, 5), hunk(12, 3, 20, 3)];
    assert!(matches!(
        calculate_gap(&hunks, GapBoundary::BeforeHunk(1), 100, 100),
        Err(TuicrError::GapIntegrity)
    ));
    let both = vec![hunk(10, 5, 10, 5), hunk(12, 3, 12, 3)];
    assert!(matches!(
        calculate_gap(&both, GapBoundary::BeforeHunk(1), 100, 100),
        Err(TuicrError::GapIntegrity)
    ));
    let adjacent = vec![hunk(10, 5, 10, 5), hunk(15, 3, 15, 3)];
    let gap = calculate_gap(&adjacent, GapBoundary::BeforeHunk(1), 100, 100).unwrap();
    assert_eq!(gap.size, 0);
}

#[test]
fn fetch_context_lines_stops_at_file_end() {
    let file: Vec<String> = (1..=5).map(|n| format!("{}", n)).collect();
    assert_eq!(fetch_context_lines(&file, 4, 10), vec!["4", "5"]);
    assert!(fetch_context_lines(&file, 9, 2).is_empty());
}

#[test]
fn create_rejects_inverted_range_and_accepts_single_line() {
    let mut store = CommentStore::new();
    let bad = store.create(
        "a.rs".to_string(),
        Side::New,
        Some(LineRange { start: 5, end: 3 }),
        CommentType::Note,
        "x".to_string(),
    );
    assert!(matches!(bad, Err(TuicrError::InvalidRange)));
    assert!(store.anchors().is_empty());
    let zero = store.create(
        "a.rs".to_string(),
        Side::New,
        Some(LineRange { start: 0, end: 3 }),
        CommentType::Note,
        "x".to_string(),
    );
    assert!(matches!(zero, Err(TuicrError::InvalidRange)));
    let id = store
        .create(
            "a.rs".to_string(),
            Side::New,
            Some(LineRange { start: 3, end: 3 }),
            CommentType::Issue,
            "single".to_string(),
        )
        .unwrap();
    let files = vec![file_with_lines("a.rs", &[2, 3, 4])];
    match store.resolve(id, &files) {
        Some(Resolution::Lines(locs)) => {
            assert_eq!(locs.len(), 1);
            assert_eq!((locs[0].file, locs[0].hunk, locs[0].line), (0, 0, 1));
        }
        other => panic!("unexpected {:?}", other),
    }
}

#[test]
fn removed_file_leaves_anchor_unresolved_and_kept() {
    let mut store = CommentStore::new();
    let a = store
        .create("a.rs".to_string(), Side::New, Some(LineRange { start: 2, end: 3 }), CommentType::Note, "a".to_string())
        .unwrap();
    let b = store
        .create("b.rs".to_string(), Side::Old, Some(LineRange { start: 7, end: 7 }), CommentType::Praise, "b".to_string())
        .unwrap();
    let f = store.create("b.rs".to_string(), Side::New, None, CommentType::Suggestion, "f".to_string()).unwrap();
    let before = vec![file_with_lines("a.rs", &[1, 2, 3]), file_with_lines("b.rs", &[7])];
    assert!(matches!(store.resolve(a, &before), Some(Resolution::Lines(_))));
    let after = vec![file_with_lines("b.rs", &[7])];
    assert!(matches!(store.resolve(a, &after), Some(Resolution::Unresolved)));
    assert_eq!(store.anchors().len(), 3);
    assert_eq!(store.anchors()[0].id, a);
    match store.resolve(b, &after) {
        Some(Resolution::Lines(locs)) => assert_eq!((locs[0].file, locs[0].line), (0, 0)),
        other => panic!("unexpected {:?}", other),
    }
    assert!(matches!(store.resolve(f, &after), Some(Resolution::File(0))));
    assert!(store.resolve(999, &after).is_none());
}

#[test]
fn resolve_needs_every_line_of_the_range() {
    let mut store = CommentStore::new();
    let id = store
        .create("a.rs".to_string(), Side::New, Some(LineRange { start: 2, end: 5 }), CommentType::Note, "a".to_string())
        .unwrap();
    let files = vec![file_with_lines("a.rs", &[1, 2, 3])];
    assert!(matches!(store.resolve(id, &files), Some(Resolution::Unresolved)));
    let a = &store.anchors()[0];
    assert!(matches!(resolve_anchor(a, &files), Resolution::Unresolved));
}

#[test]
fn edit_and_delete_keep_identity() {
    let mut store = CommentStore::new();
    let a = store.create("a.rs".to_string(), Side::New, None, CommentType::Note, "one".to_string()).unwrap();
    let b = store.create("b.rs".to_string(), Side::New, None, CommentType::Note, "two".to_string()).unwrap();
    assert!(store.edit(a, "changed".to_string()));
    assert_eq!(store.anchors()[0].id, a);
    assert_eq!(store.anchors()[0].content, "changed");
    assert_eq!(store.anchors()[1].content, "two");
    assert!(!store.edit(42, "x".to_string()));
    assert!(store.delete(a));
    assert!(!store.delete(a));
    assert_eq!(store.anchors().len(), 1);
    assert_eq!(store.anchors()[0].id, b);
}

#[test]
fn highlighted_spans_cover_their_line() {
    let lines = vec!["let x = 1;".to_string(), "".to_string()];
    let tokens = vec![vec![span("let"), span(" x"), span(" = 1;")], vec![]];
    assert!(tokens_cover(&lines, &Some(tokens.clone())));
    assert_eq!(spans_joined(&tokens[0]), "let x = 1;");
    assert!(checked_highlights(&lines, Some(tokens)).is_some());
    let lossy = vec![vec![span("let"), span(" = 1;")], vec![]];
    assert!(checked_highlights(&lines, Some(lossy)).is_none());
    assert!(checked_highlights(&lines, None).is_none());
    let short = vec![vec![span("let x = 1;")]];
    assert!(checked_highlights(&lines, Some(short)).is_none());
}

#[test]
fn diff_background_changes_only_background() {
    let h = highlighter();
    let spans = vec![span("a"), Span { style: Style::new().bold(), text: "b".to_string() }];
    let added = h.apply_diff_background(&spans, LineOrigin::Addition);
    assert_eq!(added.len(), 2);
    assert_eq!(added[0].text, "a");
    assert_eq!(added[0].style, Style::new().fg(Color::Rgb(1, 2, 3)).bg(Color::Rgb(0, 35, 12)));
    assert_eq!(added[1].style, Style::new().bold().bg(Color::Rgb(0, 35, 12)));
    let deleted = h.apply_diff_background(&spans, LineOrigin::Deletion);
    assert_eq!(deleted[1].style.bg, Some(Color::Rgb(45, 0, 0)));
    let context = h.apply_diff_background(&spans, LineOrigin::Context);
    assert_eq!(context[0].style, spans[0].style);
    assert_eq!(context[1].style, spans[1].style);
    assert_eq!(context[1].text, "b");
}

#[test]
fn parse_hunk_attaches_backgrounds_to_fitting_tokens() {
    let raw = sample_hunk();
    let tokens = Some(vec![
        vec![span("fn main() {")],
        vec![span("    "), span("old();")],
        vec![span("    new();")],
        vec![span("}")],
    ]);
    let h = parse_hunk(&raw, &tokens, &highlighter()).unwrap();
    let del = h.lines[1].highlighted_spans.as_ref().unwrap();
    assert_eq!(del.len(), 2);
    assert_eq!(del[0].style.bg, Some(Color::Rgb(45, 0, 0)));
    let ctx = h.lines[0].highlighted_spans.as_ref().unwrap();
    assert_eq!(ctx[0].style.bg, None);
    let h = parse_hunk(&raw, &Some(vec![vec![span("fn main() {")]]), &highlighter()).unwrap();
    assert!(h.lines.iter().all(|l| l.highlighted_spans.is_none()));
}

#[test]
fn styles_are_exact() {
    assert_eq!(header_style(), Style::new().fg(Color::White).bold());
    assert_eq!(border_style(false).fg, Some(Color::DarkGray));
    assert_eq!(file_status_style('R').fg, Some(Color::Magenta));
    assert_eq!(file_status_style('?').fg, Some(Color::Gray));
    assert_eq!(comment_type_style(CommentType::Issue), Style::new().fg(Color::Red).bold());
}

#[test]
fn commit_range_picks_oldest_and_newest() {
    assert!(matches!(commit_range_ends(&Vec::new()), Err(TuicrError::NoChanges)));
    let ids = vec!["aaa".to_string(), "bbb".to_string(), "ccc".to_string()];
    assert_eq!(commit_range_ends(&ids).unwrap(), ("aaa".to_string(), "ccc".to_string()));
    let one = vec!["abc".to_string()];
    assert_eq!(commit_range_ends(&one).unwrap(), ("abc".to_string(), "abc".to_string()));
}

#[test]
fn syntect_highlighting_covers_each_line() {
    let h = highlighter();
    let lines = vec!["fn main() {".to_string(), "    let x = \"hi\";".to_string(), "}".to_string()];
    let spans = h.highlight_file_lines("src/main.rs", &lines).unwrap();
    assert_eq!(spans.len(), 3);
    for (line, s) in lines.iter().zip(spans.iter()) {
        assert_eq!(&spans_joined(s), line);
    }
    assert!(spans[0].len() > 1);
    assert!(spans[0].iter().all(|s| matches!(s.style.fg, Some(Color::Rgb(_, _, _)))));
    let make = h.highlight_file_lines("Makefile", &vec!["all:".to_string()]);
    assert!(make.is_some());
    assert!(h.highlight_file_lines("notes.zzqq", &lines).is_none());
    assert_eq!(h.get_syntax("src/main.rs").as_deref(), Some("Rust"));
    assert_eq!(h.get_syntax("Makefile").as_deref(), Some("Makefile"));
    assert_eq!(h.get_syntax("dir/notes.zzqq"), None);
}

#[test]
fn parse_diff_highlights_by_file_name() {
    let files = parse_diff(&vec![delta("lib.rs", vec![sample_hunk()])], &highlighter()).unwrap();
    let lines = &files[0].hunks[0].lines;
    assert!(lines.iter().all(|l| l.highlighted_spans.is_some()));
    let added = lines[2].highlighted_spans.as_ref().unwrap();
    assert!(added.iter().all(|s| s.style.bg == Some(Color::Rgb(0, 35, 12))));
    assert_eq!(spans_joined(added), "    new();");
    let plain = parse_diff(&vec![delta("notes.zzqq", vec![sample_hunk()])], &highlighter()).unwrap();
    assert!(plain[0].hunks[0].lines.iter().all(|l| l.highlighted_spans.is_none()));
}

#[test]
fn token_font_bits_become_modifiers() {
    let spans = spans_of_tokens(&vec![(1, 2, 3, 5, "ab".to_string()), (0, 0, 0, 2, "c".to_string())]);
    assert_eq!(spans[0].style, Style::new().fg(Color::Rgb(1, 2, 3)).bold().italic());
    assert_eq!(spans[1].style, Style::new().fg(Color::Rgb(0, 0, 0)).underlined());
    assert_eq!(spans[0].text, "ab");
}

#[test]
fn comment_buffer_splits_into_lines_with_cursor() {
    let text = "ab\n\ncd";
    let rows = line_ranges(text.as_bytes());
    assert_eq!(rows, vec![(0, 2), (3, 3), (4, 6)]);
    assert_eq!(line_ranges(b""), vec![(0, 0)]);
    assert_eq!(line_ranges(b"x\n"), vec![(0, 1), (2, 2)]);
    assert_eq!(cursor_column(0, 2, false, 1, 6), Some(1));
    assert_eq!(cursor_column(0, 2, false, 2, 6), Some(2));
    assert_eq!(cursor_column(3, 3, false, 2, 6), None);
    assert_eq!(cursor_column(4, 6, true, 6, 6), Some(2));
    assert_eq!(cursor_column(4, 6, true, 9, 6), None);
    assert_eq!(cursor_column(4, 6, false, 9, 6), None);
}

#[test]
fn gap_cache_returns_first_expansion() {
    let hunks = vec![hunk(10, 5, 10, 5), hunk(30, 3, 30, 3)];
    let gap = calculate_gap(&hunks, GapBoundary::BeforeHunk(1), 100, 100).unwrap();
    let file: Vec<String> = (1..=40).map(|n| format!("line {}", n)).collect();
    let mut cache = GapCache::new();
    let path = "a.rs".to_string();
    let first = cache.expand(&path, &gap, Side::New, &file);
    assert_eq!(first.len(), 15);
    assert_eq!(first[0], "line 15");
    let changed: Vec<String> = (1..=40).map(|n| format!("other {}", n)).collect();
    let second = cache.expand(&path, &gap, Side::New, &changed);
    assert_eq!(first, second);
    let other = cache.expand(&"b.rs".to_string(), &gap, Side::Old, &changed);
    assert_eq!(other[0], "other 15");
}

#[test]
fn hunk_header_is_trimmed_of_unicode_space() {
    let mut raw = sample_hunk();
    raw.header = "\u{3000} @@ -1,3 +1,3 @@\t\r\n".as_bytes().to_vec();
    let h = parse_hunk(&raw, &None, &highlighter()).unwrap();
    assert_eq!(h.header, "@@ -1,3 +1,3 @@");
}

#[test]
fn each_hunk_gets_its_part_of_the_file_highlighting() {
    let mut second = sample_hunk();
    second.old_start = 20;
    second.new_start = 20;
    for (k, l) in second.lines.iter_mut().enumerate() {
        l.old_lineno = l.old_lineno.map(|_| [20, 21, 0, 22][k]);
        l.new_lineno = l.new_lineno.map(|_| [20, 0, 21, 22][k]);
    }
    let files = parse_diff(&vec![delta("lib.rs", vec![sample_hunk(), second])], &highlighter()).unwrap();
    assert_eq!(files[0].hunks.len(), 2);
    for h in &files[0].hunks {
        for l in &h.lines {
            assert_eq!(spans_joined(l.highlighted_spans.as_ref().unwrap()), l.content);
        }
    }
    assert_eq!(files[0].hunks[1].lines[1].old_lineno, Some(21));
}
