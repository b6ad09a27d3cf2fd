use vstd::prelude::*;

use crate::anchor::CommentType;
use crate::style::{Color, Style};

verus! {

/// Bold white: headers.
pub fn header_style() -> (r: Style)
    ensures
        r == Style::plain().with_fg(Color::White).with_bold(),
{
    Style::new().fg(Color::White).bold()
}

/// The highlighted row.
pub fn selected_style() -> (r: Style)
    ensures
        r == Style::plain().with_bg(Color::Rgb(50, 50, 50)).with_fg(Color::White),
{
    Style::new().bg(Color::Rgb(50, 50, 50)).fg(Color::White)
}

/// Text of low importance.
pub fn dim_style() -> (r: Style)
    ensures
        r == Style::plain().with_fg(Color::DarkGray),
{
    Style::new().fg(Color::DarkGray)
}

/// An added line without syntax highlighting.
pub fn diff_add_style() -> (r: Style)
    ensures
        r == Style::plain().with_fg(Color::Green).with_bg(Color::Rgb(0, 40, 0)),
{
    Style::new().fg(Color::Green).bg(Color::Rgb(0, 40, 0))
}

/// A deleted line without syntax highlighting.
pub fn diff_del_style() -> (r: Style)
    ensures
        r == Style::plain().with_fg(Color::Red).with_bg(Color::Rgb(40, 0, 0)),
{
    Style::new().fg(Color::Red).bg(Color::Rgb(40, 0, 0))
}

/// A context line without syntax highlighting.
pub fn diff_context_style() -> (r: Style)
    ensures
        r == Style::plain().with_fg(Color::Gray),
{
    Style::new().fg(Color::Gray)
}

/// A line of an expanded context gap.
pub fn expanded_context_style() -> (r: Style)
    ensures
        r == Style::plain().with_fg(Color::Rgb(90, 90, 90)),
{
    Style::new().fg(Color::Rgb(90, 90, 90))
}

/// A hunk header.
pub fn diff_hunk_header_style() -> (r: Style)
    ensures
        r == Style::plain().with_fg(Color::Cyan).with_bold(),
{
    Style::new().fg(Color::Cyan).bold()
}

/// A file header.
pub fn file_header_style() -> (r: Style)
    ensures
        r == Style::plain().with_fg(Color::White).with_bold(),
{
    Style::new().fg(Color::White).bold()
}

/// A file marked as done.
pub fn reviewed_style() -> (r: Style)
    ensures
        r == Style::plain().with_fg(Color::Green),
{
    Style::new().fg(Color::Green)
}

/// A file not marked as done yet.
pub fn pending_style() -> (r: Style)
    ensures
        r == Style::plain().with_fg(Color::Yellow),
{
    Style::new().fg(Color::Yellow)
}

/// A panel's border: cyan when focused, dark gray otherwise.
pub fn border_style(focused: bool) -> (r: Style)
    ensures
        r == Style::plain().with_fg(if focused { Color::Cyan } else { Color::DarkGray }),
{
    if focused {
        Style::new().fg(Color::Cyan)
    } else {
        Style::new().fg(Color::DarkGray)
    }
}

/// The status bar.
pub fn status_bar_style() -> (r: Style)
    ensures
        r == Style::plain().with_bg(Color::Rgb(40, 40, 40)).with_fg(Color::White),
{
    Style::new().bg(Color::Rgb(40, 40, 40)).fg(Color::White)
}

/// The mode indicator.
pub fn mode_style() -> (r: Style)
    ensures
        r == Style::plain().with_fg(Color::Black).with_bg(Color::Cyan).with_bold(),
{
    Style::new().fg(Color::Black).bg(Color::Cyan).bold()
}

/// The color of a file status letter.
pub open spec fn status_color(status: char) -> Color {
    if status == 'A' {
        Color::Green
    } else if status == 'M' {
        Color::Yellow
    } else if status == 'D' {
        Color::Red
    } else if status == 'R' {
        Color::Magenta
    } else {
        Color::Gray
    }
}

/// A file status letter: added, modified, deleted, renamed, or another.
pub fn file_status_style(status: char) -> (r: Style)
    ensures
        r == Style::plain().with_fg(status_color(status)),
{
    let color = if status == 'A' {
        Color::Green
    } else if status == 'M' {
        Color::Yellow
    } else if status == 'D' {
        Color::Red
    } else if status == 'R' {
        Color::Magenta
    } else {
        Color::Gray
    };
    Style::new().fg(color)
}

/// The marker of the current line.
pub fn current_line_indicator_style() -> (r: Style)
    ensures
        r == Style::plain().with_fg(Color::Cyan),
{
    Style::new().fg(Color::Cyan)
}

/// A commit hash.
pub fn hash_style() -> (r: Style)
    ensures
        r == Style::plain().with_fg(Color::Yellow),
{
    Style::new().fg(Color::Yellow)
}

/// A directory icon.
pub fn dir_icon_style() -> (r: Style)
    ensures
        r == Style::plain().with_fg(Color::Cyan),
{
    Style::new().fg(Color::Cyan)
}

/// The color of a comment kind.
pub open spec fn comment_color(kind: CommentType) -> Color {
    match kind {
        CommentType::Note => Color::Blue,
        CommentType::Suggestion => Color::Cyan,
        CommentType::Issue => Color::Red,
        CommentType::Praise => Color::Green,
    }
}

/// The label of a comment kind: bold, in the kind's color.
pub fn comment_type_style(kind: CommentType) -> (r: Style)
    ensures
        r == Style::plain().with_fg(comment_color(kind)).with_bold(),
{
    let color = match kind {
        CommentType::Note => Color::Blue,
        CommentType::Suggestion => Color::Cyan,
        CommentType::Issue => Color::Red,
        CommentType::Praise => Color::Green,
    };
    Style::new().fg(color).bold()
}

/// The border of a comment box, in the kind's color.
pub fn comment_border_color(kind: CommentType) -> (r: Style)
    ensures
        r == Style::plain().with_fg(comment_color(kind)),
{
    let color = match kind {
        CommentType::Note => Color::Blue,
        CommentType::Suggestion => Color::Cyan,
        CommentType::Issue => Color::Red,
        CommentType::Praise => Color::Green,
    };
    Style::new().fg(color)
}

/// The cursor in a text input.
pub fn cursor_style() -> (r: Style)
    ensures
        r == (Style { underlined: true, ..Style::plain().with_fg(Color::Yellow) }),
{
    Style::new().fg(Color::Yellow).underlined()
}

} // verus!
