//! Comment overlay copy and labels.
//!
//! The edit buffer itself is a text-area widget driven by the binary.

use vstd::prelude::*;

use crate::comments::reference::line_span_spec;
use crate::text::{byte_cut, byte_cut_str, cut_on_boundary};
use crate::comments::store::{CommentKey, KeyView};
use crate::text::{push_decimal, push_str};

verus! {

/// First footer row: save / delete / Ctrl-R resolve or unresolve / cancel.
pub open spec fn footer_save_spec(resolved: bool) -> Seq<char> {
    "Enter save \u{b7} empty deletes \u{b7} "@ + (if resolved { "Ctrl-R unresolve"@ } else { "Ctrl-R resolve"@ })
        + " \u{b7} Esc cancel"@
}

/// First footer row: save / delete / Ctrl-R resolve or unresolve / cancel.
pub fn comment_overlay_footer_save(resolved: bool) -> (r: String)
    ensures
        r@ == footer_save_spec(resolved),
{
    let hint = if resolved {
        "Ctrl-R unresolve"
    } else {
        "Ctrl-R resolve"
    };
    let mut s = crate::text::owned("Enter save \u{b7} empty deletes \u{b7} ");
    push_str(&mut s, hint);
    push_str(&mut s, " \u{b7} Esc cancel");
    s
}

/// Second footer row: advertised text-area keys.
pub const COMMENT_OVERLAY_FOOTER_EDIT: &'static str =
    "Shift+Enter newline \u{b7} Ctrl-A/E line \u{b7} Ctrl-Left/Right word";

/// Border (2) + title + target + two footer rows. Body lines add to this.
pub const COMMENT_OVERLAY_CHROME_ROWS: u16 = 6;

/// Visible body lines inside the box. Extra lines scroll around the caret.
pub const COMMENT_OVERLAY_MAX_BODY_LINES: usize = 8;

/// One painted body row. `caret` is a scalar index when this row holds the caret.
#[derive(Clone, Debug, PartialEq, Eq)]
pub struct CommentBodyLine {
    /// Line text without the caret glyph.
    pub text: String,
    /// Caret column, when this is the focused line.
    pub caret: Option<usize>,
}

/// Overlay that shows exported markdown after copy.
#[derive(Clone, Debug, PartialEq, Eq)]
pub struct CommentExport {
    /// Markdown copied to the clipboard.
    pub markdown: String,
}

/// First seven bytes of a SHA (all of it when shorter).
pub open spec fn short7(sha: Seq<char>) -> Seq<char> {
    byte_cut(sha, 7)
}

/// Overlay / export label of a key.
pub open spec fn key_label_spec(key: KeyView) -> Seq<char> {
    match key {
        KeyView::Branch { repo, branch } => repo + " \u{b7} branch "@ + branch,
        KeyView::Commit { repo, sha } => repo + " \u{b7} commit "@ + short7(sha),
        KeyView::Worktree { path } => path + " \u{b7} worktree"@,
        KeyView::WorktreeLine { repo, branch, path, line, end_line } => repo + " \u{b7} branch "@ + branch
            + " \u{b7} "@ + path + ":"@ + line_span_spec(line, end_line),
        KeyView::CommitLine { repo, sha, path, line, end_line } => repo + " \u{b7} commit "@ + short7(sha)
            + " \u{b7} "@ + path + ":"@ + line_span_spec(line, end_line),
    }
}

/// The seven-byte cut of a commit key's SHA falls on a char boundary.
pub open spec fn key_shas_cut_ok(key: KeyView) -> bool {
    match key {
        KeyView::Commit { sha, .. } => cut_on_boundary(sha, 7),
        KeyView::CommitLine { sha, .. } => cut_on_boundary(sha, 7),
        _ => true,
    }
}

pub(crate) fn push_short7(out: &mut String, sha: &str)
    requires
        cut_on_boundary(sha@, 7),
    ensures
        final(out)@ == old(out)@ + short7(sha@),
{
    let head = byte_cut_str(sha, 7);
    crate::text::push_str(out, head.as_str());
}

fn push_span(out: &mut String, line: u32, end_line: u32)
    ensures
        final(out)@ == old(out)@ + line_span_spec(line, end_line),
{
    push_decimal(out, line as u64);
    if end_line != line {
        push_str(out, "-");
        push_decimal(out, end_line as u64);
    }
    assert(final(out)@ =~= old(out)@ + line_span_spec(line, end_line));
}

/// Overlay / export label for a key.
pub fn comment_key_label(key: &CommentKey) -> (r: String)
    requires
        key_shas_cut_ok(key@),
    ensures
        r@ == key_label_spec(key@),
{
    let mut s = String::new();
    match key {
        CommentKey::Branch { repo, branch } => {
            push_str(&mut s, repo.as_str());
            push_str(&mut s, " \u{b7} branch ");
            push_str(&mut s, branch.as_str());
        },
        CommentKey::Commit { repo, sha } => {
            push_str(&mut s, repo.as_str());
            push_str(&mut s, " \u{b7} commit ");
            push_short7(&mut s, sha.as_str());
        },
        CommentKey::Worktree { path } => {
            push_str(&mut s, path.as_str());
            push_str(&mut s, " \u{b7} worktree");
        },
        CommentKey::WorktreeLine { repo, branch, path, line, end_line } => {
            push_str(&mut s, repo.as_str());
            push_str(&mut s, " \u{b7} branch ");
            push_str(&mut s, branch.as_str());
            push_str(&mut s, " \u{b7} ");
            push_str(&mut s, path.as_str());
            push_str(&mut s, ":");
            push_span(&mut s, *line, *end_line);
        },
        CommentKey::CommitLine { repo, sha, path, line, end_line } => {
            push_str(&mut s, repo.as_str());
            push_str(&mut s, " \u{b7} commit ");
            push_short7(&mut s, sha.as_str());
            push_str(&mut s, " \u{b7} ");
            push_str(&mut s, path.as_str());
            push_str(&mut s, ":");
            push_span(&mut s, *line, *end_line);
        },
    }
    assert(s@ =~= key_label_spec(key@));
    s
}

/// Rows `[start, end)` of a `line_count`-line body shown in a `window`-row box
/// around `cursor_row`.
pub open spec fn body_window_spec(cursor_row: int, line_count: int, window: int) -> (int, int) {
    let n = if line_count < 1 { 1 } else { line_count };
    let w = if window < 1 { 1 } else if window > n { n } else { window };
    if n <= w {
        (0, n)
    } else {
        let s0 = if cursor_row > w / 2 { cursor_row - w / 2 } else { 0 };
        let start = if s0 + w > n { n - w } else { s0 };
        (start, start + w)
    }
}

/// Rows of the body shown in the box: centred on the caret row, clamped.
pub fn visible_window(cursor_row: usize, line_count: usize, window: usize) -> (r: (usize, usize))
    ensures
        r.0 == body_window_spec(cursor_row as int, line_count as int, window as int).0,
        r.1 == body_window_spec(cursor_row as int, line_count as int, window as int).1,
{
    let n = if line_count < 1 { 1 } else { line_count };
    let w = if window < 1 { 1 } else if window > n { n } else { window };
    if n <= w {
        return (0, n);
    }
    let mut start = cursor_row.saturating_sub(w / 2);
    if start > n - w {
        start = n - w;
    }
    (start, start + w)
}

} // verus!
