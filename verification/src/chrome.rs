//! Bottom chrome: hint chips, breadcrumb, and the row budget below the panes.
//!
//! Painting spans with colours is the binary's job; this module decides
//! what the rows hold and how many there are.

use vstd::prelude::*;

use crate::comments::overlay::{push_short7, short7};
use crate::ctrl_c_exit::{is_ctrl_c_exit_prompt, CTRL_C_EXIT_PROMPT};
use crate::commit_files::CommitFileRowKind;
use crate::drill::{CommitFileSource, DrillView};
use crate::graph_load::GraphRow;
use crate::help::{help_status_lines, help_table, idle_footer_spec, overlay_height_spec};
use crate::icons::{display_width, truncate_spec, truncate_visible, unicode_str_width};
use crate::path::{base_name, base_name_spec, path_file_name, path_file_name_spec};
use crate::text::{
    char_utf8_len, cut_on_boundary, lemma_utf8_len_nonneg, utf8_len,
    ascii_lower, contains_chars, has_substr, lower_str_chars, push_str, str_chars, string_views,
    trim, trim_str, str_eq,
};

verus! {

/// Columns between a hint chip and its label.
pub const HINT_CHIP_GAP: usize = 2;

/// Gap rendered between two hints.
pub const HINT_SEPARATOR: &'static str = "  ";

/// Marker appended when hints were dropped to fit the terminal width.
pub const HINT_ELLIPSIS: &'static str = "\u{2026}";

/// Status-bar copy while `/` search is in typing mode.
pub const SEARCH_TYPING_HINT: &'static str = "Enter arms query \u{b7} Esc clears \u{b7} n/N after Enter";

/// Status-bar copy while EasyMotion waits for a label.
pub const EASY_MOTION_HINT: &'static str = "type label \u{b7} Esc cancels";

/// Separator between breadcrumb segments.
pub const BREADCRUMB_SEP: &'static str = " \u{203a} ";

/// Which pane has keyboard focus.
#[derive(Clone, Copy, Debug, PartialEq, Eq)]
pub enum FocusPane {
    Left,
    Right,
}

/// One rendered action hint: key chip text and description label.
#[derive(Clone, Debug, PartialEq, Eq)]
pub struct HintSegment {
    pub key: String,
    pub label: String,
    pub destructive: bool,
}

/// Row kind that selects the hint list.
#[derive(Clone, Copy, Debug, PartialEq, Eq)]
pub enum HintRowKind {
    Workspace,
    Repo,
    Checkout,
    Group,
    Dir,
    File,
    GraphCommit,
    GraphStash,
    GraphUncommitted,
}

/// A hint as plain values: `(key, label, destructive)`.
pub open spec fn hint_view(h: HintSegment) -> (Seq<char>, Seq<char>, bool) {
    (h.key@, h.label@, h.destructive)
}

/// Views of a list of hints.
pub open spec fn hint_views(hs: Seq<HintSegment>) -> Seq<(Seq<char>, Seq<char>, bool)> {
    hs.map_values(|h: HintSegment| hint_view(h))
}

/// Chip text alone, or chip, gap, and label.
pub open spec fn hint_plain_spec(h: (Seq<char>, Seq<char>, bool)) -> Seq<char> {
    if h.1.len() == 0 {
        h.0
    } else {
        h.0 + "  "@ + h.1
    }
}

/// Plain-text join of chip key + gap + label (tests / width math).
pub fn format_hint_plain(segment: &HintSegment) -> (r: String)
    ensures
        r@ == hint_plain_spec(hint_view(*segment)),
{
    if segment.label.as_str().is_empty() {
        return segment.key.clone();
    }
    let mut s = segment.key.clone();
    push_str(&mut s, "  ");
    push_str(&mut s, segment.label.as_str());
    s
}

/// Columns one chip paints: ` key ` plus, with a label, the gap and label.
pub open spec fn hint_cols(h: (Seq<char>, Seq<char>, bool)) -> int {
    if h.1.len() == 0 {
        h.0.len() + 2int
    } else {
        h.0.len() + 2int + HINT_CHIP_GAP + h.1.len()
    }
}

/// Sum of the chips' columns.
pub open spec fn cols_sum(hs: Seq<(Seq<char>, Seq<char>, bool)>) -> int
    decreases hs.len(),
{
    if hs.len() == 0 {
        0
    } else {
        cols_sum(hs.drop_last()) + hint_cols(hs.last())
    }
}

/// Columns a row of chips takes, separators included.
pub open spec fn hints_width_spec(hs: Seq<(Seq<char>, Seq<char>, bool)>) -> int {
    cols_sum(hs) + (if hs.len() > 0 { hs.len() - 1 } else { 0 }) * 2
}

proof fn lemma_cols_sum_prefix(hs: Seq<(Seq<char>, Seq<char>, bool)>, n: int)
    requires
        0 <= n <= hs.len(),
    ensures
        0 <= cols_sum(hs.take(n)) <= cols_sum(hs),
    decreases hs.len(),
{
    if n < hs.len() {
        assert(hs.drop_last().take(n) =~= hs.take(n));
        lemma_cols_sum_prefix(hs.drop_last(), n);
    } else {
        assert(hs.take(n) =~= hs);
        lemma_cols_sum_nonneg(hs);
    }
}

proof fn lemma_cols_sum_nonneg(hs: Seq<(Seq<char>, Seq<char>, bool)>)
    ensures
        cols_sum(hs) >= 0,
    decreases hs.len(),
{
    if hs.len() > 0 {
        lemma_cols_sum_nonneg(hs.drop_last());
    }
}

/// Columns a row of chips takes, separators included.
pub fn hints_width(kept: &[HintSegment]) -> (w: usize)
    requires
        hints_width_spec(hint_views(kept@)) <= usize::MAX,
    ensures
        w == hints_width_spec(hint_views(kept@)),
{
    let ghost hv = hint_views(kept@);
    let mut cols: usize = 0;
    let mut i: usize = 0;
    proof {
        lemma_cols_sum_nonneg(hv);
    }
    assert(hv.take(0) =~= Seq::<(Seq<char>, Seq<char>, bool)>::empty());
    while i < kept.len()
        invariant
            i <= kept@.len(),
            hv == hint_views(kept@),
            cols == cols_sum(hv.take(i as int)),
            cols_sum(hv) + (if hv.len() > 0 { hv.len() - 1 } else { 0 }) * 2 <= usize::MAX,
            cols_sum(hv) >= 0,
        decreases kept@.len() - i,
    {
        proof {
            assert(hv.take(i + 1).drop_last() =~= hv.take(i as int));
            lemma_cols_sum_prefix(hv, i + 1);
        }
        let h = &kept[i];
        let kc = str_chars(h.key.as_str());
        let lc = str_chars(h.label.as_str());
        assert(hv[i as int] == hint_view(*h));
        if lc.len() == 0 {
            cols = cols + kc.len() + 2;
        } else {
            cols = cols + kc.len() + 2 + HINT_CHIP_GAP + lc.len();
        }
        i += 1;
    }
    assert(hv.take(i as int) =~= hv);
    let seps = if kept.len() > 0 { kept.len() - 1 } else { 0 };
    cols + seps * 2
}

/// Length of the longest prefix whose row fits in `avail` columns.
pub open spec fn fit_count(hs: Seq<(Seq<char>, Seq<char>, bool)>, avail: int, k: int) -> int
    decreases hs.len() - k,
{
    if k >= hs.len() {
        hs.len() as int
    } else if hints_width_spec(hs.take(k + 1)) > avail {
        k
    } else {
        fit_count(hs, avail, k + 1)
    }
}

/// The ellipsis chip.
pub open spec fn ellipsis_view() -> (Seq<char>, Seq<char>, bool) {
    (HINT_ELLIPSIS@, Seq::empty(), false)
}

/// Largest `j ≤ k` whose first `j` chips plus the ellipsis fit.
pub open spec fn trim_for_ellipsis(hs: Seq<(Seq<char>, Seq<char>, bool)>, avail: int, k: int) -> int
    decreases k,
{
    if k <= 0 {
        0
    } else if hints_width_spec(hs.take(k).push(ellipsis_view())) > avail {
        trim_for_ellipsis(hs, avail, k - 1)
    } else {
        k
    }
}

/// Longest prefix of `hs` that fits in `avail` columns; when some are cut,
/// a trailing `…` chip marks it (and chips give way so it fits).
pub open spec fn fit_spec(hs: Seq<(Seq<char>, Seq<char>, bool)>, avail: int) -> Seq<(Seq<char>, Seq<char>, bool)> {
    let k = fit_count(hs, avail, 0);
    if k == hs.len() {
        hs
    } else {
        let m = trim_for_ellipsis(hs, avail, k);
        if m == 0 {
            Seq::empty()
        } else {
            hs.take(m).push(ellipsis_view())
        }
    }
}

fn copy_hint(h: &HintSegment) -> (r: HintSegment)
    ensures
        hint_view(r) == hint_view(*h),
{
    HintSegment { key: h.key.clone(), label: h.label.clone(), destructive: h.destructive }
}

proof fn lemma_width_prefix_bound(hs: Seq<(Seq<char>, Seq<char>, bool)>, n: int)
    requires
        0 <= n <= hs.len(),
    ensures
        hints_width_spec(hs.take(n)) <= hints_width_spec(hs),
        hints_width_spec(hs.take(n)) >= 0,
{
    lemma_cols_sum_prefix(hs, n);
    lemma_cols_sum_nonneg(hs.take(n));
}

/// Longest prefix of `segments` that fits in `available` columns.
///
/// Over-long lists cut rather than wrap. A `…` chip marks truncation.
pub fn fit_hint_segments(segments: &[HintSegment], available: usize) -> (r: Vec<HintSegment>)
    requires
        hints_width_spec(hint_views(segments@)) + 8 <= usize::MAX,
    ensures
        hint_views(r@) == fit_spec(hint_views(segments@), available as int),
{
    let ghost hv = hint_views(segments@);
    let mut kept: Vec<HintSegment> = Vec::new();
    let mut k: usize = 0;
    assert(hint_views(kept@) =~= hv.take(0));
    while k < segments.len()
        invariant
            k <= segments@.len(),
            hv == hint_views(segments@),
            hints_width_spec(hv) + 8 <= usize::MAX,
            hint_views(kept@) == hv.take(k as int),
            fit_count(hv, available as int, 0) == fit_count(hv, available as int, k as int),
        ensures
            hint_views(kept@) == hv.take(k as int),
            k == fit_count(hv, available as int, 0),
        decreases segments@.len() - k,
    {
        let mut next: Vec<HintSegment> = Vec::new();
        let mut j: usize = 0;
        while j < kept.len()
            invariant
                j <= kept@.len(),
                hint_views(next@) == hint_views(kept@).take(j as int),
            decreases kept@.len() - j,
        {
            let c = copy_hint(&kept[j]);
            let ghost before = hint_views(next@);
            next.push(c);
            assert(hint_views(next@) =~= before.push(hint_view(kept@[j as int])));
            assert(hint_views(kept@).take(j + 1) =~= hint_views(kept@).take(j as int).push(hint_view(kept@[j as int])));
            j += 1;
        }
        assert(hint_views(kept@).take(j as int) =~= hint_views(kept@));
        let c = copy_hint(&segments[k]);
        let ghost before = hint_views(next@);
        next.push(c);
        assert(hint_views(next@) =~= before.push(hv[k as int]));
        assert(hv.take(k + 1) =~= hv.take(k as int).push(hv[k as int]));
        proof {
            lemma_width_prefix_bound(hv, k + 1);
        }
        if hints_width(next.as_slice()) > available {
            break;
        }
        let c2 = copy_hint(&segments[k]);
        let ghost before2 = hint_views(kept@);
        kept.push(c2);
        assert(hint_views(kept@) =~= before2.push(hv[k as int]));
        k += 1;
    }
    if kept.len() == segments.len() {
        assert(hv.take(k as int) =~= hv);
        return kept;
    }
    let ellipsis = HintSegment { key: crate::text::owned(HINT_ELLIPSIS), label: String::new(), destructive: false };
    assert(hint_view(ellipsis) == ellipsis_view());
    let mut m: usize = k;
    while m > 0
        invariant
            m <= k,
            k < segments@.len(),
            hv == hint_views(segments@),
            hints_width_spec(hv) + 8 <= usize::MAX,
            hint_view(ellipsis) == ellipsis_view(),
            hint_views(kept@) == hv.take(m as int),
            trim_for_ellipsis(hv, available as int, k as int) == trim_for_ellipsis(hv, available as int, m as int),
        ensures
            hint_views(kept@) == hv.take(m as int),
            m == trim_for_ellipsis(hv, available as int, k as int),
        decreases m,
    {
        let mut probe: Vec<HintSegment> = Vec::new();
        let mut j: usize = 0;
        while j < kept.len()
            invariant
                j <= kept@.len(),
                hint_views(probe@) == hint_views(kept@).take(j as int),
            decreases kept@.len() - j,
        {
            let c = copy_hint(&kept[j]);
            let ghost before = hint_views(probe@);
            probe.push(c);
            assert(hint_views(probe@) =~= before.push(hint_view(kept@[j as int])));
            assert(hint_views(kept@).take(j + 1) =~= hint_views(kept@).take(j as int).push(hint_view(kept@[j as int])));
            j += 1;
        }
        assert(hint_views(kept@).take(j as int) =~= hint_views(kept@));
        let ghost before = hint_views(probe@);
        probe.push(copy_hint(&ellipsis));
        assert(hint_views(probe@) =~= before.push(ellipsis_view()));
        proof {
            lemma_width_prefix_bound(hv, m as int);
            let t = hv.take(m as int);
            lemma_cols_sum_nonneg(t);
            assert(t.push(ellipsis_view()).drop_last() =~= t);
            reveal_strlit("\u{2026}");
            assert(hints_width_spec(t.push(ellipsis_view())) <= hints_width_spec(t) + 5);
        }
        if hints_width(probe.as_slice()) <= available {
            break;
        }
        kept.pop();
        assert(hint_views(kept@) =~= hv.take(m - 1));
        m -= 1;
    }
    if kept.len() == 0 {
        let empty: Vec<HintSegment> = Vec::new();
        assert(hint_views(empty@) =~= Seq::<(Seq<char>, Seq<char>, bool)>::empty());
        return empty;
    }
    let ghost before = hint_views(kept@);
    kept.push(ellipsis);
    assert(hint_views(kept@) =~= before.push(ellipsis_view()));
    kept
}


/// A hint built from its parts.
fn hint(key: &str, label: &str, destructive: bool) -> (r: HintSegment)
    ensures
        hint_view(r) == (key@, label@, destructive),
{
    HintSegment { key: crate::text::owned(key), label: crate::text::owned(label), destructive }
}

/// Enter / Esc chips for a drill depth and focused pane.
pub open spec fn nav_hints_spec(depth: u8, focus: FocusPane) -> Seq<(Seq<char>, Seq<char>, bool)> {
    match focus {
        FocusPane::Left => if depth > 0 {
            seq![("\u{23ce}"@, "focus right"@, false), ("Esc"@, "back"@, false)]
        } else {
            seq![("\u{23ce}"@, "focus right"@, false)]
        },
        FocusPane::Right => if depth < 2 {
            seq![("\u{23ce}"@, "drill"@, false), ("Esc"@, "back"@, false)]
        } else {
            seq![("Esc"@, "back"@, false)]
        },
    }
}

/// Enter/Esc chrome hints (not registry actions).
pub fn nav_chrome_hint_segments(depth: u8, focus: FocusPane) -> (r: Vec<HintSegment>)
    ensures
        hint_views(r@) == nav_hints_spec(depth, focus),
{
    let mut out: Vec<HintSegment> = Vec::new();
    match focus {
        FocusPane::Left => {
            out.push(hint("\u{23ce}", "focus right", false));
            if depth > 0 {
                out.push(hint("Esc", "back", false));
            }
        },
        FocusPane::Right => {
            if depth < 2 {
                out.push(hint("\u{23ce}", "drill", false));
            }
            out.push(hint("Esc", "back", false));
        },
    }
    assert(hint_views(out@) =~= nav_hints_spec(depth, focus));
    out
}

/// The chips that always trail the list.
pub open spec fn extra_hints_spec() -> Seq<(Seq<char>, Seq<char>, bool)> {
    seq![("Tab"@, "other pane"@, false), ("q"@, "quit"@, false)]
}

/// Extra chips. Appended after core hints so they truncate first.
pub fn extra_hint_segments() -> (r: Vec<HintSegment>)
    ensures
        hint_views(r@) == extra_hints_spec(),
{
    let out = vec![hint("Tab", "other pane", false), hint("q", "quit", false)];
    assert(hint_views(out@) =~= extra_hints_spec());
    out
}


/// Registry actions that can show a hint chip.
#[derive(Clone, Copy, Debug, PartialEq, Eq)]
pub enum HintActionId {
    Stage,
    Unstage,
    Revert,
    Fetch,
    Pull,
    Push,
    DefaultBranch,
    Branch,
    RemoveWorktree,
    Edit,
    ToggleViewed,
    FullFile,
    GraphCheckout,
    GraphCreateBranch,
    GraphMerge,
    StashMenu,
    StashApply,
    StashPop,
    StashDrop,
}

/// The registry, in hint order.
pub open spec fn hint_registry() -> Seq<HintActionId> {
    seq![
        HintActionId::Stage,
        HintActionId::Unstage,
        HintActionId::Revert,
        HintActionId::Fetch,
        HintActionId::Pull,
        HintActionId::Push,
        HintActionId::DefaultBranch,
        HintActionId::Branch,
        HintActionId::RemoveWorktree,
        HintActionId::Edit,
        HintActionId::ToggleViewed,
        HintActionId::FullFile,
        HintActionId::GraphCheckout,
        HintActionId::GraphCreateBranch,
        HintActionId::GraphMerge,
        HintActionId::StashMenu,
        HintActionId::StashApply,
        HintActionId::StashPop,
        HintActionId::StashDrop,
    ]
}

/// Chip text of an action.
pub open spec fn action_key_spec(id: HintActionId) -> Seq<char> {
    match id {
        HintActionId::Stage => "s"@,
        HintActionId::Unstage => "u"@,
        HintActionId::Revert => "x"@,
        HintActionId::Fetch => "f"@,
        HintActionId::Pull => "p"@,
        HintActionId::Push => "P"@,
        HintActionId::DefaultBranch => "d"@,
        HintActionId::Branch => "b"@,
        HintActionId::RemoveWorktree => "W"@,
        HintActionId::Edit => "e"@,
        HintActionId::ToggleViewed => "space"@,
        HintActionId::FullFile => "ctrl+o"@,
        HintActionId::GraphCheckout => "b"@,
        HintActionId::GraphCreateBranch => "c"@,
        HintActionId::GraphMerge => "m"@,
        HintActionId::StashMenu => "S"@,
        HintActionId::StashApply => "a"@,
        HintActionId::StashPop => "p"@,
        HintActionId::StashDrop => "D"@,
    }
}

/// Registry label of an action (the worktree label may get a suffix).
pub open spec fn action_label_spec(id: HintActionId) -> Seq<char> {
    match id {
        HintActionId::Stage => "stage"@,
        HintActionId::Unstage => "unstage"@,
        HintActionId::Revert => "revert"@,
        HintActionId::Fetch => "fetch"@,
        HintActionId::Pull => "pull"@,
        HintActionId::Push => "push"@,
        HintActionId::DefaultBranch => "default branch"@,
        HintActionId::Branch => "branch"@,
        HintActionId::RemoveWorktree => "remove worktree"@,
        HintActionId::Edit => "edit"@,
        HintActionId::ToggleViewed => "reviewed"@,
        HintActionId::FullFile => "full file"@,
        HintActionId::GraphCheckout => "checkout"@,
        HintActionId::GraphCreateBranch => "create branch"@,
        HintActionId::GraphMerge => "merge"@,
        HintActionId::StashMenu => "stash"@,
        HintActionId::StashApply => "apply stash"@,
        HintActionId::StashPop => "pop stash"@,
        HintActionId::StashDrop => "drop stash"@,
    }
}

/// Revert, worktree removal, and stash drop are painted as destructive.
pub open spec fn action_destructive_spec(id: HintActionId) -> bool {
    match id {
        HintActionId::Revert | HintActionId::RemoveWorktree | HintActionId::StashDrop => true,
        _ => false,
    }
}

/// Rows an action applies to.
pub open spec fn action_kind_ok(id: HintActionId, kind: HintRowKind) -> bool {
    match id {
        HintActionId::Stage | HintActionId::Unstage | HintActionId::Revert => match kind {
            HintRowKind::Repo | HintRowKind::Checkout | HintRowKind::Dir | HintRowKind::File => true,
            _ => false,
        },
        HintActionId::Fetch => match kind {
            HintRowKind::Workspace | HintRowKind::Repo | HintRowKind::Checkout | HintRowKind::Dir
            | HintRowKind::File => true,
            _ => false,
        },
        HintActionId::Pull | HintActionId::DefaultBranch => match kind {
            HintRowKind::Workspace | HintRowKind::Repo | HintRowKind::Checkout => true,
            _ => false,
        },
        HintActionId::Push | HintActionId::Branch | HintActionId::RemoveWorktree => match kind {
            HintRowKind::Repo | HintRowKind::Checkout => true,
            _ => false,
        },
        HintActionId::Edit | HintActionId::ToggleViewed | HintActionId::FullFile => kind is File,
        HintActionId::GraphCheckout | HintActionId::GraphCreateBranch | HintActionId::GraphMerge => kind is GraphCommit,
        HintActionId::StashMenu => match kind {
            HintRowKind::Workspace | HintRowKind::Group => false,
            _ => true,
        },
        HintActionId::StashApply | HintActionId::StashPop | HintActionId::StashDrop => kind is GraphStash,
    }
}

/// Drill depths an action is offered at.
pub open spec fn action_depth_ok(id: HintActionId, depth: u8) -> bool {
    match id {
        HintActionId::ToggleViewed => depth == 0,
        HintActionId::GraphCheckout | HintActionId::GraphCreateBranch | HintActionId::GraphMerge
        | HintActionId::StashApply | HintActionId::StashPop | HintActionId::StashDrop => depth <= 1,
        _ => true,
    }
}

/// The stash menu is offered only from the left pane.
pub open spec fn action_left_only(id: HintActionId) -> bool {
    id is StashMenu
}

/// Tree writes, hidden once drilled in or with the right pane focused.
pub open spec fn tree_write_blocked(id: HintActionId) -> bool {
    match id {
        HintActionId::Stage | HintActionId::Unstage | HintActionId::Revert | HintActionId::Fetch
        | HintActionId::Pull | HintActionId::Push | HintActionId::DefaultBranch | HintActionId::Branch
        | HintActionId::RemoveWorktree => true,
        _ => false,
    }
}

/// Graph rows (commit, stash, uncommitted).
pub open spec fn is_graph_kind(kind: HintRowKind) -> bool {
    match kind {
        HintRowKind::GraphCommit | HintRowKind::GraphStash | HintRowKind::GraphUncommitted => true,
        _ => false,
    }
}

/// What the hint bar reads of the focused row and its scope.
///
/// The binary fills it from the snapshot and the graph; each flag is the
/// answer to one question the registry asks.
#[derive(Clone, Copy, Debug, PartialEq, Eq)]
pub struct HintContext {
    /// Kind of the focused row.
    pub kind: HintRowKind,
    /// Drill depth: graph 0, commit files 1, commit diff 2.
    pub depth: u8,
    /// Focused pane.
    pub focus: FocusPane,
    /// Some file in the focused scope is unstaged or untracked.
    pub scope_has_unstaged: bool,
    /// Some file in the focused scope is staged.
    pub scope_has_staged: bool,
    /// Some file in the focused scope has any change.
    pub scope_has_changes: bool,
    /// Some pull target of the scope is behind its upstream.
    pub pull_behind: bool,
    /// The scope has something to push.
    pub push_ready: bool,
    /// Some repo of the scope sits off its default branch.
    pub off_default_branch: bool,
    /// The branch picker can open on the focused row.
    pub branch_picker_ok: bool,
    /// The focused row is a removable linked worktree.
    pub worktree_removable: bool,
    /// Merged state of the focused linked worktree (`None`: not linked, or unknown).
    pub worktree_merged: Option<bool>,
    /// The focused tree row is a file with a change.
    pub focused_file_changed: bool,
    /// The focused graph commit carries a branch that can be checked out.
    pub commit_checkoutable: bool,
    /// The focused graph row is a commit.
    pub focused_commit: bool,
    /// The focused graph row is a stash.
    pub focused_stash: bool,
    /// The stash menu would list at least one action.
    pub stash_ops_available: bool,
}

/// One checkout of the snapshot, in the fields the worktree gates read.
#[derive(Clone, Debug, PartialEq, Eq)]
pub struct SnapshotCheckout {
    pub repo: String,
    /// A linked worktree (not the primary checkout).
    pub linked: bool,
    /// Primary checkout of a linked worktree.
    pub primary_repo: Option<String>,
}

/// The focused tree row, in the fields the branch-picker and
/// remove-worktree gates read.
#[derive(Clone, Debug, PartialEq, Eq)]
pub struct FocusedRowFacts {
    pub kind: HintRowKind,
    /// Checkout the row belongs to.
    pub repo: Option<String>,
    /// Path of the checkout a checkout row stands for.
    pub checkout_path: Option<String>,
    /// The row folds a family of checkouts.
    pub is_family: bool,
}

/// `c` is a linked worktree whose primary is `primary`.
pub open spec fn linked_under(c: SnapshotCheckout, primary: Seq<char>) -> bool {
    c.linked && (c.primary_repo matches Some(p) && p@ == primary)
}

/// Some linked worktree of the snapshot has `primary` as its primary.
pub open spec fn family_container(snap: Seq<SnapshotCheckout>, primary: Seq<char>) -> bool {
    exists|k: int| 0 <= k < snap.len() && #[trigger] linked_under(snap[k], primary)
}

/// The focused row is a linked worktree with a primary: its repo or checkout
/// row, not a family row.
pub open spec fn worktree_removable_spec(snap: Seq<SnapshotCheckout>, row: FocusedRowFacts) -> bool {
    &&& (row.kind is Checkout || row.kind is Repo)
    &&& !row.is_family
    &&& row.repo matches Some(p) && exists|k: int| 0 <= k < snap.len() && #[trigger] linked_at(snap[k], p@)
}

/// `c` is the linked worktree at `path`, with a primary.
pub open spec fn linked_at(c: SnapshotCheckout, path: Seq<char>) -> bool {
    c.linked && c.repo@ == path && c.primary_repo is Some
}

/// Whether the focused row offers "remove worktree".
pub fn can_remove_worktree(snap: &[SnapshotCheckout], row: &FocusedRowFacts) -> (b: bool)
    ensures
        b == worktree_removable_spec(snap@, *row),
{
    match row.kind {
        HintRowKind::Checkout | HintRowKind::Repo => {},
        _ => return false,
    }
    if row.is_family {
        return false;
    }
    let path = match &row.repo {
        Some(p) => p,
        None => return false,
    };
    let mut k: usize = 0;
    while k < snap.len()
        invariant
            k <= snap@.len(),
            row.repo == Some(*path),
            row.kind is Checkout || row.kind is Repo,
            !row.is_family,
            forall|j: int|
                0 <= j < k ==> !(#[trigger] linked_at(snap@[j], path@)),
        decreases snap@.len() - k,
    {
        if snap[k].linked && str_eq(snap[k].repo.as_str(), path.as_str()) && snap[k].primary_repo.is_some() {
            assert(linked_at(snap@[k as int], path@));
            assert(exists|k2: int| 0 <= k2 < snap@.len() && #[trigger] linked_at(snap@[k2], path@));
            assert(row.repo matches Some(p) && p@ == path@);
            return true;
        }
        k += 1;
    }
    false
}

/// Whether `primary` is the primary of some linked worktree of the snapshot.
pub fn is_family_container(snap: &[SnapshotCheckout], primary: &str) -> (b: bool)
    ensures
        b == family_container(snap@, primary@),
{
    let mut k: usize = 0;
    while k < snap.len()
        invariant
            k <= snap@.len(),
            forall|j: int|
                0 <= j < k ==> !(#[trigger] linked_under(snap@[j], primary@)),
        decreases snap@.len() - k,
    {
        if snap[k].linked {
            if let Some(p) = &snap[k].primary_repo {
                if str_eq(p.as_str(), primary) {
                    assert(linked_under(snap@[k as int], primary@));
                    return true;
                }
            }
        }
        k += 1;
    }
    false
}

/// Graph-row gate of an action.
pub open spec fn graph_action_visible(ctx: HintContext, id: HintActionId) -> bool {
    match id {
        HintActionId::GraphCheckout => ctx.commit_checkoutable,
        HintActionId::GraphCreateBranch | HintActionId::GraphMerge => ctx.focused_commit,
        HintActionId::StashApply | HintActionId::StashPop | HintActionId::StashDrop => ctx.focused_stash,
        HintActionId::StashMenu => ctx.stash_ops_available,
        _ => true,
    }
}

/// Scope gate of an action.
pub open spec fn scope_action_visible(ctx: HintContext, id: HintActionId) -> bool {
    if is_graph_kind(ctx.kind) && !(id is StashMenu) {
        true
    } else {
        match id {
            HintActionId::Stage | HintActionId::Revert => ctx.scope_has_unstaged,
            HintActionId::Unstage => ctx.scope_has_staged,
            HintActionId::Pull => ctx.pull_behind,
            HintActionId::Push => ctx.push_ready,
            HintActionId::DefaultBranch => ctx.off_default_branch,
            HintActionId::Branch => ctx.branch_picker_ok,
            HintActionId::RemoveWorktree => ctx.worktree_removable,
            HintActionId::StashMenu => if ctx.depth >= 2 {
                false
            } else if ctx.depth >= 1 {
                true
            } else {
                ctx.scope_has_changes
            },
            HintActionId::ToggleViewed => ctx.depth == 0 && ctx.focused_file_changed,
            _ => true,
        }
    }
}

/// True when the action's chip shows for `ctx`.
pub open spec fn action_visible(ctx: HintContext, id: HintActionId) -> bool {
    &&& action_kind_ok(id, ctx.kind)
    &&& action_depth_ok(id, ctx.depth)
    &&& (action_left_only(id) ==> ctx.focus is Left)
    &&& !((ctx.depth >= 1 || ctx.focus is Right) && tree_write_blocked(id))
    &&& (is_graph_kind(ctx.kind) ==> graph_action_visible(ctx, id))
    &&& scope_action_visible(ctx, id)
}

/// Label of the worktree-removal chip, by merged state.
pub open spec fn worktree_label_spec(merged: Option<bool>) -> Seq<char> {
    match merged {
        Some(true) => "remove worktree (merged)"@,
        Some(false) => "remove worktree (open)"@,
        None => "remove worktree"@,
    }
}

/// The chip an action paints in `ctx`.
pub open spec fn action_hint_spec(ctx: HintContext, id: HintActionId) -> (Seq<char>, Seq<char>, bool) {
    (
        action_key_spec(id),
        if id is RemoveWorktree { worktree_label_spec(ctx.worktree_merged) } else { action_label_spec(id) },
        action_destructive_spec(id),
    )
}

/// Chips of the visible actions among `ids`, in order.
pub open spec fn action_hints_from(ctx: HintContext, ids: Seq<HintActionId>) -> Seq<(Seq<char>, Seq<char>, bool)>
    decreases ids.len(),
{
    if ids.len() == 0 {
        Seq::empty()
    } else {
        let rest = action_hints_from(ctx, ids.drop_last());
        if action_visible(ctx, ids.last()) {
            rest.push(action_hint_spec(ctx, ids.last()))
        } else {
            rest
        }
    }
}

fn registry_ids() -> (r: Vec<HintActionId>)
    ensures
        r@ == hint_registry(),
{
    let r = vec![
        HintActionId::Stage,
        HintActionId::Unstage,
        HintActionId::Revert,
        HintActionId::Fetch,
        HintActionId::Pull,
        HintActionId::Push,
        HintActionId::DefaultBranch,
        HintActionId::Branch,
        HintActionId::RemoveWorktree,
        HintActionId::Edit,
        HintActionId::ToggleViewed,
        HintActionId::FullFile,
        HintActionId::GraphCheckout,
        HintActionId::GraphCreateBranch,
        HintActionId::GraphMerge,
        HintActionId::StashMenu,
        HintActionId::StashApply,
        HintActionId::StashPop,
        HintActionId::StashDrop,
    ];
    assert(r@ =~= hint_registry());
    r
}

fn action_key(id: HintActionId) -> (r: &'static str)
    ensures
        r@ == action_key_spec(id),
{
    match id {
        HintActionId::Stage => "s",
        HintActionId::Unstage => "u",
        HintActionId::Revert => "x",
        HintActionId::Fetch => "f",
        HintActionId::Pull => "p",
        HintActionId::Push => "P",
        HintActionId::DefaultBranch => "d",
        HintActionId::Branch => "b",
        HintActionId::RemoveWorktree => "W",
        HintActionId::Edit => "e",
        HintActionId::ToggleViewed => "space",
        HintActionId::FullFile => "ctrl+o",
        HintActionId::GraphCheckout => "b",
        HintActionId::GraphCreateBranch => "c",
        HintActionId::GraphMerge => "m",
        HintActionId::StashMenu => "S",
        HintActionId::StashApply => "a",
        HintActionId::StashPop => "p",
        HintActionId::StashDrop => "D",
    }
}

fn action_label(ctx: &HintContext, id: HintActionId) -> (r: &'static str)
    ensures
        r@ == action_hint_spec(*ctx, id).1,
{
    match id {
        HintActionId::Stage => "stage",
        HintActionId::Unstage => "unstage",
        HintActionId::Revert => "revert",
        HintActionId::Fetch => "fetch",
        HintActionId::Pull => "pull",
        HintActionId::Push => "push",
        HintActionId::DefaultBranch => "default branch",
        HintActionId::Branch => "branch",
        HintActionId::RemoveWorktree => match ctx.worktree_merged {
            Some(true) => "remove worktree (merged)",
            Some(false) => "remove worktree (open)",
            None => "remove worktree",
        },
        HintActionId::Edit => "edit",
        HintActionId::ToggleViewed => "reviewed",
        HintActionId::FullFile => "full file",
        HintActionId::GraphCheckout => "checkout",
        HintActionId::GraphCreateBranch => "create branch",
        HintActionId::GraphMerge => "merge",
        HintActionId::StashMenu => "stash",
        HintActionId::StashApply => "apply stash",
        HintActionId::StashPop => "pop stash",
        HintActionId::StashDrop => "drop stash",
    }
}

fn graph_kind(kind: HintRowKind) -> (b: bool)
    ensures
        b == is_graph_kind(kind),
{
    match kind {
        HintRowKind::GraphCommit | HintRowKind::GraphStash | HintRowKind::GraphUncommitted => true,
        _ => false,
    }
}

fn kind_ok(id: HintActionId, kind: HintRowKind) -> (b: bool)
    ensures
        b == action_kind_ok(id, kind),
{
    match id {
        HintActionId::Stage | HintActionId::Unstage | HintActionId::Revert => match kind {
            HintRowKind::Repo | HintRowKind::Checkout | HintRowKind::Dir | HintRowKind::File => true,
            _ => false,
        },
        HintActionId::Fetch => match kind {
            HintRowKind::Workspace | HintRowKind::Repo | HintRowKind::Checkout | HintRowKind::Dir
            | HintRowKind::File => true,
            _ => false,
        },
        HintActionId::Pull | HintActionId::DefaultBranch => match kind {
            HintRowKind::Workspace | HintRowKind::Repo | HintRowKind::Checkout => true,
            _ => false,
        },
        HintActionId::Push | HintActionId::Branch | HintActionId::RemoveWorktree => match kind {
            HintRowKind::Repo | HintRowKind::Checkout => true,
            _ => false,
        },
        HintActionId::Edit | HintActionId::ToggleViewed | HintActionId::FullFile => match kind {
            HintRowKind::File => true,
            _ => false,
        },
        HintActionId::GraphCheckout | HintActionId::GraphCreateBranch | HintActionId::GraphMerge => match kind {
            HintRowKind::GraphCommit => true,
            _ => false,
        },
        HintActionId::StashMenu => match kind {
            HintRowKind::Workspace | HintRowKind::Group => false,
            _ => true,
        },
        HintActionId::StashApply | HintActionId::StashPop | HintActionId::StashDrop => match kind {
            HintRowKind::GraphStash => true,
            _ => false,
        },
    }
}

fn visible(ctx: &HintContext, id: HintActionId) -> (b: bool)
    ensures
        b == action_visible(*ctx, id),
{
    if !kind_ok(id, ctx.kind) {
        return false;
    }
    let depth_ok = match id {
        HintActionId::ToggleViewed => ctx.depth == 0,
        HintActionId::GraphCheckout | HintActionId::GraphCreateBranch | HintActionId::GraphMerge
        | HintActionId::StashApply | HintActionId::StashPop | HintActionId::StashDrop => ctx.depth <= 1,
        _ => true,
    };
    if !depth_ok {
        return false;
    }
    let left = match ctx.focus {
        FocusPane::Left => true,
        FocusPane::Right => false,
    };
    let is_stash_menu = match id {
        HintActionId::StashMenu => true,
        _ => false,
    };
    if is_stash_menu && !left {
        return false;
    }
    let blocked = match id {
        HintActionId::Stage | HintActionId::Unstage | HintActionId::Revert | HintActionId::Fetch
        | HintActionId::Pull | HintActionId::Push | HintActionId::DefaultBranch | HintActionId::Branch
        | HintActionId::RemoveWorktree => true,
        _ => false,
    };
    if (ctx.depth >= 1 || !left) && blocked {
        return false;
    }
    let graph = graph_kind(ctx.kind);
    if graph {
        let g = match id {
            HintActionId::GraphCheckout => ctx.commit_checkoutable,
            HintActionId::GraphCreateBranch | HintActionId::GraphMerge => ctx.focused_commit,
            HintActionId::StashApply | HintActionId::StashPop | HintActionId::StashDrop => ctx.focused_stash,
            HintActionId::StashMenu => ctx.stash_ops_available,
            _ => true,
        };
        if !g {
            return false;
        }
        if !is_stash_menu {
            return true;
        }
    }
    match id {
        HintActionId::Stage | HintActionId::Revert => ctx.scope_has_unstaged,
        HintActionId::Unstage => ctx.scope_has_staged,
        HintActionId::Pull => ctx.pull_behind,
        HintActionId::Push => ctx.push_ready,
        HintActionId::DefaultBranch => ctx.off_default_branch,
        HintActionId::Branch => ctx.branch_picker_ok,
        HintActionId::RemoveWorktree => ctx.worktree_removable,
        HintActionId::StashMenu => if ctx.depth >= 2 {
            false
        } else if ctx.depth >= 1 {
            true
        } else {
            ctx.scope_has_changes
        },
        HintActionId::ToggleViewed => ctx.depth == 0 && ctx.focused_file_changed,
        _ => true,
    }
}

/// Hints for every registry action valid in `ctx`, in registry order.
pub fn action_hint_segments(ctx: &HintContext) -> (r: Vec<HintSegment>)
    ensures
        hint_views(r@) == action_hints_from(*ctx, hint_registry()),
{
    let ids = registry_ids();
    let mut out: Vec<HintSegment> = Vec::new();
    let mut i: usize = 0;
    assert(ids@.take(0) =~= Seq::<HintActionId>::empty());
    assert(hint_views(out@) =~= Seq::<(Seq<char>, Seq<char>, bool)>::empty());
    while i < ids.len()
        invariant
            i <= ids@.len(),
            ids@ == hint_registry(),
            hint_views(out@) == action_hints_from(*ctx, ids@.take(i as int)),
        decreases ids@.len() - i,
    {
        let id = ids[i];
        assert(ids@.take(i + 1).drop_last() =~= ids@.take(i as int));
        assert(ids@.take(i + 1).last() == id);
        if visible(ctx, id) {
            let h = hint(action_key(id), action_label(ctx, id), match id {
                HintActionId::Revert | HintActionId::RemoveWorktree | HintActionId::StashDrop => true,
                _ => false,
            });
            let ghost before = hint_views(out@);
            out.push(h);
            assert(hint_views(out@) =~= before.push(action_hint_spec(*ctx, id)));
        }
        i += 1;
    }
    assert(ids@.take(i as int) =~= hint_registry());
    out
}


/// Which boxed confirm is pending.
#[derive(Clone, Copy, Debug, PartialEq, Eq)]
pub enum ConfirmKind {
    Revert,
    CheckoutOutOfSync,
    MergeIntoHead,
    RemoveWorktree,
    StashDrop,
}

/// What the bottom chrome reads of the app state.
#[derive(Clone, Debug, PartialEq, Eq)]
pub struct ChromeState {
    /// `?` help overlay is open.
    pub help_open: bool,
    /// Status / toast text.
    pub status: String,
    /// Pending boxed confirm.
    pub confirm: Option<ConfirmKind>,
    /// Stash menu open, with this many actions listed.
    pub stash_menu: Option<usize>,
    /// Create-branch prompt is open.
    pub create_branch: bool,
    /// Branch picker open, with this many visible branches.
    pub branch_picker: Option<usize>,
    /// Terminal width in columns.
    pub term_cols: u16,
    /// `/` search is in typing mode.
    pub search_mode: bool,
    /// EasyMotion waits for a label.
    pub easy_motion: bool,
    /// Workspace directory.
    pub cwd: String,
    /// Repo path of the focused tree row.
    pub focused_repo: Option<String>,
    /// Right-pane drill stack.
    pub drill: DrillView,
    /// The right pane shows the focused tree file's diff.
    pub right_is_diff: bool,
    /// Focused pane.
    pub focus: FocusPane,
}

/// `a + b`, held at `u16::MAX`.
pub open spec fn sat16(a: int, b: int) -> int {
    if a + b > u16::MAX { u16::MAX as int } else { a + b }
}

fn sat_add16(a: u16, b: u16) -> (r: u16)
    ensures
        r == sat16(a as int, b as int),
{
    if a > u16::MAX - b { u16::MAX } else { a + b }
}

/// Breadcrumb row: 1, or 0 while help is open.
pub open spec fn breadcrumb_rows_spec(st: ChromeState) -> int {
    if st.help_open { 0 } else { 1 }
}

/// Breadcrumb row. Hidden while `?` help is open.
pub fn breadcrumb_rows(state: &ChromeState) -> (n: u16)
    ensures
        n == breadcrumb_rows_spec(*state),
{
    if state.help_open { 0 } else { 1 }
}

/// The quit prompt sits on its own row: it is the status and no picker
/// overlay (which paints it inline) is open.
pub open spec fn ctrl_c_pinned_spec(st: ChromeState) -> bool {
    &&& st.status@ == CTRL_C_EXIT_PROMPT@
    &&& st.stash_menu is None
    &&& st.branch_picker is None
    &&& !st.create_branch
}

/// True when the quit prompt sits on its own chrome row (not a breadcrumb toast).
pub fn ctrl_c_prompt_pinned(state: &ChromeState) -> (b: bool)
    ensures
        b == ctrl_c_pinned_spec(*state),
{
    is_ctrl_c_exit_prompt(state.status.as_str()) && state.stash_menu.is_none()
        && state.branch_picker.is_none() && !state.create_branch
}

/// Pinned Ctrl-C prompt row. Overlay pickers render the copy inline instead.
pub fn ctrl_c_prompt_rows(state: &ChromeState) -> (n: u16)
    ensures
        n == (if ctrl_c_pinned_spec(*state) { 1int } else { 0int }),
{
    if ctrl_c_prompt_pinned(state) { 1 } else { 0 }
}

/// Rows of a boxed confirm.
pub open spec fn confirm_rows(k: ConfirmKind) -> int {
    match k {
        ConfirmKind::RemoveWorktree => 6,
        ConfirmKind::StashDrop => 5,
        _ => 7,
    }
}

/// Status line (1) or the rows of the overlay that replaces it.
pub open spec fn overlay_rows_spec(st: ChromeState, term_cols: u16) -> int {
    let extra: int = if st.status@.len() == 0 { 0 } else { 1 };
    if st.help_open {
        (overlay_height_spec(help_table(), (if term_cols < 1 { 1 } else { term_cols }) as int, idle_footer_spec()) as u16) as int
    } else if st.confirm is Some {
        confirm_rows(st.confirm->0)
    } else if st.stash_menu is Some {
        sat16(sat16(4, (st.stash_menu->0 as u16) as int), extra)
    } else if st.create_branch {
        5
    } else if st.branch_picker is Some {
        let v = st.branch_picker->0;
        let n: int = if v < 1 { 1 } else if v > 12 { 12 } else { v as int };
        if 4 + n + extra > 17 { 17 } else { 4 + n + extra }
    } else {
        1
    }
}

/// Overlay row budget at `term_cols` so wrap math can follow a resize.
pub fn overlay_status_rows_for(state: &ChromeState, term_cols: u16) -> (n: u16)
    ensures
        n == overlay_rows_spec(*state, term_cols),
{
    let extra: u16 = if state.status.as_str().is_empty() { 0 } else { 1 };
    if state.help_open {
        return help_status_lines(term_cols);
    }
    match state.confirm {
        Some(k) => {
            return match k {
                ConfirmKind::RemoveWorktree => 6,
                ConfirmKind::StashDrop => 5,
                _ => 7,
            };
        },
        None => {},
    }
    match state.stash_menu {
        Some(ops) => {
            #[verifier::truncate]
            let n: u16 = ops as u16;
            return sat_add16(sat_add16(4, n), extra);
        },
        None => {},
    }
    if state.create_branch {
        return 5;
    }
    match state.branch_picker {
        Some(v) => {
            let n: u16 = if v < 1 { 1 } else if v > 12 { 12 } else { v as u16 };
            let total = 4 + n + extra;
            return if total > 17 { 17 } else { total };
        },
        None => {},
    }
    1
}

/// Status line or replacing overlay rows, at the state's width (at least 1).
pub fn overlay_status_rows(state: &ChromeState) -> (n: u16)
    ensures
        n == overlay_rows_spec(*state, if state.term_cols < 1 { 1u16 } else { state.term_cols }),
{
    let cols: u16 = if state.term_cols < 1 { 1 } else { state.term_cols };
    overlay_status_rows_for(state, cols)
}

/// Rows reserved below the panes for breadcrumb + status / overlay.
///
/// Help hides the breadcrumb. Confirms, stash, create-branch, and pickers
/// replace the status line with a boxed overlay and shrink the panes by the
/// overlay row budget.
pub fn bottom_chrome_rows(state: &ChromeState) -> (n: u16)
    ensures
        n == sat16(
            sat16(breadcrumb_rows_spec(*state), if ctrl_c_pinned_spec(*state) { 1int } else { 0int }),
            overlay_rows_spec(*state, if state.term_cols < 1 { 1u16 } else { state.term_cols }),
        ),
{
    sat_add16(sat_add16(breadcrumb_rows(state), ctrl_c_prompt_rows(state)), overlay_status_rows(state))
}

/// ViewStack depth analogue: graph 0, commit files 1, commit diff 2.
pub fn nav_depth(state: &ChromeState) -> (d: u8)
    ensures
        d == match state.drill {
            DrillView::Graph => 0u8,
            DrillView::Files { .. } => 1u8,
            DrillView::Diff { .. } => 2u8,
        },
{
    state.drill.depth()
}


/// Last piece of the workspace directory, or `workspace`.
pub open spec fn workspace_label_spec(cwd: Seq<char>) -> Seq<char> {
    match path_file_name_spec(cwd) {
        Some(n) => if n.len() > 0 { n } else { "workspace"@ },
        None => "workspace"@,
    }
}

/// Breadcrumb label of a drill source: `uncommitted`, the stash ref, or a short SHA.
pub open spec fn commit_label_spec(source: CommitFileSource) -> Seq<char> {
    match source {
        CommitFileSource::Worktree => "uncommitted"@,
        CommitFileSource::Stash { stash_ref } => stash_ref@,
        CommitFileSource::Commit { commit_id } => short7(commit_id@),
    }
}

/// The seven-byte cut of a drilled commit id falls on a char boundary.
pub open spec fn drill_ids_cut_ok(drill: DrillView) -> bool {
    match drill {
        DrillView::Files { source: CommitFileSource::Commit { commit_id }, .. } => cut_on_boundary(commit_id@, 7),
        DrillView::Diff { source: CommitFileSource::Commit { commit_id }, .. } => cut_on_boundary(commit_id@, 7),
        _ => true,
    }
}

/// Breadcrumb segments: the workspace, then the focused repo (graph level,
/// unless the right pane shows a diff), or the drilled repo, source, and file.
pub open spec fn breadcrumb_spec(st: ChromeState) -> Seq<Seq<char>> {
    let ws = workspace_label_spec(st.cwd@);
    match st.drill {
        DrillView::Graph => if !st.right_is_diff && st.focused_repo is Some {
            seq![ws, base_name_spec(st.focused_repo->0@)]
        } else {
            seq![ws]
        },
        DrillView::Files { repo, source, .. } => seq![ws, base_name_spec(repo@), commit_label_spec(source)],
        DrillView::Diff { repo, source, path, .. } => seq![
            ws,
            base_name_spec(repo@),
            commit_label_spec(source),
            base_name_spec(path@),
        ],
    }
}

fn workspace_label(cwd: &str) -> (r: String)
    ensures
        r@ == workspace_label_spec(cwd@),
{
    match path_file_name(cwd) {
        Some(n) => if n.as_str().is_empty() { crate::text::owned("workspace") } else { n },
        None => crate::text::owned("workspace"),
    }
}

fn commit_label(source: &CommitFileSource) -> (r: String)
    requires
        match *source {
            CommitFileSource::Commit { commit_id } => cut_on_boundary(commit_id@, 7),
            _ => true,
        },
    ensures
        r@ == commit_label_spec(*source),
{
    match source {
        CommitFileSource::Worktree => crate::text::owned("uncommitted"),
        CommitFileSource::Stash { stash_ref } => stash_ref.clone(),
        CommitFileSource::Commit { commit_id } => {
            let mut s = String::new();
            push_short7(&mut s, commit_id.as_str());
            assert(s@ =~= short7(commit_id@));
            s
        },
    }
}

/// Display segments for the breadcrumb (workspace + drill frames).
pub fn breadcrumb_segments(state: &ChromeState) -> (r: Vec<String>)
    requires
        drill_ids_cut_ok(state.drill),
    ensures
        string_views(r@) == breadcrumb_spec(*state),
{
    let mut out: Vec<String> = Vec::new();
    out.push(workspace_label(state.cwd.as_str()));
    match &state.drill {
        DrillView::Graph => {
            if !state.right_is_diff {
                match &state.focused_repo {
                    Some(repo) => out.push(base_name(repo.as_str())),
                    None => {},
                }
            }
        },
        DrillView::Files { repo, source, .. } => {
            out.push(base_name(repo.as_str()));
            out.push(commit_label(source));
        },
        DrillView::Diff { repo, source, path, .. } => {
            out.push(base_name(repo.as_str()));
            out.push(commit_label(source));
            out.push(base_name(path.as_str()));
        },
    }
    assert(string_views(out@) =~= breadcrumb_spec(*state));
    out
}

/// One breadcrumb piece: separator (after the first), then the segment,
/// bracketed when it is the last one and the right pane has focus.
pub open spec fn crumb_piece(segs: Seq<Seq<char>>, i: int, focus: FocusPane) -> Seq<char> {
    let body = if i + 1 == segs.len() && focus is Right { "["@ + segs[i] + "]"@ } else { segs[i] };
    if i == 0 { body } else { BREADCRUMB_SEP@ + body }
}

/// The first `n` pieces joined.
pub open spec fn crumb_join(segs: Seq<Seq<char>>, focus: FocusPane, n: int) -> Seq<char>
    decreases n,
{
    if n <= 0 {
        Seq::empty()
    } else {
        crumb_join(segs, focus, n - 1) + crumb_piece(segs, n - 1, focus)
    }
}

/// Visual breadcrumb (`workspace › [repo]` when the last segment is right-focused).
pub fn format_breadcrumb(segments: &[String], focus: FocusPane) -> (r: String)
    ensures
        r@ == crumb_join(string_views(segments@), focus, segments@.len() as int),
{
    let ghost sv = string_views(segments@);
    let mut out = String::new();
    let mut i: usize = 0;
    let right = match focus {
        FocusPane::Left => false,
        FocusPane::Right => true,
    };
    while i < segments.len()
        invariant
            i <= segments@.len(),
            sv == string_views(segments@),
            right == (focus is Right),
            out@ == crumb_join(sv, focus, i as int),
        decreases segments@.len() - i,
    {
        let ghost before = out@;
        if i > 0 {
            push_str(&mut out, BREADCRUMB_SEP);
        }
        let seg = segments[i].as_str();
        assert(sv[i as int] == seg@);
        if i + 1 == segments.len() && right {
            push_str(&mut out, "[");
            push_str(&mut out, seg);
            push_str(&mut out, "]");
        } else {
            push_str(&mut out, seg);
        }
        assert(out@ =~= before + crumb_piece(sv, i as int, focus));
        i += 1;
    }
    out
}

/// Split of the breadcrumb row: `(breadcrumb columns, op-status columns)`.
pub open spec fn chrome_row_spec(width: int, op_len: int) -> (int, int) {
    if op_len == 0 || width == 0 {
        (width, 0)
    } else {
        let op_max = if op_len < width { op_len } else { width };
        (if width > op_max + 1 { width - op_max - 1 } else { 0 }, op_max)
    }
}

/// Columns for the breadcrumb and for a trailing op status, one space between.
pub fn allocate_chrome_row(total_width: usize, op_status_len: usize) -> (r: (usize, usize))
    ensures
        (r.0 as int, r.1 as int) == chrome_row_spec(total_width as int, op_status_len as int),
{
    let width = total_width;
    if op_status_len == 0 || width == 0 {
        return (width, 0);
    }
    let op_max = if op_status_len < width { op_status_len } else { width };
    let crumb = if width > op_max && width - op_max > 1 { width - op_max - 1 } else { 0 };
    (crumb, op_max)
}

/// The status row, not the breadcrumb, shows the status text now.
pub open spec fn status_uses_status_text(st: ChromeState) -> bool {
    st.search_mode || st.easy_motion || st.stash_menu is Some || st.branch_picker is Some || st.create_branch
}

/// Toast / running-op text for the breadcrumb's trailing slot.
pub open spec fn op_status_spec(st: ChromeState) -> Seq<char> {
    if status_uses_status_text(st) || st.status@ == CTRL_C_EXIT_PROMPT@ {
        Seq::empty()
    } else {
        trim(st.status@)
    }
}

/// Trimmed status for the breadcrumb, empty while another row shows it.
pub fn breadcrumb_op_status(state: &ChromeState) -> (r: String)
    ensures
        r@ == op_status_spec(*state),
{
    if state.search_mode || state.easy_motion || state.stash_menu.is_some() || state.branch_picker.is_some()
        || state.create_branch || is_ctrl_c_exit_prompt(state.status.as_str()) {
        return String::new();
    }
    trim_str(state.status.as_str())
}

/// An op status reads as an error when it mentions `failed` or `error` (any case).
pub open spec fn op_error_spec(text: Seq<char>) -> bool {
    has_substr(ascii_lower(text), "failed"@) || has_substr(ascii_lower(text), "error"@)
}

/// True for a failed-op toast (painted in the error colour).
pub fn is_op_status_error(text: &str) -> (b: bool)
    ensures
        b == op_error_spec(text@),
{
    let lower = lower_str_chars(text);
    let failed = str_chars("failed");
    let error = str_chars("error");
    contains_chars(lower.as_slice(), failed.as_slice()) || contains_chars(lower.as_slice(), error.as_slice())
}


proof fn lemma_fit_count(hs: Seq<(Seq<char>, Seq<char>, bool)>, avail: int, k: int)
    requires
        0 <= k <= hs.len(),
        k > 0 ==> hints_width_spec(hs.take(k)) <= avail,
    ensures
        k <= fit_count(hs, avail, k) <= hs.len(),
        fit_count(hs, avail, k) > 0 ==> hints_width_spec(hs.take(fit_count(hs, avail, k))) <= avail,
    decreases hs.len() - k,
{
    if k < hs.len() && hints_width_spec(hs.take(k + 1)) <= avail {
        lemma_fit_count(hs, avail, k + 1);
    }
}

proof fn lemma_trim_for_ellipsis(hs: Seq<(Seq<char>, Seq<char>, bool)>, avail: int, k: int)
    ensures
        0 <= trim_for_ellipsis(hs, avail, k),
        k >= 0 ==> trim_for_ellipsis(hs, avail, k) <= k,
        trim_for_ellipsis(hs, avail, k) > 0 ==> hints_width_spec(
            hs.take(trim_for_ellipsis(hs, avail, k)).push(ellipsis_view()),
        ) <= avail,
    decreases k,
{
    if k > 0 && hints_width_spec(hs.take(k).push(ellipsis_view())) > avail {
        lemma_trim_for_ellipsis(hs, avail, k - 1);
    }
}

/// The fitted hint row never needs more than the columns it was given, and
/// it keeps a prefix of the hints: all of them, none, or the first few
/// followed by the `…` chip. So later chips (the extras) go before earlier ones.
pub proof fn lemma_fit_within_width(hs: Seq<(Seq<char>, Seq<char>, bool)>, avail: int)
    requires
        avail >= 0,
    ensures
        hints_width_spec(fit_spec(hs, avail)) <= avail,
        fit_spec(hs, avail) == hs || fit_spec(hs, avail).len() == 0 || (
            0 < fit_spec(hs, avail).len() <= hs.len()
            && fit_spec(hs, avail).last() == ellipsis_view()
            && fit_spec(hs, avail).drop_last() == hs.take(fit_spec(hs, avail).len() - 1)
        ),
{
    lemma_fit_count(hs, avail, 0);
    let k = fit_count(hs, avail, 0);
    if k == hs.len() {
        if hs.len() > 0 {
            assert(hs.take(k) =~= hs);
        }
    } else {
        lemma_trim_for_ellipsis(hs, avail, k);
        let m = trim_for_ellipsis(hs, avail, k);
        if m > 0 {
            let f = hs.take(m).push(ellipsis_view());
            assert(f.drop_last() =~= hs.take(m));
        }
    }
}


/* ── Idle status row ───────────────────────────────────────────────────── */

/// Inline or side-by-side diff.
#[derive(Clone, Copy, Debug, PartialEq, Eq)]
pub enum DiffMode {
    Inline,
    SideBySide,
}

proof fn lemma_cols_sum_push(hs: Seq<(Seq<char>, Seq<char>, bool)>, h: (Seq<char>, Seq<char>, bool))
    ensures
        cols_sum(hs.push(h)) == cols_sum(hs) + hint_cols(h),
{
    assert(hs.push(h).drop_last() =~= hs);
}

proof fn lemma_cols_sum_concat(a: Seq<(Seq<char>, Seq<char>, bool)>, b: Seq<(Seq<char>, Seq<char>, bool)>)
    ensures
        cols_sum(a + b) == cols_sum(a) + cols_sum(b),
    decreases b.len(),
{
    if b.len() == 0 {
        assert(a + b =~= a);
    } else {
        lemma_cols_sum_concat(a, b.drop_last());
        assert((a + b).drop_last() =~= a + b.drop_last());
    }
}

proof fn lemma_action_hint_cols(ctx: HintContext, id: HintActionId)
    ensures
        hint_cols(action_hint_spec(ctx, id)) <= 40,
{
    reveal_strlit("s");
    reveal_strlit("u");
    reveal_strlit("x");
    reveal_strlit("f");
    reveal_strlit("p");
    reveal_strlit("P");
    reveal_strlit("d");
    reveal_strlit("b");
    reveal_strlit("W");
    reveal_strlit("e");
    reveal_strlit("space");
    reveal_strlit("ctrl+o");
    reveal_strlit("c");
    reveal_strlit("m");
    reveal_strlit("S");
    reveal_strlit("a");
    reveal_strlit("D");
    reveal_strlit("stage");
    reveal_strlit("unstage");
    reveal_strlit("revert");
    reveal_strlit("fetch");
    reveal_strlit("pull");
    reveal_strlit("push");
    reveal_strlit("default branch");
    reveal_strlit("branch");
    reveal_strlit("remove worktree");
    reveal_strlit("remove worktree (merged)");
    reveal_strlit("remove worktree (open)");
    reveal_strlit("edit");
    reveal_strlit("reviewed");
    reveal_strlit("full file");
    reveal_strlit("checkout");
    reveal_strlit("create branch");
    reveal_strlit("merge");
    reveal_strlit("stash");
    reveal_strlit("apply stash");
    reveal_strlit("pop stash");
    reveal_strlit("drop stash");
}

proof fn lemma_action_hints_bound(ctx: HintContext, ids: Seq<HintActionId>)
    ensures
        cols_sum(action_hints_from(ctx, ids)) <= 40 * ids.len(),
        action_hints_from(ctx, ids).len() <= ids.len(),
    decreases ids.len(),
{
    if ids.len() > 0 {
        lemma_action_hints_bound(ctx, ids.drop_last());
        let r = action_hints_from(ctx, ids.drop_last());
        if action_visible(ctx, ids.last()) {
            lemma_cols_sum_push(r, action_hint_spec(ctx, ids.last()));
            lemma_action_hint_cols(ctx, ids.last());
        }
    }
}

proof fn lemma_nav_extra_bound(depth: u8, focus: FocusPane)
    ensures
        cols_sum(nav_hints_spec(depth, focus)) <= 40,
        nav_hints_spec(depth, focus).len() <= 2,
        cols_sum(extra_hints_spec()) <= 40,
        extra_hints_spec().len() == 2,
{
    reveal_strlit("\u{23ce}");
    reveal_strlit("focus right");
    reveal_strlit("Esc");
    reveal_strlit("back");
    reveal_strlit("drill");
    reveal_strlit("Tab");
    reveal_strlit("other pane");
    reveal_strlit("q");
    reveal_strlit("quit");
    let n = nav_hints_spec(depth, focus);
    let empty = Seq::<(Seq<char>, Seq<char>, bool)>::empty();
    if n.len() == 2 {
        assert(n =~= empty.push(n[0]).push(n[1]));
        lemma_cols_sum_push(empty, n[0]);
        lemma_cols_sum_push(empty.push(n[0]), n[1]);
    } else {
        assert(n =~= empty.push(n[0]));
        lemma_cols_sum_push(empty, n[0]);
    }
    let e = extra_hints_spec();
    assert(e =~= empty.push(e[0]).push(e[1]));
    lemma_cols_sum_push(empty, e[0]);
    lemma_cols_sum_push(empty.push(e[0]), e[1]);
}

/// Chips of the idle row before fitting: Enter/Esc, the registry actions, the extras.
pub open spec fn idle_hints_spec(ctx: HintContext) -> Seq<(Seq<char>, Seq<char>, bool)> {
    nav_hints_spec(ctx.depth, ctx.focus) + action_hints_from(ctx, hint_registry()) + extra_hints_spec()
}

/// What the idle status row shows: mode pills, the armed search, the help
/// (or pending `z`) message, and the hint chips that fit after them.
#[derive(Clone, Debug, PartialEq, Eq)]
pub struct IdleStatus {
    /// `tree` or `flat` (the commit-file mode once drilled in).
    pub mode_label: String,
    /// `inline` or `split`.
    pub diff_label: String,
    /// Armed search query, trimmed; empty when none.
    pub search: String,
    /// `z…` while a `z` chord waits, else `? help`.
    pub message: String,
    /// Hint chips that fit the rest of the row.
    pub hints: Vec<HintSegment>,
}

/// Mode pill label.
pub open spec fn mode_label_spec(ctx: HintContext, tree_mode: bool, commit_tree_mode: bool) -> Seq<char> {
    if (if ctx.depth >= 1 { commit_tree_mode } else { tree_mode }) { "tree"@ } else { "flat"@ }
}

/// Diff pill label.
pub open spec fn diff_label_spec(mode: DiffMode) -> Seq<char> {
    match mode {
        DiffMode::Inline => "inline"@,
        DiffMode::SideBySide => "split"@,
    }
}

/// Armed search text.
pub open spec fn search_spec(search_active: bool, query: Seq<char>) -> Seq<char> {
    if search_active { trim(query) } else { Seq::empty() }
}

/// Status message.
pub open spec fn message_spec(z_pending: bool) -> Seq<char> {
    if z_pending { "z\u{2026}"@ } else { "? help"@ }
}

/// UTF-8 length of `s`, held at `usize::MAX`.
fn utf8_len_sat(s: &str) -> (n: usize)
    ensures
        n == (if utf8_len(s@) > usize::MAX { usize::MAX as int } else { utf8_len(s@) }),
{
    let cs = str_chars(s);
    let mut n: usize = 0;
    let mut i: usize = 0;
    assert(cs@.take(0) =~= Seq::<char>::empty());
    while i < cs.len()
        invariant
            i <= cs@.len(),
            n == (if utf8_len(cs@.take(i as int)) > usize::MAX { usize::MAX as int } else { utf8_len(cs@.take(i as int)) }),
        decreases cs@.len() - i,
    {
        assert(cs@.take(i + 1).drop_last() =~= cs@.take(i as int));
        assert(cs@.take(i + 1).last() == cs@[i as int]);
        proof {
            lemma_utf8_len_nonneg(cs@.take(i as int));
        }
        let c = cs[i] as u32;
        let w: usize = if c < 0x80 { 1 } else if c < 0x800 { 2 } else if c < 0x10000 { 3 } else { 4 };
        n = sat_add(n, w);
        i += 1;
    }
    assert(cs@.take(i as int) =~= cs@);
    n
}

/// Columns the pills, search pill, message, and separator take (UTF-8 bytes,
/// as the row measures them).
pub open spec fn idle_used_spec(mode: Seq<char>, diff: Seq<char>, search: Seq<char>, message: Seq<char>) -> int {
    let extra: int = if search.len() > 0 { utf8_len(search) + 3 } else { 0 };
    utf8_len(mode) + 2 + utf8_len(diff) + 2 + 1 + utf8_len(message) + 2 + extra
}

/// Hint budget: the width left after the pills (none when they fill it).
pub open spec fn idle_budget_spec(width: u16, used: int) -> int {
    if used >= width { 0 } else { width - used }
}

fn sat_add(a: usize, b: usize) -> (r: usize)
    ensures
        r == (if a + b > usize::MAX { usize::MAX as int } else { a + b }),
{
    if a > usize::MAX - b { usize::MAX } else { a + b }
}

/// Status row contents while no prompt or overlay takes it.
pub fn idle_status(
    ctx: &HintContext,
    tree_mode: bool,
    commit_tree_mode: bool,
    diff_mode: DiffMode,
    search_active: bool,
    search_query: &str,
    z_pending: bool,
    width: u16,
) -> (r: IdleStatus)
    ensures
        r.mode_label@ == mode_label_spec(*ctx, tree_mode, commit_tree_mode),
        r.diff_label@ == diff_label_spec(diff_mode),
        r.search@ == search_spec(search_active, search_query@),
        r.message@ == message_spec(z_pending),
        hint_views(r.hints@) == fit_spec(
            idle_hints_spec(*ctx),
            idle_budget_spec(
                width,
                idle_used_spec(
                    mode_label_spec(*ctx, tree_mode, commit_tree_mode),
                    diff_label_spec(diff_mode),
                    search_spec(search_active, search_query@),
                    message_spec(z_pending),
                ),
            ),
        ),
{
    let tree = if ctx.depth >= 1 { commit_tree_mode } else { tree_mode };
    let mode_label: &str = if tree { "tree" } else { "flat" };
    let diff_label: &str = match diff_mode {
        DiffMode::Inline => "inline",
        DiffMode::SideBySide => "split",
    };
    let search = if search_active { trim_str(search_query) } else { String::new() };
    let message: &str = if z_pending { "z\u{2026}" } else { "? help" };
    proof {
        lemma_utf8_len_nonneg(mode_label@);
        lemma_utf8_len_nonneg(diff_label@);
        lemma_utf8_len_nonneg(message@);
        lemma_utf8_len_nonneg(search@);
    }
    let mut used: usize = sat_add(utf8_len_sat(mode_label), 2);
    used = sat_add(used, utf8_len_sat(diff_label));
    used = sat_add(used, 3);
    used = sat_add(used, utf8_len_sat(message));
    used = sat_add(used, 2);
    if !search.as_str().is_empty() {
        used = sat_add(used, utf8_len_sat(search.as_str()));
        used = sat_add(used, 3);
    }
    let ghost used_int = idle_used_spec(mode_label@, diff_label@, search@, message@);
    assert(used as int == (if used_int > usize::MAX { usize::MAX as int } else { used_int }));
    let w = width as usize;
    let budget: usize = if used >= w { 0 } else { w - used };
    let mut hints = nav_chrome_hint_segments(ctx.depth, ctx.focus);
    let actions = action_hint_segments(ctx);
    let mut k: usize = 0;
    let ghost nv = hint_views(hints@);
    let ghost av = hint_views(actions@);
    assert(av.take(0) =~= Seq::<(Seq<char>, Seq<char>, bool)>::empty());
    assert(nv + av.take(0) =~= nv);
    while k < actions.len()
        invariant
            k <= actions@.len(),
            av == hint_views(actions@),
            hint_views(hints@) == nv + av.take(k as int),
        decreases actions@.len() - k,
    {
        let ghost before = hint_views(hints@);
        hints.push(copy_hint(&actions[k]));
        assert(hint_views(hints@) =~= before.push(av[k as int]));
        assert(nv + av.take(k + 1) =~= (nv + av.take(k as int)).push(av[k as int]));
        k += 1;
    }
    assert(av.take(k as int) =~= av);
    let extras = extra_hint_segments();
    let ghost xv = hint_views(extras@);
    let mut k: usize = 0;
    let ghost mid = hint_views(hints@);
    assert(mid + xv.take(0) =~= mid);
    while k < extras.len()
        invariant
            k <= extras@.len(),
            xv == hint_views(extras@),
            hint_views(hints@) == mid + xv.take(k as int),
        decreases extras@.len() - k,
    {
        let ghost before = hint_views(hints@);
        hints.push(copy_hint(&extras[k]));
        assert(hint_views(hints@) =~= before.push(xv[k as int]));
        assert(mid + xv.take(k + 1) =~= (mid + xv.take(k as int)).push(xv[k as int]));
        k += 1;
    }
    assert(xv.take(k as int) =~= xv);
    let ghost all = hint_views(hints@);
    assert(all =~= idle_hints_spec(*ctx));
    proof {
        lemma_action_hints_bound(*ctx, hint_registry());
        lemma_nav_extra_bound(ctx.depth, ctx.focus);
        lemma_cols_sum_concat(nv, av);
        lemma_cols_sum_concat(nv + av, xv);
        lemma_cols_sum_nonneg(nv);
        lemma_cols_sum_nonneg(av);
        lemma_cols_sum_nonneg(xv);
    }
    let fitted = fit_hint_segments(hints.as_slice(), budget);
    IdleStatus {
        mode_label: crate::text::owned(mode_label),
        diff_label: crate::text::owned(diff_label),
        search,
        message: crate::text::owned(message),
        hints: fitted,
    }
}


/* ── Breadcrumb row ────────────────────────────────────────────────────── */

/// What a breadcrumb span is, so the painter can colour it.
#[derive(Clone, Copy, Debug, PartialEq, Eq)]
pub enum CrumbRole {
    /// A path piece; `last` marks the focused end of the path.
    Path { last: bool },
    /// Padding between the path and the op status.
    Gap,
    /// The trailing toast / running-op status; `error` for a failure.
    Op { error: bool },
}

/// One span of the breadcrumb row.
#[derive(Clone, Debug, PartialEq, Eq)]
pub struct CrumbSpan {
    pub text: String,
    pub role: CrumbRole,
}

/// Spans as plain values.
pub open spec fn crumb_views(v: Seq<CrumbSpan>) -> Seq<(Seq<char>, CrumbRole)> {
    v.map_values(|c: CrumbSpan| (c.text@, c.role))
}

/// Path spans from piece `i` on, with `used` columns taken, inside `crumb_max`
/// columns; the first piece that does not fit is cut and ends the path.
/// Also returns the columns used after them.
pub open spec fn path_spans(segs: Seq<Seq<char>>, focus: FocusPane, crumb_max: int, i: int, used: int) -> (
    Seq<(Seq<char>, CrumbRole)>,
    int,
)
    decreases segs.len() - i,
{
    if i < 0 || i >= segs.len() {
        (Seq::empty(), used)
    } else {
        let p = crumb_piece(segs, i, focus);
        let w = unicode_str_width(p) as int;
        let last = i + 1 == segs.len();
        if used + w > crumb_max {
            let remain = crumb_max - used;
            (
                if remain > 0 {
                    seq![(truncate_spec(p, remain as nat), CrumbRole::Path { last })]
                } else {
                    Seq::empty()
                },
                crumb_max,
            )
        } else {
            let (rest, u) = path_spans(segs, focus, crumb_max, i + 1, used + w);
            (seq![(p, CrumbRole::Path { last })] + rest, u)
        }
    }
}

/// `n` spaces.
pub open spec fn spaces(n: int) -> Seq<char> {
    Seq::new(n as nat, |k: int| ' ')
}

/// The breadcrumb row: the path (cut to its share of the row), and when a
/// toast or running op is shown, padding and that status on the right.
pub open spec fn breadcrumb_spans_spec(st: ChromeState, width: int) -> Seq<(Seq<char>, CrumbRole)> {
    let op = op_status_spec(st);
    let (cm, om) = chrome_row_spec(width, unicode_str_width(op) as int);
    let (path, used) = path_spans(breadcrumb_spec(st), st.focus, cm, 0, 0);
    if om > 0 {
        let gap = if cm > used { cm - used } else { 0 };
        path + (if gap > 0 { seq![(spaces(gap), CrumbRole::Gap)] } else { Seq::empty() }) + (if used + gap < width {
            seq![(" "@, CrumbRole::Gap)]
        } else {
            Seq::empty()
        }) + seq![(truncate_spec(op, om as nat), CrumbRole::Op { error: op_error_spec(op) })]
    } else {
        path
    }
}

proof fn lemma_path_spans_used(segs: Seq<Seq<char>>, focus: FocusPane, crumb_max: int, i: int, used: int)
    requires
        0 <= used <= crumb_max,
    ensures
        used <= path_spans(segs, focus, crumb_max, i, used).1 <= crumb_max,
    decreases segs.len() - i,
{
    if 0 <= i < segs.len() {
        let p = crumb_piece(segs, i, focus);
        let w = unicode_str_width(p) as int;
        if used + w <= crumb_max {
            lemma_path_spans_used(segs, focus, crumb_max, i + 1, used + w);
        }
    }
}

fn spaces_exec(n: usize) -> (r: String)
    ensures
        r@ == spaces(n as int),
{
    let mut r = String::new();
    let mut k: usize = 0;
    while k < n
        invariant
            k <= n,
            r@ == spaces(k as int),
        decreases n - k,
    {
        crate::text::push_char(&mut r, ' ');
        assert(r@ =~= spaces(k + 1));
        k += 1;
    }
    r
}

/// Breadcrumb row: path on the left, optional toast / running-op status
/// (`Pulling 1/2…`) on the right.
pub fn breadcrumb_spans(state: &ChromeState, width: u16) -> (r: Vec<CrumbSpan>)
    requires
        drill_ids_cut_ok(state.drill),
    ensures
        crumb_views(r@) == breadcrumb_spans_spec(*state, width as int),
{
    let w = width as usize;
    let op = breadcrumb_op_status(state);
    let op_w = display_width(op.as_str());
    let (crumb_max, op_max) = allocate_chrome_row(w, op_w);
    let segments = breadcrumb_segments(state);
    let ghost sv = string_views(segments@);
    let right = match state.focus {
        FocusPane::Left => false,
        FocusPane::Right => true,
    };
    let mut out: Vec<CrumbSpan> = Vec::new();
    let mut used: usize = 0;
    let mut i: usize = 0;
    let mut done = false;
    let ghost goal = path_spans(sv, state.focus, crumb_max as int, 0, 0);
    assert(crumb_views(out@) =~= Seq::<(Seq<char>, CrumbRole)>::empty());
    while i < segments.len() && !done
        invariant
            i <= segments@.len(),
            sv == string_views(segments@),
            right == (state.focus is Right),
            used <= crumb_max,
            goal == path_spans(sv, state.focus, crumb_max as int, 0, 0),
            !done ==> goal == (crumb_views(out@) + path_spans(sv, state.focus, crumb_max as int, i as int, used as int).0,
                path_spans(sv, state.focus, crumb_max as int, i as int, used as int).1),
            done ==> goal == (crumb_views(out@), used as int),
        decreases segments@.len() - i + (if done { 0int } else { 1int }),
    {
        let mut piece = String::new();
        if i > 0 {
            push_str(&mut piece, BREADCRUMB_SEP);
        }
        let seg = segments[i].as_str();
        assert(sv[i as int] == seg@);
        let last = i + 1 == segments.len();
        if last && right {
            push_str(&mut piece, "[");
            push_str(&mut piece, seg);
            push_str(&mut piece, "]");
        } else {
            push_str(&mut piece, seg);
        }
        assert(piece@ =~= crumb_piece(sv, i as int, state.focus));
        let pw = display_width(piece.as_str());
        let ghost before = crumb_views(out@);
        if pw > crumb_max - used {
            let remain = crumb_max - used;
            if remain > 0 {
                out.push(CrumbSpan { text: truncate_visible(piece.as_str(), remain), role: CrumbRole::Path { last } });
                assert(crumb_views(out@) =~= before + seq![(truncate_spec(piece@, remain as nat), CrumbRole::Path { last })]);
            } else {
                assert(crumb_views(out@) =~= before + Seq::<(Seq<char>, CrumbRole)>::empty());
            }
            used = crumb_max;
            done = true;
        } else {
            out.push(CrumbSpan { text: piece, role: CrumbRole::Path { last } });
            let ghost tail = path_spans(sv, state.focus, crumb_max as int, i + 1, used + pw);
            assert(crumb_views(out@) =~= before.push((crumb_piece(sv, i as int, state.focus), CrumbRole::Path { last })));
            assert(before + (seq![(crumb_piece(sv, i as int, state.focus), CrumbRole::Path { last })] + tail.0)
                =~= crumb_views(out@) + tail.0);
            used = used + pw;
            i += 1;
        }
    }
    proof {
        if !done {
            assert(crumb_views(out@) + Seq::<(Seq<char>, CrumbRole)>::empty() =~= crumb_views(out@));
        }
    }
    assert(goal == (crumb_views(out@), used as int));
    if op_max > 0 {
        let gap: usize = if crumb_max > used { crumb_max - used } else { 0 };
        let ghost p0 = crumb_views(out@);
        if gap > 0 {
            out.push(CrumbSpan { text: spaces_exec(gap), role: CrumbRole::Gap });
        }
        let ghost p1 = crumb_views(out@);
        assert(p1 =~= p0 + (if gap > 0 { seq![(spaces(gap as int), CrumbRole::Gap)] } else { Seq::empty() }));
        let used2 = used + gap;
        if used2 < w {
            out.push(CrumbSpan { text: crate::text::owned(" "), role: CrumbRole::Gap });
        }
        let ghost p2 = crumb_views(out@);
        assert(p2 =~= p1 + (if used2 < w { seq![(" "@, CrumbRole::Gap)] } else { Seq::empty() }));
        let error = is_op_status_error(op.as_str());
        out.push(CrumbSpan { text: truncate_visible(op.as_str(), op_max), role: CrumbRole::Op { error } });
        assert(crumb_views(out@) =~= p2 + seq![(truncate_spec(op@, op_max as nat), CrumbRole::Op { error })]);
    }
    out
}


/* ── Which row the hint bar describes ──────────────────────────────────── */

/// Kind of a workspace-tree row.
#[derive(Clone, Copy, Debug, PartialEq, Eq)]
pub enum TreeRowKind {
    Workspace,
    Repo,
    Checkout,
    Group,
    Dir,
    File,
}

/// What the hint bar reads to pick the active row kind.
#[derive(Clone, Copy, Debug, PartialEq, Eq)]
pub struct HintFocus {
    /// The graph list has keyboard focus.
    pub graph_pane_focused: bool,
    /// The commit-file list has keyboard focus.
    pub commit_files_focused: bool,
    /// Kind of the focused commit-file row, if any.
    pub commit_file_kind: Option<CommitFileRowKind>,
    /// The drill stack is at a commit diff.
    pub drill_is_diff: bool,
    /// The right pane shows the focused tree file's diff.
    pub right_is_diff: bool,
    /// Focused pane.
    pub focus: FocusPane,
    /// Kind of the focused tree row, if any.
    pub tree_kind: Option<TreeRowKind>,
}

/// Active row kind: the focused graph row, the focused commit-file row, a
/// diff in the right pane (a file), else the focused tree row.
pub open spec fn hint_row_kind_spec(f: HintFocus, graph_row: Option<GraphRow>) -> HintRowKind {
    if f.graph_pane_focused {
        match graph_row {
            Some(GraphRow::Commit { .. }) => HintRowKind::GraphCommit,
            Some(GraphRow::Worktree(_)) => HintRowKind::GraphCommit,
            Some(GraphRow::Stash(_)) => HintRowKind::GraphStash,
            Some(GraphRow::Uncommitted { .. }) => HintRowKind::GraphUncommitted,
            None => HintRowKind::Workspace,
        }
    } else if f.commit_files_focused {
        match f.commit_file_kind {
            Some(CommitFileRowKind::Dir) => HintRowKind::Dir,
            _ => HintRowKind::File,
        }
    } else if (f.drill_is_diff || f.right_is_diff) && f.focus is Right {
        HintRowKind::File
    } else {
        match f.tree_kind {
            Some(TreeRowKind::Workspace) => HintRowKind::Workspace,
            Some(TreeRowKind::Repo) => HintRowKind::Repo,
            Some(TreeRowKind::Checkout) => HintRowKind::Checkout,
            Some(TreeRowKind::Group) => HintRowKind::Group,
            Some(TreeRowKind::Dir) => HintRowKind::Dir,
            Some(TreeRowKind::File) => HintRowKind::File,
            None => HintRowKind::Workspace,
        }
    }
}

/// Active row kind for the hint bar.
pub fn hint_row_kind(f: HintFocus, graph_row: Option<&GraphRow>) -> (k: HintRowKind)
    ensures
        k == hint_row_kind_spec(f, match graph_row {
            Some(g) => Some(*g),
            None => None,
        }),
{
    if f.graph_pane_focused {
        return match graph_row {
            Some(GraphRow::Commit { .. }) => HintRowKind::GraphCommit,
            Some(GraphRow::Worktree(_)) => HintRowKind::GraphCommit,
            Some(GraphRow::Stash(_)) => HintRowKind::GraphStash,
            Some(GraphRow::Uncommitted { .. }) => HintRowKind::GraphUncommitted,
            None => HintRowKind::Workspace,
        };
    }
    if f.commit_files_focused {
        return match f.commit_file_kind {
            Some(CommitFileRowKind::Dir) => HintRowKind::Dir,
            _ => HintRowKind::File,
        };
    }
    let right = match f.focus {
        FocusPane::Left => false,
        FocusPane::Right => true,
    };
    if (f.drill_is_diff || f.right_is_diff) && right {
        return HintRowKind::File;
    }
    match f.tree_kind {
        Some(TreeRowKind::Workspace) => HintRowKind::Workspace,
        Some(TreeRowKind::Repo) => HintRowKind::Repo,
        Some(TreeRowKind::Checkout) => HintRowKind::Checkout,
        Some(TreeRowKind::Group) => HintRowKind::Group,
        Some(TreeRowKind::Dir) => HintRowKind::Dir,
        Some(TreeRowKind::File) => HintRowKind::File,
        None => HintRowKind::Workspace,
    }
}


/* ── Laws ──────────────────────────────────────────────────────────────── */

/// Tree writes (stage, revert, fetch, pull, push, …) never show a chip once
/// the view is drilled in or the right pane has focus.
pub proof fn lemma_tree_writes_hidden(ctx: HintContext, id: HintActionId)
    requires
        ctx.depth >= 1 || ctx.focus is Right,
        tree_write_blocked(id),
    ensures
        !action_visible(ctx, id),
{
}

/// The Ctrl-C quit prompt is never a breadcrumb toast: with the prompt as
/// the status, the breadcrumb carries no op status.
pub proof fn lemma_quit_prompt_not_in_breadcrumb(st: ChromeState)
    requires
        st.status@ == CTRL_C_EXIT_PROMPT@,
    ensures
        op_status_spec(st) == Seq::<char>::empty(),
{
}

/// Help hides the breadcrumb, so the chrome below the panes is the quit
/// prompt row (if pinned) plus the help overlay.
pub proof fn lemma_help_hides_breadcrumb(st: ChromeState)
    requires
        st.help_open,
    ensures
        breadcrumb_rows_spec(st) == 0,
{
}

} // verus!
