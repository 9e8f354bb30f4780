//! Elm-style Action / Effect for the TUI.

use vstd::prelude::*;

use crate::drill::CommitFileSource;

verus! {

/// Key that opened the command palette.
#[derive(Clone, Copy, Debug, PartialEq, Eq, Structural)]
pub enum PaletteOpenedBy {
    /// `:` prompt.
    Colon,
    /// `Ctrl-k` prompt.
    CtrlK,
}

/// Which object an external diff compares.
#[derive(Clone, Copy, Debug, PartialEq, Eq, Structural)]
pub enum ExternalDiffKind {
    /// HEAD versus the worktree file.
    Worktree,
    /// Two blobs of a commit or stash.
    Rev,
}

/// User or system input that changes TUI state.
#[derive(Clone, Copy, Debug, PartialEq, Eq, Structural)]
pub enum Action {
    Quit,
    /// Double Ctrl-C quit chord: first press prompts, second quits.
    CtrlC,
    ToggleHelp,
    Move(i32),
    MoveToStart,
    MoveToEnd,
    PageMove(i32),
    FoldToggle,
    /// Second `z` inside the double-tap window: subtree fold.
    FoldToggleSubtree,
    /// First `g` of a `gg` chord.
    ArmGChord,
    FoldClose,
    FoldOpen,
    ToggleShowIgnored,
    ToggleTreeMode,
    Fetch,
    Pull,
    DefaultBranch,
    Refresh,
    ToggleReviewed,
    FocusLeft,
    FocusRight,
    ScrollDiff(i32),
    /// Horizontal pan on the focused pane. Positive looks right.
    PanDiff(i32),
    /// Toggle unlimited `-U` context on the focused file diff.
    ToggleFullContext,
    Click { col: u16, row: u16 },
    Drag { col: u16, row: u16 },
    Release,
    ToggleDiffMode,
    ScrollWheel { col: u16, row: u16, delta: i32, horizontal: bool },
    SearchStart,
    SearchChar(char),
    SearchBackspace,
    SearchSubmit,
    SearchCancel,
    SearchNext,
    SearchPrev,
    Stage,
    Unstage,
    Revert,
    ConfirmYes,
    ConfirmYesClean,
    ConfirmNo,
    Edit,
    /// Open the focused file in the configured diff tool.
    ExternalDiff,
    WatchTick,
    FetchTick,
    RemoveWorktree,
    Push,
    StashMenu,
    StashMenuChar(char),
    StashMenuEnter,
    StashMenuCancel,
    Branch,
    BranchMove(i32),
    BranchChar(char),
    BranchBackspace,
    BranchSubmit,
    BranchCancel,
    CreateBranchStart,
    CreateBranchChar(char),
    CreateBranchBackspace,
    CreateBranchSubmit,
    CreateBranchCancel,
    NavEnter,
    NavEsc,
    GraphStashApply,
    GraphStashPop,
    GraphStashDrop,
    GraphCheckout,
    GraphCreateBranch,
    GraphMerge,
    /// Open the graph branch-focus picker.
    GraphFocusBranches,
    /// Apply the graph branch-focus picker.
    GraphFocusSubmit,
    /// Drop graph focus (back to `--all`).
    GraphFocusClear,
    /// Open the comment overlay on the focused row.
    CommentStart,
    /// Save the comment overlay.
    CommentSubmit,
    /// Start a visual line range on the diff.
    DiffVisualStart,
    /// Copy comments as markdown.
    ExportComments,
    /// Copy a pasteable reference to the focused entity.
    CopyEntityReference,
    CycleTheme,
    ToggleMouse,
    /// Terminal size changed.
    Resize { cols: u16, rows: u16 },
    /// Nothing to do.
    NoOp,
}

/// Side effect requested after dispatch.
#[derive(Debug, PartialEq, Eq)]
pub enum Effect {
    /// Nothing to do.
    NoOp,
    Quit,
    /// Per-repo writes applied in first-seen order when the focused scope
    /// spans more than one repo.
    Batch(Vec<Effect>),
    Fetch { repos: Vec<String> },
    Pull { repos: Vec<String> },
    DefaultBranch { repos: Vec<String> },
    /// Reload every checkout.
    ReloadSnapshot,
    /// Reload one checkout.
    ReloadRepo { repo: String },
    LoadRightPane,
    Stage { repo: String, paths: Vec<String> },
    Unstage { repo: String, paths: Vec<String> },
    Revert { repo: String, tracked_paths: Vec<String>, untracked_paths: Vec<String> },
    EditFile { repo: String, path: String },
    ExternalDiff { repo: String, path: String, kind: ExternalDiffKind },
    WatchRefresh,
    Push { repos: Vec<String> },
    PrepareStashMenu { repo: String },
    StashCreate { repo: String, paths: Vec<String> },
    StashApply { repo: String, stash_ref: String },
    StashPop { repo: String, stash_ref: String },
    StashDrop { repo: String, stash_ref: String },
    PrepareBranchPicker { repo: String },
    PrepareGraphFocusPicker { repo: String },
    CheckoutBranch {
        repo: String,
        /// Picker or graph selection. May be `origin/<name>`.
        selected_name: String,
        /// After origin confirm Yes: `merge --ff-only` this remote-tracking ref.
        fast_forward_ref: Option<String>,
    },
    CreateBranch { repo: String, name: String },
    CreateBranchAt { repo: String, name: String, commit_id: String },
    MergeIntoHead {
        repo: String,
        /// Branch name, `origin/…`, or commit SHA.
        rev: String,
        /// Overlay / status label for `rev`.
        label: String,
    },
    RemoveWorktree { primary: String, path: String, force: bool },
    LoadCommitFiles { repo: String, source: CommitFileSource },
    LoadCommitDiff { repo: String, source: CommitFileSource, path: String },
    /// Copy `text`; `announce` says whether the status line reports it.
    CopyClipboard { text: String, announce: bool },
    DropCommitDiff,
}

} // verus!
