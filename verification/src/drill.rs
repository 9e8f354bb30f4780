//! Commit-files drill stack: graph → file list → file diff.

use vstd::prelude::*;

use crate::diff::DiffContent;
use crate::graph_load::GraphRow;

verus! {

/// Git object that a commit-file list / diff is scoped to.
#[derive(Clone, Debug, PartialEq, Eq)]
pub enum CommitFileSource {
    /// First-parent files of a commit.
    Commit { commit_id: String },
    /// Files recorded in a stash entry.
    Stash { stash_ref: String },
    /// Dirty worktree versus HEAD.
    Worktree,
}

/// One file in a commit / stash / worktree list.
#[derive(Clone, Debug, PartialEq, Eq)]
pub struct CommitFile {
    pub status: String,
    pub path: String,
    pub old_path: Option<String>,
}

/// Right-pane drill depth: graph → file list → file diff.
#[derive(Clone, Debug, PartialEq, Eq)]
pub enum DrillView {
    /// Graph (or the tree-file worktree diff when the tree focuses a file).
    Graph,
    /// Depth 1: files in the selected commit / stash / worktree.
    Files { repo: String, source: CommitFileSource, files: Vec<CommitFile>, cursor: usize },
    /// Depth 2: numbered file diff (commit-file list on the left).
    Diff {
        repo: String,
        source: CommitFileSource,
        files: Vec<CommitFile>,
        file_cursor: usize,
        path: String,
        content: DiffContent,
    },
}

impl DrillView {
    pub fn is_graph(&self) -> (b: bool)
        ensures
            b == (*self is Graph),
    {
        match self {
            DrillView::Graph => true,
            _ => false,
        }
    }

    pub fn is_files(&self) -> (b: bool)
        ensures
            b == (*self is Files),
    {
        match self {
            DrillView::Files { .. } => true,
            _ => false,
        }
    }

    pub fn is_diff(&self) -> (b: bool)
        ensures
            b == (*self is Diff),
    {
        match self {
            DrillView::Diff { .. } => true,
            _ => false,
        }
    }

    /// `cursor` clamped into `files` (0 when empty).
    pub fn files_cursor(files: &[CommitFile], cursor: usize) -> (c: usize)
        ensures
            files.len() == 0 ==> c == 0,
            files.len() > 0 ==> c == (if cursor < files.len() {
                cursor as int
            } else {
                files.len() - 1
            }),
    {
        if files.len() == 0 {
            0
        } else if cursor < files.len() - 1 {
            cursor
        } else {
            files.len() - 1
        }
    }

    /// ViewStack depth analogue: graph 0, commit files 1, commit diff 2.
    pub fn depth(&self) -> (d: u8)
        ensures
            d == match *self {
                DrillView::Graph => 0u8,
                DrillView::Files { .. } => 1u8,
                DrillView::Diff { .. } => 2u8,
            },
    {
        match self {
            DrillView::Graph => 0,
            DrillView::Files { .. } => 1,
            DrillView::Diff { .. } => 2,
        }
    }
}


/// Commit-file source of a graph row: its commit, its stash, or the
/// working tree; another checkout's row has none.
pub open spec fn source_spec(row: GraphRow) -> Option<CommitFileSource> {
    match row {
        GraphRow::Commit { commit, .. } => Some(CommitFileSource::Commit { commit_id: commit.id }),
        GraphRow::Stash(stash) => Some(CommitFileSource::Stash { stash_ref: stash.stash_ref }),
        GraphRow::Uncommitted { .. } => Some(CommitFileSource::Worktree),
        GraphRow::Worktree(_) => None,
    }
}

/// Map a focused graph row to a commit-file source.
pub fn source_from_graph_row(row: &GraphRow) -> (r: Option<CommitFileSource>)
    ensures
        r == source_spec(*row),
{
    match row {
        GraphRow::Commit { commit, .. } => Some(CommitFileSource::Commit { commit_id: commit.id.clone() }),
        GraphRow::Stash(stash) => Some(CommitFileSource::Stash { stash_ref: stash.stash_ref.clone() }),
        GraphRow::Uncommitted { .. } => Some(CommitFileSource::Worktree),
        GraphRow::Worktree(_) => None,
    }
}

/// Stash ref when the focused graph row is a stash.
pub fn stash_ref_from_graph_row(row: &GraphRow) -> (r: Option<String>)
    ensures
        r == match *row {
            GraphRow::Stash(stash) => Some(stash.stash_ref),
            _ => None::<String>,
        },
{
    match row {
        GraphRow::Stash(stash) => Some(stash.stash_ref.clone()),
        _ => None,
    }
}


/// Git work the right pane needs for the current focus.
#[derive(Clone, Copy, Debug, PartialEq, Eq)]
pub enum RightPaneJob {
    /// Depth 2: the focused commit file's diff.
    CommitDiff,
    /// Graph level with a tree file focused: that file's worktree diff.
    FileDiff,
    /// The focused repo's graph; `same_repo` keeps the loaded window size,
    /// `with_files` also lists the followed commit's files.
    Graph { same_repo: bool, with_files: bool },
    /// Graph level with nothing to show.
    Clear,
    /// Depth 1 without a graph repo: the followed commit's files.
    CommitFiles,
    /// Nothing to load.
    Nothing,
}

/// What the right pane's request knows about the focus.
#[derive(Clone, Copy, Debug, PartialEq, Eq)]
pub struct RightPaneFocus {
    /// A commit-file row is focused at depth 2.
    pub follow_diff: bool,
    /// The drill stack is at the graph.
    pub in_graph: bool,
    /// A changed tree file is focused.
    pub focused_file: bool,
    /// The focus names a repo whose graph can load.
    pub graph_repo: bool,
    /// That repo's graph is the one already loaded.
    pub same_repo: bool,
    /// Depth 1 follows a commit / stash / worktree file list.
    pub follow_files: bool,
}

/// Right-pane job, in priority order: a depth-2 diff, a worktree file diff
/// at the graph level, the repo graph, then clear / file list / nothing.
pub open spec fn right_pane_job_spec(f: RightPaneFocus) -> RightPaneJob {
    if f.follow_diff {
        RightPaneJob::CommitDiff
    } else if f.in_graph && f.focused_file {
        RightPaneJob::FileDiff
    } else if f.graph_repo {
        RightPaneJob::Graph { same_repo: f.same_repo, with_files: f.follow_files }
    } else if f.in_graph {
        RightPaneJob::Clear
    } else if f.follow_files {
        RightPaneJob::CommitFiles
    } else {
        RightPaneJob::Nothing
    }
}

/// Pick the git work for the right pane.
pub fn right_pane_job(f: RightPaneFocus) -> (r: RightPaneJob)
    ensures
        r == right_pane_job_spec(f),
{
    if f.follow_diff {
        RightPaneJob::CommitDiff
    } else if f.in_graph && f.focused_file {
        RightPaneJob::FileDiff
    } else if f.graph_repo {
        RightPaneJob::Graph { same_repo: f.same_repo, with_files: f.follow_files }
    } else if f.in_graph {
        RightPaneJob::Clear
    } else if f.follow_files {
        RightPaneJob::CommitFiles
    } else {
        RightPaneJob::Nothing
    }
}

} // verus!
