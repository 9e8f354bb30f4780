//! The effect interpreter's decisions: which jobs an [`Effect`] queues, how
//! a finished job's outcome changes the app, and what the event loop waits
//! for next.
//!
//! The runner owns threads, git and the terminal. It hands each finished
//! job back as a [`JobOutcome`] and performs each [`JobRequest`] and
//! [`LoopAction`] these functions return. A result whose generation is no
//! longer the latest, or whose drill / graph identity / focused checkout no
//! longer matches the live state, is dropped.

use vstd::prelude::*;

use crate::action::{Action, Effect, ExternalDiffKind};
use crate::branches::LocalBranch;
use crate::checkout::{apply_merge_compute, merge_spec, CheckoutCompute, MergeCompute};
use crate::event_pump::{
    action_triggers_graph_autoload, classify_busy_action, overlay_blocks_background_ticks, starts_write_spec, BusyAction,
};
use crate::keys::InputMode;
use crate::diff::DiffContent;
use crate::drill::{CommitFile, CommitFileSource, DrillView};
use crate::graph_load::{
    autoload_limit_spec, commit_views, merge_autoload, merged_extras, merged_window, should_autoload,
    GraphModel, ShouldAutoload,
};
use crate::comments::target::str_in;
use crate::text::{decimal, get_prefix, push_decimal, push_str, starts_with, str_eq, str_get_prefix, str_starts_with};

verus! {

/// Remote batch or default-branch run shown in the status line.
#[derive(Clone, Copy, Debug, PartialEq, Eq, Structural)]
pub enum RunningOp {
    Fetch,
    Pull,
    Push,
    DefaultBranch,
}

/// Status line as the interpreter sets it.
#[derive(Clone, Debug, PartialEq, Eq)]
pub enum StatusLine {
    Text(String),
    /// Graph autoload in flight.
    LoadingOlder,
    /// `done` of `total` repos finished.
    Running { op: RunningOp, done: usize, total: usize },
    /// Batch over, with its tallies.
    Completed { op: RunningOp, ok: usize, failed: usize },
    Copied,
    CopyFailed,
    /// The worktree has local changes, so checkout or merge did not start.
    DirtyWorktree,
    /// A merge of `label` ended with `result`; the text is
    /// `merge_spec(label, result).0`.
    Merged { label: String, result: MergeCompute },
}

/// A fetch / pull / push batch over several repos.
#[derive(Clone, Debug, PartialEq, Eq)]
pub struct BulkRun {
    pub kind: RunningOp,
    pub repos: Vec<String>,
    pub done: usize,
    pub ok: usize,
    pub failed: usize,
}

/// Repos switched to their default branch one after another.
#[derive(Clone, Debug, PartialEq, Eq)]
pub struct DefaultRun {
    /// Repos of the run, in order.
    pub repos: Vec<String>,
    /// Index of the next repo to start.
    pub next: usize,
    pub total: usize,
    pub done: usize,
    pub ok: usize,
    pub failed: usize,
}

/// What the interpreter keeps between calls.
#[derive(Debug, PartialEq, Eq)]
pub struct InterpState {
    /// Latest generation handed out per kind of job; only a result carrying
    /// the latest one is applied.
    pub commit_files_gen: u64,
    pub commit_diff_gen: u64,
    pub prepare_stash_gen: u64,
    pub prepare_branches_gen: u64,
    pub autoload_gen: u64,
    /// Latest right-pane request id.
    pub pane_req: u64,
    /// Generation of the latest snapshot collect (watch tick or reload).
    pub snapshot_gen: u64,
    /// Exclusive write jobs queued or running.
    pub writes_pending: usize,
    pub bulk: Option<BulkRun>,
    pub default_run: DefaultRun,
    /// `$EDITOR` request for the live loop: (repo, path).
    pub pending_edit: Option<(String, String)>,
    /// External diff request for the live loop: (repo, path, kind).
    pub pending_diff: Option<(String, String, ExternalDiffKind)>,
    /// Something changed that needs a repaint.
    pub dirty: bool,
}

/// The parts of the app state that the interpreter reads and writes.
#[derive(Debug, PartialEq, Eq)]
pub struct AppModel {
    pub status: StatusLine,
    pub drill: DrillView,
    pub focused_checkout: Option<String>,
    /// Repo of the graph the focused tree row shows, when no graph is loaded.
    pub focused_graph_repo: Option<String>,
    pub graph: Option<GraphModel>,
    /// (repo, head) the loaded graph belongs to.
    pub graph_identity: Option<(String, String)>,
    pub graph_loading_older: bool,
    /// Graph cursor row.
    pub graph_cursor: usize,
    /// Rows the graph pane lists.
    pub graph_rows: usize,
    /// The right pane shows a worktree file diff outside the commit drill.
    pub plain_diff_on_right: bool,
    /// Open stash menu: (repo, latest stash ref).
    pub stash_menu: Option<(String, Option<String>)>,
    pub branch_picker: Option<(String, Vec<LocalBranch>)>,
    pub graph_focus_picker: Option<(String, Vec<LocalBranch>)>,
    /// Out-of-sync checkout prompt: (repo, local branch, remote ref).
    pub checkout_confirm: Option<(String, String, String)>,
    /// Branch and default-branch override of each checkout, as the
    /// snapshot lists them.
    pub checkout_rows: Vec<CheckoutBranchRow>,
    /// Checkouts stamped with a flash, oldest first.
    pub flashed: Vec<String>,
    /// What the right pane should show for the current focus.
    pub pane_target: PaneTarget,
    /// Worktree file diff the right pane shows: (repo, path, content).
    pub right_diff: Option<(String, String, DiffContent)>,
}

/// What the right pane loads for the current focus; a loaded result is
/// shown only while the focus still names the same thing.
#[derive(Debug, PartialEq, Eq)]
pub struct PaneTarget {
    /// The drill is at the graph.
    pub in_graph: bool,
    /// Focused changed file: (repo, path).
    pub file: Option<(String, String)>,
    /// Repo whose graph the focus shows.
    pub graph_repo: Option<String>,
    /// Depth 1 file list the focus follows.
    pub follow_files: Option<(String, CommitFileSource)>,
    /// Depth 2 commit-file diff the focus follows: (repo, source, path).
    pub follow_diff: Option<(String, CommitFileSource, String)>,
}

/// A right-pane load's result.
#[derive(Debug, PartialEq, Eq)]
pub enum PaneLoad {
    /// A worktree file diff.
    Diff { repo: String, path: String, content: DiffContent },
    /// A repo graph, its (repo, head), and the followed commit's files.
    Graph { model: GraphModel, identity: (String, String), files: Option<(String, CommitFileSource, Vec<CommitFile>)> },
    /// Nothing to show at the graph level.
    Clear,
    /// The followed commit's files.
    CommitFiles { repo: String, source: CommitFileSource, files: Vec<CommitFile> },
    /// The followed commit file's diff.
    CommitDiff {
        repo: String,
        source: CommitFileSource,
        files: Vec<CommitFile>,
        file_cursor: usize,
        path: String,
        content: DiffContent,
    },
    /// Nothing to load.
    Nothing,
}

/// One checkout of the snapshot, in the fields a default-branch switch reads.
#[derive(Clone, Debug, PartialEq, Eq)]
pub struct CheckoutBranchRow {
    pub repo: String,
    pub branch: String,
    pub default_branch_override: Option<String>,
}

/// A finished job, as the runner hands it back.
#[derive(Debug, PartialEq, Eq)]
pub enum JobOutcome {
    Write { status: String },
    BulkRemote { ok: bool },
    DefaultBranch { ok: bool },
    PrepareStash { gen: u64, repo: String, latest: Option<String> },
    PrepareBranches { gen: u64, repo: String, branches: Vec<LocalBranch>, graph_focus: bool },
    Autoload { gen: u64, page: GraphModel, identity: (String, String), prev_status: StatusLine },
    CommitFiles { gen: u64, repo: String, source: CommitFileSource, files: Vec<CommitFile> },
    CommitDiff {
        gen: u64,
        repo: String,
        source: CommitFileSource,
        files: Vec<CommitFile>,
        file_cursor: usize,
        path: String,
        content: DiffContent,
    },
    /// Whether the copy worked, and whether the status line reports it.
    Clipboard { ok: bool, announce: bool },
    /// A branch checkout's git result.
    Checkout { repo: String, result: CheckoutCompute },
    /// A merge into HEAD's git result.
    Merge { label: String, result: MergeCompute },
    /// A right-pane load for request `req_id`, made for `target`.
    RightPane { req_id: u64, target: PaneTarget, load: PaneLoad },
    /// One checkout's status from the snapshot collect of generation `gen`:
    /// its row, or `None` when it is gone; `pane_changed` when its watch
    /// identity or file signatures moved ([`focused_repo_needs_pane`]).
    RepoStatus { gen: u64, path: String, row: Option<CheckoutBranchRow>, pane_changed: bool },
    /// The checkouts discovery found, for collect generation `gen`.
    Discovered { gen: u64, paths: Vec<String> },
}

/// Work for the runner.
#[derive(Debug, PartialEq, Eq)]
pub enum JobRequest {
    /// Watch tick: re-read the checkouts as collect generation `gen`.
    WatchRefresh { focused: Option<String>, gen: u64 },
    /// Reload every checkout as collect generation `gen`.
    ReloadSnapshot { focused: Option<String>, gen: u64 },
    /// Reload one checkout within collect generation `gen`.
    ReloadRepo { repo: String, gen: u64 },
    /// Load the right pane for `target`; the result carries `req_id`.
    LoadPane { req_id: u64, target: PaneTarget },
    /// One repo of a fetch / pull / push batch.
    Bulk { kind: RunningOp, repo: String },
    /// Switch `repo` to its default branch; `task` is the checked-out
    /// branch and the default-branch override the snapshot lists for it
    /// (`None` when the snapshot has no such checkout: the switch fails).
    DefaultBranch { repo: String, task: Option<(String, Option<String>)> },
    /// A git write; when it succeeds the status line reads
    /// [`write_ok_status`] of the effect, else the git error.
    Write { effect: Effect },
    /// Checkout or merge; the runner reports a `Checkout` / `Merge` outcome.
    Exclusive { effect: Effect },
    PrepareStash { gen: u64, repo: String },
    PrepareBranches { gen: u64, repo: String, graph_focus: bool },
    CommitFiles { gen: u64, repo: String, source: CommitFileSource },
    CommitDiff { gen: u64, repo: String, source: CommitFileSource, path: String },
    CopyClipboard { text: String, announce: bool },
    /// Load the next graph page for this (repo, head).
    Autoload { gen: u64, identity: (String, String) },
}

impl InterpState {
    /// Nothing queued, every generation at 0.
    pub fn new() -> (r: Self)
        ensures
            r.commit_files_gen == 0 && r.commit_diff_gen == 0 && r.prepare_stash_gen == 0,
            r.prepare_branches_gen == 0 && r.autoload_gen == 0 && r.pane_req == 0 && r.snapshot_gen == 0,
            r.writes_pending == 0 && r.bulk is None && !r.dirty,
            r.default_run.repos@.len() == 0 && r.default_run.next == 0 && r.default_run.total == 0,
            r.default_run.done == 0 && r.default_run.ok == 0 && r.default_run.failed == 0,
            r.pending_edit is None && r.pending_diff is None,
    {
        InterpState {
            commit_files_gen: 0,
            commit_diff_gen: 0,
            prepare_stash_gen: 0,
            prepare_branches_gen: 0,
            autoload_gen: 0,
            pane_req: 0,
            snapshot_gen: 0,
            writes_pending: 0,
            bulk: None,
            default_run: DefaultRun { repos: Vec::new(), next: 0, total: 0, done: 0, ok: 0, failed: 0 },
            pending_edit: None,
            pending_diff: None,
            dirty: false,
        }
    }
}

impl AppModel {
    /// Empty status, graph drill, nothing focused, loaded or open.
    pub fn new() -> (r: Self)
        ensures
            r.status matches StatusLine::Text(t) && t@.len() == 0,
            r.drill is Graph,
            r.focused_checkout is None && r.focused_graph_repo is None,
            r.graph is None && r.graph_identity is None && !r.graph_loading_older,
            r.graph_cursor == 0 && r.graph_rows == 0 && !r.plain_diff_on_right,
            r.stash_menu is None && r.branch_picker is None && r.graph_focus_picker is None,
            r.checkout_confirm is None && r.checkout_rows@.len() == 0,
            r.flashed@.len() == 0,
            r.pane_target == (PaneTarget {
                in_graph: true,
                file: None,
                graph_repo: None,
                follow_files: None,
                follow_diff: None,
            }),
            r.right_diff is None,
    {
        AppModel {
            status: StatusLine::Text(String::new()),
            drill: DrillView::Graph,
            focused_checkout: None,
            focused_graph_repo: None,
            graph: None,
            graph_identity: None,
            graph_loading_older: false,
            graph_cursor: 0,
            graph_rows: 0,
            plain_diff_on_right: false,
            stash_menu: None,
            branch_picker: None,
            graph_focus_picker: None,
            checkout_confirm: None,
            checkout_rows: Vec::new(),
            flashed: Vec::new(),
            pane_target: PaneTarget { in_graph: true, file: None, graph_repo: None, follow_files: None, follow_diff: None },
            right_diff: None,
        }
    }
}

/// The generation after `g`.
pub open spec fn next_gen(g: u64) -> u64 {
    if g == u64::MAX { 0 } else { (g + 1) as u64 }
}

fn bump(g: u64) -> (r: u64)
    ensures
        r == next_gen(g),
{
    if g == u64::MAX { 0 } else { g + 1 }
}

/// `n + 1`, held at the top of `usize`.
pub open spec fn inc(n: usize) -> usize {
    if n == usize::MAX { n } else { (n + 1) as usize }
}

fn inc_exec(n: usize) -> (r: usize)
    ensures
        r == inc(n),
{
    if n == usize::MAX { n } else { n + 1 }
}

/// `n - 1`, held at zero.
pub open spec fn dec(n: usize) -> usize {
    if n == 0 { 0 } else { (n - 1) as usize }
}

/// Both sources name the same object.
pub open spec fn same_source(a: CommitFileSource, b: CommitFileSource) -> bool {
    match (a, b) {
        (CommitFileSource::Commit { commit_id: x }, CommitFileSource::Commit { commit_id: y }) => x@ == y@,
        (CommitFileSource::Stash { stash_ref: x }, CommitFileSource::Stash { stash_ref: y }) => x@ == y@,
        (CommitFileSource::Worktree, CommitFileSource::Worktree) => true,
        _ => false,
    }
}

fn same_source_exec(a: &CommitFileSource, b: &CommitFileSource) -> (r: bool)
    ensures
        r == same_source(*a, *b),
{
    match (a, b) {
        (CommitFileSource::Commit { commit_id: x }, CommitFileSource::Commit { commit_id: y }) => str_eq(x.as_str(), y.as_str()),
        (CommitFileSource::Stash { stash_ref: x }, CommitFileSource::Stash { stash_ref: y }) => str_eq(x.as_str(), y.as_str()),
        (CommitFileSource::Worktree, CommitFileSource::Worktree) => true,
        _ => false,
    }
}

/// `o` holds a string equal to `t`.
pub open spec fn opt_is(o: Option<String>, t: String) -> bool {
    o matches Some(x) && x@ == t@
}

fn opt_is_exec(o: &Option<String>, t: &String) -> (r: bool)
    ensures
        r == opt_is(*o, *t),
{
    match o {
        Some(x) => str_eq(x.as_str(), t.as_str()),
        None => false,
    }
}

fn clone_opt(o: &Option<String>) -> (r: Option<String>)
    ensures
        r == *o,
{
    match o {
        Some(x) => Some(x.clone()),
        None => None,
    }
}

fn clone_source(s: &CommitFileSource) -> (r: CommitFileSource)
    ensures
        r == *s,
{
    match s {
        CommitFileSource::Commit { commit_id } => CommitFileSource::Commit { commit_id: commit_id.clone() },
        CommitFileSource::Stash { stash_ref } => CommitFileSource::Stash { stash_ref: stash_ref.clone() },
        CommitFileSource::Worktree => CommitFileSource::Worktree,
    }
}

/// `cursor` clamped into a list of `n` files (0 when empty).
pub open spec fn clamp_cursor(n: int, cursor: usize) -> usize {
    if n == 0 { 0 } else if cursor < n { cursor } else { (n - 1) as usize }
}

/// The first row for `repo`, if any.
pub open spec fn first_row(rows: Seq<CheckoutBranchRow>, repo: Seq<char>) -> Option<CheckoutBranchRow>
    decreases rows.len(),
{
    if rows.len() == 0 {
        None
    } else if rows[0].repo@ == repo {
        Some(rows[0])
    } else {
        first_row(rows.drop_first(), repo)
    }
}

/// What a default-branch switch of `repo` is handed: its branch and override.
pub open spec fn default_task(rows: Seq<CheckoutBranchRow>, repo: Seq<char>) -> Option<(String, Option<String>)> {
    match first_row(rows, repo) {
        Some(r) => Some((r.branch, r.default_branch_override)),
        None => None,
    }
}

fn default_task_exec(rows: &Vec<CheckoutBranchRow>, repo: &String) -> (r: Option<(String, Option<String>)>)
    ensures
        r == default_task(rows@, repo@),
{
    let mut i: usize = 0;
    assert(rows@.skip(0) =~= rows@);
    while i < rows.len()
        invariant
            i <= rows@.len(),
            first_row(rows@, repo@) == first_row(rows@.skip(i as int), repo@),
        decreases rows@.len() - i,
    {
        assert(rows@.skip(i as int)[0] == rows@[i as int]);
        if str_eq(rows[i].repo.as_str(), repo.as_str()) {
            return Some((rows[i].branch.clone(), clone_opt(&rows[i].default_branch_override)));
        }
        assert(rows@.skip(i as int).drop_first() =~= rows@.skip(i + 1));
        i += 1;
    }
    assert(rows@.skip(i as int) =~= Seq::<CheckoutBranchRow>::empty());
    None
}

/// A pane request for the current target.
pub open spec fn pane_job(i: InterpState, s: AppModel) -> JobRequest {
    JobRequest::LoadPane { req_id: next_gen(i.pane_req), target: s.pane_target }
}

/// Reload the snapshot around the focused checkout, then reload the pane.
pub open spec fn refresh_jobs(i: InterpState, s: AppModel) -> Seq<JobRequest> {
    seq![JobRequest::ReloadSnapshot { focused: s.focused_checkout, gen: next_gen(i.snapshot_gen) }, pane_job(i, s)]
}

/// The interpreter with a new pane request handed out.
pub open spec fn with_pane(i: InterpState) -> InterpState {
    InterpState { pane_req: next_gen(i.pane_req), ..i }
}

/// The interpreter with a new snapshot collect and a new pane request.
pub open spec fn with_refresh(i: InterpState) -> InterpState {
    InterpState { snapshot_gen: next_gen(i.snapshot_gen), ..with_pane(i) }
}

fn clone_pair(p: &(String, String)) -> (r: (String, String))
    ensures
        r == *p,
{
    (p.0.clone(), p.1.clone())
}

fn clone_target(t: &PaneTarget) -> (r: PaneTarget)
    ensures
        r == *t,
{
    PaneTarget {
        in_graph: t.in_graph,
        file: match &t.file {
            Some(p) => Some(clone_pair(p)),
            None => None,
        },
        graph_repo: clone_opt(&t.graph_repo),
        follow_files: match &t.follow_files {
            Some((r, s)) => Some((r.clone(), clone_source(s))),
            None => None,
        },
        follow_diff: match &t.follow_diff {
            Some((r, s, p)) => Some((r.clone(), clone_source(s), p.clone())),
            None => None,
        },
    }
}

fn pane_only(interp: &mut InterpState, state: &AppModel) -> (jobs: Vec<JobRequest>)
    ensures
        *final(interp) == with_pane(*old(interp)),
        jobs@ == seq![pane_job(*old(interp), *state)],
{
    interp.pane_req = bump(interp.pane_req);
    one_job(JobRequest::LoadPane { req_id: interp.pane_req, target: clone_target(&state.pane_target) })
}

fn refresh(interp: &mut InterpState, state: &AppModel) -> (jobs: Vec<JobRequest>)
    ensures
        jobs@ == refresh_jobs(*old(interp), *state),
        *final(interp) == with_refresh(*old(interp)),
{
    interp.snapshot_gen = bump(interp.snapshot_gen);
    let mut jobs: Vec<JobRequest> = Vec::new();
    jobs.push(JobRequest::ReloadSnapshot { focused: clone_opt(&state.focused_checkout), gen: interp.snapshot_gen });
    let mut pane = pane_only(interp, state);
    jobs.append(&mut pane);
    proof {
        assert(jobs@ =~= refresh_jobs(*old(interp), *state));
    }
    jobs
}

/// The repo a picker result must still match: the graph's repo for the
/// graph-focus picker, the focused checkout otherwise.
pub open spec fn picker_repo(s: AppModel, graph_focus: bool) -> Option<String> {
    if graph_focus {
        match s.graph_identity {
            Some((r, _)) => Some(r),
            None => s.focused_graph_repo,
        }
    } else {
        s.focused_checkout
    }
}

/// The live drill still shows what a commit-files result was loaded for.
pub open spec fn files_target_live(d: DrillView, repo: String, source: CommitFileSource) -> bool {
    d matches DrillView::Files { repo: r, source: src, .. } && r@ == repo@ && same_source(src, source)
}

/// The live drill still shows what a commit-diff result was loaded for.
pub open spec fn diff_target_live(d: DrillView, repo: String, source: CommitFileSource, path: String) -> bool {
    match d {
        DrillView::Diff { repo: r, source: src, path: p, .. } => r@ == repo@ && same_source(src, source) && p@ == path@,
        DrillView::Files { repo: r, source: src, .. } => r@ == repo@ && same_source(src, source),
        DrillView::Graph => false,
    }
}

/// The graph still belongs to `identity`.
pub open spec fn identity_live(s: AppModel, identity: (String, String)) -> bool {
    s.graph_identity matches Some((r, h)) && r@ == identity.0@ && h@ == identity.1@
}

/// Two optional strings name the same text.
pub open spec fn opt_str_eq(a: Option<String>, b: Option<String>) -> bool {
    match (a, b) {
        (Some(x), Some(y)) => x@ == y@,
        (None, None) => true,
        _ => false,
    }
}

/// Two pane targets name the same thing.
pub open spec fn pane_target_eq(a: PaneTarget, b: PaneTarget) -> bool {
    &&& a.in_graph == b.in_graph
    &&& match (a.file, b.file) {
        (Some((r1, p1)), Some((r2, p2))) => r1@ == r2@ && p1@ == p2@,
        (None, None) => true,
        _ => false,
    }
    &&& opt_str_eq(a.graph_repo, b.graph_repo)
    &&& match (a.follow_files, b.follow_files) {
        (Some((r1, s1)), Some((r2, s2))) => r1@ == r2@ && same_source(s1, s2),
        (None, None) => true,
        _ => false,
    }
    &&& match (a.follow_diff, b.follow_diff) {
        (Some((r1, s1, p1)), Some((r2, s2, p2))) => r1@ == r2@ && same_source(s1, s2) && p1@ == p2@,
        (None, None) => true,
        _ => false,
    }
}

fn opt_str_eq_exec(a: &Option<String>, b: &Option<String>) -> (r: bool)
    ensures
        r == opt_str_eq(*a, *b),
{
    match (a, b) {
        (Some(x), Some(y)) => str_eq(x.as_str(), y.as_str()),
        (None, None) => true,
        _ => false,
    }
}

fn pane_target_eq_exec(a: &PaneTarget, b: &PaneTarget) -> (r: bool)
    ensures
        r == pane_target_eq(*a, *b),
{
    let file = match (&a.file, &b.file) {
        (Some((r1, p1)), Some((r2, p2))) => str_eq(r1.as_str(), r2.as_str()) && str_eq(p1.as_str(), p2.as_str()),
        (None, None) => true,
        _ => false,
    };
    let follow_files = match (&a.follow_files, &b.follow_files) {
        (Some((r1, s1)), Some((r2, s2))) => str_eq(r1.as_str(), r2.as_str()) && same_source_exec(s1, s2),
        (None, None) => true,
        _ => false,
    };
    let follow_diff = match (&a.follow_diff, &b.follow_diff) {
        (Some((r1, s1, p1)), Some((r2, s2, p2))) => str_eq(r1.as_str(), r2.as_str()) && same_source_exec(s1, s2)
            && str_eq(p1.as_str(), p2.as_str()),
        (None, None) => true,
        _ => false,
    };
    a.in_graph == b.in_graph && file && opt_str_eq_exec(&a.graph_repo, &b.graph_repo) && follow_files && follow_diff
}

/// The file-list drill a loaded list opens: the cursor the drill already
/// had on a file list, clamped into the new one.
pub open spec fn files_drill(d: DrillView, repo: String, source: CommitFileSource, files: Vec<CommitFile>) -> DrillView {
    let cursor = match d {
        DrillView::Files { cursor, .. } => cursor,
        _ => 0,
    };
    DrillView::Files { repo, source, files, cursor: clamp_cursor(files@.len() as int, cursor) }
}

/// The app after a right-pane load is shown.
pub open spec fn pane_load_spec(s: AppModel, load: PaneLoad) -> AppModel {
    match load {
        PaneLoad::Diff { repo, path, content } => AppModel {
            right_diff: Some((repo, path, content)),
            plain_diff_on_right: true,
            ..s
        },
        PaneLoad::Graph { model, identity, files } => {
            let g = AppModel {
                graph: Some(model),
                graph_identity: Some(identity),
                graph_loading_older: false,
                plain_diff_on_right: false,
                right_diff: None,
                ..s
            };
            match files {
                Some((repo, source, fl)) => AppModel { drill: files_drill(s.drill, repo, source, fl), ..g },
                None => g,
            }
        },
        PaneLoad::Clear => AppModel {
            graph: None,
            graph_identity: None,
            right_diff: None,
            plain_diff_on_right: false,
            ..s
        },
        PaneLoad::CommitFiles { repo, source, files } => AppModel { drill: files_drill(s.drill, repo, source, files), ..s },
        PaneLoad::CommitDiff { repo, source, files, file_cursor, path, content } => AppModel {
            drill: DrillView::Diff { repo, source, files, file_cursor, path, content },
            ..s
        },
        PaneLoad::Nothing => s,
    }
}

/// The rows with every row of `repo` taken out, in order.
pub open spec fn without_repo(rows: Seq<CheckoutBranchRow>, repo: Seq<char>) -> Seq<CheckoutBranchRow>
    decreases rows.len(),
{
    if rows.len() == 0 {
        Seq::empty()
    } else {
        let r = without_repo(rows.drop_last(), repo);
        if rows.last().repo@ == repo { r } else { r.push(rows.last()) }
    }
}

/// The checkout rows after `o`: a current repo status replaces that
/// checkout's row (or drops it when the checkout is gone), a current
/// discovery keeps the rows of the checkouts it found.
pub open spec fn rows_after(i: InterpState, s: AppModel, o: JobOutcome) -> Seq<CheckoutBranchRow> {
    match o {
        JobOutcome::RepoStatus { gen, path, row, .. } => if gen == i.snapshot_gen {
            match row {
                Some(r) => without_repo(s.checkout_rows@, path@).push(r),
                None => without_repo(s.checkout_rows@, path@),
            }
        } else {
            s.checkout_rows@
        },
        JobOutcome::Discovered { gen, paths } => if gen == i.snapshot_gen {
            kept_rows(s.checkout_rows@, paths@)
        } else {
            s.checkout_rows@
        },
        _ => s.checkout_rows@,
    }
}

/// A result that carries a generation or a target is applied only while
/// its generation is the latest and its target is still on screen.
pub open spec fn outcome_current(i: InterpState, s: AppModel, o: JobOutcome) -> bool {
    match o {
        JobOutcome::PrepareStash { gen, repo, .. } => gen == i.prepare_stash_gen && opt_is(s.focused_checkout, repo),
        JobOutcome::PrepareBranches { gen, repo, graph_focus, .. } =>
            gen == i.prepare_branches_gen && opt_is(picker_repo(s, graph_focus), repo),
        JobOutcome::Autoload { gen, identity, .. } => gen == i.autoload_gen && identity_live(s, identity),
        JobOutcome::CommitFiles { gen, repo, source, .. } =>
            gen == i.commit_files_gen && files_target_live(s.drill, repo, source),
        JobOutcome::CommitDiff { gen, repo, source, path, .. } =>
            gen == i.commit_diff_gen && diff_target_live(s.drill, repo, source, path),
        JobOutcome::RightPane { req_id, target, .. } => req_id == i.pane_req && pane_target_eq(target, s.pane_target),
        JobOutcome::RepoStatus { gen, .. } => gen == i.snapshot_gen,
        JobOutcome::Discovered { gen, .. } => gen == i.snapshot_gen,
        _ => true,
    }
}

/// The graph autoload result merges into the live graph.
pub open spec fn autoload_merges(i: InterpState, s: AppModel, o: JobOutcome) -> bool {
    o matches JobOutcome::Autoload { gen, identity, .. } && gen == i.autoload_gen && identity_live(s, identity)
        && s.graph is Some
}

/// Effect of one finished job on (interpreter, app, new jobs). The app's
/// `flashed` list is given by [`apply_flash_spec`], its checkout rows by
/// [`rows_after`] and a merged graph by [`merge_autoload`]; here those
/// fields keep their old values.
pub open spec fn apply_spec(i: InterpState, s: AppModel, o: JobOutcome) -> (InterpState, AppModel, Seq<JobRequest>) {
    match o {
        JobOutcome::Write { status } => (
            InterpState { writes_pending: dec(i.writes_pending), dirty: true, ..with_refresh(i) },
            AppModel { status: StatusLine::Text(status), ..s },
            refresh_jobs(i, s),
        ),
        JobOutcome::BulkRemote { ok } => match i.bulk {
            None => (InterpState { dirty: true, ..i }, s, Seq::empty()),
            Some(b) => {
                let done = inc(b.done);
                let oks = if ok { inc(b.ok) } else { b.ok };
                let fails = if ok { b.failed } else { inc(b.failed) };
                if done >= b.repos.len() {
                    (
                        InterpState { bulk: None, dirty: true, ..with_refresh(i) },
                        AppModel { status: StatusLine::Completed { op: b.kind, ok: oks, failed: fails }, ..s },
                        refresh_jobs(i, s),
                    )
                } else {
                    (
                        InterpState {
                            bulk: Some(BulkRun { done, ok: oks, failed: fails, ..b }),
                            dirty: true,
                            ..i
                        },
                        AppModel { status: StatusLine::Running { op: b.kind, done, total: b.repos.len() }, ..s },
                        Seq::empty(),
                    )
                }
            },
        },
        JobOutcome::DefaultBranch { ok } => {
            let d = i.default_run;
            let d2 = DefaultRun {
                done: inc(d.done),
                ok: if ok { inc(d.ok) } else { d.ok },
                failed: if ok { d.failed } else { inc(d.failed) },
                ..d
            };
            let i2 = InterpState { writes_pending: dec(i.writes_pending), dirty: true, ..i };
            if d.next < d.repos.len() {
                (
                    InterpState {
                        default_run: DefaultRun { next: (d.next + 1) as usize, ..d2 },
                        writes_pending: inc(i2.writes_pending),
                        ..i2
                    },
                    AppModel { status: StatusLine::Running { op: RunningOp::DefaultBranch, done: d2.done, total: d.total }, ..s },
                    seq![JobRequest::DefaultBranch {
                        repo: d.repos[d.next as int],
                        task: default_task(s.checkout_rows@, d.repos[d.next as int]@),
                    }],
                )
            } else {
                (
                    InterpState { default_run: d2, ..with_refresh(i2) },
                    AppModel { status: StatusLine::Completed { op: RunningOp::DefaultBranch, ok: d2.ok, failed: d2.failed }, ..s },
                    refresh_jobs(i, s),
                )
            }
        },
        JobOutcome::PrepareStash { repo, latest, .. } => if outcome_current(i, s, o) {
            (InterpState { dirty: true, ..i }, AppModel { stash_menu: Some((repo, latest)), ..s }, Seq::empty())
        } else {
            (i, s, Seq::empty())
        },
        JobOutcome::PrepareBranches { repo, branches, graph_focus, .. } => if outcome_current(i, s, o) {
            (
                InterpState { dirty: true, ..i },
                if graph_focus {
                    AppModel { graph_focus_picker: Some((repo, branches)), ..s }
                } else {
                    AppModel { branch_picker: Some((repo, branches)), ..s }
                },
                Seq::empty(),
            )
        } else {
            (i, s, Seq::empty())
        },
        JobOutcome::Autoload { gen, identity, prev_status, .. } => if gen == i.autoload_gen {
            let s2 = if autoload_merges(i, s, o) { AppModel { graph_identity: Some(identity), ..s } } else { s };
            (
                InterpState { dirty: true, ..i },
                AppModel {
                    graph_loading_older: false,
                    status: if s.status is LoadingOlder { prev_status } else { s.status },
                    ..s2
                },
                Seq::empty(),
            )
        } else {
            (i, s, Seq::empty())
        },
        JobOutcome::CommitFiles { repo, source, files, .. } => if outcome_current(i, s, o) {
            let cursor = match s.drill {
                DrillView::Files { cursor, .. } => cursor,
                _ => 0,
            };
            (
                InterpState { dirty: true, ..i },
                AppModel {
                    drill: DrillView::Files { repo, source, files, cursor: clamp_cursor(files@.len() as int, cursor) },
                    ..s
                },
                Seq::empty(),
            )
        } else {
            (i, s, Seq::empty())
        },
        JobOutcome::CommitDiff { repo, source, files, file_cursor, path, content, .. } => if outcome_current(i, s, o) {
            (
                InterpState { dirty: true, ..i },
                AppModel { drill: DrillView::Diff { repo, source, files, file_cursor, path, content }, ..s },
                Seq::empty(),
            )
        } else {
            (i, s, Seq::empty())
        },
        JobOutcome::Clipboard { ok, announce } => (
            InterpState { dirty: true, ..i },
            if announce {
                AppModel { status: if ok { StatusLine::Copied } else { StatusLine::CopyFailed }, ..s }
            } else {
                s
            },
            Seq::empty(),
        ),
        JobOutcome::Checkout { repo, result } => {
            let i2 = InterpState { writes_pending: dec(i.writes_pending), dirty: true, ..with_pane(i) };
            let pane = seq![pane_job(i, s)];
            match result {
                CheckoutCompute::Dirty => (i2, AppModel { status: StatusLine::DirtyWorktree, ..s }, pane),
                CheckoutCompute::Failed { status, clear_picker } => (
                    i2,
                    AppModel {
                        status: StatusLine::Text(status),
                        branch_picker: if clear_picker { None } else { s.branch_picker },
                        ..s
                    },
                    pane,
                ),
                CheckoutCompute::Confirm { local_branch, remote_ref } => (
                    i2,
                    AppModel { branch_picker: None, checkout_confirm: Some((repo, local_branch, remote_ref)), ..s },
                    pane,
                ),
                CheckoutCompute::Done { status } => (
                    InterpState { snapshot_gen: next_gen(i.snapshot_gen), ..i2 },
                    AppModel { status: StatusLine::Text(status), branch_picker: None, ..s },
                    refresh_jobs(i, s),
                ),
            }
        },
        JobOutcome::Merge { label, result } => (
            InterpState {
                writes_pending: dec(i.writes_pending),
                dirty: true,
                ..(if merge_spec(label@, result).1 { with_refresh(i) } else { with_pane(i) })
            },
            AppModel { status: StatusLine::Merged { label, result }, ..s },
            if merge_spec(label@, result).1 {
                refresh_jobs(i, s)
            } else {
                seq![pane_job(i, s)]
            },
        ),
        JobOutcome::RightPane { req_id, target, load } => if outcome_current(i, s, o) {
            (
                InterpState {
                    autoload_gen: if load is Graph { next_gen(i.autoload_gen) } else { i.autoload_gen },
                    dirty: true,
                    ..i
                },
                pane_load_spec(s, load),
                Seq::empty(),
            )
        } else if !pane_target_eq(target, s.pane_target) {
            (with_pane(i), s, seq![pane_job(i, s)])
        } else {
            (i, s, Seq::empty())
        },
        JobOutcome::RepoStatus { gen, path, pane_changed, .. } => if gen == i.snapshot_gen {
            if opt_is(s.focused_checkout, path) && pane_changed {
                (InterpState { dirty: true, ..with_pane(i) }, s, seq![pane_job(i, s)])
            } else {
                (InterpState { dirty: true, ..i }, s, Seq::empty())
            }
        } else {
            (i, s, Seq::empty())
        },
        JobOutcome::Discovered { gen, .. } => if gen == i.snapshot_gen {
            (InterpState { dirty: true, ..i }, s, Seq::empty())
        } else {
            (i, s, Seq::empty())
        },
    }
}

/// The checkouts flashed after applying `o`: a finished batch flashes every
/// repo it touched.
pub open spec fn apply_flash_spec(i: InterpState, s: AppModel, o: JobOutcome) -> Seq<String> {
    match o {
        JobOutcome::BulkRemote { .. } => match i.bulk {
            Some(b) => if inc(b.done) >= b.repos.len() { s.flashed@ + b.repos@ } else { s.flashed@ },
            None => s.flashed@,
        },
        JobOutcome::DefaultBranch { .. } => if i.default_run.next < i.default_run.repos.len() {
            s.flashed@
        } else {
            s.flashed@ + i.default_run.repos@
        },
        _ => s.flashed@,
    }
}

/// `a` equals `b` but for the flashed list, the graph and the checkout rows.
pub open spec fn same_but_lists(a: AppModel, b: AppModel) -> bool {
    a == AppModel { flashed: a.flashed, graph: a.graph, checkout_rows: a.checkout_rows, ..b }
}

fn clone_strings(v: &Vec<String>) -> (r: Vec<String>)
    ensures
        r@ == v@,
{
    let mut r: Vec<String> = Vec::new();
    let mut k: usize = 0;
    while k < v.len()
        invariant
            k <= v@.len(),
            r@ == v@.take(k as int),
        decreases v@.len() - k,
    {
        r.push(v[k].clone());
        k += 1;
        assert(r@ =~= v@.take(k as int));
    }
    assert(v@.take(v@.len() as int) =~= v@);
    r
}

/// `r` is what [`merge_autoload`] returns for `current` and `page`.
pub open spec fn autoload_merged(r: GraphModel, current: GraphModel, page: GraphModel) -> bool {
    &&& commit_views(r.commits@) == merged_window(current, page) + merged_extras(current, page)
    &&& r.window == merged_window(current, page).len()
    &&& r.stashes == page.stashes
    &&& r.worktrees == page.worktrees
    &&& r.head_id == page.head_id
    &&& r.sync == page.sync
    &&& r.show_ignored == current.show_ignored
    &&& r.uncommitted == (if page.uncommitted is Some { page.uncommitted } else { current.uncommitted })
    &&& r.skip == current.skip
    &&& r.limit == autoload_limit_spec(current)
    &&& r.has_more == page.has_more
}

/// (`i2`, `s2`, `jobs`) is what applying `o` to (`i`, `s`) gives.
pub open spec fn applied(
    i: InterpState,
    s: AppModel,
    o: JobOutcome,
    i2: InterpState,
    s2: AppModel,
    jobs: Seq<JobRequest>,
) -> bool {
    &&& i2 == apply_spec(i, s, o).0
    &&& jobs == apply_spec(i, s, o).2
    &&& same_but_lists(s2, apply_spec(i, s, o).1)
    &&& s2.flashed@ == apply_flash_spec(i, s, o)
    &&& s2.checkout_rows@ == rows_after(i, s, o)
    &&& if autoload_merges(i, s, o) {
        o matches JobOutcome::Autoload { page, .. } && s2.graph matches Some(g) && autoload_merged(g, s.graph->0, page)
    } else {
        s2.graph == apply_spec(i, s, o).1.graph
    }
}

fn apply_write(interp: &mut InterpState, state: &mut AppModel, status: String) -> (jobs: Vec<JobRequest>)
    ensures
        applied(*old(interp), *old(state), JobOutcome::Write { status }, *final(interp), *final(state), jobs@),
{
    let jobs = refresh(interp, state);
    interp.writes_pending = if interp.writes_pending == 0 { 0 } else { interp.writes_pending - 1 };
    interp.dirty = true;
    state.status = StatusLine::Text(status);
    jobs
}

fn apply_bulk(interp: &mut InterpState, state: &mut AppModel, ok: bool) -> (jobs: Vec<JobRequest>)
    ensures
        applied(*old(interp), *old(state), JobOutcome::BulkRemote { ok }, *final(interp), *final(state), jobs@),
{
    interp.dirty = true;
    match interp.bulk.take() {
        None => Vec::new(),
        Some(b) => {
            let done = inc_exec(b.done);
            let oks = if ok { inc_exec(b.ok) } else { b.ok };
            let fails = if ok { b.failed } else { inc_exec(b.failed) };
            if done >= b.repos.len() {
                let jobs = refresh(interp, state);
                state.status = StatusLine::Completed { op: b.kind, ok: oks, failed: fails };
                let mut repos = b.repos;
                state.flashed.append(&mut repos);
                jobs
            } else {
                state.status = StatusLine::Running { op: b.kind, done, total: b.repos.len() };
                interp.bulk = Some(BulkRun { kind: b.kind, repos: b.repos, done, ok: oks, failed: fails });
                Vec::new()
            }
        },
    }
}

fn apply_default(interp: &mut InterpState, state: &mut AppModel, ok: bool) -> (jobs: Vec<JobRequest>)
    ensures
        applied(*old(interp), *old(state), JobOutcome::DefaultBranch { ok }, *final(interp), *final(state), jobs@),
{
    interp.writes_pending = if interp.writes_pending == 0 { 0 } else { interp.writes_pending - 1 };
    interp.dirty = true;
    interp.default_run.done = inc_exec(interp.default_run.done);
    if ok {
        interp.default_run.ok = inc_exec(interp.default_run.ok);
    } else {
        interp.default_run.failed = inc_exec(interp.default_run.failed);
    }
    if interp.default_run.next < interp.default_run.repos.len() {
        let repo = interp.default_run.repos[interp.default_run.next].clone();
        interp.default_run.next = interp.default_run.next + 1;
        interp.writes_pending = inc_exec(interp.writes_pending);
        state.status = StatusLine::Running {
            op: RunningOp::DefaultBranch,
            done: interp.default_run.done,
            total: interp.default_run.total,
        };
        let mut jobs: Vec<JobRequest> = Vec::new();
        let task = default_task_exec(&state.checkout_rows, &repo);
        jobs.push(JobRequest::DefaultBranch { repo, task });
        proof {
            assert(jobs@ =~= apply_spec(*old(interp), *old(state), JobOutcome::DefaultBranch { ok }).2);
        }
        jobs
    } else {
        let jobs = refresh(interp, state);
        state.status = StatusLine::Completed {
            op: RunningOp::DefaultBranch,
            ok: interp.default_run.ok,
            failed: interp.default_run.failed,
        };
        let mut repos = clone_strings(&interp.default_run.repos);
        state.flashed.append(&mut repos);
        jobs
    }
}

fn apply_prepare_stash(
    interp: &mut InterpState,
    state: &mut AppModel,
    gen: u64,
    repo: String,
    latest: Option<String>,
) -> (jobs: Vec<JobRequest>)
    ensures
        applied(
            *old(interp),
            *old(state),
            JobOutcome::PrepareStash { gen, repo, latest },
            *final(interp),
            *final(state),
            jobs@,
        ),
{
    if gen == interp.prepare_stash_gen && opt_is_exec(&state.focused_checkout, &repo) {
        state.stash_menu = Some((repo, latest));
        interp.dirty = true;
    }
    Vec::new()
}

fn apply_prepare_branches(
    interp: &mut InterpState,
    state: &mut AppModel,
    gen: u64,
    repo: String,
    branches: Vec<LocalBranch>,
    graph_focus: bool,
) -> (jobs: Vec<JobRequest>)
    ensures
        applied(
            *old(interp),
            *old(state),
            JobOutcome::PrepareBranches { gen, repo, branches, graph_focus },
            *final(interp),
            *final(state),
            jobs@,
        ),
{
    let live = if graph_focus {
        match &state.graph_identity {
            Some((r, _)) => str_eq(r.as_str(), repo.as_str()),
            None => opt_is_exec(&state.focused_graph_repo, &repo),
        }
    } else {
        opt_is_exec(&state.focused_checkout, &repo)
    };
    if gen == interp.prepare_branches_gen && live {
        if graph_focus {
            state.graph_focus_picker = Some((repo, branches));
        } else {
            state.branch_picker = Some((repo, branches));
        }
        interp.dirty = true;
    }
    Vec::new()
}

fn apply_autoload(
    interp: &mut InterpState,
    state: &mut AppModel,
    gen: u64,
    page: GraphModel,
    identity: (String, String),
    prev_status: StatusLine,
) -> (jobs: Vec<JobRequest>)
    ensures
        applied(
            *old(interp),
            *old(state),
            JobOutcome::Autoload { gen, page, identity, prev_status },
            *final(interp),
            *final(state),
            jobs@,
        ),
{
    if gen != interp.autoload_gen {
        return Vec::new();
    }
    let target_ok = match &state.graph_identity {
        Some((r, h)) => str_eq(r.as_str(), identity.0.as_str()) && str_eq(h.as_str(), identity.1.as_str()),
        None => false,
    };
    if target_ok {
        let merged = match &state.graph {
            Some(current) => Some(merge_autoload(current, page)),
            None => None,
        };
        if merged.is_some() {
            state.graph = merged;
            state.graph_identity = Some(identity);
        }
    }
    state.graph_loading_older = false;
    if let StatusLine::LoadingOlder = state.status {
        state.status = prev_status;
    }
    interp.dirty = true;
    Vec::new()
}

fn apply_commit_files(
    interp: &mut InterpState,
    state: &mut AppModel,
    gen: u64,
    repo: String,
    source: CommitFileSource,
    files: Vec<CommitFile>,
) -> (jobs: Vec<JobRequest>)
    ensures
        applied(
            *old(interp),
            *old(state),
            JobOutcome::CommitFiles { gen, repo, source, files },
            *final(interp),
            *final(state),
            jobs@,
        ),
{
    let (live, cursor) = match &state.drill {
        DrillView::Files { repo: r, source: src, cursor, .. } => (
            str_eq(r.as_str(), repo.as_str()) && same_source_exec(src, &source),
            *cursor,
        ),
        _ => (false, 0),
    };
    if gen == interp.commit_files_gen && live {
        let c = DrillView::files_cursor(files.as_slice(), cursor);
        state.drill = DrillView::Files { repo, source, files, cursor: c };
        interp.dirty = true;
    }
    Vec::new()
}

fn apply_commit_diff(
    interp: &mut InterpState,
    state: &mut AppModel,
    gen: u64,
    repo: String,
    source: CommitFileSource,
    files: Vec<CommitFile>,
    file_cursor: usize,
    path: String,
    content: DiffContent,
) -> (jobs: Vec<JobRequest>)
    ensures
        applied(
            *old(interp),
            *old(state),
            JobOutcome::CommitDiff { gen, repo, source, files, file_cursor, path, content },
            *final(interp),
            *final(state),
            jobs@,
        ),
{
    let live = match &state.drill {
        DrillView::Diff { repo: r, source: src, path: p, .. } => str_eq(r.as_str(), repo.as_str())
            && same_source_exec(src, &source) && str_eq(p.as_str(), path.as_str()),
        DrillView::Files { repo: r, source: src, .. } => str_eq(r.as_str(), repo.as_str())
            && same_source_exec(src, &source),
        DrillView::Graph => false,
    };
    if gen == interp.commit_diff_gen && live {
        state.drill = DrillView::Diff { repo, source, files, file_cursor, path, content };
        interp.dirty = true;
    }
    Vec::new()
}

fn apply_checkout(
    interp: &mut InterpState,
    state: &mut AppModel,
    repo: String,
    result: CheckoutCompute,
) -> (jobs: Vec<JobRequest>)
    ensures
        applied(*old(interp), *old(state), JobOutcome::Checkout { repo, result }, *final(interp), *final(state), jobs@),
{
    let reload = match result {
        CheckoutCompute::Dirty => {
            state.status = StatusLine::DirtyWorktree;
            false
        },
        CheckoutCompute::Failed { status, clear_picker } => {
            if clear_picker {
                state.branch_picker = None;
            }
            state.status = StatusLine::Text(status);
            false
        },
        CheckoutCompute::Confirm { local_branch, remote_ref } => {
            state.branch_picker = None;
            state.checkout_confirm = Some((repo, local_branch, remote_ref));
            false
        },
        CheckoutCompute::Done { status } => {
            state.branch_picker = None;
            state.status = StatusLine::Text(status);
            true
        },
    };
    let jobs = if reload { refresh(interp, state) } else { pane_only(interp, state) };
    interp.writes_pending = if interp.writes_pending == 0 { 0 } else { interp.writes_pending - 1 };
    interp.dirty = true;
    jobs
}

fn apply_merge(interp: &mut InterpState, state: &mut AppModel, label: String, result: MergeCompute) -> (jobs: Vec<
    JobRequest,
>)
    ensures
        applied(*old(interp), *old(state), JobOutcome::Merge { label, result }, *final(interp), *final(state), jobs@),
{
    let (_, reload) = apply_merge_compute(label.as_str(), &result);
    let jobs = if reload { refresh(interp, state) } else { pane_only(interp, state) };
    state.status = StatusLine::Merged { label, result };
    interp.writes_pending = if interp.writes_pending == 0 { 0 } else { interp.writes_pending - 1 };
    interp.dirty = true;
    jobs
}

fn apply_pane_load(state: &mut AppModel, load: PaneLoad)
    ensures
        *final(state) == pane_load_spec(*old(state), load),
{
    match load {
        PaneLoad::Diff { repo, path, content } => {
            state.right_diff = Some((repo, path, content));
            state.plain_diff_on_right = true;
        },
        PaneLoad::Graph { model, identity, files } => {
            let cursor = match &state.drill {
                DrillView::Files { cursor, .. } => *cursor,
                _ => 0,
            };
            state.graph = Some(model);
            state.graph_identity = Some(identity);
            state.graph_loading_older = false;
            state.plain_diff_on_right = false;
            state.right_diff = None;
            if let Some((repo, source, fl)) = files {
                let c = DrillView::files_cursor(fl.as_slice(), cursor);
                state.drill = DrillView::Files { repo, source, files: fl, cursor: c };
            }
        },
        PaneLoad::Clear => {
            state.graph = None;
            state.graph_identity = None;
            state.right_diff = None;
            state.plain_diff_on_right = false;
        },
        PaneLoad::CommitFiles { repo, source, files } => {
            let cursor = match &state.drill {
                DrillView::Files { cursor, .. } => *cursor,
                _ => 0,
            };
            let c = DrillView::files_cursor(files.as_slice(), cursor);
            state.drill = DrillView::Files { repo, source, files, cursor: c };
        },
        PaneLoad::CommitDiff { repo, source, files, file_cursor, path, content } => {
            state.drill = DrillView::Diff { repo, source, files, file_cursor, path, content };
        },
        PaneLoad::Nothing => {},
    }
}

fn apply_right_pane(
    interp: &mut InterpState,
    state: &mut AppModel,
    req_id: u64,
    target: PaneTarget,
    load: PaneLoad,
) -> (jobs: Vec<JobRequest>)
    ensures
        applied(
            *old(interp),
            *old(state),
            JobOutcome::RightPane { req_id, target, load },
            *final(interp),
            *final(state),
            jobs@,
        ),
{
    let same = pane_target_eq_exec(&target, &state.pane_target);
    if req_id == interp.pane_req && same {
        if let PaneLoad::Graph { .. } = load {
            interp.autoload_gen = bump(interp.autoload_gen);
        }
        apply_pane_load(state, load);
        interp.dirty = true;
        Vec::new()
    } else if !same {
        pane_only(interp, state)
    } else {
        Vec::new()
    }
}

fn clone_row(r: &CheckoutBranchRow) -> (c: CheckoutBranchRow)
    ensures
        c == *r,
{
    CheckoutBranchRow {
        repo: r.repo.clone(),
        branch: r.branch.clone(),
        default_branch_override: clone_opt(&r.default_branch_override),
    }
}

fn rows_without_repo(rows: &Vec<CheckoutBranchRow>, repo: &String) -> (r: Vec<CheckoutBranchRow>)
    ensures
        r@ == without_repo(rows@, repo@),
{
    let mut r: Vec<CheckoutBranchRow> = Vec::new();
    let mut k: usize = 0;
    assert(rows@.take(0) =~= Seq::<CheckoutBranchRow>::empty());
    while k < rows.len()
        invariant
            k <= rows@.len(),
            r@ == without_repo(rows@.take(k as int), repo@),
        decreases rows@.len() - k,
    {
        assert(rows@.take(k + 1).drop_last() =~= rows@.take(k as int));
        assert(rows@.take(k + 1).last() == rows@[k as int]);
        if !str_eq(rows[k].repo.as_str(), repo.as_str()) {
            r.push(clone_row(&rows[k]));
        }
        k += 1;
    }
    assert(rows@.take(rows@.len() as int) =~= rows@);
    r
}

fn apply_repo_status(
    interp: &mut InterpState,
    state: &mut AppModel,
    gen: u64,
    path: String,
    row: Option<CheckoutBranchRow>,
    pane_changed: bool,
) -> (jobs: Vec<JobRequest>)
    ensures
        applied(
            *old(interp),
            *old(state),
            JobOutcome::RepoStatus { gen, path, row, pane_changed },
            *final(interp),
            *final(state),
            jobs@,
        ),
{
    if gen != interp.snapshot_gen {
        return Vec::new();
    }
    let mut rows = rows_without_repo(&state.checkout_rows, &path);
    if let Some(r) = row {
        rows.push(r);
    }
    state.checkout_rows = rows;
    let jobs = if opt_is_exec(&state.focused_checkout, &path) && pane_changed {
        pane_only(interp, state)
    } else {
        Vec::new()
    };
    interp.dirty = true;
    jobs
}

fn apply_discovered(interp: &mut InterpState, state: &mut AppModel, gen: u64, paths: Vec<String>) -> (jobs: Vec<
    JobRequest,
>)
    ensures
        applied(*old(interp), *old(state), JobOutcome::Discovered { gen, paths }, *final(interp), *final(state), jobs@),
{
    if gen == interp.snapshot_gen {
        drop_undiscovered_checkouts(state, paths.as_slice());
        interp.dirty = true;
    }
    Vec::new()
}

/// Apply one finished job to the interpreter and the app; returns the jobs
/// it queues (a refresh after a write or a finished batch, the next repo of
/// a default-branch run).
pub fn apply_outcome(interp: &mut InterpState, state: &mut AppModel, outcome: JobOutcome) -> (jobs: Vec<JobRequest>)
    ensures
        applied(*old(interp), *old(state), outcome, *final(interp), *final(state), jobs@),
        !outcome_current(*old(interp), *old(state), outcome) ==> {
            &&& final(state).drill == old(state).drill
            &&& final(state).stash_menu == old(state).stash_menu
            &&& final(state).branch_picker == old(state).branch_picker
            &&& final(state).graph_focus_picker == old(state).graph_focus_picker
            &&& final(state).graph == old(state).graph
            &&& final(state).graph_identity == old(state).graph_identity
        },
{
    match outcome {
        JobOutcome::Write { status } => apply_write(interp, state, status),
        JobOutcome::BulkRemote { ok } => apply_bulk(interp, state, ok),
        JobOutcome::DefaultBranch { ok } => apply_default(interp, state, ok),
        JobOutcome::PrepareStash { gen, repo, latest } => apply_prepare_stash(interp, state, gen, repo, latest),
        JobOutcome::PrepareBranches { gen, repo, branches, graph_focus } =>
            apply_prepare_branches(interp, state, gen, repo, branches, graph_focus),
        JobOutcome::Autoload { gen, page, identity, prev_status } =>
            apply_autoload(interp, state, gen, page, identity, prev_status),
        JobOutcome::CommitFiles { gen, repo, source, files } =>
            apply_commit_files(interp, state, gen, repo, source, files),
        JobOutcome::CommitDiff { gen, repo, source, files, file_cursor, path, content } =>
            apply_commit_diff(interp, state, gen, repo, source, files, file_cursor, path, content),
        JobOutcome::Clipboard { ok, announce } => {
            if announce {
                state.status = if ok { StatusLine::Copied } else { StatusLine::CopyFailed };
            }
            interp.dirty = true;
            Vec::new()
        },
        JobOutcome::Checkout { repo, result } => apply_checkout(interp, state, repo, result),
        JobOutcome::Merge { label, result } => apply_merge(interp, state, label, result),
        JobOutcome::RightPane { req_id, target, load } => apply_right_pane(interp, state, req_id, target, load),
        JobOutcome::RepoStatus { gen, path, row, pane_changed } =>
            apply_repo_status(interp, state, gen, path, row, pane_changed),
        JobOutcome::Discovered { gen, paths } => apply_discovered(interp, state, gen, paths),
    }
}

/// Last path of a list, or nothing.
pub open spec fn last_or_empty(v: Seq<String>) -> Seq<char> {
    if v.len() == 0 { Seq::empty() } else { v.last()@ }
}

/// The status line after a git write succeeds.
pub open spec fn write_status_spec(e: Effect) -> Seq<char> {
    match e {
        Effect::Stage { paths, .. } => "staged "@ + last_or_empty(paths@),
        Effect::Unstage { paths, .. } => "unstaged "@ + last_or_empty(paths@),
        Effect::Revert { tracked_paths, untracked_paths, .. } => {
            let t = tracked_paths@;
            let u = untracked_paths@;
            if t.len() + u.len() == 1 {
                if u.len() == 1 { "deleted "@ + u[0]@ } else { "reverted "@ + t[0]@ }
            } else {
                "reverted "@ + decimal(t.len()) + " tracked, "@ + decimal(u.len()) + " untracked"@
            }
        },
        Effect::StashCreate { paths, .. } => if paths@.len() == 1 {
            "Stashed 1 file"@
        } else if paths@.len() == 0 {
            "Stashed"@
        } else {
            "Stashed "@ + decimal(paths@.len()) + " files"@
        },
        Effect::StashApply { stash_ref, .. } => "applied "@ + stash_ref@,
        Effect::StashPop { stash_ref, .. } => "popped "@ + stash_ref@,
        Effect::StashDrop { stash_ref, .. } => "dropped "@ + stash_ref@,
        Effect::CreateBranch { name, .. } => "created "@ + name@,
        Effect::CreateBranchAt { name, commit_id, .. } => "created "@ + name@ + " at "@ + get_prefix(commit_id@, 7),
        Effect::RemoveWorktree { path, .. } => "removed worktree "@ + path@,
        _ => Seq::empty(),
    }
}

/// Effects that run as one queued git write.
pub open spec fn is_write(e: Effect) -> bool {
    ||| e is Stage
    ||| e is Unstage
    ||| e is Revert
    ||| e is StashCreate
    ||| e is StashApply
    ||| e is StashPop
    ||| e is StashDrop
    ||| e is CreateBranch
    ||| e is CreateBranchAt
    ||| e is RemoveWorktree
}

/// The status line the runner shows when the write job for `effect`
/// succeeds.
pub fn write_ok_status(effect: &Effect) -> (r: String)
    ensures
        r@ == write_status_spec(*effect),
{
    let mut s = String::new();
    match effect {
        Effect::Stage { paths, .. } => {
            push_str(&mut s, "staged ");
            if paths.len() > 0 {
                push_str(&mut s, paths[paths.len() - 1].as_str());
            }
        },
        Effect::Unstage { paths, .. } => {
            push_str(&mut s, "unstaged ");
            if paths.len() > 0 {
                push_str(&mut s, paths[paths.len() - 1].as_str());
            }
        },
        Effect::Revert { tracked_paths, untracked_paths, .. } => {
            if tracked_paths.len() == 1 && untracked_paths.len() == 0 {
                push_str(&mut s, "reverted ");
                push_str(&mut s, tracked_paths[0].as_str());
            } else if tracked_paths.len() == 0 && untracked_paths.len() == 1 {
                push_str(&mut s, "deleted ");
                push_str(&mut s, untracked_paths[0].as_str());
            } else {
                push_str(&mut s, "reverted ");
                push_decimal(&mut s, tracked_paths.len() as u64);
                push_str(&mut s, " tracked, ");
                push_decimal(&mut s, untracked_paths.len() as u64);
                push_str(&mut s, " untracked");
            }
        },
        Effect::StashCreate { paths, .. } => {
            if paths.len() == 1 {
                push_str(&mut s, "Stashed 1 file");
            } else if paths.len() == 0 {
                push_str(&mut s, "Stashed");
            } else {
                push_str(&mut s, "Stashed ");
                push_decimal(&mut s, paths.len() as u64);
                push_str(&mut s, " files");
            }
        },
        Effect::StashApply { stash_ref, .. } => {
            push_str(&mut s, "applied ");
            push_str(&mut s, stash_ref.as_str());
        },
        Effect::StashPop { stash_ref, .. } => {
            push_str(&mut s, "popped ");
            push_str(&mut s, stash_ref.as_str());
        },
        Effect::StashDrop { stash_ref, .. } => {
            push_str(&mut s, "dropped ");
            push_str(&mut s, stash_ref.as_str());
        },
        Effect::CreateBranch { name, .. } => {
            push_str(&mut s, "created ");
            push_str(&mut s, name.as_str());
        },
        Effect::CreateBranchAt { name, commit_id, .. } => {
            push_str(&mut s, "created ");
            push_str(&mut s, name.as_str());
            push_str(&mut s, " at ");
            let short = str_get_prefix(commit_id.as_str(), 7);
            push_str(&mut s, short.as_str());
        },
        Effect::RemoveWorktree { path, .. } => {
            push_str(&mut s, "removed worktree ");
            push_str(&mut s, path.as_str());
        },
        _ => {},
    }
    proof {
        assert(s@ =~= write_status_spec(*effect));
    }
    s
}

/// Jobs for each repo of a remote batch, in order.
pub open spec fn bulk_jobs(kind: RunningOp, repos: Seq<String>) -> Seq<JobRequest> {
    Seq::new(repos.len(), |k: int| JobRequest::Bulk { kind, repo: repos[k] })
}

/// Start a fetch / pull / push batch over `repos` (nothing when empty).
pub open spec fn bulk_spec(i: InterpState, s: AppModel, kind: RunningOp, repos: Vec<String>) -> (
    InterpState,
    AppModel,
    Seq<JobRequest>,
    Option<(String, CommitFileSource)>,
) {
    if repos@.len() == 0 {
        (i, s, Seq::empty(), None)
    } else {
        (
            InterpState { bulk: Some(BulkRun { kind, repos, done: 0, ok: 0, failed: 0 }), dirty: true, ..i },
            AppModel { status: StatusLine::Running { op: kind, done: 0, total: repos@.len() as usize }, ..s },
            bulk_jobs(kind, repos@),
            None,
        )
    }
}

/// What one effect other than a batch queues and changes: (interpreter,
/// app, jobs, the commit-files drill it opens empty while loading). The
/// app's drill is left as it was; the last component says how it changes.
pub open spec fn schedule_leaf_spec(i: InterpState, s: AppModel, e: Effect) -> (
    InterpState,
    AppModel,
    Seq<JobRequest>,
    Option<(String, CommitFileSource)>,
) {
    match e {
        Effect::WatchRefresh => (
            InterpState { snapshot_gen: next_gen(i.snapshot_gen), ..i },
            s,
            seq![JobRequest::WatchRefresh { focused: s.focused_checkout, gen: next_gen(i.snapshot_gen) }],
            None,
        ),
        Effect::ReloadSnapshot => (
            InterpState { snapshot_gen: next_gen(i.snapshot_gen), ..i },
            s,
            seq![JobRequest::ReloadSnapshot { focused: s.focused_checkout, gen: next_gen(i.snapshot_gen) }],
            None,
        ),
        Effect::ReloadRepo { repo } => (i, s, seq![JobRequest::ReloadRepo { repo, gen: i.snapshot_gen }], None),
        Effect::LoadRightPane => (with_pane(i), s, seq![pane_job(i, s)], None),
        Effect::Fetch { repos } => bulk_spec(i, s, RunningOp::Fetch, repos),
        Effect::Pull { repos } => bulk_spec(i, s, RunningOp::Pull, repos),
        Effect::Push { repos } => bulk_spec(i, s, RunningOp::Push, repos),
        Effect::DefaultBranch { repos } => {
            let n = repos@.len();
            let run = DefaultRun {
                repos,
                next: if n > 0 { 1 } else { 0 },
                total: n as usize,
                done: 0,
                ok: 0,
                failed: 0,
            };
            (
                InterpState {
                    default_run: run,
                    writes_pending: if n > 0 { inc(i.writes_pending) } else { i.writes_pending },
                    dirty: true,
                    ..i
                },
                AppModel { status: StatusLine::Running { op: RunningOp::DefaultBranch, done: 0, total: n as usize }, ..s },
                if n > 0 {
                    seq![JobRequest::DefaultBranch { repo: repos@[0], task: default_task(s.checkout_rows@, repos@[0]@) }]
                } else {
                    Seq::empty()
                },
                None,
            )
        },
        Effect::EditFile { repo, path } => (
            InterpState { pending_edit: Some((repo, path)), dirty: true, ..i },
            s,
            Seq::empty(),
            None,
        ),
        Effect::ExternalDiff { repo, path, kind } => (
            InterpState { pending_diff: Some((repo, path, kind)), dirty: true, ..i },
            s,
            Seq::empty(),
            None,
        ),
        Effect::PrepareStashMenu { repo } => (
            InterpState { prepare_stash_gen: next_gen(i.prepare_stash_gen), ..i },
            s,
            seq![JobRequest::PrepareStash { gen: next_gen(i.prepare_stash_gen), repo }],
            None,
        ),
        Effect::PrepareBranchPicker { repo } => (
            InterpState { prepare_branches_gen: next_gen(i.prepare_branches_gen), ..i },
            s,
            seq![JobRequest::PrepareBranches { gen: next_gen(i.prepare_branches_gen), repo, graph_focus: false }],
            None,
        ),
        Effect::PrepareGraphFocusPicker { repo } => (
            InterpState { prepare_branches_gen: next_gen(i.prepare_branches_gen), ..i },
            s,
            seq![JobRequest::PrepareBranches { gen: next_gen(i.prepare_branches_gen), repo, graph_focus: true }],
            None,
        ),
        Effect::CheckoutBranch { .. } | Effect::MergeIntoHead { .. } => (
            InterpState { writes_pending: inc(i.writes_pending), ..i },
            s,
            seq![JobRequest::Exclusive { effect: e }],
            None,
        ),
        Effect::LoadCommitFiles { repo, source } => (
            InterpState { commit_files_gen: next_gen(i.commit_files_gen), dirty: true, ..i },
            s,
            seq![JobRequest::CommitFiles { gen: next_gen(i.commit_files_gen), repo, source }],
            Some((repo, source)),
        ),
        Effect::LoadCommitDiff { repo, source, path } => (
            InterpState { commit_diff_gen: next_gen(i.commit_diff_gen), ..i },
            s,
            seq![JobRequest::CommitDiff { gen: next_gen(i.commit_diff_gen), repo, source, path }],
            None,
        ),
        Effect::DropCommitDiff => (InterpState { commit_diff_gen: next_gen(i.commit_diff_gen), ..i }, s, Seq::empty(), None),
        Effect::CopyClipboard { text, announce } => (
            InterpState { dirty: true, ..i },
            s,
            seq![JobRequest::CopyClipboard { text, announce }],
            None,
        ),
        _ => if is_write(e) {
            (InterpState { writes_pending: inc(i.writes_pending), ..i }, s, seq![JobRequest::Write { effect: e }], None)
        } else {
            (i, s, Seq::empty(), None)
        },
    }
}

/// What an effect queues and changes; a batch runs its effects in order.
pub open spec fn schedule_spec(i: InterpState, s: AppModel, e: Effect) -> (
    InterpState,
    AppModel,
    Seq<JobRequest>,
    Option<(String, CommitFileSource)>,
)
    decreases e, 0nat,
{
    match e {
        Effect::Batch(v) => schedule_all_spec(i, s, v@, v@.len()),
        _ => schedule_leaf_spec(i, s, e),
    }
}

/// The first `n` effects of `es`, one after another.
pub open spec fn schedule_all_spec(i: InterpState, s: AppModel, es: Seq<Effect>, n: nat) -> (
    InterpState,
    AppModel,
    Seq<JobRequest>,
    Option<(String, CommitFileSource)>,
)
    decreases es, n,
{
    if n == 0 || n > es.len() {
        (i, s, Seq::empty(), None)
    } else {
        let r1 = schedule_all_spec(i, s, es, (n - 1) as nat);
        let r2 = schedule_spec(r1.0, r1.1, es[n - 1]);
        (r2.0, r2.1, r1.2 + r2.2, if r2.3 is Some { r2.3 } else { r1.3 })
    }
}

/// The drill after scheduling: an empty commit-files list for the last
/// commit-files load, else unchanged.
pub open spec fn drill_after(d: DrillView, d0: DrillView, begin: Option<(String, CommitFileSource)>) -> bool {
    match begin {
        Some((repo, source)) => d matches DrillView::Files { repo: r, source: src, files, cursor } && r == repo
            && src == source && files@.len() == 0 && cursor == 0,
        None => d == d0,
    }
}

/// Scheduling never reads the drill: two apps that differ only there give
/// the same interpreter, jobs and drill change.
proof fn lemma_schedule_drill_free(i: InterpState, s: AppModel, s2: AppModel, e: Effect)
    requires
        s2 == (AppModel { drill: s2.drill, ..s }),
    ensures
        schedule_spec(i, s2, e).0 == schedule_spec(i, s, e).0,
        schedule_spec(i, s2, e).2 == schedule_spec(i, s, e).2,
        schedule_spec(i, s2, e).3 == schedule_spec(i, s, e).3,
        schedule_spec(i, s2, e).1 == (AppModel { drill: schedule_spec(i, s2, e).1.drill, ..schedule_spec(i, s, e).1 }),
    decreases e, 0nat,
{
    match e {
        Effect::Batch(v) => lemma_schedule_all_drill_free(i, s, s2, v@, v@.len()),
        _ => {},
    }
}

proof fn lemma_schedule_all_drill_free(i: InterpState, s: AppModel, s2: AppModel, es: Seq<Effect>, n: nat)
    requires
        s2 == (AppModel { drill: s2.drill, ..s }),
    ensures
        schedule_all_spec(i, s2, es, n).0 == schedule_all_spec(i, s, es, n).0,
        schedule_all_spec(i, s2, es, n).2 == schedule_all_spec(i, s, es, n).2,
        schedule_all_spec(i, s2, es, n).3 == schedule_all_spec(i, s, es, n).3,
        schedule_all_spec(i, s2, es, n).1 == (AppModel {
            drill: schedule_all_spec(i, s2, es, n).1.drill,
            ..schedule_all_spec(i, s, es, n).1
        }),
    decreases es, n,
{
    if n == 0 || n > es.len() {
    } else {
        lemma_schedule_all_drill_free(i, s, s2, es, (n - 1) as nat);
        let r1 = schedule_all_spec(i, s, es, (n - 1) as nat);
        let r1b = schedule_all_spec(i, s2, es, (n - 1) as nat);
        lemma_schedule_drill_free(r1.0, r1.1, r1b.1, es[n - 1]);
    }
}

fn schedule_bulk(interp: &mut InterpState, state: &mut AppModel, kind: RunningOp, repos: Vec<String>) -> (jobs: Vec<
    JobRequest,
>)
    ensures
        *final(interp) == bulk_spec(*old(interp), *old(state), kind, repos).0,
        *final(state) == bulk_spec(*old(interp), *old(state), kind, repos).1,
        jobs@ == bulk_spec(*old(interp), *old(state), kind, repos).2,
{
    let mut jobs: Vec<JobRequest> = Vec::new();
    if repos.len() == 0 {
        return jobs;
    }
    let mut k: usize = 0;
    while k < repos.len()
        invariant
            k <= repos@.len(),
            jobs@ == bulk_jobs(kind, repos@.take(k as int)),
        decreases repos@.len() - k,
    {
        jobs.push(JobRequest::Bulk { kind, repo: repos[k].clone() });
        k += 1;
        assert(jobs@ =~= bulk_jobs(kind, repos@.take(k as int)));
    }
    assert(repos@.take(repos@.len() as int) =~= repos@);
    state.status = StatusLine::Running { op: kind, done: 0, total: repos.len() };
    interp.bulk = Some(BulkRun { kind, repos, done: 0, ok: 0, failed: 0 });
    interp.dirty = true;
    jobs
}

fn one_job(j: JobRequest) -> (jobs: Vec<JobRequest>)
    ensures
        jobs@ == seq![j],
{
    let mut jobs: Vec<JobRequest> = Vec::new();
    jobs.push(j);
    assert(jobs@ =~= seq![j]);
    jobs
}

fn is_write_exec(e: &Effect) -> (b: bool)
    ensures
        b == is_write(*e),
{
    match e {
        Effect::Stage { .. } | Effect::Unstage { .. } | Effect::Revert { .. } | Effect::StashCreate { .. }
        | Effect::StashApply { .. } | Effect::StashPop { .. } | Effect::StashDrop { .. } | Effect::CreateBranch {
            ..
        } | Effect::CreateBranchAt { .. } | Effect::RemoveWorktree { .. } => true,
        _ => false,
    }
}

fn schedule_leaf(interp: &mut InterpState, state: &mut AppModel, effect: Effect) -> (jobs: Vec<JobRequest>)
    requires
        !(effect is Batch),
    ensures
        *final(interp) == schedule_leaf_spec(*old(interp), *old(state), effect).0,
        jobs@ == schedule_leaf_spec(*old(interp), *old(state), effect).2,
        *final(state) == (AppModel {
            drill: final(state).drill,
            ..schedule_leaf_spec(*old(interp), *old(state), effect).1
        }),
        drill_after(final(state).drill, old(state).drill, schedule_leaf_spec(*old(interp), *old(state), effect).3),
{
    if is_write_exec(&effect) {
        interp.writes_pending = inc_exec(interp.writes_pending);
        return one_job(JobRequest::Write { effect });
    }
    match effect {
        Effect::WatchRefresh => {
            interp.snapshot_gen = bump(interp.snapshot_gen);
            one_job(JobRequest::WatchRefresh { focused: clone_opt(&state.focused_checkout), gen: interp.snapshot_gen })
        },
        Effect::ReloadSnapshot => {
            interp.snapshot_gen = bump(interp.snapshot_gen);
            one_job(JobRequest::ReloadSnapshot { focused: clone_opt(&state.focused_checkout), gen: interp.snapshot_gen })
        },
        Effect::ReloadRepo { repo } => one_job(JobRequest::ReloadRepo { repo, gen: interp.snapshot_gen }),
        Effect::LoadRightPane => pane_only(interp, state),
        Effect::Fetch { repos } => schedule_bulk(interp, state, RunningOp::Fetch, repos),
        Effect::Pull { repos } => schedule_bulk(interp, state, RunningOp::Pull, repos),
        Effect::Push { repos } => schedule_bulk(interp, state, RunningOp::Push, repos),
        Effect::DefaultBranch { repos } => {
            let n = repos.len();
            state.status = StatusLine::Running { op: RunningOp::DefaultBranch, done: 0, total: n };
            interp.dirty = true;
            let jobs = if n > 0 {
                interp.writes_pending = inc_exec(interp.writes_pending);
                let task = default_task_exec(&state.checkout_rows, &repos[0]);
                one_job(JobRequest::DefaultBranch { repo: repos[0].clone(), task })
            } else {
                Vec::new()
            };
            interp.default_run = DefaultRun {
                repos,
                next: if n > 0 { 1 } else { 0 },
                total: n,
                done: 0,
                ok: 0,
                failed: 0,
            };
            jobs
        },
        Effect::EditFile { repo, path } => {
            interp.pending_edit = Some((repo, path));
            interp.dirty = true;
            Vec::new()
        },
        Effect::ExternalDiff { repo, path, kind } => {
            interp.pending_diff = Some((repo, path, kind));
            interp.dirty = true;
            Vec::new()
        },
        Effect::PrepareStashMenu { repo } => {
            interp.prepare_stash_gen = bump(interp.prepare_stash_gen);
            one_job(JobRequest::PrepareStash { gen: interp.prepare_stash_gen, repo })
        },
        Effect::PrepareBranchPicker { repo } => {
            interp.prepare_branches_gen = bump(interp.prepare_branches_gen);
            one_job(JobRequest::PrepareBranches { gen: interp.prepare_branches_gen, repo, graph_focus: false })
        },
        Effect::PrepareGraphFocusPicker { repo } => {
            interp.prepare_branches_gen = bump(interp.prepare_branches_gen);
            one_job(JobRequest::PrepareBranches { gen: interp.prepare_branches_gen, repo, graph_focus: true })
        },
        Effect::CheckoutBranch { repo, selected_name, fast_forward_ref } => {
            interp.writes_pending = inc_exec(interp.writes_pending);
            one_job(JobRequest::Exclusive { effect: Effect::CheckoutBranch { repo, selected_name, fast_forward_ref } })
        },
        Effect::MergeIntoHead { repo, rev, label } => {
            interp.writes_pending = inc_exec(interp.writes_pending);
            one_job(JobRequest::Exclusive { effect: Effect::MergeIntoHead { repo, rev, label } })
        },
        Effect::LoadCommitFiles { repo, source } => {
            state.drill = DrillView::Files {
                repo: repo.clone(),
                source: clone_source(&source),
                files: Vec::new(),
                cursor: 0,
            };
            interp.commit_files_gen = bump(interp.commit_files_gen);
            interp.dirty = true;
            one_job(JobRequest::CommitFiles { gen: interp.commit_files_gen, repo, source })
        },
        Effect::LoadCommitDiff { repo, source, path } => {
            interp.commit_diff_gen = bump(interp.commit_diff_gen);
            one_job(JobRequest::CommitDiff { gen: interp.commit_diff_gen, repo, source, path })
        },
        Effect::DropCommitDiff => {
            interp.commit_diff_gen = bump(interp.commit_diff_gen);
            Vec::new()
        },
        Effect::CopyClipboard { text, announce } => {
            interp.dirty = true;
            one_job(JobRequest::CopyClipboard { text, announce })
        },
        _ => Vec::new(),
    }
}

/// Queue the work for `effect` and apply its immediate changes: status
/// text for a batch start, the pending `$EDITOR` / external diff slot, an
/// empty commit-files drill while its list loads, fresh generations for
/// results that later calls must not apply once stale. A batch schedules
/// its effects in order.
pub fn schedule_effect(interp: &mut InterpState, state: &mut AppModel, effect: Effect) -> (jobs: Vec<JobRequest>)
    ensures
        *final(interp) == schedule_spec(*old(interp), *old(state), effect).0,
        jobs@ == schedule_spec(*old(interp), *old(state), effect).2,
        *final(state) == (AppModel { drill: final(state).drill, ..schedule_spec(*old(interp), *old(state), effect).1 }),
        drill_after(final(state).drill, old(state).drill, schedule_spec(*old(interp), *old(state), effect).3),
    decreases effect,
{
    let ghost e0 = effect;
    match effect {
        Effect::Batch(effects) => {
            let ghost es = effects@;
            assert forall|j: int| 0 <= j < es.len() implies decreases_to!(e0 => #[trigger] es[j]) by {
                assert(decreases_to!(e0 => effects));
                assert(decreases_to!(effects => effects@));
                assert(decreases_to!(es => es[j]));
            }
            let ghost i0 = *interp;
            let ghost s0 = *state;
            let mut rest = effects;
            let mut jobs: Vec<JobRequest> = Vec::new();
            let mut k: usize = 0;
            let n_total: usize = rest.len();
            assert(es.skip(0) =~= es);
            while rest.len() > 0
                invariant
                    k <= es.len(),
                    es.len() == n_total,
                    rest@ == es.skip(k as int),
                    forall|j: int| 0 <= j < es.len() ==> decreases_to!(e0 => #[trigger] es[j]),
                    e0 == effect,
                    *interp == schedule_all_spec(i0, s0, es, k as nat).0,
                    jobs@ == schedule_all_spec(i0, s0, es, k as nat).2,
                    *state == (AppModel { drill: state.drill, ..schedule_all_spec(i0, s0, es, k as nat).1 }),
                    drill_after(state.drill, s0.drill, schedule_all_spec(i0, s0, es, k as nat).3),
                decreases rest@.len(),
            {
                let ghost f = schedule_all_spec(i0, s0, es, k as nat);
                let ghost st = *state;
                assert(rest@.len() == es.len() - k);
                let child = rest.remove(0);
                assert(child == es[k as int]);
                assert(decreases_to!(e0 => es[k as int]));
                let mut cj = schedule_effect(interp, state, child);
                proof {
                    lemma_schedule_drill_free(f.0, f.1, st, es[k as int]);
                    assert(rest@ =~= es.skip(k + 1));
                }
                jobs.append(&mut cj);
                k += 1;
            }
            assert(k == es.len()) by {
                assert(es.skip(k as int).len() == 0);
            }
            jobs
        },
        _ => schedule_leaf(interp, state, effect),
    }
}

/// True while a git write, a checkout / merge, a default-branch run or a
/// remote batch is queued or running.
pub open spec fn busy_spec(i: InterpState) -> bool {
    i.writes_pending > 0 || i.bulk is Some
}

/// Whether input that starts another git write is drained for now.
pub fn busy_for_writes(interp: &InterpState) -> (b: bool)
    ensures
        b == busy_spec(*interp),
{
    interp.writes_pending > 0 || interp.bulk.is_some()
}

/// Hand the `$EDITOR` request to the live loop (a headless run drops it).
pub fn take_pending_edit(interp: &mut InterpState) -> (r: Option<(String, String)>)
    ensures
        r == old(interp).pending_edit,
        *final(interp) == (InterpState { pending_edit: None, ..*old(interp) }),
{
    interp.pending_edit.take()
}

/// Hand the external-diff request to the live loop (a headless run drops it).
pub fn take_pending_diff(interp: &mut InterpState) -> (r: Option<(String, String, ExternalDiffKind)>)
    ensures
        r == old(interp).pending_diff,
        *final(interp) == (InterpState { pending_diff: None, ..*old(interp) }),
{
    interp.pending_diff.take()
}

/// Whether the last calls changed something that needs a paint; clears it.
pub fn take_dirty(interp: &mut InterpState) -> (r: bool)
    ensures
        r == old(interp).dirty,
        *final(interp) == (InterpState { dirty: false, ..*old(interp) }),
{
    let d = interp.dirty;
    interp.dirty = false;
    d
}

/// Shortest gap between two paints (ms).
pub const DRAW_MIN_MS: u64 = 16;

/// Timers and paint state of the event loop, in milliseconds of one
/// monotonic clock.
#[derive(Clone, Copy, Debug, PartialEq, Eq, Structural)]
pub struct LoopState {
    /// Watch refresh interval.
    pub watch_ms: u64,
    /// Background fetch interval; 0 turns background fetch off.
    pub fetch_ms: u64,
    pub last_watch_ms: u64,
    pub last_fetch_ms: u64,
    /// Repaint interval while checkout flashes are on screen.
    pub flash_tick_ms: u64,
    /// Something changed since the last paint.
    pub dirty: bool,
    pub last_draw_ms: u64,
    pub quit: bool,
}

/// What woke the event loop.
#[derive(Clone, Copy, Debug, PartialEq, Eq, Structural)]
pub enum LoopEvent {
    /// About to wait: how long may it sleep before each timer? Carries the
    /// Ctrl-C exit deadline, if armed, and whether flashes are showing.
    Idle { now_ms: u64, mode: InputMode, ctrl_c_armed_until: Option<u64>, flashes: bool },
    /// The watch timer ran out.
    WatchDue { now_ms: u64, mode: InputMode },
    /// The fetch timer ran out.
    FetchDue { now_ms: u64, mode: InputMode, busy_for_writes: bool },
    /// The Ctrl-C exit window ran out.
    CtrlCDue,
    /// The paint timer ran out; `flashes` after expired ones were pruned.
    PresentDue { now_ms: u64, flashes: bool },
    /// A job result or a tick changed something that needs a paint.
    Changed,
    /// A key, mouse or resize event, mapped to its action.
    Input { action: Action, busy_for_writes: bool },
    /// Dispatch answered with the quit effect.
    QuitEffect,
    /// The input channel closed.
    InputClosed,
}

/// What the runner does next.
#[derive(Clone, Copy, Debug, PartialEq, Eq, Structural)]
pub enum LoopAction {
    /// Sleep until input, a job result, or the first timer that is set.
    Wait { watch: Option<u64>, fetch: Option<u64>, ctrl_c: Option<u64>, present: Option<u64> },
    /// Dispatch this action and schedule its effect.
    Dispatch(Action),
    /// After that dispatch: queue the next graph page if it is due.
    QueueAutoload,
    /// Relayout the terminal before dispatching the resize.
    Resize { cols: u16, rows: u16 },
    /// Drop the Ctrl-C exit prompt if its window has passed.
    ExpireCtrlC,
    /// Paint the frame.
    Draw,
    /// Leave the loop.
    Stop,
}

/// Milliseconds since `last`, zero when the clock reads earlier.
pub open spec fn elapsed(now: u64, last: u64) -> u64 {
    if now >= last { (now - last) as u64 } else { 0 }
}

/// Time left on a timer of `interval` last fired at `last`.
pub open spec fn remain(interval: u64, now: u64, last: u64) -> u64 {
    if elapsed(now, last) >= interval { 0 } else { (interval - elapsed(now, last)) as u64 }
}

fn remain_exec(interval: u64, now: u64, last: u64) -> (r: u64)
    ensures
        r == remain(interval, now, last),
{
    let e = if now >= last { now - last } else { 0 };
    if e >= interval { 0 } else { interval - e }
}

/// Overlays (confirm, help, pickers, …) hold the background timers.
pub open spec fn blocks(mode: InputMode) -> bool {
    !(mode is Normal || mode is ZPending || mode is GPending)
}

/// Time until the next paint: the flash tick while flashes show (or the
/// paint gap, if sooner), the paint gap when dirty, no timer otherwise.
pub open spec fn present_wait(st: LoopState, now: u64, flashes: bool) -> Option<u64> {
    let gap = remain(DRAW_MIN_MS, now, st.last_draw_ms);
    if flashes {
        Some(if st.flash_tick_ms < gap { st.flash_tick_ms } else { gap })
    } else if st.dirty {
        Some(gap)
    } else {
        None
    }
}

/// Time until the armed Ctrl-C exit window closes.
pub open spec fn ctrl_c_wait(armed_until: Option<u64>, now: u64) -> Option<u64> {
    match armed_until {
        Some(u) => Some(if u > now { (u - now) as u64 } else { 0 }),
        None => None,
    }
}

/// The graph-autoload check that follows a dispatch of `a`.
pub open spec fn autoload_after(a: Action) -> Seq<LoopAction> {
    let moves = match a {
        Action::ScrollWheel { horizontal, .. } => !horizontal,
        a => a is Move || a is PageMove || a is MoveToStart || a is MoveToEnd || a is SearchNext || a is SearchPrev
            || a is FocusRight || a is NavEnter || a is Click,
    };
    if moves { seq![LoopAction::QueueAutoload] } else { Seq::empty() }
}

/// Dispatch `a` (after a relayout for a resize), then the autoload check;
/// the frame needs a paint.
pub open spec fn handle_spec(st: LoopState, a: Action) -> (LoopState, Seq<LoopAction>) {
    let st2 = LoopState { dirty: true, ..st };
    match a {
        Action::Resize { cols, rows } => (st2, seq![LoopAction::Resize { cols, rows }, LoopAction::Dispatch(a)]),
        _ => (st2, seq![LoopAction::Dispatch(a)] + autoload_after(a)),
    }
}

/// One turn of the event loop's decisions.
pub open spec fn loop_step_spec(st: LoopState, ev: LoopEvent) -> (LoopState, Seq<LoopAction>) {
    match ev {
        LoopEvent::Idle { now_ms, mode, ctrl_c_armed_until, flashes } => (
            st,
            seq![LoopAction::Wait {
                watch: if blocks(mode) { None } else { Some(remain(st.watch_ms, now_ms, st.last_watch_ms)) },
                fetch: if st.fetch_ms == 0 || blocks(mode) {
                    None
                } else {
                    Some(remain(st.fetch_ms, now_ms, st.last_fetch_ms))
                },
                ctrl_c: ctrl_c_wait(ctrl_c_armed_until, now_ms),
                present: present_wait(st, now_ms, flashes),
            }],
        ),
        LoopEvent::WatchDue { now_ms, mode } => (
            LoopState { last_watch_ms: now_ms, ..st },
            if blocks(mode) { Seq::empty() } else { seq![LoopAction::Dispatch(Action::WatchTick)] },
        ),
        LoopEvent::FetchDue { now_ms, mode, busy_for_writes } => (
            LoopState { last_fetch_ms: now_ms, ..st },
            if blocks(mode) || busy_for_writes { Seq::empty() } else { seq![LoopAction::Dispatch(Action::FetchTick)] },
        ),
        LoopEvent::CtrlCDue => (st, seq![LoopAction::ExpireCtrlC]),
        LoopEvent::PresentDue { now_ms, flashes } => if (st.dirty && elapsed(now_ms, st.last_draw_ms) >= DRAW_MIN_MS)
            || flashes {
            (LoopState { dirty: flashes, last_draw_ms: now_ms, ..st }, seq![LoopAction::Draw])
        } else {
            (st, Seq::empty())
        },
        LoopEvent::Changed => (LoopState { dirty: true, ..st }, Seq::empty()),
        LoopEvent::Input { action, busy_for_writes } => if !busy_for_writes {
            handle_spec(st, action)
        } else {
            match action {
                Action::Quit => (LoopState { quit: true, ..st }, seq![LoopAction::Stop]),
                Action::Resize { .. } => handle_spec(st, action),
                _ => if starts_write_spec(action) { (st, Seq::empty()) } else { handle_spec(st, action) },
            }
        },
        LoopEvent::QuitEffect | LoopEvent::InputClosed => (LoopState { quit: true, ..st }, seq![LoopAction::Stop]),
    }
}

fn one_action(a: LoopAction) -> (r: Vec<LoopAction>)
    ensures
        r@ == seq![a],
{
    let mut r: Vec<LoopAction> = Vec::new();
    r.push(a);
    assert(r@ =~= seq![a]);
    r
}

fn handle_exec(st: LoopState, action: Action) -> (r: (LoopState, Vec<LoopAction>))
    ensures
        r.0 == handle_spec(st, action).0,
        r.1@ == handle_spec(st, action).1,
{
    let next = LoopState { dirty: true, ..st };
    let mut acts: Vec<LoopAction> = Vec::new();
    match action {
        Action::Resize { cols, rows } => {
            acts.push(LoopAction::Resize { cols, rows });
            acts.push(LoopAction::Dispatch(action));
            assert(acts@ =~= seq![LoopAction::Resize { cols, rows }, LoopAction::Dispatch(action)]);
        },
        _ => {
            acts.push(LoopAction::Dispatch(action));
            if action_triggers_graph_autoload(&action) {
                acts.push(LoopAction::QueueAutoload);
            }
            assert(acts@ =~= seq![LoopAction::Dispatch(action)] + autoload_after(action));
        },
    }
    (next, acts)
}

/// Decide the loop's next steps for one event: how long to sleep before
/// the watch, fetch, Ctrl-C and paint timers (a fetch interval of 0 sets
/// no fetch timer; an overlay holds watch and fetch), whether a due tick
/// dispatches (a fetch tick is skipped while a write is busy), when to
/// paint, and how input is handled (while a write is busy: quit stops,
/// resize relays, input that would start another write is drained; a
/// dispatched move is followed by the graph-autoload check).
pub fn loop_step(st: LoopState, ev: LoopEvent) -> (r: (LoopState, Vec<LoopAction>))
    ensures
        r.0 == loop_step_spec(st, ev).0,
        r.1@ == loop_step_spec(st, ev).1,
{
    match ev {
        LoopEvent::Idle { now_ms, mode, ctrl_c_armed_until, flashes } => {
            let blocked = overlay_blocks_background_ticks(mode);
            let watch = if blocked { None } else { Some(remain_exec(st.watch_ms, now_ms, st.last_watch_ms)) };
            let fetch = if st.fetch_ms == 0 || blocked {
                None
            } else {
                Some(remain_exec(st.fetch_ms, now_ms, st.last_fetch_ms))
            };
            let ctrl_c = match ctrl_c_armed_until {
                Some(u) => Some(if u > now_ms { u - now_ms } else { 0 }),
                None => None,
            };
            let gap = remain_exec(DRAW_MIN_MS, now_ms, st.last_draw_ms);
            let present = if flashes {
                Some(if st.flash_tick_ms < gap { st.flash_tick_ms } else { gap })
            } else if st.dirty {
                Some(gap)
            } else {
                None
            };
            (st, one_action(LoopAction::Wait { watch, fetch, ctrl_c, present }))
        },
        LoopEvent::WatchDue { now_ms, mode } => {
            let next = LoopState { last_watch_ms: now_ms, ..st };
            if overlay_blocks_background_ticks(mode) {
                (next, Vec::new())
            } else {
                (next, one_action(LoopAction::Dispatch(Action::WatchTick)))
            }
        },
        LoopEvent::FetchDue { now_ms, mode, busy_for_writes } => {
            let next = LoopState { last_fetch_ms: now_ms, ..st };
            if overlay_blocks_background_ticks(mode) || busy_for_writes {
                (next, Vec::new())
            } else {
                (next, one_action(LoopAction::Dispatch(Action::FetchTick)))
            }
        },
        LoopEvent::CtrlCDue => (st, one_action(LoopAction::ExpireCtrlC)),
        LoopEvent::PresentDue { now_ms, flashes } => {
            let since = if now_ms >= st.last_draw_ms { now_ms - st.last_draw_ms } else { 0 };
            if (st.dirty && since >= DRAW_MIN_MS) || flashes {
                (LoopState { dirty: flashes, last_draw_ms: now_ms, ..st }, one_action(LoopAction::Draw))
            } else {
                (st, Vec::new())
            }
        },
        LoopEvent::Changed => (LoopState { dirty: true, ..st }, Vec::new()),
        LoopEvent::Input { action, busy_for_writes } => {
            if busy_for_writes {
                match classify_busy_action(&action) {
                    BusyAction::Quit => return (LoopState { quit: true, ..st }, one_action(LoopAction::Stop)),
                    BusyAction::Ignore => return (st, Vec::new()),
                    _ => {},
                }
            }
            handle_exec(st, action)
        },
        LoopEvent::QuitEffect | LoopEvent::InputClosed => (LoopState { quit: true, ..st }, one_action(LoopAction::Stop)),
    }
}

/// With a fetch interval of 0 the loop never sets a fetch timer.
pub proof fn lemma_zero_fetch_interval_disables_fetch(
    st: LoopState,
    now_ms: u64,
    mode: InputMode,
    ctrl_c_armed_until: Option<u64>,
    flashes: bool,
)
    requires
        st.fetch_ms == 0,
    ensures
        loop_step_spec(st, LoopEvent::Idle { now_ms, mode, ctrl_c_armed_until, flashes }).1[0]
            matches LoopAction::Wait { fetch, .. } && fetch is None,
{
}

/// A due fetch tick while a write is busy dispatches nothing; the timer
/// still restarts.
pub proof fn lemma_fetch_skipped_while_busy(st: LoopState, now_ms: u64, mode: InputMode)
    ensures
        loop_step_spec(st, LoopEvent::FetchDue { now_ms, mode, busy_for_writes: true }).1 =~= Seq::<LoopAction>::empty(),
        loop_step_spec(st, LoopEvent::FetchDue { now_ms, mode, busy_for_writes: true }).0.last_fetch_ms == now_ms,
{
}

/// Asking for a commit-file list again makes every result of the earlier
/// request stale: it no longer changes the drill, whatever the app shows.
pub proof fn lemma_new_request_makes_old_result_stale(
    i: InterpState,
    s: AppModel,
    repo: String,
    source: CommitFileSource,
    later: AppModel,
    old_result: JobOutcome,
)
    requires
        old_result matches JobOutcome::CommitFiles { gen, .. } && gen == i.commit_files_gen,
    ensures
        !outcome_current(schedule_spec(i, s, Effect::LoadCommitFiles { repo, source }).0, later, old_result),
{
}

/// A commit-diff result that was applied leaves a drill it still matches.
pub proof fn lemma_applied_diff_stays_current(i: InterpState, s: AppModel, o: JobOutcome)
    requires
        o is CommitDiff,
        outcome_current(i, s, o),
    ensures
        outcome_current(apply_spec(i, s, o).0, apply_spec(i, s, o).1, o),
{
}

/// Showing a right-pane graph makes every graph page queued before it stale:
/// the late page merges into nothing and changes nothing.
pub proof fn lemma_pane_graph_makes_pending_autoload_stale(
    i: InterpState,
    s: AppModel,
    req_id: u64,
    target: PaneTarget,
    load: PaneLoad,
    late: JobOutcome,
)
    requires
        load is Graph,
        outcome_current(i, s, JobOutcome::RightPane { req_id, target, load }),
        late matches JobOutcome::Autoload { gen, .. } && gen == i.autoload_gen,
    ensures
        ({
            let shown = apply_spec(i, s, JobOutcome::RightPane { req_id, target, load });
            &&& !autoload_merges(shown.0, shown.1, late)
            &&& apply_spec(shown.0, shown.1, late) == (shown.0, shown.1, Seq::<JobRequest>::empty())
        }),
{
}

/// Asking for the right pane again makes the result of every earlier pane
/// request stale, whatever the app shows when it arrives.
pub proof fn lemma_new_pane_request_makes_old_result_stale(
    i: InterpState,
    later: AppModel,
    target: PaneTarget,
    load: PaneLoad,
)
    ensures
        !outcome_current(with_pane(i), later, JobOutcome::RightPane { req_id: i.pane_req, target, load }),
{
}

/// A right-pane result made for a target the focus has left is not shown;
/// the pane is asked for again, for the current target.
pub proof fn lemma_moved_target_reloads_pane(i: InterpState, s: AppModel, req_id: u64, target: PaneTarget, load: PaneLoad)
    requires
        !pane_target_eq(target, s.pane_target),
    ensures
        apply_spec(i, s, JobOutcome::RightPane { req_id, target, load }) == (
            with_pane(i),
            s,
            seq![JobRequest::LoadPane { req_id: next_gen(i.pane_req), target: s.pane_target }],
        ),
{
}

/// Schedule `effect` for a run with no terminal: the `$EDITOR` and
/// external-diff requests it leaves are dropped.
pub fn schedule_headless(interp: &mut InterpState, state: &mut AppModel, effect: Effect) -> (jobs: Vec<JobRequest>)
    ensures
        *final(interp) == (InterpState {
            pending_edit: None,
            pending_diff: None,
            ..schedule_spec(*old(interp), *old(state), effect).0
        }),
        jobs@ == schedule_spec(*old(interp), *old(state), effect).2,
        *final(state) == (AppModel { drill: final(state).drill, ..schedule_spec(*old(interp), *old(state), effect).1 }),
        drill_after(final(state).drill, old(state).drill, schedule_spec(*old(interp), *old(state), effect).3),
{
    let jobs = schedule_effect(interp, state, effect);
    let _ = take_pending_edit(interp);
    let _ = take_pending_diff(interp);
    jobs
}

/// The graph cursor sits on the last loaded row, older history exists,
/// no page is loading, and the graph (not a worktree file diff) is shown.
pub open spec fn autoload_due(s: AppModel) -> bool {
    &&& !s.graph_loading_older
    &&& !s.plain_diff_on_right
    &&& s.graph matches Some(g) && g.has_more
    &&& s.graph_rows > 0 && s.graph_cursor + 1 >= s.graph_rows
    &&& s.graph_identity is Some
}

/// Queue the next graph page when it is due; the job keeps the identity
/// of the graph it was queued for.
pub open spec fn queue_autoload_spec(i: InterpState, s: AppModel) -> (InterpState, AppModel, Seq<JobRequest>) {
    if autoload_due(s) {
        (
            InterpState { autoload_gen: next_gen(i.autoload_gen), dirty: true, ..i },
            AppModel { graph_loading_older: true, status: StatusLine::LoadingOlder, ..s },
            seq![JobRequest::Autoload { gen: next_gen(i.autoload_gen), identity: s.graph_identity->0 }],
        )
    } else {
        (i, s, Seq::empty())
    }
}

/// After an action that may move the graph cursor: queue the next graph
/// page when the cursor reached the last loaded row.
pub fn queue_autoload(interp: &mut InterpState, state: &mut AppModel) -> (jobs: Vec<JobRequest>)
    ensures
        *final(interp) == queue_autoload_spec(*old(interp), *old(state)).0,
        *final(state) == queue_autoload_spec(*old(interp), *old(state)).1,
        jobs@ == queue_autoload_spec(*old(interp), *old(state)).2,
{
    if state.graph_loading_older || state.plain_diff_on_right {
        return Vec::new();
    }
    let has_more = match &state.graph {
        Some(g) => g.has_more,
        None => false,
    };
    let due = should_autoload(ShouldAutoload {
        cursor_index: state.graph_cursor,
        loaded_count: state.graph_rows,
        has_more,
        loading: false,
    });
    if !due {
        return Vec::new();
    }
    let identity = match &state.graph_identity {
        Some((r, h)) => (r.clone(), h.clone()),
        None => return Vec::new(),
    };
    state.graph_loading_older = true;
    state.status = StatusLine::LoadingOlder;
    interp.autoload_gen = bump(interp.autoload_gen);
    interp.dirty = true;
    one_job(JobRequest::Autoload { gen: interp.autoload_gen, identity })
}

/// The rows whose checkout discovery still returned, in order.
pub open spec fn kept_rows(rows: Seq<CheckoutBranchRow>, keep: Seq<String>) -> Seq<CheckoutBranchRow>
    decreases rows.len(),
{
    if rows.len() == 0 {
        Seq::empty()
    } else {
        let r = kept_rows(rows.drop_last(), keep);
        if str_in(keep, rows.last().repo@) { r.push(rows.last()) } else { r }
    }
}

fn keep_has(keep: &[String], a: &String) -> (b: bool)
    ensures
        b == str_in(keep@, a@),
{
    let mut i: usize = 0;
    while i < keep.len()
        invariant
            i <= keep@.len(),
            forall|j: int| 0 <= j < i ==> (#[trigger] keep@[j])@ != a@,
        decreases keep@.len() - i,
    {
        if str_eq(keep[i].as_str(), a.as_str()) {
            return true;
        }
        i += 1;
    }
    false
}

/// Drop checkouts the latest discovery no longer returned (a removed
/// worktree or a deleted repo never reports on its own).
pub fn drop_undiscovered_checkouts(state: &mut AppModel, keep: &[String])
    ensures
        final(state).checkout_rows@ == kept_rows(old(state).checkout_rows@, keep@),
        *final(state) == (AppModel { checkout_rows: final(state).checkout_rows, ..*old(state) }),
{
    let ghost orig = state.checkout_rows@;
    let mut i: usize = 0;
    let ghost mut j: int = 0;
    assert(orig.take(0) =~= Seq::<CheckoutBranchRow>::empty());
    assert(orig.skip(0) =~= orig);
    while i < state.checkout_rows.len()
        invariant
            0 <= j <= orig.len(),
            i == kept_rows(orig.take(j), keep@).len(),
            state.checkout_rows@ == kept_rows(orig.take(j), keep@) + orig.skip(j),
            *state == (AppModel { checkout_rows: state.checkout_rows, ..*old(state) }),
            orig == old(state).checkout_rows@,
        decreases state.checkout_rows@.len() - i,
    {
        let ghost before = state.checkout_rows@;
        assert(before[i as int] == orig[j]);
        assert(orig.take(j + 1).drop_last() =~= orig.take(j));
        assert(orig.take(j + 1).last() == orig[j]);
        if keep_has(keep, &state.checkout_rows[i].repo) {
            assert(state.checkout_rows@ =~= kept_rows(orig.take(j + 1), keep@) + orig.skip(j + 1));
            i += 1;
        } else {
            state.checkout_rows.remove(i);
            assert(state.checkout_rows@ =~= kept_rows(orig.take(j + 1), keep@) + orig.skip(j + 1));
        }
        proof {
            j = j + 1;
        }
    }
    assert(orig.skip(j).len() == 0);
    assert(orig.take(j) =~= orig);
    assert(state.checkout_rows@ =~= kept_rows(orig, keep@));
}

/// A signature key of checkout `repo`'s pane: one of its files, or its repo
/// or checkout chrome.
pub open spec fn pane_sig_key(k: Seq<char>, repo: Seq<char>) -> bool {
    ||| starts_with(k, "file:"@ + repo + ":"@)
    ||| k == "repo:"@ + repo
    ||| k == "checkout:"@ + repo
}

/// The (key, signature) pairs of `sigs` that belong to `repo`'s pane, in order.
pub open spec fn pane_sigs(sigs: Seq<(String, String)>, repo: Seq<char>) -> Seq<(Seq<char>, Seq<char>)>
    decreases sigs.len(),
{
    if sigs.len() == 0 {
        Seq::empty()
    } else {
        let r = pane_sigs(sigs.drop_last(), repo);
        if pane_sig_key(sigs.last().0@, repo) { r.push((sigs.last().0@, sigs.last().1@)) } else { r }
    }
}

/// The focused checkout's pane must reload: its watch identity moved, or a
/// signature of its files or chrome did.
pub open spec fn pane_needs_reload(
    before_id: Option<String>,
    after_id: Option<String>,
    before_sigs: Seq<(String, String)>,
    after_sigs: Seq<(String, String)>,
    repo: Seq<char>,
) -> bool {
    !opt_str_eq(before_id, after_id) || pane_sigs(before_sigs, repo) != pane_sigs(after_sigs, repo)
}

fn pane_sig_entries(sigs: &[(String, String)], file_prefix: &String, repo_key: &String, checkout_key: &String, repo: &str) -> (r: Vec<(String, String)>)
    requires
        file_prefix@ == "file:"@ + repo@ + ":"@,
        repo_key@ == "repo:"@ + repo@,
        checkout_key@ == "checkout:"@ + repo@,
    ensures
        r@.map_values(|p: (String, String)| (p.0@, p.1@)) == pane_sigs(sigs@, repo@),
{
    let mut r: Vec<(String, String)> = Vec::new();
    let mut k: usize = 0;
    assert(sigs@.take(0) =~= Seq::<(String, String)>::empty());
    assert(r@.map_values(|p: (String, String)| (p.0@, p.1@)) =~= Seq::<(Seq<char>, Seq<char>)>::empty());
    while k < sigs.len()
        invariant
            k <= sigs@.len(),
            file_prefix@ == "file:"@ + repo@ + ":"@,
            repo_key@ == "repo:"@ + repo@,
            checkout_key@ == "checkout:"@ + repo@,
            r@.map_values(|p: (String, String)| (p.0@, p.1@)) == pane_sigs(sigs@.take(k as int), repo@),
        decreases sigs@.len() - k,
    {
        assert(sigs@.take(k + 1).drop_last() =~= sigs@.take(k as int));
        assert(sigs@.take(k + 1).last() == sigs@[k as int]);
        let key = &sigs[k].0;
        let keep = str_starts_with(key.as_str(), file_prefix.as_str()) || str_eq(key.as_str(), repo_key.as_str())
            || str_eq(key.as_str(), checkout_key.as_str());
        if keep {
            let ghost before = r@;
            r.push((sigs[k].0.clone(), sigs[k].1.clone()));
            assert(r@.map_values(|p: (String, String)| (p.0@, p.1@)) =~= before.map_values(
                |p: (String, String)| (p.0@, p.1@),
            ).push((sigs@[k as int].0@, sigs@[k as int].1@)));
        }
        k += 1;
    }
    assert(sigs@.take(sigs@.len() as int) =~= sigs@);
    r
}

fn sig_lists_eq(a: &Vec<(String, String)>, b: &Vec<(String, String)>) -> (r: bool)
    ensures
        r == (a@.map_values(|p: (String, String)| (p.0@, p.1@)) == b@.map_values(|p: (String, String)| (p.0@, p.1@))),
{
    let ghost va = a@.map_values(|p: (String, String)| (p.0@, p.1@));
    let ghost vb = b@.map_values(|p: (String, String)| (p.0@, p.1@));
    if a.len() != b.len() {
        assert(va.len() != vb.len());
        return false;
    }
    let mut k: usize = 0;
    while k < a.len()
        invariant
            k <= a@.len(),
            a@.len() == b@.len(),
            va == a@.map_values(|p: (String, String)| (p.0@, p.1@)),
            vb == b@.map_values(|p: (String, String)| (p.0@, p.1@)),
            forall|j: int| 0 <= j < k ==> #[trigger] va[j] == vb[j],
        decreases a@.len() - k,
    {
        if !(str_eq(a[k].0.as_str(), b[k].0.as_str()) && str_eq(a[k].1.as_str(), b[k].1.as_str())) {
            assert(va[k as int] != vb[k as int]);
            return false;
        }
        k += 1;
    }
    assert(va =~= vb);
    true
}

/// Whether a repo status of the focused checkout `repo` needs the right pane
/// reloaded: its watch identity (`before_id` / `after_id`) or one of its
/// file or chrome signatures changed. The signature lists are the
/// signature map's entries in key order.
pub fn focused_repo_needs_pane(
    before_id: &Option<String>,
    after_id: &Option<String>,
    before_sigs: &[(String, String)],
    after_sigs: &[(String, String)],
    repo: &str,
) -> (b: bool)
    ensures
        b == pane_needs_reload(*before_id, *after_id, before_sigs@, after_sigs@, repo@),
{
    if !opt_str_eq_exec(before_id, after_id) {
        return true;
    }
    let mut file_prefix = String::new();
    assert(file_prefix@ =~= Seq::<char>::empty());
    push_str(&mut file_prefix, "file:");
    push_str(&mut file_prefix, repo);
    push_str(&mut file_prefix, ":");
    let mut repo_key = String::new();
    assert(repo_key@ =~= Seq::<char>::empty());
    push_str(&mut repo_key, "repo:");
    push_str(&mut repo_key, repo);
    let mut checkout_key = String::new();
    assert(checkout_key@ =~= Seq::<char>::empty());
    push_str(&mut checkout_key, "checkout:");
    push_str(&mut checkout_key, repo);
    let before = pane_sig_entries(before_sigs, &file_prefix, &repo_key, &checkout_key, repo);
    let after = pane_sig_entries(after_sigs, &file_prefix, &repo_key, &checkout_key, repo);
    !sig_lists_eq(&before, &after)
}

} // verus!
