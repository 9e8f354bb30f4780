//! Which comments `y` copies: the scope of the focused graph, commit-file
//! or diff row, and the store cut down to it; and the key a new comment on
//! the focused graph row or diff lines is stored under.
//!
//! A file copies that path only. A folder copies descendants under that
//! path. Unrelated siblings stay out. The workspace row copies every live
//! comment.

use vstd::prelude::*;

use crate::comments::live::{opt_view, LiveCheckout};
use crate::comments::store::{
    compare_keys, keep_spec, lookup, normalize_path, ordered_line_range, pair_views, CommentEntry, normalize_path_spec, repo_identity, repo_identity_spec, CommentKey,
    CommentStore, EntryView, KeyView,
};
use crate::comments::target::{str_in, DETACHED_HEAD_BRANCH};
use crate::drill::CommitFileSource;
use crate::graph_load::GraphRow;
use crate::text::{push_str, starts_with, str_chars, str_eq, str_starts_with, string_views};

verus! {

/// Which keys a scoped copy takes.
#[derive(Debug, PartialEq, Eq)]
pub enum ExportScope {
    /// Every comment.
    All,
    /// No comment.
    Empty,
    /// Every comment of these repo identities (a family or group row).
    Identities(Vec<String>),
    /// A checkout: its branch, its path and its commits, plus the row's own key.
    Checkout { identity: String, path: String, branch: String, extra: Option<CommentKey> },
    /// A worktree object: its path key and its branch's line comments.
    WorktreeObject { path: String, identity: String, branch: String },
    /// Line comments on one working-tree file, or under a folder (`prefix`).
    WorktreePath { identity: String, branch: String, path: String, prefix: bool },
    /// A commit's comments, or only those on one file or under a folder.
    Commit { identity: String, sha: String, path: Option<String>, prefix: bool },
}

/// [`ExportScope`] as plain values.
pub enum ScopeView {
    All,
    Empty,
    Identities(Seq<Seq<char>>),
    Checkout { identity: Seq<char>, path: Seq<char>, branch: Seq<char>, extra: Option<KeyView> },
    WorktreeObject { path: Seq<char>, identity: Seq<char>, branch: Seq<char> },
    WorktreePath { identity: Seq<char>, branch: Seq<char>, path: Seq<char>, prefix: bool },
    Commit { identity: Seq<char>, sha: Seq<char>, path: Option<Seq<char>>, prefix: bool },
}

impl View for ExportScope {
    type V = ScopeView;

    open spec fn view(&self) -> ScopeView {
        match self {
            ExportScope::All => ScopeView::All,
            ExportScope::Empty => ScopeView::Empty,
            ExportScope::Identities(ids) => ScopeView::Identities(string_views(ids@)),
            ExportScope::Checkout { identity, path, branch, extra } => ScopeView::Checkout {
                identity: identity@,
                path: path@,
                branch: branch@,
                extra: match extra {
                    Some(k) => Some(k@),
                    None => None,
                },
            },
            ExportScope::WorktreeObject { path, identity, branch } => ScopeView::WorktreeObject {
                path: path@,
                identity: identity@,
                branch: branch@,
            },
            ExportScope::WorktreePath { identity, branch, path, prefix } => ScopeView::WorktreePath {
                identity: identity@,
                branch: branch@,
                path: path@,
                prefix: *prefix,
            },
            ExportScope::Commit { identity, sha, path, prefix } => ScopeView::Commit {
                identity: identity@,
                sha: sha@,
                path: opt_view(*path),
                prefix: *prefix,
            },
        }
    }
}

/// `p` is the folder `d` or lies under it.
pub open spec fn under_dir(p: Seq<char>, d: Seq<char>) -> bool {
    p == d || starts_with(p, d.push('/'))
}

/// `p` is the scope path, or under it for a folder scope.
pub open spec fn path_in_scope(p: Seq<char>, scope: Seq<char>, prefix: bool) -> bool {
    if prefix { under_dir(p, scope) } else { p == scope }
}

/// The key belongs to one of the identities (a worktree path key when it
/// is an identity's path or lies under it).
pub open spec fn identity_key(k: KeyView, ids: Seq<Seq<char>>) -> bool {
    match k {
        KeyView::Branch { repo, .. } => ids.contains(repo),
        KeyView::Commit { repo, .. } => ids.contains(repo),
        KeyView::WorktreeLine { repo, .. } => ids.contains(repo),
        KeyView::CommitLine { repo, .. } => ids.contains(repo),
        KeyView::Worktree { path } => exists|i: int| 0 <= i < ids.len() && under_dir(path, #[trigger] ids[i]),
    }
}

/// The key belongs to the checkout: its branch, its path, or its repo's commits.
pub open spec fn checkout_key(k: KeyView, identity: Seq<char>, path: Seq<char>, branch: Seq<char>) -> bool {
    match k {
        KeyView::Branch { repo, branch: b } => repo == identity && b == branch,
        KeyView::Worktree { path: p } => p == path,
        KeyView::WorktreeLine { repo, branch: b, .. } => repo == identity && b == branch,
        KeyView::Commit { repo, .. } => repo == identity,
        KeyView::CommitLine { repo, .. } => repo == identity,
    }
}

/// The scope takes key `k`.
pub open spec fn scope_contains_spec(s: ScopeView, k: KeyView) -> bool {
    match s {
        ScopeView::All => true,
        ScopeView::Empty => false,
        ScopeView::Identities(ids) => identity_key(k, ids),
        ScopeView::Checkout { identity, path, branch, extra } => extra == Some(k) || checkout_key(
            k,
            identity,
            path,
            branch,
        ),
        ScopeView::WorktreeObject { path, identity, branch } => match k {
            KeyView::Worktree { path: p } => p == path,
            KeyView::WorktreeLine { repo, branch: b, .. } => repo == identity && b == branch,
            _ => false,
        },
        ScopeView::WorktreePath { identity, branch, path, prefix } => match k {
            KeyView::WorktreeLine { repo, branch: b, path: p, .. } => repo == identity && b == branch
                && path_in_scope(p, path, prefix),
            _ => false,
        },
        ScopeView::Commit { identity, sha, path, prefix } => match k {
            KeyView::Commit { repo, sha: s } => path is None && repo == identity && s == sha,
            KeyView::CommitLine { repo, sha: s, path: p, .. } => repo == identity && s == sha && match path {
                None => true,
                Some(sp) => path_in_scope(p, sp, prefix),
            },
            _ => false,
        },
    }
}

fn under_dir_exec(p: &str, d: &str) -> (b: bool)
    ensures
        b == under_dir(p@, d@),
{
    if str_eq(p, d) {
        return true;
    }
    let mut dir = String::new();
    push_str(&mut dir, d);
    push_str(&mut dir, "/");
    proof {
        reveal_strlit("/");
        assert(dir@ =~= d@.push('/'));
    }
    str_starts_with(p, dir.as_str())
}

fn path_in_scope_exec(p: &str, scope: &str, prefix: bool) -> (b: bool)
    ensures
        b == path_in_scope(p@, scope@, prefix),
{
    if prefix { under_dir_exec(p, scope) } else { str_eq(p, scope) }
}

fn ids_contain(ids: &Vec<String>, a: &str) -> (b: bool)
    ensures
        b == string_views(ids@).contains(a@),
{
    let ghost v = string_views(ids@);
    let mut i: usize = 0;
    while i < ids.len()
        invariant
            i <= ids@.len(),
            v == string_views(ids@),
            forall|j: int| 0 <= j < i ==> v[j] != a@,
        decreases ids@.len() - i,
    {
        if str_eq(ids[i].as_str(), a) {
            assert(v[i as int] == a@);
            return true;
        }
        i += 1;
    }
    false
}

fn ids_hold_path(ids: &Vec<String>, path: &str) -> (b: bool)
    ensures
        b == (exists|i: int| 0 <= i < ids@.len() && under_dir(path@, #[trigger] string_views(ids@)[i])),
{
    let ghost v = string_views(ids@);
    let mut i: usize = 0;
    while i < ids.len()
        invariant
            i <= ids@.len(),
            v == string_views(ids@),
            forall|j: int| 0 <= j < i ==> !under_dir(path@, #[trigger] v[j]),
        decreases ids@.len() - i,
    {
        if under_dir_exec(path, ids[i].as_str()) {
            assert(under_dir(path@, v[i as int]));
            return true;
        }
        i += 1;
    }
    false
}

/// Whether the scope takes `key`.
pub fn scope_contains(scope: &ExportScope, key: &CommentKey) -> (b: bool)
    ensures
        b == scope_contains_spec(scope@, key@),
{
    match scope {
        ExportScope::All => true,
        ExportScope::Empty => false,
        ExportScope::Identities(ids) => match key {
            CommentKey::Branch { repo, .. } | CommentKey::Commit { repo, .. } | CommentKey::WorktreeLine { repo, .. }
            | CommentKey::CommitLine { repo, .. } => ids_contain(ids, repo.as_str()),
            CommentKey::Worktree { path } => ids_hold_path(ids, path.as_str()),
        },
        ExportScope::Checkout { identity, path, branch, extra } => {
            let is_extra = match extra {
                Some(e) => compare_keys(e, key).1,
                None => false,
            };
            is_extra || match key {
                CommentKey::Branch { repo, branch: b } => str_eq(repo.as_str(), identity.as_str()) && str_eq(
                    b.as_str(),
                    branch.as_str(),
                ),
                CommentKey::Worktree { path: p } => str_eq(p.as_str(), path.as_str()),
                CommentKey::WorktreeLine { repo, branch: b, .. } => str_eq(repo.as_str(), identity.as_str())
                    && str_eq(b.as_str(), branch.as_str()),
                CommentKey::Commit { repo, .. } | CommentKey::CommitLine { repo, .. } => str_eq(
                    repo.as_str(),
                    identity.as_str(),
                ),
            }
        },
        ExportScope::WorktreeObject { path, identity, branch } => match key {
            CommentKey::Worktree { path: p } => str_eq(p.as_str(), path.as_str()),
            CommentKey::WorktreeLine { repo, branch: b, .. } => str_eq(repo.as_str(), identity.as_str()) && str_eq(
                b.as_str(),
                branch.as_str(),
            ),
            _ => false,
        },
        ExportScope::WorktreePath { identity, branch, path, prefix } => match key {
            CommentKey::WorktreeLine { repo, branch: b, path: p, .. } => str_eq(repo.as_str(), identity.as_str())
                && str_eq(b.as_str(), branch.as_str()) && path_in_scope_exec(p.as_str(), path.as_str(), *prefix),
            _ => false,
        },
        ExportScope::Commit { identity, sha, path, prefix } => match key {
            CommentKey::Commit { repo, sha: s } => path.is_none() && str_eq(repo.as_str(), identity.as_str())
                && str_eq(s.as_str(), sha.as_str()),
            CommentKey::CommitLine { repo, sha: s, path: p, .. } => str_eq(repo.as_str(), identity.as_str())
                && str_eq(s.as_str(), sha.as_str()) && match path {
                None => true,
                Some(sp) => path_in_scope_exec(p.as_str(), sp.as_str(), *prefix),
            },
            _ => false,
        },
    }
}

/// The stored comments the scope takes, in store order.
pub open spec fn in_scope_spec(s: Seq<(KeyView, EntryView)>, scope: ScopeView) -> Seq<(KeyView, EntryView)> {
    keep_spec(s, Seq::new(s.len(), |i: int| scope_contains_spec(scope, s[i].0)))
}

/// The comments a scoped copy takes.
pub fn comments_in_scope(store: &CommentStore, scope: &ExportScope) -> (r: CommentStore)
    ensures
        r@ == in_scope_spec(store@, scope@),
{
    let entries = store.entries();
    let ghost v = store@;
    let mut keep: Vec<bool> = Vec::new();
    let mut i: usize = 0;
    while i < entries.len()
        invariant
            i <= v.len(),
            v == store@,
            v == crate::comments::store::pair_views(entries@),
            keep@.len() == i,
            forall|j: int| 0 <= j < i ==> keep@[j] == scope_contains_spec(scope@, #[trigger] v[j].0),
        decreases v.len() - i,
    {
        assert(v[i as int].0 == entries@[i as int].0@);
        keep.push(scope_contains(scope, &entries[i].0));
        i += 1;
    }
    assert(keep@ =~= Seq::new(v.len(), |i: int| scope_contains_spec(scope@, v[i].0)));
    store.keep_where(&keep)
}

/// `x` is an entry of `s` whose flag is set.
pub open spec fn kept_entry(s: Seq<(KeyView, EntryView)>, keep: Seq<bool>, x: (KeyView, EntryView)) -> bool {
    exists|i: int| 0 <= i < s.len() && keep[i] && x == #[trigger] s[i]
}

proof fn lemma_keep_members(s: Seq<(KeyView, EntryView)>, keep: Seq<bool>)
    requires
        keep.len() == s.len(),
    ensures
        forall|j: int| 0 <= j < keep_spec(s, keep).len() ==> kept_entry(s, keep, #[trigger] keep_spec(s, keep)[j]),
    decreases s.len(),
{
    if s.len() > 0 {
        let p = s.drop_last();
        let kp = keep.drop_last();
        lemma_keep_members(p, kp);
        lemma_keep_prefix_flags(p, keep, kp);
        let g = keep_spec(s, keep);
        let gp = keep_spec(p, keep);
        assert(gp == keep_spec(p, kp));
        assert(g == (if keep[s.len() - 1] { gp.push(s.last()) } else { gp }));
        assert forall|j: int| 0 <= j < g.len() implies kept_entry(s, keep, #[trigger] g[j]) by {
            if j < gp.len() {
                assert(g[j] == gp[j]);
                assert(kept_entry(p, kp, keep_spec(p, kp)[j]));
                let i = choose|i: int| 0 <= i < p.len() && kp[i] && keep_spec(p, kp)[j] == #[trigger] p[i];
                assert(s[i] == p[i] && keep[i] == kp[i]);
            } else {
                let i = s.len() - 1;
                assert(keep[i]);
                assert(g[j] == s[i]);
            }
        }
    }
}

/// Keeping with a longer flag list reads only the flags of the kept prefix.
proof fn lemma_keep_prefix_flags(s: Seq<(KeyView, EntryView)>, k1: Seq<bool>, k2: Seq<bool>)
    requires
        s.len() <= k1.len(),
        s.len() <= k2.len(),
        forall|i: int| 0 <= i < s.len() ==> k1[i] == k2[i],
    ensures
        keep_spec(s, k1) == keep_spec(s, k2),
    decreases s.len(),
{
    if s.len() > 0 {
        lemma_keep_prefix_flags(s.drop_last(), k1, k2);
    }
}

proof fn lemma_keep_all(s: Seq<(KeyView, EntryView)>, keep: Seq<bool>)
    requires
        keep.len() >= s.len(),
        forall|i: int| 0 <= i < s.len() ==> keep[i],
    ensures
        keep_spec(s, keep) == s,
    decreases s.len(),
{
    if s.len() > 0 {
        lemma_keep_all(s.drop_last(), keep);
        assert(s.drop_last().push(s.last()) =~= s);
    } else {
        assert(keep_spec(s, keep) =~= s);
    }
}

/// A scoped copy takes only comments the scope names, and the workspace
/// scope takes every comment.
pub proof fn lemma_scope_copies_exactly(s: Seq<(KeyView, EntryView)>, scope: ScopeView)
    ensures
        forall|j: int| 0 <= j < in_scope_spec(s, scope).len() ==> scope_contains_spec(
            scope,
            (#[trigger] in_scope_spec(s, scope)[j]).0,
        ) && s.contains(in_scope_spec(s, scope)[j]),
        scope is All ==> in_scope_spec(s, scope) == s,
{
    let flags = Seq::new(s.len(), |i: int| scope_contains_spec(scope, s[i].0));
    lemma_keep_members(s, flags);
    assert forall|j: int| 0 <= j < in_scope_spec(s, scope).len() implies scope_contains_spec(
        scope,
        (#[trigger] in_scope_spec(s, scope)[j]).0,
    ) && s.contains(in_scope_spec(s, scope)[j]) by {
        assert(kept_entry(s, flags, keep_spec(s, flags)[j]));
        let i = choose|i: int| 0 <= i < s.len() && flags[i] && keep_spec(s, flags)[j] == #[trigger] s[i];
        assert(s[i] == in_scope_spec(s, scope)[j]);
    }
    if scope is All {
        lemma_keep_all(s, flags);
    }
}

/// The snapshot's first checkout at `repo`, if any.
pub open spec fn first_checkout(rows: Seq<LiveCheckout>, repo: Seq<char>) -> Option<LiveCheckout>
    decreases rows.len(),
{
    if rows.len() == 0 {
        None
    } else if rows[0].repo@ == repo {
        Some(rows[0])
    } else {
        first_checkout(rows.drop_first(), repo)
    }
}

/// Identity of the checkout at `repo` (its primary when the snapshot lists one).
pub open spec fn snap_identity(rows: Seq<LiveCheckout>, repo: Seq<char>) -> Seq<char> {
    repo_identity_spec(repo, match first_checkout(rows, repo) {
        Some(r) => opt_view(r.primary_repo),
        None => None,
    })
}

/// Branch the snapshot lists for the checkout at `repo` (empty when absent).
pub open spec fn snap_branch(rows: Seq<LiveCheckout>, repo: Seq<char>) -> Seq<char> {
    match first_checkout(rows, repo) {
        Some(r) => r.branch@,
        None => Seq::empty(),
    }
}

fn first_index(rows: &[LiveCheckout], repo: &str) -> (r: Option<usize>)
    ensures
        match first_checkout(rows@, repo@) {
            Some(c) => r matches Some(i) && i < rows@.len() && rows@[i as int] == c,
            None => r is None,
        },
{
    let mut i: usize = 0;
    assert(rows@.skip(0) =~= rows@);
    while i < rows.len()
        invariant
            i <= rows@.len(),
            first_checkout(rows@, repo@) == first_checkout(rows@.skip(i as int), repo@),
        decreases rows@.len() - i,
    {
        assert(rows@.skip(i as int)[0] == rows@[i as int]);
        if str_eq(rows[i].repo.as_str(), repo) {
            return Some(i);
        }
        assert(rows@.skip(i as int).drop_first() =~= rows@.skip(i + 1));
        i += 1;
    }
    assert(rows@.skip(i as int) =~= Seq::<LiveCheckout>::empty());
    None
}

fn snap_identity_exec(rows: &[LiveCheckout], repo: &str) -> (r: String)
    ensures
        r@ == snap_identity(rows@, repo@),
{
    match first_index(rows, repo) {
        Some(i) => match &rows[i].primary_repo {
            Some(p) => repo_identity(repo, Some(p.as_str())),
            None => repo_identity(repo, None),
        },
        None => repo_identity(repo, None),
    }
}

fn snap_branch_exec(rows: &[LiveCheckout], repo: &str) -> (r: String)
    ensures
        r@ == snap_branch(rows@, repo@),
{
    match first_index(rows, repo) {
        Some(i) => rows[i].branch.clone(),
        None => String::new(),
    }
}

/// Scope of a commit-file row or a file diff: the file (or, for a folder,
/// what lies under it) in that commit or in the working tree; nothing for
/// a stash.
pub open spec fn source_scope_spec(
    rows: Seq<LiveCheckout>,
    repo: Seq<char>,
    source: CommitFileSource,
    path: Seq<char>,
    prefix: bool,
) -> ScopeView {
    match source {
        CommitFileSource::Commit { commit_id } => ScopeView::Commit {
            identity: snap_identity(rows, repo),
            sha: commit_id@,
            path: Some(normalize_path_spec(path)),
            prefix,
        },
        CommitFileSource::Worktree => ScopeView::WorktreePath {
            identity: snap_identity(rows, repo),
            branch: snap_branch(rows, repo),
            path: normalize_path_spec(path),
            prefix,
        },
        CommitFileSource::Stash { .. } => ScopeView::Empty,
    }
}

/// Scope of the focused commit-file row (`prefix` for a folder) or file diff.
pub fn source_path_scope(
    rows: &[LiveCheckout],
    repo: &str,
    source: &CommitFileSource,
    path: &str,
    prefix: bool,
) -> (r: ExportScope)
    ensures
        r@ == source_scope_spec(rows@, repo@, *source, path@, prefix),
{
    match source {
        CommitFileSource::Commit { commit_id } => ExportScope::Commit {
            identity: snap_identity_exec(rows, repo),
            sha: commit_id.clone(),
            path: Some(normalize_path(path)),
            prefix,
        },
        CommitFileSource::Worktree => ExportScope::WorktreePath {
            identity: snap_identity_exec(rows, repo),
            branch: snap_branch_exec(rows, repo),
            path: normalize_path(path),
            prefix,
        },
        CommitFileSource::Stash { .. } => ExportScope::Empty,
    }
}

/// Scope of the focused graph row: a commit's comments, the working tree
/// or another checkout as a worktree object; nothing for a stash or
/// without a graph repo.
pub open spec fn graph_scope_spec(rows: Seq<LiveCheckout>, repo: Option<Seq<char>>, row: Option<GraphRow>) -> ScopeView {
    match (repo, row) {
        (Some(repo), Some(row)) => match row {
            GraphRow::Commit { commit, .. } => ScopeView::Commit {
                identity: snap_identity(rows, repo),
                sha: commit.id@,
                path: None,
                prefix: false,
            },
            GraphRow::Uncommitted { .. } => ScopeView::WorktreeObject {
                path: normalize_path_spec(repo),
                identity: snap_identity(rows, repo),
                branch: snap_branch(rows, repo),
            },
            GraphRow::Worktree(wt) => ScopeView::WorktreeObject {
                identity: snap_identity(rows, wt.path@),
                branch: snap_branch(rows, wt.path@),
                path: normalize_path_spec(wt.path@),
            },
            GraphRow::Stash(_) => ScopeView::Empty,
        },
        _ => ScopeView::Empty,
    }
}

/// Scope of the focused graph row.
pub fn graph_export_scope(rows: &[LiveCheckout], repo: Option<&str>, row: Option<&GraphRow>) -> (r: ExportScope)
    ensures
        r@ == graph_scope_spec(rows@, opt_str_view(repo), opt_row(row)),
{
    let (repo, row) = match (repo, row) {
        (Some(repo), Some(row)) => (repo, row),
        _ => return ExportScope::Empty,
    };
    match row {
        GraphRow::Commit { commit, .. } => ExportScope::Commit {
            identity: snap_identity_exec(rows, repo),
            sha: commit.id.clone(),
            path: None,
            prefix: false,
        },
        GraphRow::Uncommitted { .. } => ExportScope::WorktreeObject {
            path: normalize_path(repo),
            identity: snap_identity_exec(rows, repo),
            branch: snap_branch_exec(rows, repo),
        },
        GraphRow::Worktree(wt) => ExportScope::WorktreeObject {
            identity: snap_identity_exec(rows, wt.path.as_str()),
            branch: snap_branch_exec(rows, wt.path.as_str()),
            path: normalize_path(wt.path.as_str()),
        },
        GraphRow::Stash(_) => ExportScope::Empty,
    }
}

pub open spec fn opt_str_view(s: Option<&str>) -> Option<Seq<char>> {
    match s {
        Some(t) => Some(t@),
        None => None,
    }
}

pub open spec fn opt_row(r: Option<&GraphRow>) -> Option<GraphRow> {
    match r {
        Some(g) => Some(*g),
        None => None,
    }
}

/// Key for a comment on the focused diff lines: a commit-line key for a
/// commit, a worktree-line key on the checkout's branch for the working
/// tree (none when the snapshot lacks the checkout), none for a stash. The
/// range is put in order; a missing end means one line.
pub open spec fn diff_target_spec(
    rows: Seq<LiveCheckout>,
    repo: Seq<char>,
    path: Seq<char>,
    source: Option<CommitFileSource>,
    line: u32,
    end_line: Option<u32>,
) -> Option<KeyView> {
    let e = match end_line {
        Some(e) => e,
        None => line,
    };
    let (a, b) = if line <= e { (line, e) } else { (e, line) };
    match source {
        Some(CommitFileSource::Commit { commit_id }) => Some(KeyView::CommitLine {
            repo: snap_identity(rows, repo),
            sha: commit_id@,
            path: normalize_path_spec(path),
            line: a,
            end_line: b,
        }),
        Some(CommitFileSource::Stash { .. }) => None,
        _ => match first_checkout(rows, repo) {
            Some(c) => Some(KeyView::WorktreeLine {
                repo: snap_identity(rows, repo),
                branch: c.branch@,
                path: normalize_path_spec(path),
                line: a,
                end_line: b,
            }),
            None => None,
        },
    }
}

/// Key for a comment on the focused diff lines.
pub fn resolve_diff_target(
    rows: &[LiveCheckout],
    repo: &str,
    path: &str,
    source: Option<&CommitFileSource>,
    line: u32,
    end_line: Option<u32>,
) -> (r: Option<CommentKey>)
    ensures
        match r {
            Some(k) => diff_target_spec(rows@, repo@, path@, opt_source(source), line, end_line) == Some(k@),
            None => diff_target_spec(rows@, repo@, path@, opt_source(source), line, end_line) is None,
        },
{
    let e = match end_line {
        Some(e) => e,
        None => line,
    };
    let (a, b) = ordered_line_range(line, e);
    match source {
        Some(CommitFileSource::Commit { commit_id }) => Some(CommentKey::CommitLine {
            repo: snap_identity_exec(rows, repo),
            sha: commit_id.clone(),
            path: normalize_path(path),
            line: a,
            end_line: b,
        }),
        Some(CommitFileSource::Stash { .. }) => None,
        _ => match first_index(rows, repo) {
            Some(i) => Some(CommentKey::WorktreeLine {
                repo: snap_identity_exec(rows, repo),
                branch: rows[i].branch.clone(),
                path: normalize_path(path),
                line: a,
                end_line: b,
            }),
            None => None,
        },
    }
}

pub open spec fn opt_source(s: Option<&CommitFileSource>) -> Option<CommitFileSource> {
    match s {
        Some(x) => Some(*x),
        None => None,
    }
}

/// Key for a comment on the focused graph row: the commit, the working
/// tree or another checkout by path; none for a stash.
pub open spec fn graph_target_spec(rows: Seq<LiveCheckout>, repo: Seq<char>, row: GraphRow) -> Option<KeyView> {
    match row {
        GraphRow::Commit { commit, .. } => Some(KeyView::Commit { repo: snap_identity(rows, repo), sha: commit.id@ }),
        GraphRow::Uncommitted { .. } => Some(KeyView::Worktree { path: normalize_path_spec(repo) }),
        GraphRow::Worktree(wt) => Some(KeyView::Worktree { path: normalize_path_spec(wt.path@) }),
        GraphRow::Stash(_) => None,
    }
}

/// Key for a comment on the focused graph row.
pub fn resolve_graph_target(rows: &[LiveCheckout], repo: &str, row: &GraphRow) -> (r: Option<CommentKey>)
    ensures
        match r {
            Some(k) => graph_target_spec(rows@, repo@, *row) == Some(k@),
            None => graph_target_spec(rows@, repo@, *row) is None,
        },
{
    match row {
        GraphRow::Commit { commit, .. } => Some(CommentKey::Commit {
            repo: snap_identity_exec(rows, repo),
            sha: commit.id.clone(),
        }),
        GraphRow::Uncommitted { .. } => Some(CommentKey::Worktree { path: normalize_path(repo) }),
        GraphRow::Worktree(wt) => Some(CommentKey::Worktree { path: normalize_path(wt.path.as_str()) }),
        GraphRow::Stash(_) => None,
    }
}

/// What kind of tree row is painted.
#[derive(Clone, Copy, Debug, PartialEq, Eq, Structural)]
pub enum TreeRowKind {
    File,
    /// A repo or checkout row.
    Checkout,
    /// Workspace, group or folder rows: never marked.
    Other,
}

/// The fields of a workspace tree row that decide its comment marker.
#[derive(Clone, Debug, PartialEq, Eq)]
pub struct TreeRowFacts {
    pub kind: TreeRowKind,
    /// Checkout the row belongs to.
    pub repo: Option<String>,
    pub primary_repo: Option<String>,
    /// Changed file path of a file row.
    pub file_path: Option<String>,
    /// Branch the row's checkout has out (empty when unknown).
    pub branch: String,
    pub is_linked: bool,
    /// The row folds a family of checkouts.
    pub is_family: bool,
}

/// A line comment on this file of the checkout (a working-tree one on its
/// branch, or one on any commit of the repo).
pub open spec fn file_line_key(k: KeyView, identity: Seq<char>, path: Seq<char>, branch: Seq<char>) -> bool {
    match k {
        KeyView::WorktreeLine { repo, path: p, branch: b, .. } => repo == identity && p == path && b == branch,
        KeyView::CommitLine { repo, path: p, .. } => repo == identity && p == path,
        _ => false,
    }
}

/// The tree row paints a comment marker: a file row for line comments on
/// that file; a linked or detached checkout for its path comment; a family
/// for any comment of the family; another checkout for its branch comment
/// or its path comment. Nothing when the store is empty.
pub open spec fn tree_row_marked(s: Seq<(KeyView, EntryView)>, row: TreeRowFacts) -> bool {
    if s.len() == 0 || row.repo is None {
        false
    } else {
        let repo = row.repo->0@;
        let identity = repo_identity_spec(repo, opt_view(row.primary_repo));
        match row.kind {
            TreeRowKind::File => match row.file_path {
                Some(f) => exists|i: int| 0 <= i < s.len() && file_line_key(
                    #[trigger] s[i].0,
                    identity,
                    normalize_path_spec(f@),
                    row.branch@,
                ),
                None => false,
            },
            TreeRowKind::Checkout => if row.is_linked || row.branch@ == DETACHED_HEAD_BRANCH@ {
                lookup(s, KeyView::Worktree { path: normalize_path_spec(repo) }) is Some
            } else if row.is_family {
                exists|i: int| 0 <= i < s.len() && identity_key(#[trigger] s[i].0, seq![identity])
            } else {
                (row.branch@.len() > 0 && lookup(s, KeyView::Branch { repo: identity, branch: row.branch@ }) is Some)
                    || lookup(s, KeyView::Worktree { path: normalize_path_spec(repo) }) is Some
            },
            TreeRowKind::Other => false,
        }
    }
}

fn any_file_line(entries: &Vec<(CommentKey, CommentEntry)>, identity: &str, path: &str, branch: &str) -> (b: bool)
    ensures
        b == exists|i: int| 0 <= i < entries@.len() && file_line_key(#[trigger] pair_views(entries@)[i].0, identity@, path@, branch@),
{
    let ghost v = pair_views(entries@);
    let mut i: usize = 0;
    while i < entries.len()
        invariant
            i <= v.len(),
            v == pair_views(entries@),
            forall|j: int| 0 <= j < i ==> !file_line_key(#[trigger] v[j].0, identity@, path@, branch@),
        decreases v.len() - i,
    {
        assert(v[i as int].0 == entries@[i as int].0@);
        let hit = match &entries[i].0 {
            CommentKey::WorktreeLine { repo, path: p, branch: b, .. } => str_eq(repo.as_str(), identity) && str_eq(
                p.as_str(),
                path,
            ) && str_eq(b.as_str(), branch),
            CommentKey::CommitLine { repo, path: p, .. } => str_eq(repo.as_str(), identity) && str_eq(p.as_str(), path),
            _ => false,
        };
        if hit {
            return true;
        }
        i += 1;
    }
    false
}

fn any_family_key(entries: &Vec<(CommentKey, CommentEntry)>, identity: &String) -> (b: bool)
    ensures
        b == exists|i: int| 0 <= i < entries@.len() && identity_key(#[trigger] pair_views(entries@)[i].0, seq![identity@]),
{
    let ghost v = pair_views(entries@);
    let mut ids: Vec<String> = Vec::new();
    ids.push(identity.clone());
    assert(string_views(ids@) =~= seq![identity@]);
    let scope = ExportScope::Identities(ids);
    let mut i: usize = 0;
    while i < entries.len()
        invariant
            i <= v.len(),
            v == pair_views(entries@),
            scope@ == ScopeView::Identities(seq![identity@]),
            forall|j: int| 0 <= j < i ==> !identity_key(#[trigger] v[j].0, seq![identity@]),
        decreases v.len() - i,
    {
        assert(v[i as int].0 == entries@[i as int].0@);
        if scope_contains(&scope, &entries[i].0) {
            return true;
        }
        i += 1;
    }
    false
}

/// Whether the workspace tree row paints a comment marker.
pub fn tree_row_has_comment(store: &CommentStore, row: &TreeRowFacts) -> (b: bool)
    ensures
        b == tree_row_marked(store@, *row),
{
    if store.is_empty() {
        return false;
    }
    let repo = match &row.repo {
        Some(r) => r,
        None => return false,
    };
    let identity = match &row.primary_repo {
        Some(p) => repo_identity(repo.as_str(), Some(p.as_str())),
        None => repo_identity(repo.as_str(), None),
    };
    let entries = store.entries();
    match row.kind {
        TreeRowKind::File => match &row.file_path {
            Some(f) => {
                let path = normalize_path(f.as_str());
                any_file_line(entries, identity.as_str(), path.as_str(), row.branch.as_str())
            },
            None => false,
        },
        TreeRowKind::Checkout => {
            let here = CommentKey::Worktree { path: normalize_path(repo.as_str()) };
            if row.is_linked || str_eq(row.branch.as_str(), DETACHED_HEAD_BRANCH) {
                return store.get(&here).is_some();
            }
            if row.is_family {
                return any_family_key(entries, &identity);
            }
            if str_chars(row.branch.as_str()).len() > 0 {
                let key = CommentKey::Branch { repo: identity.clone(), branch: row.branch.clone() };
                if store.get(&key).is_some() {
                    return true;
                }
            }
            store.get(&here).is_some()
        },
        TreeRowKind::Other => false,
    }
}

/// The one name of `names`, when there is exactly one.
pub open spec fn sole_spec(names: Seq<String>) -> Option<Seq<char>> {
    if names.len() == 1 { Some(names[0]@) } else { None }
}

/// The checkout's only branch besides its default branch (and a detached
/// head), if it has exactly one; `non_default` lists those branches.
pub fn sole_non_default_branch(non_default: &[String]) -> (r: Option<String>)
    ensures
        match r {
            Some(b) => sole_spec(non_default@) == Some(b@),
            None => sole_spec(non_default@) is None,
        },
{
    if non_default.len() == 1 {
        Some(non_default[0].clone())
    } else {
        None
    }
}

/// Key for a comment on a workspace tree row: a linked or detached checkout
/// by path; a family, a checkout with no known branch or one on its default
/// branch through its only other branch (none when it has none or several);
/// any other checkout by its branch. Workspace, group, folder and file rows
/// take no comment here. `branch_is_default` says whether the row's branch is
/// its default branch; `non_default` lists the checkout's local branches that
/// are neither the default branch nor a detached head.
pub open spec fn tree_target_spec(
    rows: Seq<LiveCheckout>,
    row: TreeRowFacts,
    branch_is_default: bool,
    non_default: Seq<String>,
) -> Option<KeyView> {
    match (row.kind, row.repo) {
        (TreeRowKind::Checkout, Some(r)) => {
            let primary = match row.primary_repo {
                Some(p) => Some(p@),
                None => match first_checkout(rows, r@) {
                    Some(c) => opt_view(c.primary_repo),
                    None => None,
                },
            };
            let identity = repo_identity_spec(r@, primary);
            if row.is_linked || row.branch@ == DETACHED_HEAD_BRANCH@ {
                Some(KeyView::Worktree { path: normalize_path_spec(r@) })
            } else if row.is_family || row.branch@.len() == 0 || branch_is_default {
                match sole_spec(non_default) {
                    Some(b) => Some(KeyView::Branch { repo: identity, branch: b }),
                    None => None,
                }
            } else {
                Some(KeyView::Branch { repo: identity, branch: row.branch@ })
            }
        },
        _ => None,
    }
}

/// Key for a comment on the focused workspace tree row.
pub fn resolve_tree_target(
    rows: &[LiveCheckout],
    row: &TreeRowFacts,
    branch_is_default: bool,
    non_default: &[String],
) -> (r: Option<CommentKey>)
    ensures
        match r {
            Some(k) => tree_target_spec(rows@, *row, branch_is_default, non_default@) == Some(k@),
            None => tree_target_spec(rows@, *row, branch_is_default, non_default@) is None,
        },
{
    let repo = match (&row.kind, &row.repo) {
        (TreeRowKind::Checkout, Some(r)) => r,
        _ => return None,
    };
    if row.is_linked || str_eq(row.branch.as_str(), DETACHED_HEAD_BRANCH) {
        return Some(CommentKey::Worktree { path: normalize_path(repo.as_str()) });
    }
    let identity = match &row.primary_repo {
        Some(p) => repo_identity(repo.as_str(), Some(p.as_str())),
        None => match first_index(rows, repo.as_str()) {
            Some(i) => match &rows[i].primary_repo {
                Some(p) => repo_identity(repo.as_str(), Some(p.as_str())),
                None => repo_identity(repo.as_str(), None),
            },
            None => repo_identity(repo.as_str(), None),
        },
    };
    if row.is_family || str_chars(row.branch.as_str()).len() == 0 || branch_is_default {
        return match sole_non_default_branch(non_default) {
            Some(b) => Some(CommentKey::Branch { repo: identity, branch: b }),
            None => None,
        };
    }
    Some(CommentKey::Branch { repo: identity, branch: row.branch.clone() })
}

} // verus!
