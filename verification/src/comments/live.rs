//! The live set that refresh GC keeps comments for, collected from the
//! workspace snapshot and the stored keys. Runs no git.

use vstd::prelude::*;

use crate::comments::store::{
    normalize_path, normalize_path_spec, pair_views, repo_identity, repo_identity_spec, CommentKey, CommentStore,
    KeyView,
};
use crate::comments::target::{has_str, pair_in, str_in, CommentLiveSet, DETACHED_HEAD_BRANCH};
use crate::text::{str_chars, str_eq};

verus! {

/// Branch the snapshot reports when `git status` could not name HEAD.
pub const UNKNOWN_HEAD_BRANCH: &'static str = "(unknown)";

/// Sync note of a checkout whose status could not be read.
pub const STATUS_FAILED_NOTE: &'static str = "status failed";

/// One checkout of the snapshot, in the fields the live set reads.
#[derive(Clone, Debug, PartialEq, Eq)]
pub struct LiveCheckout {
    pub repo: String,
    /// Primary checkout of a linked worktree.
    pub primary_repo: Option<String>,
    pub sync_note: String,
    /// Checked-out branch.
    pub branch: String,
    /// Local branch names the snapshot worker listed.
    pub local_branches: Vec<String>,
}

/// A branch name that names a real local branch.
pub open spec fn counted_branch(name: Seq<char>) -> bool {
    name.len() > 0 && name != UNKNOWN_HEAD_BRANCH@ && name != DETACHED_HEAD_BRANCH@
}

fn counted_branch_exec(name: &str) -> (b: bool)
    ensures
        b == counted_branch(name@),
{
    let empty = str_chars(name).len() == 0;
    let unknown = str_eq(name, UNKNOWN_HEAD_BRANCH);
    let detached = str_eq(name, DETACHED_HEAD_BRANCH);
    !empty && !unknown && !detached
}

pub open spec fn opt_view(o: Option<String>) -> Option<Seq<char>> {
    match o {
        Some(p) => Some(p@),
        None => None,
    }
}

/// Identity the checkout's branch and commit comments are keyed by.
pub open spec fn row_identity(c: LiveCheckout) -> Seq<char> {
    repo_identity_spec(c.repo@, opt_view(c.primary_repo))
}

/// The checkout's status was read.
pub open spec fn row_readable(c: LiveCheckout) -> bool {
    c.sync_note@ != STATUS_FAILED_NOTE@
}

/// The readable checkout lists `name` as a counted local branch.
pub open spec fn row_has_branch(c: LiveCheckout, name: Seq<char>) -> bool {
    row_readable(c) && counted_branch(name) && (str_in(c.local_branches@, name) || c.branch@ == name)
}

/// The readable checkout lists at least one counted branch: its list is
/// authoritative for its identity.
pub open spec fn row_lists_branches(c: LiveCheckout) -> bool {
    row_readable(c) && (counted_branch(c.branch@) || exists|j: int|
        0 <= j < c.local_branches@.len() && counted_branch(#[trigger] c.local_branches@[j]@))
}

pub open spec fn worktree_live(cs: Seq<LiveCheckout>, p: Seq<char>) -> bool {
    exists|i: int| 0 <= i < cs.len() && normalize_path_spec((#[trigger] cs[i]).repo@) == p
}

pub open spec fn identity_live(cs: Seq<LiveCheckout>, id: Seq<char>) -> bool {
    exists|i: int| 0 <= i < cs.len() && row_identity(#[trigger] cs[i]) == id
}

/// Some checkout of `id` lists branches, so stored names of `id` do not
/// keep a branch alive.
pub open spec fn authoritative(cs: Seq<LiveCheckout>, id: Seq<char>) -> bool {
    exists|i: int| 0 <= i < cs.len() && row_identity(#[trigger] cs[i]) == id && row_lists_branches(cs[i])
}

/// A stored branch or worktree-line key names branch `name` of `id`.
pub open spec fn stored_branch(keys: Seq<KeyView>, id: Seq<char>, name: Seq<char>) -> bool {
    exists|k: int| 0 <= k < keys.len() && match #[trigger] keys[k] {
        KeyView::Branch { repo, branch } => repo == id && branch == name,
        KeyView::WorktreeLine { repo, branch, .. } => repo == id && branch == name,
        _ => false,
    }
}

/// A stored commit or commit-line key names commit `sha` of `repo`.
pub open spec fn stored_commit(keys: Seq<KeyView>, repo: Seq<char>, sha: Seq<char>) -> bool {
    exists|k: int| 0 <= k < keys.len() && match #[trigger] keys[k] {
        KeyView::Commit { repo: r, sha: s } => r == repo && s == sha,
        KeyView::CommitLine { repo: r, sha: s, .. } => r == repo && s == sha,
        _ => false,
    }
}

/// A branch is live when a readable checkout lists it, or when it is a
/// stored name of a live identity whose checkouts list no branch at all
/// (keep comments while the branch list is unreadable).
pub open spec fn branch_live(cs: Seq<LiveCheckout>, keys: Seq<KeyView>, id: Seq<char>, name: Seq<char>) -> bool {
    (exists|i: int| 0 <= i < cs.len() && row_identity(#[trigger] cs[i]) == id && row_has_branch(cs[i], name)) || (
    stored_branch(keys, id, name) && identity_live(cs, id) && !authoritative(cs, id) && counted_branch(name))
}

/// A commit comment stays live while its repo identity has a checkout.
pub open spec fn commit_live(cs: Seq<LiveCheckout>, keys: Seq<KeyView>, repo: Seq<char>, sha: Seq<char>) -> bool {
    stored_commit(keys, repo, sha) && identity_live(cs, repo)
}

pub open spec fn key_views(s: Seq<(KeyView, crate::comments::store::EntryView)>) -> Seq<KeyView> {
    s.map_values(|p: (KeyView, crate::comments::store::EntryView)| p.0)
}

proof fn lemma_pair_in_push(v: Seq<(String, String)>, x: (String, String), a: Seq<char>, b: Seq<char>)
    ensures
        pair_in(v.push(x), a, b) == (pair_in(v, a, b) || (x.0@ == a && x.1@ == b)),
{
    if pair_in(v, a, b) {
        let i = choose|i: int| 0 <= i < v.len() && (#[trigger] v[i]).0@ == a && v[i].1@ == b;
        assert(v.push(x)[i] == v[i]);
    }
    if x.0@ == a && x.1@ == b {
        assert(v.push(x)[v.len() as int] == x);
    }
    if pair_in(v.push(x), a, b) {
        let i = choose|i: int| 0 <= i < v.push(x).len() && (#[trigger] v.push(x)[i]).0@ == a && v.push(x)[i].1@ == b;
        if i < v.len() {
            assert(v.push(x)[i] == v[i]);
        }
    }
}

fn row_identity_exec(c: &LiveCheckout) -> (r: String)
    ensures
        r@ == row_identity(*c),
{
    match &c.primary_repo {
        Some(p) => repo_identity(c.repo.as_str(), Some(p.as_str())),
        None => repo_identity(c.repo.as_str(), None),
    }
}

/// Worktree paths and identities of every checkout.
fn collect_paths(cs: &[LiveCheckout]) -> (r: (Vec<String>, Vec<String>))
    ensures
        forall|p: Seq<char>| str_in(r.0@, p) <==> worktree_live(cs@, p),
        forall|p: Seq<char>| str_in(r.1@, p) <==> identity_live(cs@, p),
{
    let mut paths: Vec<String> = Vec::new();
    let mut ids: Vec<String> = Vec::new();
    let mut i: usize = 0;
    while i < cs.len()
        invariant
            i <= cs@.len(),
            paths@.len() == i && ids@.len() == i,
            forall|j: int| 0 <= j < i ==> (#[trigger] paths@[j])@ == normalize_path_spec(cs@[j].repo@),
            forall|j: int| 0 <= j < i ==> (#[trigger] ids@[j])@ == row_identity(cs@[j]),
        decreases cs@.len() - i,
    {
        paths.push(normalize_path(cs[i].repo.as_str()));
        ids.push(row_identity_exec(&cs[i]));
        i += 1;
    }
    assert forall|p: Seq<char>| str_in(paths@, p) <==> worktree_live(cs@, p) by {
        if str_in(paths@, p) {
            let j = choose|j: int| 0 <= j < paths@.len() && (#[trigger] paths@[j])@ == p;
            assert(normalize_path_spec(cs@[j].repo@) == p);
        }
        if worktree_live(cs@, p) {
            let j = choose|j: int| 0 <= j < cs@.len() && normalize_path_spec((#[trigger] cs@[j]).repo@) == p;
            assert(paths@[j]@ == p);
        }
    }
    assert forall|p: Seq<char>| str_in(ids@, p) <==> identity_live(cs@, p) by {
        if str_in(ids@, p) {
            let j = choose|j: int| 0 <= j < ids@.len() && (#[trigger] ids@[j])@ == p;
            assert(row_identity(cs@[j]) == p);
        }
        if identity_live(cs@, p) {
            let j = choose|j: int| 0 <= j < cs@.len() && row_identity(#[trigger] cs@[j]) == p;
            assert(ids@[j]@ == p);
        }
    }
    (paths, ids)
}

/// Some checkout among the first `n` lists `b` for identity `a`.
pub open spec fn rows_branch(cs: Seq<LiveCheckout>, n: int, a: Seq<char>, b: Seq<char>) -> bool {
    exists|i: int| 0 <= i < n && row_identity(#[trigger] cs[i]) == a && row_has_branch(cs[i], b)
}

/// One of the first `n` names is `b`.
pub open spec fn names_prefix_has(v: Seq<String>, n: int, b: Seq<char>) -> bool {
    exists|j: int| 0 <= j < n && (#[trigger] v[j])@ == b
}

proof fn lemma_prefix_step(v: Seq<String>, j: int, b: Seq<char>)
    requires
        0 <= j < v.len(),
    ensures
        names_prefix_has(v, j + 1, b) == (names_prefix_has(v, j, b) || v[j]@ == b),
{
    if names_prefix_has(v, j + 1, b) && v[j]@ != b {
        let w = choose|w: int| 0 <= w < j + 1 && (#[trigger] v[w])@ == b;
        assert(names_prefix_has(v, j, b));
    }
    if names_prefix_has(v, j, b) {
        let w = choose|w: int| 0 <= w < j && (#[trigger] v[w])@ == b;
        assert(names_prefix_has(v, j + 1, b));
    }
    if v[j]@ == b {
        assert(names_prefix_has(v, j + 1, b));
    }
}

proof fn lemma_prefix_all(v: Seq<String>, b: Seq<char>)
    ensures
        names_prefix_has(v, v.len() as int, b) == str_in(v, b),
{
    if str_in(v, b) {
        let w = choose|w: int| 0 <= w < v.len() && (#[trigger] v[w])@ == b;
        assert(names_prefix_has(v, v.len() as int, b));
    }
}

proof fn lemma_rows_step(cs: Seq<LiveCheckout>, i: int, a: Seq<char>, b: Seq<char>)
    requires
        0 <= i < cs.len(),
    ensures
        rows_branch(cs, i + 1, a, b) == (rows_branch(cs, i, a, b) || (row_identity(cs[i]) == a && row_has_branch(
            cs[i],
            b,
        ))),
{
    if rows_branch(cs, i + 1, a, b) && !(row_identity(cs[i]) == a && row_has_branch(cs[i], b)) {
        let w = choose|w: int| 0 <= w < i + 1 && row_identity(#[trigger] cs[w]) == a && row_has_branch(cs[w], b);
        assert(rows_branch(cs, i, a, b));
    }
    if rows_branch(cs, i, a, b) {
        let w = choose|w: int| 0 <= w < i && row_identity(#[trigger] cs[w]) == a && row_has_branch(cs[w], b);
        assert(rows_branch(cs, i + 1, a, b));
    }
    if row_identity(cs[i]) == a && row_has_branch(cs[i], b) {
        assert(rows_branch(cs, i + 1, a, b));
    }
}

/// `out` holds `before` plus the counted names among the first `j` of
/// `lb`, paired with `id`, when the checkout is readable.
pub open spec fn row_step(
    out: Seq<(String, String)>,
    before: Seq<(String, String)>,
    id: Seq<char>,
    readable: bool,
    lb: Seq<String>,
    j: int,
) -> bool {
    forall|a: Seq<char>, b: Seq<char>| #[trigger] pair_in(out, a, b) <==> (pair_in(before, a, b) || (a == id && readable
        && counted_branch(b) && names_prefix_has(lb, j, b)))
}

fn readable_exec(c: &LiveCheckout) -> (b: bool)
    ensures
        b == row_readable(*c),
{
    !str_eq(c.sync_note.as_str(), STATUS_FAILED_NOTE)
}

/// Counted branches of every readable checkout, paired with its identity.
fn collect_row_branches(cs: &[LiveCheckout]) -> (r: Vec<(String, String)>)
    ensures
        forall|a: Seq<char>, b: Seq<char>| pair_in(r@, a, b) <==> rows_branch(cs@, cs@.len() as int, a, b),
{
    let mut out: Vec<(String, String)> = Vec::new();
    let mut i: usize = 0;
    while i < cs.len()
        invariant
            i <= cs@.len(),
            forall|a: Seq<char>, b: Seq<char>| pair_in(out@, a, b) <==> rows_branch(cs@, i as int, a, b),
        decreases cs@.len() - i,
    {
        let c = &cs[i];
        let id = row_identity_exec(c);
        let readable = readable_exec(c);
        let ghost before = out@;
        let mut j: usize = 0;
        while j < c.local_branches.len()
            invariant
                j <= c.local_branches@.len(),
                readable == row_readable(*c),
                id@ == row_identity(*c),
                i < cs@.len(),
                *c == cs@[i as int],
                row_step(out@, before, id@, readable, c.local_branches@, j as int),
            decreases c.local_branches@.len() - j,
        {
            let name = &c.local_branches[j];
            let ghost mid = out@;
            if readable && counted_branch_exec(name.as_str()) {
                out.push((id.clone(), name.clone()));
            }
            assert(row_step(out@, before, id@, readable, c.local_branches@, j + 1)) by {
                assert forall|a: Seq<char>, b: Seq<char>| #[trigger] pair_in(out@, a, b) <==> (pair_in(before, a, b) || (a
                    == id@ && readable && counted_branch(b) && names_prefix_has(c.local_branches@, j + 1, b))) by {
                    lemma_prefix_step(c.local_branches@, j as int, b);
                    if readable && counted_branch(name@) {
                        lemma_pair_in_push(mid, (id, *name), a, b);
                    }
                }
            }
            j += 1;
        }
        let ghost mid = out@;
        if readable && counted_branch_exec(c.branch.as_str()) {
            out.push((id.clone(), c.branch.clone()));
        }
        assert forall|a: Seq<char>, b: Seq<char>| pair_in(out@, a, b) <==> rows_branch(cs@, i + 1, a, b) by {
            if readable && counted_branch(c.branch@) {
                lemma_pair_in_push(mid, (id, c.branch), a, b);
            }
            lemma_prefix_all(c.local_branches@, b);
            lemma_rows_step(cs@, i as int, a, b);
        }
        i += 1;
    }
    out
}

fn lists_branches_exec(c: &LiveCheckout) -> (b: bool)
    ensures
        b == row_lists_branches(*c),
{
    if !readable_exec(c) {
        return false;
    }
    if counted_branch_exec(c.branch.as_str()) {
        return true;
    }
    let mut j: usize = 0;
    while j < c.local_branches.len()
        invariant
            j <= c.local_branches@.len(),
            row_readable(*c),
            !counted_branch(c.branch@),
            forall|w: int| 0 <= w < j ==> !counted_branch((#[trigger] c.local_branches@[w])@),
        decreases c.local_branches@.len() - j,
    {
        if counted_branch_exec(c.local_branches[j].as_str()) {
            assert(counted_branch(c.local_branches@[j as int]@));
            return true;
        }
        j += 1;
    }
    false
}

fn authoritative_exec(cs: &[LiveCheckout], id: &str) -> (b: bool)
    ensures
        b == authoritative(cs@, id@),
{
    let mut i: usize = 0;
    while i < cs.len()
        invariant
            i <= cs@.len(),
            forall|w: int| 0 <= w < i ==> !(row_identity(#[trigger] cs@[w]) == id@ && row_lists_branches(cs@[w])),
        decreases cs@.len() - i,
    {
        let rid = row_identity_exec(&cs[i]);
        if str_eq(rid.as_str(), id) && lists_branches_exec(&cs[i]) {
            return true;
        }
        i += 1;
    }
    false
}

/// What a stored key adds to the branches: the key's (identity, branch).
pub open spec fn key_branch(k: KeyView) -> Option<(Seq<char>, Seq<char>)> {
    match k {
        KeyView::Branch { repo, branch } => Some((repo, branch)),
        KeyView::WorktreeLine { repo, branch, .. } => Some((repo, branch)),
        _ => None,
    }
}

/// What a stored key adds to the commits: the key's (identity, sha).
pub open spec fn key_commit(k: KeyView) -> Option<(Seq<char>, Seq<char>)> {
    match k {
        KeyView::Commit { repo, sha } => Some((repo, sha)),
        KeyView::CommitLine { repo, sha, .. } => Some((repo, sha)),
        _ => None,
    }
}

/// Branches after the rows and the first `k` stored keys.
pub open spec fn branches_step(
    out: Seq<(String, String)>,
    cs: Seq<LiveCheckout>,
    keys: Seq<KeyView>,
    k: int,
) -> bool {
    forall|a: Seq<char>, b: Seq<char>| #[trigger] pair_in(out, a, b) <==> (rows_branch(cs, cs.len() as int, a, b) || (
    stored_branch(keys.take(k), a, b) && identity_live(cs, a) && !authoritative(cs, a) && counted_branch(b)))
}

/// Commits after the first `k` stored keys.
pub open spec fn commits_step(out: Seq<(String, String)>, cs: Seq<LiveCheckout>, keys: Seq<KeyView>, k: int) -> bool {
    forall|a: Seq<char>, b: Seq<char>| #[trigger] pair_in(out, a, b) <==> (stored_commit(keys.take(k), a, b)
        && identity_live(cs, a))
}

proof fn lemma_stored_step(keys: Seq<KeyView>, k: int, a: Seq<char>, b: Seq<char>)
    requires
        0 <= k < keys.len(),
    ensures
        stored_branch(keys.take(k + 1), a, b) == (stored_branch(keys.take(k), a, b) || key_branch(keys[k]) == Some(
            (a, b),
        )),
        stored_commit(keys.take(k + 1), a, b) == (stored_commit(keys.take(k), a, b) || key_commit(keys[k]) == Some(
            (a, b),
        )),
{
    let t1 = keys.take(k + 1);
    let t0 = keys.take(k);
    assert forall|w: int| 0 <= w < k implies #[trigger] t1[w] == t0[w] by {}
    assert(t1[k] == keys[k]);
    if stored_branch(t1, a, b) {
        let w = choose|w: int| 0 <= w < t1.len() && match #[trigger] t1[w] {
            KeyView::Branch { repo, branch } => repo == a && branch == b,
            KeyView::WorktreeLine { repo, branch, .. } => repo == a && branch == b,
            _ => false,
        };
        if w < k {
            assert(t0[w] == t1[w]);
        }
    }
    if stored_branch(t0, a, b) {
        let w = choose|w: int| 0 <= w < t0.len() && match #[trigger] t0[w] {
            KeyView::Branch { repo, branch } => repo == a && branch == b,
            KeyView::WorktreeLine { repo, branch, .. } => repo == a && branch == b,
            _ => false,
        };
        assert(t1[w] == t0[w]);
    }
    if stored_commit(t1, a, b) {
        let w = choose|w: int| 0 <= w < t1.len() && match #[trigger] t1[w] {
            KeyView::Commit { repo: r, sha: s } => r == a && s == b,
            KeyView::CommitLine { repo: r, sha: s, .. } => r == a && s == b,
            _ => false,
        };
        if w < k {
            assert(t0[w] == t1[w]);
        }
    }
    if stored_commit(t0, a, b) {
        let w = choose|w: int| 0 <= w < t0.len() && match #[trigger] t0[w] {
            KeyView::Commit { repo: r, sha: s } => r == a && s == b,
            KeyView::CommitLine { repo: r, sha: s, .. } => r == a && s == b,
            _ => false,
        };
        assert(t1[w] == t0[w]);
    }
}

/// Collect live branches, checkouts, and stored commit SHAs.
///
/// A stored branch name keeps its comments only while no checkout of that
/// identity lists any counted branch (the list could not be read); a
/// checkout whose status failed adds no branch names of its own.
pub fn collect_live_set(checkouts: &[LiveCheckout], store: &CommentStore) -> (live: CommentLiveSet)
    ensures
        forall|p: Seq<char>| str_in(live.worktrees@, p) <==> worktree_live(checkouts@, p),
        forall|p: Seq<char>| str_in(live.identities@, p) <==> identity_live(checkouts@, p),
        forall|a: Seq<char>, b: Seq<char>|
            pair_in(live.branches@, a, b) <==> branch_live(checkouts@, key_views(store@), a, b),
        forall|a: Seq<char>, b: Seq<char>|
            pair_in(live.commits@, a, b) <==> commit_live(checkouts@, key_views(store@), a, b),
{
    let (worktrees, identities) = collect_paths(checkouts);
    let mut branches = collect_row_branches(checkouts);
    let mut commits: Vec<(String, String)> = Vec::new();
    let entries = store.entries();
    let ghost keys = key_views(store@);
    let ghost cs = checkouts@;
    assert(keys.take(0) =~= Seq::<KeyView>::empty());
    assert(branches_step(branches@, cs, keys, 0));
    assert(commits_step(commits@, cs, keys, 0));
    let mut k: usize = 0;
    while k < entries.len()
        invariant
            k <= entries@.len(),
            cs == checkouts@,
            keys == key_views(store@),
            pair_views(entries@) == store@,
            forall|p: Seq<char>| str_in(identities@, p) <==> identity_live(cs, p),
            branches_step(branches@, cs, keys, k as int),
            commits_step(commits@, cs, keys, k as int),
        decreases entries@.len() - k,
    {
        let ghost bmid = branches@;
        let ghost cmid = commits@;
        assert(keys[k as int] == entries@[k as int].0@);
        match &entries[k].0 {
            CommentKey::Branch { repo, branch } | CommentKey::WorktreeLine { repo, branch, .. } => {
                if has_str(&identities, repo.as_str()) && !authoritative_exec(checkouts, repo.as_str())
                    && counted_branch_exec(branch.as_str()) {
                    branches.push((repo.clone(), branch.clone()));
                }
            },
            CommentKey::Commit { repo, sha } | CommentKey::CommitLine { repo, sha, .. } => {
                if has_str(&identities, repo.as_str()) {
                    commits.push((repo.clone(), sha.clone()));
                }
            },
            _ => {},
        }
        assert(branches_step(branches@, cs, keys, k + 1)) by {
            assert forall|a: Seq<char>, b: Seq<char>| #[trigger] pair_in(branches@, a, b) <==> (rows_branch(
                cs,
                cs.len() as int,
                a,
                b,
            ) || (stored_branch(keys.take(k + 1), a, b) && identity_live(cs, a) && !authoritative(cs, a)
                && counted_branch(b))) by {
                lemma_stored_step(keys, k as int, a, b);
                if branches@ != bmid {
                    lemma_pair_in_push(bmid, branches@.last(), a, b);
                    assert(branches@ =~= bmid.push(branches@.last()));
                }
            }
        }
        assert(commits_step(commits@, cs, keys, k + 1)) by {
            assert forall|a: Seq<char>, b: Seq<char>| #[trigger] pair_in(commits@, a, b) <==> (stored_commit(
                keys.take(k + 1),
                a,
                b,
            ) && identity_live(cs, a)) by {
                lemma_stored_step(keys, k as int, a, b);
                if commits@ != cmid {
                    lemma_pair_in_push(cmid, commits@.last(), a, b);
                    assert(commits@ =~= cmid.push(commits@.last()));
                }
            }
        }
        k += 1;
    }
    assert(keys.take(keys.len() as int) =~= keys);
    CommentLiveSet { branches, worktrees, identities, commits }
}

} // verus!
