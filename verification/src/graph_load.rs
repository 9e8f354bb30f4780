//! Parsing `git log` / `git stash list` / `for-each-ref` output for the
//! commit graph, and the autoload decision. Running git is the binary's job.

use vstd::prelude::*;

use crate::branches::{GraphRef, RefKind};
use crate::icons::{count_after, SyncStatus};
use crate::text::{
    ends_with, parse_i64, parse_i64_spec, parse_u32, parse_u32_spec, split_chars, split_on, split_words,
    starts_with, str_chars, str_eq, string_from_chars, views, words,
};

verus! {

/// Identity used to keep graph scroll when the same row is still focused.
#[derive(Clone, Debug, PartialEq, Eq)]
pub struct GraphIdentity {
    pub repo: String,
    pub head: String,
}

/// Inputs for [`should_autoload`].
#[derive(Clone, Copy, Debug)]
pub struct ShouldAutoload {
    pub cursor_index: usize,
    pub loaded_count: usize,
    pub has_more: bool,
    pub loading: bool,
}

/// True when the graph cursor is on the last loaded row and older history exists.
pub fn should_autoload(args: ShouldAutoload) -> (b: bool)
    ensures
        b == (args.has_more && !args.loading && args.loaded_count > 0 && args.cursor_index + 1
            >= args.loaded_count),
{
    if !args.has_more || args.loading || args.loaded_count == 0 {
        return false;
    }
    args.cursor_index >= args.loaded_count - 1
}

/* ── Sync note ─────────────────────────────────────────────────────────── */

/// Count after the first `label` in `note` (0 when absent or unreadable).
pub open spec fn capture_spec(note: Seq<char>, label: Seq<char>) -> u32 {
    match parse_u32_spec(count_after(note, label)) {
        Some(n) => n,
        None => 0,
    }
}

fn capture(note: &str, label: &str) -> (n: u32)
    ensures
        n == capture_spec(note@, label@),
{
    let digits = crate::icons::capture_count(note, label);
    match parse_u32(digits.as_slice()) {
        Some(n) => n,
        None => 0,
    }
}

/// `(ahead, behind)` from a sync note such as `diverged (ahead 2, behind 1)`
/// or `ahead by 3 commits`.
pub open spec fn ahead_behind_spec(note: Seq<char>) -> (u32, u32) {
    let a = capture_spec(note, "ahead "@);
    let b = capture_spec(note, "behind "@);
    (
        if a == 0 { capture_spec(note, "ahead by "@) } else { a },
        if b == 0 { capture_spec(note, "behind by "@) } else { b },
    )
}

/// `(ahead, behind)` counts parsed from a sync note.
pub fn parse_ahead_behind(note: &str) -> (r: (u32, u32))
    ensures
        r == ahead_behind_spec(note@),
{
    let ahead = capture(note, "ahead ");
    let ahead = if ahead == 0 {
        capture(note, "ahead by ")
    } else {
        ahead
    };
    let behind = capture(note, "behind ");
    let behind = if behind == 0 {
        capture(note, "behind by ")
    } else {
        behind
    };
    (ahead, behind)
}

/* ── Refs ──────────────────────────────────────────────────────────────── */

/// Ref of a `for-each-ref` line: branches, remotes, tags; never `*/HEAD`.
pub open spec fn classify_spec(refname: Seq<char>, short: Seq<char>) -> Option<(RefKind, Seq<char>)> {
    if ends_with(short, "/HEAD"@) {
        None
    } else if starts_with(refname, "refs/heads/"@) {
        Some((RefKind::Local, short))
    } else if starts_with(refname, "refs/remotes/"@) {
        Some((RefKind::Remote, short))
    } else if starts_with(refname, "refs/tags/"@) {
        Some((RefKind::Tag, short))
    } else {
        None
    }
}

/// Graph ref for a full ref name and its short name.
pub fn classify_ref(refname: &str, short: &str) -> (r: Option<GraphRef>)
    ensures
        match (r, classify_spec(refname@, short@)) {
            (Some(g), Some((kind, name))) => g.kind == kind && g.name@ == name,
            (None, None) => true,
            _ => false,
        },
{
    let sc = str_chars(short);
    let suffix = str_chars("/HEAD");
    if crate::text::ends_with_chars(sc.as_slice(), suffix.as_slice()) {
        return None;
    }
    if crate::text::str_starts_with(refname, "refs/heads/") {
        Some(GraphRef::local(short))
    } else if crate::text::str_starts_with(refname, "refs/remotes/") {
        Some(GraphRef::remote(short))
    } else if crate::text::str_starts_with(refname, "refs/tags/") {
        Some(GraphRef::tag(short))
    } else {
        None
    }
}

/* ── Log lines ─────────────────────────────────────────────────────────── */

/// One commit of the graph window.
#[derive(Clone, Debug, Default, PartialEq, Eq)]
pub struct Commit {
    pub id: String,
    pub subject: String,
    pub parents: Vec<String>,
    pub refs: Vec<GraphRef>,
    pub author_name: String,
    pub author_date_unix: i64,
}

/// One stash entry.
#[derive(Clone, Debug, Default, PartialEq, Eq)]
pub struct Stash {
    pub id: String,
    pub stash_ref: String,
    pub subject: String,
    pub author_name: String,
    pub author_date_unix: i64,
    pub parent_id: Option<String>,
}

/// A checkout shown in the graph (primary or linked worktree).
#[derive(Clone, Debug, Default, PartialEq, Eq)]
pub struct Worktree {
    /// Checkout path, as the snapshot names it.
    pub path: String,
    /// Branch checked out there (`None` when detached).
    pub branch: Option<String>,
}

/// One visible row of the commit graph.
#[derive(Clone, Debug, PartialEq, Eq)]
pub enum GraphRow {
    /// A commit, with the checkouts whose HEAD sits on it.
    Commit { commit: Commit, is_head: bool, worktrees: Vec<Worktree> },
    /// A stash entry.
    Stash(Stash),
    /// The dirty working tree of the graph's checkout.
    Uncommitted { has_changes: bool },
    /// Another checkout of the same repo.
    Worktree(Worktree),
}

/// Piece `i` of a NUL-split line, or `default` when the line has fewer.
pub open spec fn piece_or(parts: Seq<Seq<char>>, i: int, default: Seq<char>) -> Seq<char> {
    if i < parts.len() {
        parts[i]
    } else {
        default
    }
}

/// A decimal epoch field; 0 when unreadable.
pub open spec fn epoch_spec(s: Seq<char>) -> i64 {
    match parse_i64_spec(s) {
        Some(n) => n,
        None => 0,
    }
}

fn piece(parts: &Vec<Vec<char>>, i: usize, default: &str) -> (r: Vec<char>)
    ensures
        r@ == piece_or(views(parts@), i as int, default@),
{
    if i < parts.len() {
        crate::text::slice_chars(parts[i].as_slice(), 0, parts[i].len())
    } else {
        str_chars(default)
    }
}

fn epoch(v: &Vec<char>) -> (n: i64)
    ensures
        n == epoch_spec(v@),
{
    match parse_i64(v.as_slice()) {
        Some(n) => n,
        None => 0,
    }
}

/// Refs whose object is `id`, in the order given.
pub open spec fn refs_at(refs: Seq<(String, GraphRef)>, id: Seq<char>) -> Seq<GraphRef>
    decreases refs.len(),
{
    if refs.len() == 0 {
        Seq::empty()
    } else {
        let r = refs_at(refs.drop_last(), id);
        if refs.last().0@ == id {
            r.push(refs.last().1)
        } else {
            r
        }
    }
}

/// Fields of a `%H%x00%P%x00%s%x00%an%x00%at` line; `None` without a hash.
pub open spec fn commit_line_spec(line: Seq<char>) -> Option<(Seq<char>, Seq<Seq<char>>, Seq<char>, Seq<char>, i64)> {
    let parts = split_on(line, '\0');
    let id = parts[0];
    if id.len() == 0 {
        None
    } else {
        Some((
            id,
            words(piece_or(parts, 1, Seq::empty())),
            piece_or(parts, 2, Seq::empty()),
            piece_or(parts, 3, Seq::empty()),
            epoch_spec(piece_or(parts, 4, "0"@)),
        ))
    }
}

/// Parse one `git log` line into a commit with the refs pointing at it.
pub fn parse_commit_line(line: &str, refs: &[(String, GraphRef)]) -> (r: Option<Commit>)
    ensures
        match (r, commit_line_spec(line@)) {
            (Some(c), Some((id, parents, subject, author, date))) => c.id@ == id && crate::text::string_views(
                c.parents@,
            ) == parents && c.subject@ == subject && c.author_name@ == author && c.author_date_unix == date
                && c.refs@ == refs_at(refs@, id),
            (None, None) => true,
            _ => false,
        },
{
    let lc = str_chars(line);
    let parts = split_chars(lc.as_slice(), '\0');
    proof {
        crate::text::lemma_split_on_nonempty(lc@, '\0');
    }
    if parts[0].len() == 0 {
        return None;
    }
    let id = string_from_chars(parts[0].as_slice());
    let parent_field = piece(&parts, 1, "");
    proof {
        reveal_strlit("");
        reveal_strlit("0");
    }
    assert(parent_field@ == piece_or(views(parts@), 1, Seq::empty()));
    let parent_words = split_words(parent_field.as_slice());
    let parents = crate::text::strings_from_runs(&parent_words);
    let subject_v = piece(&parts, 2, "");
    let author_v = piece(&parts, 3, "");
    let date_v = piece(&parts, 4, "0");
    let mut commit_refs: Vec<GraphRef> = Vec::new();
    let mut i: usize = 0;
    assert(refs@.take(0) =~= Seq::<(String, GraphRef)>::empty());
    while i < refs.len()
        invariant
            i <= refs@.len(),
            commit_refs@ == refs_at(refs@.take(i as int), id@),
        decreases refs@.len() - i,
    {
        assert(refs@.take(i + 1).drop_last() =~= refs@.take(i as int));
        assert(refs@.take(i + 1).last() == refs@[i as int]);
        if str_eq(refs[i].0.as_str(), id.as_str()) {
            let g = GraphRef { name: refs[i].1.name.clone(), kind: refs[i].1.kind };
            assert(g == refs@[i as int].1) by {
                assert(g.name@ == refs@[i as int].1.name@);
                assert(g.name == refs@[i as int].1.name);
            }
            commit_refs.push(g);
        }
        i += 1;
    }
    assert(refs@.take(i as int) =~= refs@);
    Some(Commit {
        id,
        subject: string_from_chars(subject_v.as_slice()),
        parents,
        refs: commit_refs,
        author_name: string_from_chars(author_v.as_slice()),
        author_date_unix: epoch(&date_v),
    })
}

/// Fields of a `%gd%x00%H%x00%P%x00%s%x00%at%x00%an` stash line; `None`
/// without a ref or an id.
pub open spec fn stash_line_spec(line: Seq<char>) -> Option<(Seq<char>, Seq<char>, Option<Seq<char>>, Seq<char>, i64, Seq<char>)> {
    let parts = split_on(line, '\0');
    if parts.len() < 2 || parts[0].len() == 0 || parts[1].len() == 0 {
        None
    } else {
        let parent = if parts.len() > 2 && words(parts[2]).len() > 0 {
            Some(words(parts[2])[0])
        } else {
            None
        };
        Some((
            parts[0],
            parts[1],
            parent,
            piece_or(parts, 3, Seq::empty()),
            epoch_spec(piece_or(parts, 4, "0"@)),
            piece_or(parts, 5, Seq::empty()),
        ))
    }
}

/// Parse one `git stash list` line.
pub fn parse_stash_line(line: &str) -> (r: Option<Stash>)
    ensures
        match (r, stash_line_spec(line@)) {
            (Some(s), Some((stash_ref, id, parent, subject, date, author))) => s.stash_ref@ == stash_ref && s.id@ == id
                && match (s.parent_id, parent) {
                (Some(p), Some(q)) => p@ == q,
                (None, None) => true,
                _ => false,
            } && s.subject@ == subject && s.author_date_unix == date && s.author_name@ == author,
            (None, None) => true,
            _ => false,
        },
{
    let lc = str_chars(line);
    let parts = split_chars(lc.as_slice(), '\0');
    proof {
        crate::text::lemma_split_on_nonempty(lc@, '\0');
        reveal_strlit("");
        reveal_strlit("0");
    }
    if parts.len() < 2 || parts[0].len() == 0 || parts[1].len() == 0 {
        return None;
    }
    let parent_id = if parts.len() > 2 {
        let ws = split_words(parts[2].as_slice());
        if ws.len() > 0 {
            Some(string_from_chars(ws[0].as_slice()))
        } else {
            None
        }
    } else {
        None
    };
    let subject_v = piece(&parts, 3, "");
    let date_v = piece(&parts, 4, "0");
    let author_v = piece(&parts, 5, "");
    Some(Stash {
        id: string_from_chars(parts[1].as_slice()),
        stash_ref: string_from_chars(parts[0].as_slice()),
        subject: string_from_chars(subject_v.as_slice()),
        author_name: string_from_chars(author_v.as_slice()),
        author_date_unix: epoch(&date_v),
        parent_id,
    })
}


/* ── Graph model and autoload paging ───────────────────────────────────── */

/// `git log` page size when nothing else is known.
pub const DEFAULT_GRAPH_WINDOW: usize = 300;

/// Upstream state of the graph's checkout.
#[derive(Clone, Debug, PartialEq, Eq)]
pub struct SyncState {
    pub branch: String,
    pub status: SyncStatus,
    pub ahead: u32,
    pub behind: u32,
}

/// Loaded commit graph: the `git log` window, then stash parents that the
/// window does not hold.
#[derive(Clone, Debug, Default, PartialEq, Eq)]
pub struct GraphModel {
    pub commits: Vec<Commit>,
    pub stashes: Vec<Stash>,
    pub worktrees: Vec<Worktree>,
    pub head_id: Option<String>,
    pub sync: Option<SyncState>,
    pub show_ignored: bool,
    pub uncommitted: Option<bool>,
    /// `--skip` of the first page.
    pub skip: usize,
    /// `--max-count` per page (0: not set).
    pub limit: usize,
    /// Older history exists past the window.
    pub has_more: bool,
    /// Number of leading commits that came from `git log`.
    pub window: usize,
}

impl GraphModel {
    /// Commits that came from `git log` (the log-window prefix).
    pub fn window_count(&self) -> (n: usize)
        ensures
            n == self.window,
    {
        self.window
    }
}

/// A commit as plain values.
pub struct CommitView {
    pub id: Seq<char>,
    pub subject: Seq<char>,
    pub parents: Seq<Seq<char>>,
    pub refs: Seq<(Seq<char>, RefKind)>,
    pub author_name: Seq<char>,
    pub author_date_unix: i64,
}

impl View for Commit {
    type V = CommitView;

    open spec fn view(&self) -> CommitView {
        CommitView {
            id: self.id@,
            subject: self.subject@,
            parents: crate::text::string_views(self.parents@),
            refs: self.refs@.map_values(|r: GraphRef| (r.name@, r.kind)),
            author_name: self.author_name@,
            author_date_unix: self.author_date_unix,
        }
    }
}

/// Views of a list of commits.
pub open spec fn commit_views(cs: Seq<Commit>) -> Seq<CommitView> {
    cs.map_values(|c: Commit| c@)
}

/// Ids of a list of commit views.
pub open spec fn ids_of(cs: Seq<CommitView>) -> Seq<Seq<char>> {
    cs.map_values(|c: CommitView| c.id)
}

/// `acc`, then each commit of `page` whose id is not there yet.
pub open spec fn merge_window_spec(acc: Seq<CommitView>, page: Seq<CommitView>) -> Seq<CommitView>
    decreases page.len(),
{
    if page.len() == 0 {
        acc
    } else {
        let m = merge_window_spec(acc, page.drop_last());
        if ids_of(m).contains(page.last().id) {
            m
        } else {
            m.push(page.last())
        }
    }
}

/// `p`, then each parent of `q` not there yet.
pub open spec fn union_parents(p: Seq<Seq<char>>, q: Seq<Seq<char>>) -> Seq<Seq<char>>
    decreases q.len(),
{
    if q.len() == 0 {
        p
    } else {
        let a = union_parents(p, q.drop_last());
        if a.contains(q.last()) {
            a
        } else {
            a.push(q.last())
        }
    }
}

/// Index of the first commit with `id`.
pub open spec fn first_with_id(e: Seq<CommitView>, id: Seq<char>) -> int {
    choose|j: int| 0 <= j < e.len() && e[j].id == id && (forall|k: int| 0 <= k < j ==> e[k].id != id)
}

/// One extra commit folded in: dropped when the window has its id, merged
/// into the first extra with that id (its new parents appended), else added.
pub open spec fn fold_step(seen: Seq<Seq<char>>, e: Seq<CommitView>, c: CommitView) -> Seq<CommitView> {
    if seen.contains(c.id) {
        e
    } else if ids_of(e).contains(c.id) {
        let j = first_with_id(e, c.id);
        e.update(j, CommitView { parents: union_parents(e[j].parents, c.parents), ..e[j] })
    } else {
        e.push(c)
    }
}

/// Extras after the window: commits whose id the window lacks, one per id,
/// a repeated id adding its new parents to the first one.
pub open spec fn fold_extras(seen: Seq<Seq<char>>, xs: Seq<CommitView>) -> Seq<CommitView>
    decreases xs.len(),
{
    if xs.len() == 0 {
        Seq::empty()
    } else {
        fold_step(seen, fold_extras(seen, xs.drop_last()), xs.last())
    }
}

/// Log-window prefix length actually held.
pub open spec fn held_window(g: GraphModel) -> int {
    if g.window < g.commits.len() { g.window as int } else { g.commits.len() as int }
}

/// Page size for the next autoload: the model's limit, or the default.
pub open spec fn autoload_limit_spec(g: GraphModel) -> int {
    if g.limit == 0 { DEFAULT_GRAPH_WINDOW as int } else { g.limit as int }
}

/// Window commits of `current`, then new window commits of `page`.
pub open spec fn merged_window(current: GraphModel, page: GraphModel) -> Seq<CommitView> {
    merge_window_spec(
        commit_views(current.commits@).take(held_window(current)),
        commit_views(page.commits@).take(held_window(page)),
    )
}

/// Extras of both models, the merged window's ids left out.
pub open spec fn merged_extras(current: GraphModel, page: GraphModel) -> Seq<CommitView> {
    fold_extras(
        ids_of(merged_window(current, page)),
        commit_views(current.commits@).skip(held_window(current)) + commit_views(page.commits@).skip(
            held_window(page),
        ),
    )
}

/// Page size for the next autoload fetch.
pub fn autoload_limit(current: &GraphModel) -> (n: usize)
    ensures
        n == autoload_limit_spec(*current),
{
    if current.limit == 0 { DEFAULT_GRAPH_WINDOW } else { current.limit }
}

/// Next `git log` skip for autoload: the first page's skip plus the log-window prefix.
pub fn autoload_skip(current: &GraphModel) -> (n: usize)
    requires
        current.skip + current.window <= usize::MAX,
    ensures
        n == current.skip + current.window,
{
    current.skip + current.window_count()
}

/// `--max-count` for a same-repo refresh: keep already-loaded history.
pub fn refresh_graph_limit(current: Option<&GraphModel>) -> (n: usize)
    ensures
        n == match current {
            Some(g) => {
                let a: int = if g.window > g.limit { g.window as int } else { g.limit as int };
                if a > DEFAULT_GRAPH_WINDOW { a } else { DEFAULT_GRAPH_WINDOW as int }
            },
            None => DEFAULT_GRAPH_WINDOW as int,
        },
{
    match current {
        Some(g) => {
            let a = if g.window_count() > g.limit { g.window_count() } else { g.limit };
            if a > DEFAULT_GRAPH_WINDOW { a } else { DEFAULT_GRAPH_WINDOW }
        },
        None => DEFAULT_GRAPH_WINDOW,
    }
}

fn copy_strings(v: &Vec<String>) -> (r: Vec<String>)
    ensures
        crate::text::string_views(r@) == crate::text::string_views(v@),
{
    let mut r: Vec<String> = Vec::new();
    let mut i: usize = 0;
    while i < v.len()
        invariant
            i <= v@.len(),
            crate::text::string_views(r@) == crate::text::string_views(v@).take(i as int),
        decreases v@.len() - i,
    {
        let ghost before = crate::text::string_views(r@);
        r.push(v[i].clone());
        assert(crate::text::string_views(r@) =~= before.push(v@[i as int]@));
        assert(crate::text::string_views(v@).take(i + 1) =~= crate::text::string_views(v@).take(i as int).push(v@[i as int]@));
        i += 1;
    }
    assert(crate::text::string_views(v@).take(i as int) =~= crate::text::string_views(v@));
    r
}

fn copy_commit(c: &Commit) -> (r: Commit)
    ensures
        r@ == c@,
{
    let mut refs: Vec<GraphRef> = Vec::new();
    let ghost rv = c.refs@.map_values(|g: GraphRef| (g.name@, g.kind));
    let mut i: usize = 0;
    while i < c.refs.len()
        invariant
            i <= c.refs@.len(),
            rv == c.refs@.map_values(|g: GraphRef| (g.name@, g.kind)),
            refs@.map_values(|g: GraphRef| (g.name@, g.kind)) == rv.take(i as int),
        decreases c.refs@.len() - i,
    {
        let ghost before = refs@.map_values(|g: GraphRef| (g.name@, g.kind));
        let g = GraphRef { name: c.refs[i].name.clone(), kind: c.refs[i].kind };
        refs.push(g);
        assert(refs@.map_values(|g: GraphRef| (g.name@, g.kind)) =~= before.push(rv[i as int]));
        assert(rv.take(i + 1) =~= rv.take(i as int).push(rv[i as int]));
        i += 1;
    }
    assert(rv.take(i as int) =~= rv);
    Commit {
        id: c.id.clone(),
        subject: c.subject.clone(),
        parents: copy_strings(&c.parents),
        refs,
        author_name: c.author_name.clone(),
        author_date_unix: c.author_date_unix,
    }
}

fn contains_id(cs: &Vec<Commit>, id: &str) -> (b: bool)
    ensures
        b == ids_of(commit_views(cs@)).contains(id@),
{
    let ghost ids = ids_of(commit_views(cs@));
    let mut i: usize = 0;
    while i < cs.len()
        invariant
            i <= cs@.len(),
            ids == ids_of(commit_views(cs@)),
            forall|k: int| 0 <= k < i ==> ids[k] != id@,
        decreases cs@.len() - i,
    {
        assert(ids[i as int] == cs@[i as int].id@);
        if str_eq(cs[i].id.as_str(), id) {
            assert(ids[i as int] == id@);
            return true;
        }
        i += 1;
    }
    false
}

fn contains_string(v: &Vec<String>, s: &str) -> (b: bool)
    ensures
        b == crate::text::string_views(v@).contains(s@),
{
    let ghost sv = crate::text::string_views(v@);
    let mut i: usize = 0;
    while i < v.len()
        invariant
            i <= v@.len(),
            sv == crate::text::string_views(v@),
            forall|k: int| 0 <= k < i ==> sv[k] != s@,
        decreases v@.len() - i,
    {
        assert(sv[i as int] == v@[i as int]@);
        if str_eq(v[i].as_str(), s) {
            return true;
        }
        i += 1;
    }
    false
}


proof fn lemma_first_with_id(e: Seq<CommitView>, id: Seq<char>, j: int)
    requires
        0 <= j < e.len(),
        e[j].id == id,
        forall|k: int| 0 <= k < j ==> e[k].id != id,
    ensures
        first_with_id(e, id) == j,
        ids_of(e).contains(id),
{
    assert(ids_of(e)[j] == id);
    assert(exists|i: int| 0 <= i < e.len() && e[i].id == id && (forall|k: int| 0 <= k < i ==> e[k].id != id));
    let c = first_with_id(e, id);
    if c < j {
        assert(e[c].id != id);
    } else if c > j {
        assert(e[j].id != id);
    }
}

fn find_id(cs: &Vec<Commit>, id: &str) -> (r: Option<usize>)
    ensures
        match r {
            Some(j) => j < cs@.len() && ids_of(commit_views(cs@)).contains(id@) && first_with_id(commit_views(cs@), id@) == j,
            None => !ids_of(commit_views(cs@)).contains(id@),
        },
{
    let ghost e = commit_views(cs@);
    let mut i: usize = 0;
    while i < cs.len()
        invariant
            i <= cs@.len(),
            e == commit_views(cs@),
            forall|k: int| 0 <= k < i ==> e[k].id != id@,
        decreases cs@.len() - i,
    {
        assert(e[i as int].id == cs@[i as int].id@);
        if str_eq(cs[i].id.as_str(), id) {
            proof {
                lemma_first_with_id(e, id@, i as int);
            }
            return Some(i);
        }
        i += 1;
    }
    assert forall|k: int| 0 <= k < ids_of(e).len() implies ids_of(e)[k] != id@ by {
        assert(ids_of(e)[k] == e[k].id);
    }
    None
}

fn absorb_extra(merged: &Vec<Commit>, extras: &mut Vec<Commit>, c: &Commit)
    ensures
        commit_views(final(extras)@) == fold_step(ids_of(commit_views(merged@)), commit_views(old(extras)@), c@),
{
    if contains_id(merged, c.id.as_str()) {
        return;
    }
    match find_id(extras, c.id.as_str()) {
        Some(j) => {
            let ghost e = commit_views(extras@);
            let prev = &extras[j];
            let mut ps = copy_strings(&prev.parents);
            let ghost p0 = crate::text::string_views(prev.parents@);
            let ghost q = crate::text::string_views(c.parents@);
            let mut k: usize = 0;
            assert(q.take(0) =~= Seq::<Seq<char>>::empty());
            while k < c.parents.len()
                invariant
                    k <= c.parents@.len(),
                    q == crate::text::string_views(c.parents@),
                    crate::text::string_views(ps@) == union_parents(p0, q.take(k as int)),
                decreases c.parents@.len() - k,
            {
                assert(q.take(k + 1).drop_last() =~= q.take(k as int));
                assert(q.take(k + 1).last() == q[k as int]);
                assert(q[k as int] == c.parents@[k as int]@);
                if !contains_string(&ps, c.parents[k].as_str()) {
                    let ghost before = crate::text::string_views(ps@);
                    ps.push(c.parents[k].clone());
                    assert(crate::text::string_views(ps@) =~= before.push(q[k as int]));
                }
                k += 1;
            }
            assert(q.take(k as int) =~= q);
            let mut nc = copy_commit(prev);
            nc.parents = ps;
            let ghost before = commit_views(extras@);
            extras.set(j, nc);
            assert(commit_views(extras@) =~= before.update(
                j as int,
                CommitView { parents: union_parents(e[j as int].parents, c@.parents), ..e[j as int] },
            ));
        },
        None => {
            let ghost before = commit_views(extras@);
            extras.push(copy_commit(c));
            assert(commit_views(extras@) =~= before.push(c@));
        },
    }
}

/// Merge the next log page into `current`. Skip stays at the first page's window
/// start. Extra stash parents stay after the log prefix.
pub fn merge_autoload(current: &GraphModel, page: GraphModel) -> (r: GraphModel)
    ensures
        commit_views(r.commits@) == merged_window(*current, page) + merged_extras(*current, page),
        r.window == merged_window(*current, page).len(),
        r.stashes == page.stashes,
        r.worktrees == page.worktrees,
        r.head_id == page.head_id,
        r.sync == page.sync,
        r.show_ignored == current.show_ignored,
        r.uncommitted == (if page.uncommitted is Some { page.uncommitted } else { current.uncommitted }),
        r.skip == current.skip,
        r.limit == autoload_limit_spec(*current),
        r.has_more == page.has_more,
{
    let ghost cv = commit_views(current.commits@);
    let ghost pv = commit_views(page.commits@);
    let cw: usize = if current.window < current.commits.len() { current.window } else { current.commits.len() };
    let pw: usize = if page.window < page.commits.len() { page.window } else { page.commits.len() };
    let mut merged: Vec<Commit> = Vec::new();
    let mut i: usize = 0;
    while i < cw
        invariant
            i <= cw,
            cw <= current.commits@.len(),
            cv == commit_views(current.commits@),
            commit_views(merged@) == cv.take(i as int),
        decreases cw - i,
    {
        let ghost before = commit_views(merged@);
        merged.push(copy_commit(&current.commits[i]));
        assert(commit_views(merged@) =~= before.push(cv[i as int]));
        assert(cv.take(i + 1) =~= cv.take(i as int).push(cv[i as int]));
        i += 1;
    }
    let ghost base = cv.take(cw as int);
    let mut i: usize = 0;
    assert(pv.take(0) =~= Seq::<CommitView>::empty());
    while i < pw
        invariant
            i <= pw,
            pw <= page.commits@.len(),
            pv == commit_views(page.commits@),
            commit_views(merged@) == merge_window_spec(base, pv.take(i as int)),
        decreases pw - i,
    {
        assert(pv.take(i + 1).drop_last() =~= pv.take(i as int));
        assert(pv.take(i + 1).last() == pv[i as int]);
        let c = &page.commits[i];
        if !contains_id(&merged, c.id.as_str()) {
            let ghost before = commit_views(merged@);
            merged.push(copy_commit(c));
            assert(commit_views(merged@) =~= before.push(pv[i as int]));
        }
        i += 1;
    }
    let ghost mw = commit_views(merged@);
    assert(mw == merged_window(*current, page));
    let ghost seen = ids_of(mw);
    let ghost ce = cv.skip(cw as int);
    let ghost pe = pv.skip(pw as int);
    let mut extras: Vec<Commit> = Vec::new();
    let mut i: usize = cw;
    assert(ce.take(0) =~= Seq::<CommitView>::empty());
    while i < current.commits.len()
        invariant
            cw <= i <= current.commits@.len(),
            cv == commit_views(current.commits@),
            ce == cv.skip(cw as int),
            seen == ids_of(commit_views(merged@)),
            commit_views(extras@) == fold_extras(seen, ce.take(i - cw)),
        decreases current.commits@.len() - i,
    {
        assert(ce.take(i - cw + 1).drop_last() =~= ce.take(i - cw));
        assert(ce.take(i - cw + 1).last() == cv[i as int]);
        absorb_extra(&merged, &mut extras, &current.commits[i]);
        i += 1;
    }
    assert(ce.take(i - cw) =~= ce);
    let mut i: usize = pw;
    assert(ce + pe.take(0) =~= ce);
    while i < page.commits.len()
        invariant
            pw <= i <= page.commits@.len(),
            pv == commit_views(page.commits@),
            pe == pv.skip(pw as int),
            seen == ids_of(commit_views(merged@)),
            commit_views(extras@) == fold_extras(seen, ce + pe.take(i - pw)),
        decreases page.commits@.len() - i,
    {
        assert((ce + pe.take(i - pw + 1)).drop_last() =~= ce + pe.take(i - pw));
        assert((ce + pe.take(i - pw + 1)).last() == pv[i as int]);
        absorb_extra(&merged, &mut extras, &page.commits[i]);
        i += 1;
    }
    assert(pe.take(i - pw) =~= pe);
    let window = merged.len();
    let ghost ev = commit_views(extras@);
    merged.append(&mut extras);
    assert(commit_views(merged@) =~= mw + ev);
    let uncommitted = match page.uncommitted {
        Some(u) => Some(u),
        None => current.uncommitted,
    };
    let limit = autoload_limit(current);
    GraphModel {
        commits: merged,
        stashes: page.stashes,
        worktrees: page.worktrees,
        head_id: page.head_id,
        sync: page.sync,
        show_ignored: current.show_ignored,
        uncommitted,
        skip: current.skip,
        limit,
        has_more: page.has_more,
        window,
    }
}


proof fn lemma_merge_window(acc: Seq<CommitView>, page: Seq<CommitView>)
    ensures
        merge_window_spec(acc, page).len() >= acc.len(),
        merge_window_spec(acc, page).take(acc.len() as int) == acc,
        forall|i: int| 0 <= i < page.len() ==> ids_of(merge_window_spec(acc, page)).contains(#[trigger] page[i].id),
    decreases page.len(),
{
    if page.len() > 0 {
        let m = merge_window_spec(acc, page.drop_last());
        lemma_merge_window(acc, page.drop_last());
        assert forall|i: int| 0 <= i < page.len() implies ids_of(merge_window_spec(acc, page)).contains(
            #[trigger] page[i].id,
        ) by {
            if i < page.len() - 1 {
                assert(page.drop_last()[i] == page[i]);
                assert(ids_of(m).contains(page[i].id));
                if !ids_of(m).contains(page.last().id) {
                    let w = choose|w: int| 0 <= w < ids_of(m).len() && ids_of(m)[w] == page[i].id;
                    assert(ids_of(m.push(page.last()))[w] == page[i].id);
                }
            } else if !ids_of(m).contains(page.last().id) {
                assert(ids_of(m.push(page.last()))[m.len() as int] == page.last().id);
            }
        }
        if !ids_of(m).contains(page.last().id) {
            assert(m.push(page.last()).take(acc.len() as int) =~= m.take(acc.len() as int));
        }
    } else {
        assert(acc.take(acc.len() as int) =~= acc);
    }
}

proof fn lemma_first_exists(e: Seq<CommitView>, id: Seq<char>, w: int)
    requires
        0 <= w < e.len(),
        e[w].id == id,
    ensures
        0 <= first_with_id(e, id) < e.len(),
        e[first_with_id(e, id)].id == id,
    decreases w,
{
    if exists|k: int| 0 <= k < w && e[k].id == id {
        let k = choose|k: int| 0 <= k < w && e[k].id == id;
        lemma_first_exists(e, id, k);
    } else {
        lemma_first_with_id(e, id, w);
    }
}

proof fn lemma_fold_extras_disjoint(seen: Seq<Seq<char>>, xs: Seq<CommitView>)
    ensures
        forall|i: int| 0 <= i < fold_extras(seen, xs).len() ==> !seen.contains(#[trigger] fold_extras(seen, xs)[i].id),
    decreases xs.len(),
{
    if xs.len() > 0 {
        lemma_fold_extras_disjoint(seen, xs.drop_last());
        let e = fold_extras(seen, xs.drop_last());
        let c = xs.last();
        let f = fold_extras(seen, xs);
        assert(f == fold_step(seen, e, c));
        if !seen.contains(c.id) && ids_of(e).contains(c.id) {
            let w = choose|w: int| 0 <= w < ids_of(e).len() && ids_of(e)[w] == c.id;
            assert(e[w].id == c.id);
            lemma_first_exists(e, c.id, w);
            let j = first_with_id(e, c.id);
            assert forall|i: int| 0 <= i < f.len() implies !seen.contains(#[trigger] f[i].id) by {
                assert(f[i].id == e[i].id);
            }
        } else if !seen.contains(c.id) {
            assert forall|i: int| 0 <= i < f.len() implies !seen.contains(#[trigger] f[i].id) by {
                if i < e.len() {
                    assert(f[i] == e[i]);
                }
            }
        }
    }
}

/// An autoload page never disturbs what was loaded: the merged window starts
/// with the current window as it was and holds every id of the page's
/// window, and no extra commit repeats an id of the merged window.
pub proof fn lemma_merge_autoload_keeps_loaded(current: GraphModel, page: GraphModel)
    ensures
        merged_window(current, page).take(held_window(current)) == commit_views(current.commits@).take(
            held_window(current),
        ),
        forall|i: int|
            0 <= i < held_window(page) ==> ids_of(merged_window(current, page)).contains(
                #[trigger] commit_views(page.commits@)[i].id,
            ),
        forall|i: int|
            0 <= i < merged_extras(current, page).len() ==> !ids_of(merged_window(current, page)).contains(
                #[trigger] merged_extras(current, page)[i].id,
            ),
{
    let acc = commit_views(current.commits@).take(held_window(current));
    let pg = commit_views(page.commits@).take(held_window(page));
    lemma_merge_window(acc, pg);
    assert forall|i: int| 0 <= i < held_window(page) implies ids_of(merged_window(current, page)).contains(
        #[trigger] commit_views(page.commits@)[i].id,
    ) by {
        assert(pg[i] == commit_views(page.commits@)[i]);
    }
    lemma_fold_extras_disjoint(
        ids_of(merged_window(current, page)),
        commit_views(current.commits@).skip(held_window(current)) + commit_views(page.commits@).skip(
            held_window(page),
        ),
    );
}

} // verus!
