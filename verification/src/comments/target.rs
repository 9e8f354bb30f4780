//! Comment paint markers, line lookups, and refresh GC.
//!
//! Live refs come from the workspace snapshot; this module does not run git.

use vstd::prelude::*;

use crate::comments::store::{
    lemma_keep_sorted, lemma_lookup_absent, lemma_lookup_at, sorted_keys,
    CommentEntry, key_lt, keep_spec, lookup, normalize_path, normalize_path_spec, repo_identity, repo_identity_spec,
    CommentKey, CommentStore, EntryView, KeyView,
};
use crate::diff::{row_views, CellView, DiffRow, RowView};
use crate::drill::CommitFileSource;
use crate::graph_load::GraphRow;
use crate::text::str_eq;

verus! {

/* ── Diff line numbers ─────────────────────────────────────────────────── */

/// Number painted on a diff row: the right side first, else the left.
pub open spec fn row_number(r: RowView) -> Option<u32> {
    match r {
        RowView::Line { left, right } => match right {
            Some(c) if c.line_no is Some => c.line_no,
            _ => left.line_no,
        },
        _ => None,
    }
}

/// First numbered row of `rows`.
pub open spec fn first_number(rows: Seq<RowView>) -> Option<u32>
    decreases rows.len(),
{
    if rows.len() == 0 {
        None
    } else if row_number(rows[0]) is Some {
        row_number(rows[0])
    } else {
        first_number(rows.drop_first())
    }
}

fn row_line_number(row: &DiffRow) -> (n: Option<u32>)
    ensures
        n == row_number(row@),
{
    match row {
        DiffRow::Line { left, right } => {
            match right {
                Some(c) => {
                    if c.line_no.is_some() {
                        return c.line_no;
                    }
                },
                None => {},
            }
            left.line_no
        },
        _ => None,
    }
}

/// First numbered line in the viewport (prefer the new/right side).
pub fn viewport_line_number(rows: &[DiffRow], scroll: u16) -> (n: Option<u32>)
    ensures
        n == (if (scroll as int) < rows@.len() {
            first_number(row_views(rows@).skip(scroll as int))
        } else {
            None
        }),
{
    let ghost v = row_views(rows@);
    let mut i: usize = scroll as usize;
    if i >= rows.len() {
        return None;
    }
    while i < rows.len()
        invariant
            scroll <= i <= rows@.len(),
            v == row_views(rows@),
            first_number(v.skip(scroll as int)) == first_number(v.skip(i as int)),
        decreases rows@.len() - i,
    {
        assert(v.skip(i as int)[0] == rows@[i as int]@);
        if let Some(n) = row_line_number(&rows[i]) {
            return Some(n);
        }
        assert(v.skip(i as int).drop_first() =~= v.skip(i + 1));
        i += 1;
    }
    assert(v.skip(i as int) =~= Seq::<RowView>::empty());
    None
}

/// Line numbers of `rows`, in order.
pub open spec fn numbers_of(rows: Seq<RowView>) -> Seq<u32>
    decreases rows.len(),
{
    if rows.len() == 0 {
        Seq::empty()
    } else {
        let r = numbers_of(rows.drop_last());
        match row_number(rows.last()) {
            Some(n) => r.push(n),
            None => r,
        }
    }
}

/// Smallest of a non-empty list.
pub open spec fn seq_min(s: Seq<u32>) -> u32
    decreases s.len(),
{
    if s.len() <= 1 {
        s[0]
    } else {
        let m = seq_min(s.drop_last());
        if s.last() < m { s.last() } else { m }
    }
}

/// Largest of a non-empty list.
pub open spec fn seq_max(s: Seq<u32>) -> u32
    decreases s.len(),
{
    if s.len() <= 1 {
        s[0]
    } else {
        let m = seq_max(s.drop_last());
        if s.last() > m { s.last() } else { m }
    }
}

/// Rows `min(start, end) ..= max(start, end)` that exist.
pub open spec fn range_rows(rows: Seq<RowView>, start: int, end: int) -> Seq<RowView> {
    let lo = if start < end { start } else { end };
    let hi = if start < end { end } else { start };
    let a = if lo < rows.len() { lo } else { rows.len() as int };
    let b = if hi + 1 < rows.len() { hi + 1 } else { rows.len() as int };
    rows.subrange(a, b)
}

/// Inclusive numbered-line span for painted rows `start..=end`.
///
/// Prefers the new/right side. Returns `None` when the range has no
/// numbered line.
pub fn viewport_line_range(rows: &[DiffRow], start: usize, end: usize) -> (r: Option<(u32, u32)>)
    ensures
        ({
            let ns = numbers_of(range_rows(row_views(rows@), start as int, end as int));
            r == if ns.len() == 0 {
                None::<(u32, u32)>
            } else {
                Some((seq_min(ns), seq_max(ns)))
            }
        }),
{
    let ghost v = row_views(rows@);
    let lo = if start < end { start } else { end };
    let hi = if start < end { end } else { start };
    let a = if lo < rows.len() { lo } else { rows.len() };
    let b = if hi < rows.len() { hi + 1 } else { rows.len() };
    let ghost w = range_rows(v, start as int, end as int);
    assert(w =~= v.subrange(a as int, b as int));
    let mut first: Option<u32> = None;
    let mut last: Option<u32> = None;
    let mut i = a;
    assert(w.take(0) =~= Seq::<RowView>::empty());
    while i < b
        invariant
            a <= i <= b <= rows@.len(),
            v == row_views(rows@),
            w == v.subrange(a as int, b as int),
            ({
                let ns = numbers_of(w.take(i - a));
                &&& (first is None <==> ns.len() == 0)
                &&& (last is None <==> ns.len() == 0)
                &&& ns.len() > 0 ==> first == Some(seq_min(ns)) && last == Some(seq_max(ns))
            }),
        decreases b - i,
    {
        let ghost k = i - a;
        let ghost ns0 = numbers_of(w.take(k as int));
        assert(w.take(k + 1).drop_last() =~= w.take(k as int));
        assert(w.take(k + 1).last() == rows@[i as int]@);
        let num = row_line_number(&rows[i]);
        proof {
            let ns1 = numbers_of(w.take(k + 1));
            match num {
                Some(n) => {
                    assert(ns1 == ns0.push(n));
                    assert(ns1.drop_last() =~= ns0);
                },
                None => {
                    assert(ns1 == ns0);
                },
            }
        }
        if let Some(n) = num {
            first = match first {
                Some(f) => Some(if n < f { n } else { f }),
                None => Some(n),
            };
            last = match last {
                Some(l) => Some(if n > l { n } else { l }),
                None => Some(n),
            };
        }
        i += 1;
    }
    assert(w.take(i - a) =~= w);
    match (first, last) {
        (Some(f), Some(l)) => Some((f, l)),
        _ => None,
    }
}

proof fn lemma_numbers_of(w: Seq<RowView>)
    ensures
        forall|j: int| 0 <= j < w.len() && (#[trigger] row_number(w[j])) is Some ==> numbers_of(w).contains(
            row_number(w[j])->0,
        ),
        forall|i: int| 0 <= i < numbers_of(w).len() ==> exists|j: int|
            0 <= j < w.len() && #[trigger] row_number(w[j]) == Some(#[trigger] numbers_of(w)[i]),
    decreases w.len(),
{
    if w.len() > 0 {
        let p = w.drop_last();
        lemma_numbers_of(p);
        let ns = numbers_of(w);
        let np = numbers_of(p);
        assert forall|j: int| 0 <= j < w.len() && (#[trigger] row_number(w[j])) is Some implies ns.contains(
            row_number(w[j])->0,
        ) by {
            if j < w.len() - 1 {
                assert(p[j] == w[j]);
                let k = choose|k: int| 0 <= k < np.len() && np[k] == row_number(p[j])->0;
                assert(ns[k] == np[k]);
            } else {
                assert(ns[ns.len() - 1] == row_number(w[j])->0);
            }
        }
        assert forall|i: int| 0 <= i < ns.len() implies exists|j: int|
            0 <= j < w.len() && #[trigger] row_number(w[j]) == Some(#[trigger] ns[i]) by {
            if i < np.len() {
                assert(ns[i] == np[i]);
                let j = choose|j: int| 0 <= j < p.len() && #[trigger] row_number(p[j]) == Some(np[i]);
                assert(w[j] == p[j]);
            } else {
                assert(row_number(w[w.len() - 1]) == Some(ns[i]));
            }
        }
    }
}

proof fn lemma_seq_min_max(s: Seq<u32>)
    requires
        s.len() > 0,
    ensures
        forall|i: int| 0 <= i < s.len() ==> seq_min(s) <= #[trigger] s[i] && s[i] <= seq_max(s),
        s.contains(seq_min(s)),
        s.contains(seq_max(s)),
    decreases s.len(),
{
    if s.len() > 1 {
        let p = s.drop_last();
        lemma_seq_min_max(p);
        assert forall|i: int| 0 <= i < s.len() implies seq_min(s) <= #[trigger] s[i] && s[i] <= seq_max(s) by {
            if i < p.len() {
                assert(s[i] == p[i]);
            }
        }
        let a = choose|k: int| 0 <= k < p.len() && p[k] == seq_min(p);
        let b = choose|k: int| 0 <= k < p.len() && p[k] == seq_max(p);
        assert(s[a] == p[a] && s[b] == p[b]);
        assert(s[s.len() - 1] == s.last());
    } else {
        assert(s[0] == seq_min(s));
    }
}

/// The span covers every selected row: for each row between `start` and
/// `end` (both included, in either order) that carries a line number, the
/// span exists and holds that number; and each end of the span is the
/// number of some selected row.
pub proof fn lemma_line_range_covers_selection(rows: Seq<RowView>, start: int, end: int)
    requires
        0 <= start,
        0 <= end,
    ensures
        ({
            let lo = if start < end { start } else { end };
            let hi = if start < end { end } else { start };
            let ns = numbers_of(range_rows(rows, start, end));
            &&& forall|k: int| lo <= k <= hi && k < rows.len() && (#[trigger] row_number(rows[k])) is Some ==> {
                &&& ns.len() > 0
                &&& seq_min(ns) <= row_number(rows[k])->0 <= seq_max(ns)
            }
            &&& ns.len() > 0 ==> exists|k: int|
                lo <= k <= hi && k < rows.len() && #[trigger] row_number(rows[k]) == Some(seq_min(ns))
            &&& ns.len() > 0 ==> exists|k: int|
                lo <= k <= hi && k < rows.len() && #[trigger] row_number(rows[k]) == Some(seq_max(ns))
        }),
{
    let lo = if start < end { start } else { end };
    let hi = if start < end { end } else { start };
    let w = range_rows(rows, start, end);
    let a = if lo < rows.len() { lo } else { rows.len() as int };
    let ns = numbers_of(w);
    lemma_numbers_of(w);
    assert forall|k: int| lo <= k <= hi && k < rows.len() && (#[trigger] row_number(rows[k])) is Some implies {
        &&& ns.len() > 0
        &&& seq_min(ns) <= row_number(rows[k])->0 <= seq_max(ns)
    } by {
        assert(w[k - a] == rows[k]);
        assert(row_number(w[k - a]) is Some);
        let i = choose|i: int| 0 <= i < ns.len() && ns[i] == row_number(w[k - a])->0;
        lemma_seq_min_max(ns);
    }
    if ns.len() > 0 {
        lemma_seq_min_max(ns);
        let i = choose|i: int| 0 <= i < ns.len() && ns[i] == seq_min(ns);
        let j = choose|j: int| 0 <= j < w.len() && #[trigger] row_number(w[j]) == Some(ns[i]);
        assert(rows[a + j] == w[j]);
        let i2 = choose|i: int| 0 <= i < ns.len() && ns[i] == seq_max(ns);
        let j2 = choose|j: int| 0 <= j < w.len() && #[trigger] row_number(w[j]) == Some(ns[i2]);
        assert(rows[a + j2] == w[j2]);
    }
}

/* ── Line comments ─────────────────────────────────────────────────────── */

/// Two line keys on the same file of the same branch or commit.
pub open spec fn same_file(a: KeyView, b: KeyView) -> bool {
    match (a, b) {
        (
            KeyView::WorktreeLine { repo, branch, path, .. },
            KeyView::WorktreeLine { repo: r2, branch: b2, path: p2, .. },
        ) => repo == r2 && branch == b2 && path == p2,
        (KeyView::CommitLine { repo, sha, path, .. }, KeyView::CommitLine { repo: r2, sha: s2, path: p2, .. }) =>
            repo == r2 && sha == s2 && path == p2,
        _ => false,
    }
}

/// Inclusive range of a line key (`(0, 0)` for object keys).
pub open spec fn span_of(k: KeyView) -> (u32, u32) {
    match k {
        KeyView::WorktreeLine { line, end_line, .. } => (line, end_line),
        KeyView::CommitLine { line, end_line, .. } => (line, end_line),
        _ => (0, 0),
    }
}

/// Width of a line key's span, `end_line - line` (0 for a one-line or a
/// reversed span). Ranking by width is ranking by inclusive span size.
pub open spec fn span_len(k: KeyView) -> int {
    let (a, b) = span_of(k);
    if b >= a { b - a } else { 0 }
}

/// `k` is a stored line comment on the probe's file covering line `n`.
pub open spec fn covers_probe(k: KeyView, probe: KeyView, n: u32) -> bool {
    same_file(k, probe) && span_of(k).0 <= n <= span_of(k).1
}

/// `a` is the better cover: tighter span, then lower start, then key order.
pub open spec fn better_cover(a: KeyView, b: KeyView) -> bool {
    ||| span_len(a) < span_len(b)
    ||| span_len(a) == span_len(b) && span_of(a).0 < span_of(b).0
    ||| span_len(a) == span_len(b) && span_of(a).0 == span_of(b).0 && key_lt(a, b)
}

fn same_file_exec(a: &CommentKey, b: &CommentKey) -> (r: bool)
    ensures
        r == same_file(a@, b@),
{
    match (a, b) {
        (
            CommentKey::WorktreeLine { repo, branch, path, .. },
            CommentKey::WorktreeLine { repo: r2, branch: b2, path: p2, .. },
        ) => str_eq(repo.as_str(), r2.as_str()) && str_eq(branch.as_str(), b2.as_str()) && str_eq(
            path.as_str(),
            p2.as_str(),
        ),
        (CommentKey::CommitLine { repo, sha, path, .. }, CommentKey::CommitLine { repo: r2, sha: s2, path: p2, .. }) =>
            str_eq(repo.as_str(), r2.as_str()) && str_eq(sha.as_str(), s2.as_str()) && str_eq(
            path.as_str(),
            p2.as_str(),
        ),
        _ => false,
    }
}

fn span_exec(k: &CommentKey) -> (r: (u32, u32, u32))
    ensures
        r.0 as int == span_len(k@),
        (r.1, r.2) == span_of(k@),
{
    let (a, b) = match k {
        CommentKey::WorktreeLine { line, end_line, .. } => (*line, *end_line),
        CommentKey::CommitLine { line, end_line, .. } => (*line, *end_line),
        _ => (0, 0),
    };
    let d = if b >= a { b - a } else { 0 };
    (d, a, b)
}

/// Stored line comment that covers the probe line on the same file.
///
/// Overlap: smallest inclusive span, then lowest start line, then key
/// order. A one-line comment on that line wins over a wider range.
pub fn covering_line_comment(store: &CommentStore, probe: &CommentKey) -> (r: Option<CommentKey>)
    ensures
        match r {
            Some(k) => {
                &&& lookup(store@, k@) is Some
                &&& covers_probe(k@, probe@, span_of(probe@).0)
                &&& forall|i: int| 0 <= i < store@.len() && covers_probe(#[trigger] store@[i].0, probe@, span_of(probe@).0)
                    ==> !better_cover(store@[i].0, k@)
            },
            None => forall|i: int| 0 <= i < store@.len() ==> !covers_probe(#[trigger] store@[i].0, probe@, span_of(probe@).0),
        },
{
    let n = match probe {
        CommentKey::WorktreeLine { line, .. } => *line,
        CommentKey::CommitLine { line, .. } => *line,
        _ => {
            assert forall|i: int| 0 <= i < store@.len() implies !covers_probe(#[trigger] store@[i].0, probe@, span_of(probe@).0) by {}
            return None;
        },
    };
    let entries = store.entries();
    let ghost v = store@;
    let _ = store.sorted();
    let mut best: Option<usize> = None;
    let mut i: usize = 0;
    while i < entries.len()
        invariant
            i <= v.len(),
            v == store@,
            v == crate::comments::store::pair_views(entries@),
            crate::comments::store::sorted_keys(v),
            n == span_of(probe@).0,
            match best {
                Some(b) => b < i && covers_probe(v[b as int].0, probe@, n) && forall|j: int|
                    0 <= j < i && covers_probe(#[trigger] v[j].0, probe@, n) ==> !better_cover(v[j].0, v[b as int].0),
                None => forall|j: int| 0 <= j < i ==> !covers_probe(#[trigger] v[j].0, probe@, n),
            },
        decreases v.len() - i,
    {
        let k = &entries[i].0;
        assert(v[i as int].0 == k@);
        if same_file_exec(k, probe) && k.covers_line(n) {
            let take = match best {
                None => true,
                Some(b) => {
                    let (ls, ks, _) = span_exec(k);
                    let (lb, kb, _) = span_exec(&entries[b].0);
                    assert(v[b as int].0 == entries@[b as int].0@);
                    proof {
                        crate::comments::store::lemma_key_order(v[b as int].0, k@, k@);
                        assert(key_lt(v[b as int].0, v[i as int].0));
                    }
                    ls < lb || (ls == lb && ks < kb)
                },
            };
            if take {
                proof {
                    if let Some(b) = best {
                        assert forall|j: int| 0 <= j < i + 1 && covers_probe(#[trigger] v[j].0, probe@, n) implies !better_cover(
                            v[j].0,
                            v[i as int].0,
                        ) by {
                            if j < i {
                                crate::comments::store::lemma_key_order(v[j].0, v[b as int].0, v[i as int].0);
                                crate::comments::store::lemma_key_order(v[j].0, v[i as int].0, v[i as int].0);
                            } else {
                                crate::comments::store::lemma_key_order(v[j].0, v[j].0, v[j].0);
                            }
                        }
                    } else {
                        crate::comments::store::lemma_key_order(v[i as int].0, v[i as int].0, v[i as int].0);
                    }
                }
                best = Some(i);
            } else {
                proof {
                    let b = best->0;
                    crate::comments::store::lemma_key_order(v[i as int].0, v[b as int].0, v[b as int].0);
                    assert(!better_cover(v[i as int].0, v[b as int].0));
                }
            }
        }
        i += 1;
    }
    match best {
        Some(b) => {
            proof {
                crate::comments::store::lemma_lookup_at(v, b as int);
            }
            Some(crate::comments::store::copy_key(&entries[b].0))
        },
        None => None,
    }
}

/* ── Row markers ───────────────────────────────────────────────────────── */

/// `k` is a line comment on `path` of commit `sha`, covering `line` when given.
pub open spec fn commit_line_on(k: KeyView, identity: Seq<char>, sha: Seq<char>, path: Seq<char>, line: Option<u32>) -> bool {
    k matches KeyView::CommitLine { repo, sha: s, path: p, line: a, end_line: b } && repo == identity && s == sha
        && p == path && (line is None || a <= line->0 <= b)
}

/// `k` is a line comment on `path` of `branch`, covering `line` when given.
pub open spec fn worktree_line_on(k: KeyView, identity: Seq<char>, branch: Seq<char>, path: Seq<char>, line: Option<u32>) -> bool {
    k matches KeyView::WorktreeLine { repo, branch: br, path: p, line: a, end_line: b } && repo == identity && br
        == branch && p == path && (line is None || a <= line->0 <= b)
}

/// Marker of a commit-file row: a line comment on that file of that commit
/// (or of the checkout's branch for the worktree); stash rows never mark.
pub open spec fn file_row_marked(
    s: Seq<(KeyView, EntryView)>,
    identity: Seq<char>,
    source: CommitFileSource,
    path: Seq<char>,
    branch: Option<Seq<char>>,
) -> bool {
    match source {
        CommitFileSource::Commit { commit_id } => exists|i: int|
            0 <= i < s.len() && commit_line_on(#[trigger] s[i].0, identity, commit_id@, path, None),
        CommitFileSource::Stash { .. } => false,
        CommitFileSource::Worktree => branch is Some && exists|i: int|
            0 <= i < s.len() && worktree_line_on(#[trigger] s[i].0, identity, branch->0, path, None),
    }
}

/// Marker of a painted diff line: a line comment on that file covering `line`.
pub open spec fn diff_line_marked(
    s: Seq<(KeyView, EntryView)>,
    identity: Seq<char>,
    branch: Option<Seq<char>>,
    path: Seq<char>,
    source: Option<CommitFileSource>,
    line: u32,
) -> bool {
    match source {
        Some(CommitFileSource::Commit { commit_id }) => exists|i: int|
            0 <= i < s.len() && commit_line_on(#[trigger] s[i].0, identity, commit_id@, path, Some(line)),
        Some(CommitFileSource::Stash { .. }) => false,
        _ => branch is Some && exists|i: int|
            0 <= i < s.len() && worktree_line_on(#[trigger] s[i].0, identity, branch->0, path, Some(line)),
    }
}

fn find_commit_line(entries: &Vec<(CommentKey, CommentEntry)>, identity: &str, sha: &str, path: &str, line: Option<u32>) -> (b: bool)
    ensures
        b == exists|i: int| 0 <= i < entries@.len() && commit_line_on(#[trigger] crate::comments::store::pair_views(entries@)[i].0, identity@, sha@, path@, line),
{
    let ghost v = crate::comments::store::pair_views(entries@);
    let mut i: usize = 0;
    while i < entries.len()
        invariant
            i <= v.len(),
            v == crate::comments::store::pair_views(entries@),
            forall|j: int| 0 <= j < i ==> !commit_line_on(#[trigger] v[j].0, identity@, sha@, path@, line),
        decreases v.len() - i,
    {
        assert(v[i as int].0 == entries@[i as int].0@);
        match &entries[i].0 {
            CommentKey::CommitLine { repo, sha: s, path: p, line: a, end_line: b } => {
                let covered = match line {
                    Some(n) => *a <= n && n <= *b,
                    None => true,
                };
                if str_eq(repo.as_str(), identity) && str_eq(s.as_str(), sha) && str_eq(p.as_str(), path) && covered {
                    assert(commit_line_on(v[i as int].0, identity@, sha@, path@, line));
                    return true;
                }
            },
            _ => {},
        }
        i += 1;
    }
    false
}

fn find_worktree_line(entries: &Vec<(CommentKey, CommentEntry)>, identity: &str, branch: &str, path: &str, line: Option<u32>) -> (b: bool)
    ensures
        b == exists|i: int| 0 <= i < entries@.len() && worktree_line_on(#[trigger] crate::comments::store::pair_views(entries@)[i].0, identity@, branch@, path@, line),
{
    let ghost v = crate::comments::store::pair_views(entries@);
    let mut i: usize = 0;
    while i < entries.len()
        invariant
            i <= v.len(),
            v == crate::comments::store::pair_views(entries@),
            forall|j: int| 0 <= j < i ==> !worktree_line_on(#[trigger] v[j].0, identity@, branch@, path@, line),
        decreases v.len() - i,
    {
        assert(v[i as int].0 == entries@[i as int].0@);
        match &entries[i].0 {
            CommentKey::WorktreeLine { repo, branch: br, path: p, line: a, end_line: b } => {
                let covered = match line {
                    Some(n) => *a <= n && n <= *b,
                    None => true,
                };
                if str_eq(repo.as_str(), identity) && str_eq(br.as_str(), branch) && str_eq(p.as_str(), path) && covered {
                    assert(worktree_line_on(v[i as int].0, identity@, branch@, path@, line));
                    return true;
                }
            },
            _ => {},
        }
        i += 1;
    }
    false
}

/// True when this commit-file row has a line comment.
///
/// Directory rows never mark. Stash sources never mark.
pub fn commit_file_row_has_comment(
    store: &CommentStore,
    repo: &str,
    primary: Option<&str>,
    source: &CommitFileSource,
    path: &str,
    branch: Option<&str>,
) -> (b: bool)
    ensures
        b == file_row_marked(
            store@,
            repo_identity_spec(repo@, match primary {
                Some(p) => Some(p@),
                None => None,
            }),
            *source,
            normalize_path_spec(path@),
            match branch {
                Some(t) => Some(t@),
                None => None,
            },
        ),
{
    let identity = repo_identity(repo, primary);
    let path = normalize_path(path);
    let entries = store.entries();
    match source {
        CommitFileSource::Stash { .. } => false,
        CommitFileSource::Commit { commit_id } => find_commit_line(entries, identity.as_str(), commit_id.as_str(), path.as_str(), None),
        CommitFileSource::Worktree => match branch {
            Some(b) => find_worktree_line(entries, identity.as_str(), b, path.as_str(), None),
            None => false,
        },
    }
}

/// True when this painted diff line number has a line comment.
pub fn diff_line_has_comment(
    store: &CommentStore,
    repo: &str,
    primary: Option<&str>,
    branch: Option<&str>,
    path: &str,
    source: Option<&CommitFileSource>,
    line: u32,
) -> (b: bool)
    ensures
        b == diff_line_marked(
            store@,
            repo_identity_spec(repo@, match primary {
                Some(p) => Some(p@),
                None => None,
            }),
            match branch {
                Some(t) => Some(t@),
                None => None,
            },
            normalize_path_spec(path@),
            match source {
                Some(s) => Some(*s),
                None => None,
            },
            line,
        ),
{
    let identity = repo_identity(repo, primary);
    let path = normalize_path(path);
    let entries = store.entries();
    match source {
        Some(CommitFileSource::Stash { .. }) => false,
        Some(CommitFileSource::Commit { commit_id }) => find_commit_line(entries, identity.as_str(), commit_id.as_str(), path.as_str(), Some(line)),
        _ => match branch {
            Some(b) => find_worktree_line(entries, identity.as_str(), b, path.as_str(), Some(line)),
            None => false,
        },
    }
}

/// `k` is a line comment anywhere in commit `sha` of `identity`.
pub open spec fn commit_line_in(k: KeyView, identity: Seq<char>, sha: Seq<char>) -> bool {
    k matches KeyView::CommitLine { repo, sha: s, .. } && repo == identity && s == sha
}

/// `k` is a working-tree line comment on `branch` of `identity`.
pub open spec fn worktree_line_in(k: KeyView, identity: Seq<char>, branch: Seq<char>) -> bool {
    k matches KeyView::WorktreeLine { repo, branch: b, .. } && repo == identity && b == branch
}

/// Marker of a graph row. A commit row marks for its commit object comment
/// or any line comment on that SHA; the uncommitted row for the repo's
/// worktree object comment or a working-tree line comment on `branch`; a
/// worktree row likewise for its own path and branch; stash rows never.
pub open spec fn graph_row_marked(
    s: Seq<(KeyView, EntryView)>,
    repo: Seq<char>,
    identity: Seq<char>,
    row: GraphRow,
    branch: Option<Seq<char>>,
) -> bool {
    match row {
        GraphRow::Commit { commit, .. } => lookup(s, KeyView::Commit { repo: identity, sha: commit.id@ }) is Some
            || exists|i: int| 0 <= i < s.len() && commit_line_in(#[trigger] s[i].0, identity, commit.id@),
        GraphRow::Uncommitted { .. } => lookup(s, KeyView::Worktree { path: normalize_path_spec(repo) }) is Some
            || (branch is Some && exists|i: int|
                0 <= i < s.len() && worktree_line_in(#[trigger] s[i].0, identity, branch->0)),
        GraphRow::Worktree(wt) => lookup(s, KeyView::Worktree { path: normalize_path_spec(wt.path@) }) is Some
            || (wt.branch is Some && exists|i: int|
                0 <= i < s.len() && worktree_line_in(#[trigger] s[i].0, identity, wt.branch->0@)),
        GraphRow::Stash(_) => false,
    }
}

fn has_commit_line(entries: &Vec<(CommentKey, CommentEntry)>, identity: &str, sha: &str) -> (b: bool)
    ensures
        b == exists|i: int| 0 <= i < entries@.len() && commit_line_in(#[trigger] crate::comments::store::pair_views(entries@)[i].0, identity@, sha@),
{
    let ghost v = crate::comments::store::pair_views(entries@);
    let mut i: usize = 0;
    while i < entries.len()
        invariant
            i <= v.len(),
            v == crate::comments::store::pair_views(entries@),
            forall|j: int| 0 <= j < i ==> !commit_line_in(#[trigger] v[j].0, identity@, sha@),
        decreases v.len() - i,
    {
        assert(v[i as int].0 == entries@[i as int].0@);
        match &entries[i].0 {
            CommentKey::CommitLine { repo, sha: s, .. } => {
                if str_eq(repo.as_str(), identity) && str_eq(s.as_str(), sha) {
                    assert(commit_line_in(v[i as int].0, identity@, sha@));
                    return true;
                }
            },
            _ => {},
        }
        i += 1;
    }
    false
}

fn has_worktree_line(entries: &Vec<(CommentKey, CommentEntry)>, identity: &str, branch: &str) -> (b: bool)
    ensures
        b == exists|i: int| 0 <= i < entries@.len() && worktree_line_in(#[trigger] crate::comments::store::pair_views(entries@)[i].0, identity@, branch@),
{
    let ghost v = crate::comments::store::pair_views(entries@);
    let mut i: usize = 0;
    while i < entries.len()
        invariant
            i <= v.len(),
            v == crate::comments::store::pair_views(entries@),
            forall|j: int| 0 <= j < i ==> !worktree_line_in(#[trigger] v[j].0, identity@, branch@),
        decreases v.len() - i,
    {
        assert(v[i as int].0 == entries@[i as int].0@);
        match &entries[i].0 {
            CommentKey::WorktreeLine { repo, branch: b, .. } => {
                if str_eq(repo.as_str(), identity) && str_eq(b.as_str(), branch) {
                    assert(worktree_line_in(v[i as int].0, identity@, branch@));
                    return true;
                }
            },
            _ => {},
        }
        i += 1;
    }
    false
}

/// True when this graph visible row has an object comment or a file-line
/// comment that belongs on that row.
///
/// Commit rows match a commit object comment or any `CommitLine` for that
/// SHA. Uncommitted matches a worktree object comment or a working-tree
/// line comment for `branch`. Worktree rows match a worktree object comment
/// or a working-tree line comment for that checkout's branch. Stash rows
/// never mark.
pub fn graph_row_has_comment(
    store: &CommentStore,
    repo: &str,
    primary: Option<&str>,
    row: &GraphRow,
    branch: Option<&str>,
) -> (b: bool)
    ensures
        b == graph_row_marked(
            store@,
            repo@,
            repo_identity_spec(repo@, match primary {
                Some(p) => Some(p@),
                None => None,
            }),
            *row,
            match branch {
                Some(t) => Some(t@),
                None => None,
            },
        ),
{
    let identity = repo_identity(repo, primary);
    let entries = store.entries();
    match row {
        GraphRow::Commit { commit, .. } => {
            let key = CommentKey::Commit { repo: identity.clone(), sha: commit.id.clone() };
            store.get(&key).is_some() || has_commit_line(entries, identity.as_str(), commit.id.as_str())
        },
        GraphRow::Uncommitted { .. } => {
            let key = CommentKey::Worktree { path: normalize_path(repo) };
            if store.get(&key).is_some() {
                return true;
            }
            match branch {
                Some(b) => has_worktree_line(entries, identity.as_str(), b),
                None => false,
            }
        },
        GraphRow::Worktree(wt) => {
            let key = CommentKey::Worktree { path: normalize_path(wt.path.as_str()) };
            if store.get(&key).is_some() {
                return true;
            }
            match &wt.branch {
                Some(b) => has_worktree_line(entries, identity.as_str(), b.as_str()),
                None => false,
            }
        },
        GraphRow::Stash(_) => false,
    }
}

/* ── Refresh GC ────────────────────────────────────────────────────────── */

/// Branch name the snapshot reports for a detached HEAD.
pub const DETACHED_HEAD_BRANCH: &'static str = "(detached)";

/// Live refs used to drop stale comments on refresh.
#[derive(Clone, Debug, Default)]
pub struct CommentLiveSet {
    /// `(repo, branch)` pairs that still exist locally.
    pub branches: Vec<(String, String)>,
    /// Checkout paths that still exist.
    pub worktrees: Vec<String>,
    /// Repo identities that still have a checkout (commit comments).
    pub identities: Vec<String>,
    /// `(repo, sha)` pairs that still resolve.
    pub commits: Vec<(String, String)>,
}

/// `(a, b)` is one of the pairs.
pub open spec fn pair_in(v: Seq<(String, String)>, a: Seq<char>, b: Seq<char>) -> bool {
    exists|i: int| 0 <= i < v.len() && (#[trigger] v[i]).0@ == a && v[i].1@ == b
}

/// `a` is one of the strings.
pub open spec fn str_in(v: Seq<String>, a: Seq<char>) -> bool {
    exists|i: int| 0 <= i < v.len() && (#[trigger] v[i])@ == a
}

/// A comment survives refresh when what it is attached to still exists.
pub open spec fn key_is_live(k: KeyView, live: CommentLiveSet) -> bool {
    match k {
        KeyView::Branch { repo, branch } => if branch == DETACHED_HEAD_BRANCH@ {
            str_in(live.worktrees@, repo) || str_in(live.identities@, repo)
        } else {
            pair_in(live.branches@, repo, branch)
        },
        KeyView::WorktreeLine { repo, branch, .. } => if branch == DETACHED_HEAD_BRANCH@ {
            str_in(live.identities@, repo)
        } else {
            pair_in(live.branches@, repo, branch)
        },
        KeyView::Worktree { path } => str_in(live.worktrees@, path),
        KeyView::Commit { repo, sha } => pair_in(live.commits@, repo, sha),
        KeyView::CommitLine { repo, sha, .. } => pair_in(live.commits@, repo, sha),
    }
}

pub(crate) fn has_str(v: &Vec<String>, a: &str) -> (b: bool)
    ensures
        b == str_in(v@, a@),
{
    let mut i: usize = 0;
    while i < v.len()
        invariant
            i <= v@.len(),
            forall|j: int| 0 <= j < i ==> (#[trigger] v@[j])@ != a@,
        decreases v@.len() - i,
    {
        if str_eq(v[i].as_str(), a) {
            return true;
        }
        i += 1;
    }
    false
}

fn has_pair(v: &Vec<(String, String)>, a: &str, b: &str) -> (r: bool)
    ensures
        r == pair_in(v@, a@, b@),
{
    let mut i: usize = 0;
    while i < v.len()
        invariant
            i <= v@.len(),
            forall|j: int| 0 <= j < i ==> !((#[trigger] v@[j]).0@ == a@ && v@[j].1@ == b@),
        decreases v@.len() - i,
    {
        if str_eq(v[i].0.as_str(), a) && str_eq(v[i].1.as_str(), b) {
            return true;
        }
        i += 1;
    }
    false
}

fn comment_is_live(key: &CommentKey, live: &CommentLiveSet) -> (b: bool)
    ensures
        b == key_is_live(key@, *live),
{
    match key {
        CommentKey::Branch { repo, branch } => {
            if str_eq(branch.as_str(), DETACHED_HEAD_BRANCH) {
                has_str(&live.worktrees, repo.as_str()) || has_str(&live.identities, repo.as_str())
            } else {
                has_pair(&live.branches, repo.as_str(), branch.as_str())
            }
        },
        CommentKey::WorktreeLine { repo, branch, .. } => {
            if str_eq(branch.as_str(), DETACHED_HEAD_BRANCH) {
                has_str(&live.identities, repo.as_str())
            } else {
                has_pair(&live.branches, repo.as_str(), branch.as_str())
            }
        },
        CommentKey::Worktree { path } => has_str(&live.worktrees, path.as_str()),
        CommentKey::Commit { repo, sha } => has_pair(&live.commits, repo.as_str(), sha.as_str()),
        CommentKey::CommitLine { repo, sha, .. } => has_pair(&live.commits, repo.as_str(), sha.as_str()),
    }
}

/// The entries of `s` whose key is live, in order.
pub open spec fn gc_spec(s: Seq<(KeyView, EntryView)>, live: CommentLiveSet) -> Seq<(KeyView, EntryView)> {
    keep_spec(s, Seq::new(s.len(), |i: int| key_is_live(s[i].0, live)))
}

proof fn lemma_keep_same_flags(s: Seq<(KeyView, EntryView)>, k1: Seq<bool>, k2: Seq<bool>)
    requires
        forall|i: int| 0 <= i < s.len() ==> k1[i] == k2[i],
    ensures
        keep_spec(s, k1) == keep_spec(s, k2),
    decreases s.len(),
{
    if s.len() > 0 {
        lemma_keep_same_flags(s.drop_last(), k1, k2);
    }
}

proof fn lemma_gc_step(s: Seq<(KeyView, EntryView)>, live: CommentLiveSet)
    requires
        s.len() > 0,
    ensures
        gc_spec(s, live) == (if key_is_live(s.last().0, live) {
            gc_spec(s.drop_last(), live).push(s.last())
        } else {
            gc_spec(s.drop_last(), live)
        }),
{
    let p = s.drop_last();
    lemma_keep_same_flags(
        p,
        Seq::new(s.len(), |i: int| key_is_live(s[i].0, live)),
        Seq::new(p.len(), |i: int| key_is_live(p[i].0, live)),
    );
}

proof fn lemma_gc_sound(s: Seq<(KeyView, EntryView)>, live: CommentLiveSet)
    ensures
        forall|j: int| 0 <= j < gc_spec(s, live).len() ==> key_is_live(#[trigger] gc_spec(s, live)[j].0, live)
            && exists|i: int| 0 <= i < s.len() && #[trigger] s[i] == gc_spec(s, live)[j],
    decreases s.len(),
{
    if s.len() > 0 {
        let p = s.drop_last();
        lemma_gc_sound(p, live);
        lemma_gc_step(s, live);
        let g = gc_spec(s, live);
        let gp = gc_spec(p, live);
        assert forall|j: int| 0 <= j < g.len() implies key_is_live(#[trigger] g[j].0, live) && exists|i: int|
            0 <= i < s.len() && #[trigger] s[i] == g[j] by {
            if j < gp.len() {
                assert(g[j] == gp[j]);
                assert(key_is_live(gp[j].0, live));
                let i = choose|i: int| 0 <= i < p.len() && #[trigger] p[i] == gp[j];
                assert(0 <= i < p.len());
                assert(s[i] == p[i]);
            } else {
                assert(g[j] == s[s.len() - 1]);
            }
        }
    }
}

proof fn lemma_gc_complete(s: Seq<(KeyView, EntryView)>, live: CommentLiveSet)
    ensures
        forall|i: int| 0 <= i < s.len() && key_is_live(#[trigger] s[i].0, live) ==> exists|j: int|
            0 <= j < gc_spec(s, live).len() && #[trigger] gc_spec(s, live)[j] == s[i],
    decreases s.len(),
{
    if s.len() > 0 {
        let p = s.drop_last();
        lemma_gc_complete(p, live);
        lemma_gc_step(s, live);
        let g = gc_spec(s, live);
        let gp = gc_spec(p, live);
        assert forall|i: int| 0 <= i < s.len() && key_is_live(#[trigger] s[i].0, live) implies exists|j: int|
            0 <= j < g.len() && #[trigger] g[j] == s[i] by {
            if i < s.len() - 1 {
                assert(p[i] == s[i]);
                assert(key_is_live(p[i].0, live));
                let j = choose|j: int| 0 <= j < gp.len() && #[trigger] gp[j] == p[i];
                assert(0 <= j < gp.len());
                assert(g[j] == gp[j]);
            } else {
                assert(g[gp.len() as int] == s[i]);
            }
        }
    }
}

proof fn lemma_gc_lookup_dead(s: Seq<(KeyView, EntryView)>, live: CommentLiveSet, k: KeyView)
    requires
        !key_is_live(k, live),
    ensures
        lookup(gc_spec(s, live), k) is None,
{
    let g = gc_spec(s, live);
    lemma_gc_sound(s, live);
    assert forall|j: int| 0 <= j < g.len() implies #[trigger] g[j].0 != k by {
        assert(key_is_live(g[j].0, live));
    }
    lemma_lookup_absent(g, k);
}

#[verifier::rlimit(40)]
proof fn lemma_gc_lookup_kept(s: Seq<(KeyView, EntryView)>, live: CommentLiveSet, i: int)
    requires
        sorted_keys(s),
        0 <= i < s.len(),
        key_is_live(s[i].0, live),
    ensures
        lookup(gc_spec(s, live), s[i].0) == lookup(s, s[i].0),
{
    let g = gc_spec(s, live);
    lemma_gc_complete(s, live);
    lemma_keep_sorted(s, Seq::new(s.len(), |i: int| key_is_live(s[i].0, live)));
    lemma_lookup_at(s, i);
    let j = choose|j: int| 0 <= j < g.len() && #[trigger] g[j] == s[i];
    lemma_lookup_at(g, j);
}

proof fn lemma_gc_lookup_missing(s: Seq<(KeyView, EntryView)>, live: CommentLiveSet, k: KeyView)
    requires
        forall|i: int| 0 <= i < s.len() ==> #[trigger] s[i].0 != k,
    ensures
        lookup(gc_spec(s, live), k) is None,
        lookup(s, k) is None,
{
    let g = gc_spec(s, live);
    lemma_gc_sound(s, live);
    lemma_lookup_absent(s, k);
    assert forall|j: int| 0 <= j < g.len() implies #[trigger] g[j].0 != k by {
        assert(key_is_live(g[j].0, live));
        let i = choose|i: int| 0 <= i < s.len() && #[trigger] s[i] == g[j];
        assert(s[i].0 != k);
    }
    lemma_lookup_absent(g, k);
}

/// Refresh GC keeps exactly the live comments: a live key reads back what
/// the store held, a dead key reads nothing; and a second pass with the
/// same live set changes nothing.
pub proof fn lemma_gc_keeps_exactly_live(s: Seq<(KeyView, EntryView)>, live: CommentLiveSet, k: KeyView)
    requires
        sorted_keys(s),
    ensures
        lookup(gc_spec(s, live), k) == (if key_is_live(k, live) { lookup(s, k) } else { None }),
        gc_spec(gc_spec(s, live), live) == gc_spec(s, live),
{
    if !key_is_live(k, live) {
        lemma_gc_lookup_dead(s, live, k);
    } else if exists|i: int| 0 <= i < s.len() && #[trigger] s[i].0 == k {
        let i = choose|i: int| 0 <= i < s.len() && #[trigger] s[i].0 == k;
        lemma_gc_lookup_kept(s, live, i);
    } else {
        lemma_gc_lookup_missing(s, live, k);
    }
    lemma_gc_idempotent(s, live);
}

proof fn lemma_gc_idempotent(s: Seq<(KeyView, EntryView)>, live: CommentLiveSet)
    ensures
        gc_spec(gc_spec(s, live), live) == gc_spec(s, live),
    decreases s.len(),
{
    if s.len() > 0 {
        let p = s.drop_last();
        lemma_gc_idempotent(p, live);
        lemma_gc_step(s, live);
        let gp = gc_spec(p, live);
        if key_is_live(s.last().0, live) {
            let g = gp.push(s.last());
            lemma_gc_step(g, live);
            assert(g.drop_last() =~= gp);
        }
    } else {
        assert(gc_spec(s, live) =~= Seq::<(KeyView, EntryView)>::empty());
    }
}

/// Drop comments whose branch, worktree, or commit is gone.
pub fn gc_comments(store: &CommentStore, live: &CommentLiveSet) -> (next: CommentStore)
    ensures
        next@ == gc_spec(store@, *live),
{
    let entries = store.entries();
    let ghost v = store@;
    let mut keep: Vec<bool> = Vec::new();
    let mut i: usize = 0;
    while i < entries.len()
        invariant
            i <= v.len(),
            v == store@,
            v == crate::comments::store::pair_views(entries@),
            keep@.len() == i,
            forall|j: int| 0 <= j < i ==> keep@[j] == key_is_live(#[trigger] v[j].0, *live),
        decreases v.len() - i,
    {
        assert(v[i as int].0 == entries@[i as int].0@);
        keep.push(comment_is_live(&entries[i].0, live));
        i += 1;
    }
    assert(keep@ =~= Seq::new(v.len(), |i: int| key_is_live(v[i].0, *live)));
    store.keep_where(&keep)
}

} // verus!
