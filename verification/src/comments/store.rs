//! Comment keys, entries, and the ordered in-memory store.
//!
//! The store keeps its entries sorted by key, the order the on-disk file
//! and the markdown export list them in. Reading and writing the JSON file
//! is the binary's job; this module frames the records it reads and writes.

use vstd::prelude::*;

use crate::order::{chars_lt, lemma_strs_order, seq_lt, strs_lt};
use crate::text::{chars_eq, str_chars, trim};

verus! {

/// On-disk store version. Unknown versions load as empty.
pub const COMMENT_STORE_VERSION: u32 = 1;

/// One persisted comment key.
#[derive(Clone, Debug, PartialEq, Eq)]
pub enum CommentKey {
    /// Object comment on a local branch (`repo` + branch name).
    Branch { repo: String, branch: String },
    /// Object comment on a commit (`repo` + SHA).
    Commit { repo: String, sha: String },
    /// Object comment on a linked or primary checkout path.
    Worktree { path: String },
    /// Line comment on a working-tree file diff (inclusive 1-based range).
    WorktreeLine { repo: String, branch: String, path: String, line: u32, end_line: u32 },
    /// Line comment on a commit file diff (inclusive 1-based range).
    CommitLine { repo: String, sha: String, path: String, line: u32, end_line: u32 },
}

/// A comment key as plain values.
pub enum KeyView {
    Branch { repo: Seq<char>, branch: Seq<char> },
    Commit { repo: Seq<char>, sha: Seq<char> },
    Worktree { path: Seq<char> },
    WorktreeLine { repo: Seq<char>, branch: Seq<char>, path: Seq<char>, line: u32, end_line: u32 },
    CommitLine { repo: Seq<char>, sha: Seq<char>, path: Seq<char>, line: u32, end_line: u32 },
}

impl View for CommentKey {
    type V = KeyView;

    open spec fn view(&self) -> KeyView {
        match self {
            CommentKey::Branch { repo, branch } => KeyView::Branch { repo: repo@, branch: branch@ },
            CommentKey::Commit { repo, sha } => KeyView::Commit { repo: repo@, sha: sha@ },
            CommentKey::Worktree { path } => KeyView::Worktree { path: path@ },
            CommentKey::WorktreeLine { repo, branch, path, line, end_line } => KeyView::WorktreeLine {
                repo: repo@,
                branch: branch@,
                path: path@,
                line: *line,
                end_line: *end_line,
            },
            CommentKey::CommitLine { repo, sha, path, line, end_line } => KeyView::CommitLine {
                repo: repo@,
                sha: sha@,
                path: path@,
                line: *line,
                end_line: *end_line,
            },
        }
    }
}

/* ── Key order ─────────────────────────────────────────────────────────── */

/// Position of the key's kind in declaration order.
pub open spec fn key_rank(k: KeyView) -> int {
    match k {
        KeyView::Branch { .. } => 0,
        KeyView::Commit { .. } => 1,
        KeyView::Worktree { .. } => 2,
        KeyView::WorktreeLine { .. } => 3,
        KeyView::CommitLine { .. } => 4,
    }
}

/// The key's string fields, in declaration order.
pub open spec fn key_strs(k: KeyView) -> Seq<Seq<char>> {
    match k {
        KeyView::Branch { repo, branch } => seq![repo, branch],
        KeyView::Commit { repo, sha } => seq![repo, sha],
        KeyView::Worktree { path } => seq![path],
        KeyView::WorktreeLine { repo, branch, path, .. } => seq![repo, branch, path],
        KeyView::CommitLine { repo, sha, path, .. } => seq![repo, sha, path],
    }
}

/// The key's line range (zero for object keys).
pub open spec fn key_lines(k: KeyView) -> (u32, u32) {
    match k {
        KeyView::WorktreeLine { line, end_line, .. } => (line, end_line),
        KeyView::CommitLine { line, end_line, .. } => (line, end_line),
        _ => (0, 0),
    }
}

/// Key order: kind, then the fields in declaration order (strings in `str`
/// order, numbers numerically).
pub open spec fn key_lt(a: KeyView, b: KeyView) -> bool {
    ||| key_rank(a) < key_rank(b)
    ||| key_rank(a) == key_rank(b) && strs_lt(key_strs(a), key_strs(b))
    ||| key_rank(a) == key_rank(b) && key_strs(a) == key_strs(b) && key_lines(a).0 < key_lines(b).0
    ||| key_rank(a) == key_rank(b) && key_strs(a) == key_strs(b) && key_lines(a).0 == key_lines(b).0
        && key_lines(a).1 < key_lines(b).1
}

proof fn lemma_key_parts_determine(a: KeyView, b: KeyView)
    requires
        key_rank(a) == key_rank(b),
        key_strs(a) == key_strs(b),
        key_lines(a) == key_lines(b),
    ensures
        a == b,
{
    let sa = key_strs(a);
    let sb = key_strs(b);
    assert(sa[0] == sb[0]);
    match a {
        KeyView::Branch { .. } | KeyView::Commit { .. } => {
            assert(sa[1] == sb[1]);
        },
        KeyView::WorktreeLine { .. } | KeyView::CommitLine { .. } => {
            assert(sa[1] == sb[1]);
            assert(sa[2] == sb[2]);
        },
        _ => {},
    }
}

/// [`key_lt`] is a strict total order.
pub proof fn lemma_key_order(a: KeyView, b: KeyView, c: KeyView)
    ensures
        !key_lt(a, a),
        a != b ==> (key_lt(a, b) || key_lt(b, a)),
        !(key_lt(a, b) && key_lt(b, a)),
        key_lt(a, b) && key_lt(b, c) ==> key_lt(a, c),
{
    if key_rank(a) == key_rank(b) && key_rank(b) == key_rank(c) {
        lemma_strs_order(key_strs(a), key_strs(b), key_strs(c));
    } else if key_rank(a) == key_rank(b) {
        lemma_strs_order(key_strs(a), key_strs(b), key_strs(b));
    }
    lemma_strs_order(key_strs(a), key_strs(a), key_strs(a));
    if key_rank(a) == key_rank(b) && key_strs(a) == key_strs(b) && key_lines(a) == key_lines(b) {
        lemma_key_parts_determine(a, b);
    }
}

fn key_rank_exec(k: &CommentKey) -> (r: u8)
    ensures
        r == key_rank(k@),
{
    match k {
        CommentKey::Branch { .. } => 0,
        CommentKey::Commit { .. } => 1,
        CommentKey::Worktree { .. } => 2,
        CommentKey::WorktreeLine { .. } => 3,
        CommentKey::CommitLine { .. } => 4,
    }
}

fn key_strs_exec(k: &CommentKey) -> (r: Vec<Vec<char>>)
    ensures
        crate::text::views(r@) == key_strs(k@),
{
    let r = match k {
        CommentKey::Branch { repo, branch } => vec![str_chars(repo.as_str()), str_chars(branch.as_str())],
        CommentKey::Commit { repo, sha } => vec![str_chars(repo.as_str()), str_chars(sha.as_str())],
        CommentKey::Worktree { path } => vec![str_chars(path.as_str())],
        CommentKey::WorktreeLine { repo, branch, path, .. } => vec![
            str_chars(repo.as_str()),
            str_chars(branch.as_str()),
            str_chars(path.as_str()),
        ],
        CommentKey::CommitLine { repo, sha, path, .. } => vec![
            str_chars(repo.as_str()),
            str_chars(sha.as_str()),
            str_chars(path.as_str()),
        ],
    };
    assert(crate::text::views(r@) =~= key_strs(k@));
    r
}

fn key_lines_exec(k: &CommentKey) -> (r: (u32, u32))
    ensures
        r == key_lines(k@),
{
    match k {
        CommentKey::WorktreeLine { line, end_line, .. } => (*line, *end_line),
        CommentKey::CommitLine { line, end_line, .. } => (*line, *end_line),
        _ => (0, 0),
    }
}

proof fn lemma_strs_lt_skip(a: Seq<Seq<char>>, b: Seq<Seq<char>>, i: int)
    requires
        0 <= i <= a.len(),
        a.len() == b.len(),
        a.take(i) == b.take(i),
    ensures
        strs_lt(a, b) == strs_lt(a.skip(i), b.skip(i)),
    decreases i,
{
    if i > 0 {
        assert(a[0] == a.take(i)[0]);
        assert(b[0] == b.take(i)[0]);
        assert(a.drop_first().take(i - 1) =~= a.take(i).drop_first());
        assert(b.drop_first().take(i - 1) =~= b.take(i).drop_first());
        lemma_strs_lt_skip(a.drop_first(), b.drop_first(), i - 1);
        assert(a.drop_first().skip(i - 1) =~= a.skip(i));
        assert(b.drop_first().skip(i - 1) =~= b.skip(i));
    } else {
        assert(a.skip(0) =~= a);
        assert(b.skip(0) =~= b);
    }
}

fn strs_lt_exec(a: &Vec<Vec<char>>, b: &Vec<Vec<char>>) -> (r: (bool, bool))
    requires
        a@.len() == b@.len(),
    ensures
        r.0 == strs_lt(crate::text::views(a@), crate::text::views(b@)),
        r.1 == (crate::text::views(a@) == crate::text::views(b@)),
{
    let ghost av = crate::text::views(a@);
    let ghost bv = crate::text::views(b@);
    let mut i: usize = 0;
    while i < a.len()
        invariant
            i <= a@.len(),
            a@.len() == b@.len(),
            av == crate::text::views(a@),
            bv == crate::text::views(b@),
            av.take(i as int) == bv.take(i as int),
        decreases a@.len() - i,
    {
        if !chars_eq(a[i].as_slice(), b[i].as_slice()) {
            proof {
                lemma_strs_lt_skip(av, bv, i as int);
                assert(av.skip(i as int)[0] == av[i as int]);
                assert(bv.skip(i as int)[0] == bv[i as int]);
                assert(av[i as int] != bv[i as int]);
            }
            return (chars_lt(a[i].as_slice(), b[i].as_slice()), false);
        }
        assert(av.take(i + 1) =~= av.take(i as int).push(av[i as int]));
        assert(bv.take(i + 1) =~= bv.take(i as int).push(bv[i as int]));
        i += 1;
    }
    proof {
        lemma_strs_lt_skip(av, bv, i as int);
        assert(av.take(i as int) =~= av);
        assert(bv.take(i as int) =~= bv);
    }
    (false, true)
}

/// Compare two keys: `(a < b, a == b)`.
pub fn compare_keys(a: &CommentKey, b: &CommentKey) -> (r: (bool, bool))
    ensures
        r.0 == key_lt(a@, b@),
        r.1 == (a@ == b@),
{
    let ra = key_rank_exec(a);
    let rb = key_rank_exec(b);
    if ra != rb {
        return (ra < rb, false);
    }
    let sa = key_strs_exec(a);
    let sb = key_strs_exec(b);
    assert(crate::text::views(sa@).len() == sa@.len());
    assert(crate::text::views(sb@).len() == sb@.len());
    assert(key_strs(a@).len() == key_strs(b@).len());
    let (lt, eq) = strs_lt_exec(&sa, &sb);
    let la = key_lines_exec(a);
    let lb = key_lines_exec(b);
    proof {
        if eq && la == lb {
            lemma_key_parts_determine(a@, b@);
        }
        if a@ == b@ {
            lemma_key_order(a@, a@, a@);
        }
    }
    if lt {
        return (true, false);
    }
    if !eq {
        return (false, false);
    }
    if la.0 != lb.0 {
        return (la.0 < lb.0, false);
    }
    if la.1 != lb.1 {
        return (la.1 < lb.1, false);
    }
    (false, true)
}

/// A field-for-field copy of a key.
pub fn copy_key(k: &CommentKey) -> (r: CommentKey)
    ensures
        r@ == k@,
{
    match k {
        CommentKey::Branch { repo, branch } => CommentKey::Branch { repo: repo.clone(), branch: branch.clone() },
        CommentKey::Commit { repo, sha } => CommentKey::Commit { repo: repo.clone(), sha: sha.clone() },
        CommentKey::Worktree { path } => CommentKey::Worktree { path: path.clone() },
        CommentKey::WorktreeLine { repo, branch, path, line, end_line } => CommentKey::WorktreeLine {
            repo: repo.clone(),
            branch: branch.clone(),
            path: path.clone(),
            line: *line,
            end_line: *end_line,
        },
        CommentKey::CommitLine { repo, sha, path, line, end_line } => CommentKey::CommitLine {
            repo: repo.clone(),
            sha: sha.clone(),
            path: path.clone(),
            line: *line,
            end_line: *end_line,
        },
    }
}

/* ── Entries and the store ─────────────────────────────────────────────── */

/// A stored comment: its body and whether it was marked resolved.
#[derive(Clone, Debug, PartialEq, Eq)]
pub struct CommentEntry {
    pub body: String,
    pub resolved: bool,
}

/// A comment entry as plain values.
pub struct EntryView {
    pub body: Seq<char>,
    pub resolved: bool,
}

impl View for CommentEntry {
    type V = EntryView;

    open spec fn view(&self) -> EntryView {
        EntryView { body: self.body@, resolved: self.resolved }
    }
}

/// Keys strictly increase along `s` (so no key repeats).
pub open spec fn sorted_keys(s: Seq<(KeyView, EntryView)>) -> bool {
    forall|i: int, j: int| 0 <= i < j < s.len() ==> key_lt(#[trigger] s[i].0, #[trigger] s[j].0)
}

/// Entry stored under `k`, if any.
pub open spec fn lookup(s: Seq<(KeyView, EntryView)>, k: KeyView) -> Option<EntryView>
    decreases s.len(),
{
    if s.len() == 0 {
        None
    } else if s[0].0 == k {
        Some(s[0].1)
    } else {
        lookup(s.drop_first(), k)
    }
}

/// Number of leading entries whose key sorts before `k`.
pub open spec fn lower_bound(s: Seq<(KeyView, EntryView)>, k: KeyView) -> int
    decreases s.len(),
{
    if s.len() == 0 {
        0
    } else if key_lt(s[0].0, k) {
        1 + lower_bound(s.drop_first(), k)
    } else {
        0
    }
}

/// `s` with the entry for `k` replaced by `e` (`None` deletes it).
pub open spec fn put_spec(s: Seq<(KeyView, EntryView)>, k: KeyView, e: Option<EntryView>) -> Seq<(KeyView, EntryView)> {
    let pos = lower_bound(s, k);
    let rest = if pos < s.len() && s[pos].0 == k {
        s.skip(pos + 1)
    } else {
        s.skip(pos)
    };
    let mid = match e {
        Some(x) => seq![(k, x)],
        None => Seq::empty(),
    };
    s.take(pos) + mid + rest
}

/// What a write of `body` stores: nothing for a blank body.
pub open spec fn written_entry(body: Seq<char>, resolved: bool) -> Option<EntryView> {
    if trim(body).len() == 0 {
        None
    } else {
        Some(EntryView { body, resolved })
    }
}

proof fn lemma_lower_bound(s: Seq<(KeyView, EntryView)>, k: KeyView)
    ensures
        0 <= lower_bound(s, k) <= s.len(),
        forall|j: int| 0 <= j < lower_bound(s, k) ==> key_lt(#[trigger] s[j].0, k),
        lower_bound(s, k) < s.len() ==> !key_lt(s[lower_bound(s, k)].0, k),
    decreases s.len(),
{
    if s.len() > 0 && key_lt(s[0].0, k) {
        lemma_lower_bound(s.drop_first(), k);
        assert forall|j: int| 0 <= j < lower_bound(s, k) implies key_lt(#[trigger] s[j].0, k) by {
            if j > 0 {
                assert(s[j] == s.drop_first()[j - 1]);
            }
        }
    }
}

proof fn lemma_lookup_concat(a: Seq<(KeyView, EntryView)>, b: Seq<(KeyView, EntryView)>, k: KeyView)
    ensures
        lookup(a + b, k) == (if lookup(a, k) is Some { lookup(a, k) } else { lookup(b, k) }),
    decreases a.len(),
{
    if a.len() == 0 {
        assert(a + b =~= b);
    } else {
        assert((a + b).drop_first() =~= a.drop_first() + b);
        lemma_lookup_concat(a.drop_first(), b, k);
    }
}

pub(crate) proof fn lemma_lookup_absent(s: Seq<(KeyView, EntryView)>, k: KeyView)
    requires
        forall|j: int| 0 <= j < s.len() ==> #[trigger] s[j].0 != k,
    ensures
        lookup(s, k) is None,
    decreases s.len(),
{
    if s.len() > 0 {
        assert forall|j: int| 0 <= j < s.drop_first().len() implies #[trigger] s.drop_first()[j].0 != k by {
            assert(s.drop_first()[j] == s[j + 1]);
        }
        lemma_lookup_absent(s.drop_first(), k);
    }
}

/// A write then a read of the same key gives back what was written, and
/// leaves every other key's entry as it was; the keys stay sorted.
pub proof fn lemma_put_then_lookup(s: Seq<(KeyView, EntryView)>, k: KeyView, e: Option<EntryView>, other: KeyView)
    requires
        sorted_keys(s),
    ensures
        sorted_keys(put_spec(s, k, e)),
        lookup(put_spec(s, k, e), k) == e,
        other != k ==> lookup(put_spec(s, k, e), other) == lookup(s, other),
{
    lemma_lower_bound(s, k);
    let pos = lower_bound(s, k);
    let hit = pos < s.len() && s[pos].0 == k;
    let rest = if hit { s.skip(pos + 1) } else { s.skip(pos) };
    let mid = match e {
        Some(x) => seq![(k, x)],
        None => Seq::<(KeyView, EntryView)>::empty(),
    };
    let pre = s.take(pos);
    let r = put_spec(s, k, e);
    assert(r == pre + mid + rest);
    // Every key after the gap sorts after `k`.
    assert forall|j: int| 0 <= j < rest.len() implies key_lt(k, #[trigger] rest[j].0) by {
        let sj = if hit { pos + 1 + j } else { pos + j };
        assert(rest[j] == s[sj]);
        lemma_key_order(s[pos].0, k, k);
        if sj > pos {
            assert(key_lt(s[pos].0, s[sj].0));
            lemma_key_order(k, s[pos].0, s[sj].0);
            lemma_key_order(s[pos].0, k, s[sj].0);
        } else {
            lemma_key_order(k, s[sj].0, s[sj].0);
        }
    }
    // Sortedness of the result.
    assert forall|i: int, j: int| 0 <= i < j < r.len() implies key_lt(#[trigger] r[i].0, #[trigger] r[j].0) by {
        let pl = pre.len() as int;
        let ml = mid.len() as int;
        if j < pl {
            assert(r[i] == s[i] && r[j] == s[j]);
        } else if i >= pl + ml {
            let ri = i - pl - ml;
            let rj = j - pl - ml;
            assert(r[i] == rest[ri] && r[j] == rest[rj]);
            let si = if hit { pos + 1 + ri } else { pos + ri };
            let sj = if hit { pos + 1 + rj } else { pos + rj };
            assert(rest[ri] == s[si] && rest[rj] == s[sj]);
        } else if i < pl && j < pl + ml {
            assert(r[i] == s[i]);
            assert(r[j].0 == k);
        } else if i < pl {
            let rj = j - pl - ml;
            assert(r[i] == s[i]);
            assert(r[j] == rest[rj]);
            lemma_key_order(s[i].0, k, rest[rj].0);
        } else {
            let rj = j - pl - ml;
            assert(r[i].0 == k);
            assert(r[j] == rest[rj]);
        }
    }
    // Reads.
    assert forall|j: int| 0 <= j < pre.len() implies #[trigger] pre[j].0 != k by {
        lemma_key_order(k, k, k);
    }
    lemma_lookup_absent(pre, k);
    assert forall|j: int| 0 <= j < rest.len() implies #[trigger] rest[j].0 != k by {
        lemma_key_order(k, k, k);
    }
    lemma_lookup_absent(rest, k);
    lemma_lookup_concat(pre + mid, rest, k);
    lemma_lookup_concat(pre, mid, k);
    if mid.len() == 0 {
        lemma_lookup_absent(mid, k);
    }
    if other != k {
        lemma_lookup_concat(pre + mid, rest, other);
        lemma_lookup_concat(pre, mid, other);
        if mid.len() > 0 {
            assert(mid.drop_first() =~= Seq::<(KeyView, EntryView)>::empty());
            assert(lookup(mid.drop_first(), other) is None);
            assert(mid[0].0 == k);
        }
        assert(lookup(mid, other) is None);
        assert(lookup(pre + mid, other) == lookup(pre, other));
        if hit {
            let gap = seq![s[pos]];
            assert(s =~= pre + gap + rest);
            lemma_lookup_concat(pre + gap, rest, other);
            lemma_lookup_concat(pre, gap, other);
            assert(gap.drop_first() =~= Seq::<(KeyView, EntryView)>::empty());
            assert(lookup(gap.drop_first(), other) is None);
            assert(lookup(gap, other) is None);
            assert(lookup(pre + gap, other) == lookup(pre, other));
        } else {
            assert(s =~= pre + rest);
            lemma_lookup_concat(pre, rest, other);
        }
    }
}

/// Comment store: entries sorted by key, at most one per key.
#[derive(Debug, PartialEq, Eq)]
pub struct CommentStore {
    entries: Vec<(CommentKey, CommentEntry)>,
}

/// Views of stored pairs.
pub open spec fn pair_views(v: Seq<(CommentKey, CommentEntry)>) -> Seq<(KeyView, EntryView)> {
    v.map_values(|p: (CommentKey, CommentEntry)| (p.0@, p.1@))
}

impl View for CommentStore {
    type V = Seq<(KeyView, EntryView)>;

    closed spec fn view(&self) -> Seq<(KeyView, EntryView)> {
        pair_views(self.entries@)
    }
}

impl CommentStore {
    #[verifier::type_invariant]
    closed spec fn keys_sorted(self) -> bool {
        sorted_keys(pair_views(self.entries@))
    }

    /// An empty store.
    pub fn new() -> (s: Self)
        ensures
            s@ == Seq::<(KeyView, EntryView)>::empty(),
    {
        let s = CommentStore { entries: Vec::new() };
        assert(pair_views(s.entries@) =~= Seq::<(KeyView, EntryView)>::empty());
        s
    }

    /// The stored keys are strictly increasing.
    pub(crate) fn sorted(&self) -> (b: bool)
        ensures
            b,
            sorted_keys(self@),
    {
        proof {
            use_type_invariant(self);
        }
        true
    }

    /// Number of stored comments.
    pub fn len(&self) -> (n: usize)
        ensures
            n == self@.len(),
    {
        self.entries.len()
    }

    /// No stored comments.
    pub fn is_empty(&self) -> (b: bool)
        ensures
            b == (self@.len() == 0),
    {
        self.entries.len() == 0
    }

    /// The stored pairs, in key order.
    pub fn entries(&self) -> (r: &Vec<(CommentKey, CommentEntry)>)
        ensures
            pair_views(r@) == self@,
    {
        &self.entries
    }

    /// Position of the entry for `key`, if any.
    fn find(&self, key: &CommentKey) -> (r: Option<usize>)
        ensures
            match r {
                Some(i) => i < self@.len() && self@[i as int].0 == key@ && lookup(self@, key@) == Some(self@[i as int].1),
                None => lookup(self@, key@) is None,
            },
    {
        let ghost v = self@;
        let mut i: usize = 0;
        assert(v.skip(0) =~= v);
        while i < self.entries.len()
            invariant
                i <= v.len(),
                v == pair_views(self.entries@),
                lookup(v, key@) == lookup(v.skip(i as int), key@),
            decreases v.len() - i,
        {
            let (_, eq) = compare_keys(&self.entries[i].0, key);
            assert(v.skip(i as int)[0] == v[i as int]);
            if eq {
                return Some(i);
            }
            assert(v.skip(i as int).drop_first() =~= v.skip(i + 1));
            i += 1;
        }
        None
    }

    /// Body stored under `key`.
    pub fn get(&self, key: &CommentKey) -> (r: Option<&String>)
        ensures
            match r {
                Some(b) => lookup(self@, key@) is Some && b@ == lookup(self@, key@)->0.body,
                None => lookup(self@, key@) is None,
            },
    {
        match self.find(key) {
            Some(i) => Some(&self.entries[i].1.body),
            None => None,
        }
    }

    /// Entry stored under `key`.
    pub fn get_entry(&self, key: &CommentKey) -> (r: Option<&CommentEntry>)
        ensures
            match r {
                Some(e) => lookup(self@, key@) == Some(e@),
                None => lookup(self@, key@) is None,
            },
    {
        match self.find(key) {
            Some(i) => Some(&self.entries[i].1),
            None => None,
        }
    }
}

fn copy_entry(e: &CommentEntry) -> (r: CommentEntry)
    ensures
        r@ == e@,
{
    CommentEntry { body: e.body.clone(), resolved: e.resolved }
}

/// Upsert with an explicit resolve flag. Empty / whitespace-only body deletes.
pub fn put_comment_entry(store: &CommentStore, key: CommentKey, body: &str, resolved: bool) -> (next: CommentStore)
    ensures
        next@ == put_spec(store@, key@, written_entry(body@, resolved)),
{
    proof {
        use_type_invariant(store);
        lemma_lower_bound(store@, key@);
    }
    let ghost v = store@;
    let ghost pos = lower_bound(v, key@);
    let mut out: Vec<(CommentKey, CommentEntry)> = Vec::new();
    let mut i: usize = 0;
    while i < store.entries.len()
        invariant
            i <= v.len(),
            v == store@,
            v == pair_views(store.entries@),
            pos == lower_bound(v, key@),
            0 <= pos <= v.len(),
            forall|j: int| 0 <= j < pos ==> key_lt(#[trigger] v[j].0, key@),
            pos < v.len() ==> !key_lt(v[pos].0, key@),
            i <= pos,
            pair_views(out@) == v.take(i as int),
        ensures
            i == pos,
            pair_views(out@) == v.take(i as int),
        decreases v.len() - i,
    {
        let (lt, _) = compare_keys(&store.entries[i].0, &key);
        if !lt {
            proof {
                if i < pos {
                    assert(key_lt(v[i as int].0, key@));
                }
            }
            break;
        }
        proof {
            if i == pos {
                assert(!key_lt(v[i as int].0, key@));
            }
        }
        let k = copy_key(&store.entries[i].0);
        let e = copy_entry(&store.entries[i].1);
        let ghost before = pair_views(out@);
        out.push((k, e));
        assert(pair_views(out@) =~= before.push(v[i as int]));
        assert(v.take(i + 1) =~= v.take(i as int).push(v[i as int]));
        i += 1;
    }
    assert(i == pos);
    let blank = crate::text::str_is_blank(body);
    let ghost hit = pos < v.len() && v[pos].0 == key@;
    let mut j = i;
    if i < store.entries.len() {
        let (_, eq) = compare_keys(&store.entries[i].0, &key);
        if eq {
            j = i + 1;
        }
    }
    if !blank {
        let ghost before = pair_views(out@);
        let ghost kv = key@;
        out.push((key, CommentEntry { body: crate::text::owned(body), resolved }));
        assert(pair_views(out@) =~= before.push((kv, EntryView { body: body@, resolved })));
    }
    let ghost mid = pair_views(out@);
    let mut k: usize = j;
    while k < store.entries.len()
        invariant
            j <= k <= v.len(),
            v == pair_views(store.entries@),
            pair_views(out@) == mid + v.subrange(j as int, k as int),
        decreases v.len() - k,
    {
        let kk = copy_key(&store.entries[k].0);
        let e = copy_entry(&store.entries[k].1);
        let ghost before = pair_views(out@);
        out.push((kk, e));
        assert(pair_views(out@) =~= before.push(v[k as int]));
        assert(v.subrange(j as int, k + 1) =~= v.subrange(j as int, k as int).push(v[k as int]));
        k += 1;
    }
    proof {
        assert(v.subrange(j as int, k as int) =~= v.skip(j as int));
        let e = written_entry(body@, resolved);
        let m = match e {
            Some(x) => seq![(key@, x)],
            None => Seq::<(KeyView, EntryView)>::empty(),
        };
        assert(str_is_blank_spec(body@) == blank);
        assert(mid =~= v.take(pos) + m);
        assert(pair_views(out@) =~= put_spec(v, key@, e));
        lemma_put_then_lookup(v, key@, e, key@);
    }
    CommentStore { entries: out }
}

/// Blank: nothing left after trimming white space.
pub open spec fn str_is_blank_spec(s: Seq<char>) -> bool {
    trim(s).len() == 0
}

/// Upsert or delete an open comment. Empty / whitespace-only body deletes.
pub fn put_comment(store: &CommentStore, key: CommentKey, body: &str) -> (next: CommentStore)
    ensures
        next@ == put_spec(store@, key@, written_entry(body@, false)),
{
    put_comment_entry(store, key, body, false)
}

/// Reading a key right after writing it gives back the write (nothing for
/// a blank body); other keys keep their entries.
pub proof fn lemma_store_read_after_write(store: CommentStore, key: KeyView, body: Seq<char>, resolved: bool, other: KeyView)
    requires
        sorted_keys(store@),
    ensures
        lookup(put_spec(store@, key, written_entry(body, resolved)), key) == written_entry(body, resolved),
        other != key ==> lookup(put_spec(store@, key, written_entry(body, resolved)), other) == lookup(store@, other),
{
    lemma_put_then_lookup(store@, key, written_entry(body, resolved), other);
}

/* ── Lines, identities, paths ──────────────────────────────────────────── */

/// Inclusive start/end with start ≤ end.
pub fn ordered_line_range(a: u32, b: u32) -> (r: (u32, u32))
    ensures
        r == (if a <= b { (a, b) } else { (b, a) }),
{
    if a <= b {
        (a, b)
    } else {
        (b, a)
    }
}

impl CommentKey {
    /// True when this line comment covers `n` (object keys are false).
    pub fn covers_line(&self, n: u32) -> (b: bool)
        ensures
            b == match self@ {
                KeyView::WorktreeLine { line, end_line, .. } => line <= n <= end_line,
                KeyView::CommitLine { line, end_line, .. } => line <= n <= end_line,
                _ => false,
            },
    {
        match self {
            CommentKey::WorktreeLine { line, end_line, .. } => n >= *line && n <= *end_line,
            CommentKey::CommitLine { line, end_line, .. } => n >= *line && n <= *end_line,
            _ => false,
        }
    }
}

/// A checkout path without trailing slashes (a lone `/` stays).
pub open spec fn normalize_path_spec(p: Seq<char>) -> Seq<char>
    decreases p.len(),
{
    if p.len() > 1 && p.last() == '/' {
        normalize_path_spec(p.drop_last())
    } else {
        p
    }
}

/// A checkout path without trailing slashes (a lone `/` stays).
pub fn normalize_path(p: &str) -> (r: String)
    ensures
        r@ == normalize_path_spec(p@),
{
    let c = str_chars(p);
    let mut n: usize = c.len();
    assert(c@.take(n as int) =~= c@);
    while n > 1 && c[n - 1] == '/'
        invariant
            n <= c@.len(),
            normalize_path_spec(c@) == normalize_path_spec(c@.take(n as int)),
        decreases n,
    {
        assert(c@.take(n as int).drop_last() =~= c@.take(n - 1));
        n -= 1;
    }
    let kept = crate::text::slice_chars(c.as_slice(), 0, n);
    assert(kept@ =~= c@.take(n as int));
    crate::text::string_from_chars(kept.as_slice())
}

/// Identity of a checkout's repo: the primary checkout when linked.
pub open spec fn repo_identity_spec(repo: Seq<char>, primary_repo: Option<Seq<char>>) -> Seq<char> {
    normalize_path_spec(match primary_repo {
        Some(p) => p,
        None => repo,
    })
}

/// Repo identity for branch and commit keys (primary path when linked).
pub fn repo_identity(repo: &str, primary_repo: Option<&str>) -> (r: String)
    ensures
        r@ == repo_identity_spec(repo@, match primary_repo {
            Some(p) => Some(p@),
            None => None,
        }),
{
    match primary_repo {
        Some(p) => normalize_path(p),
        None => normalize_path(repo),
    }
}

/// `base` joined with a relative component, `/`-separated.
pub open spec fn join_spec(base: Seq<char>, part: Seq<char>) -> Seq<char> {
    if base.len() == 0 || base.last() == '/' {
        base + part
    } else {
        base + seq!['/'] + part
    }
}

fn join(base: &mut String, part: &str)
    ensures
        final(base)@ == join_spec(old(base)@, part@),
{
    let bc = str_chars(base.as_str());
    if bc.len() > 0 && bc[bc.len() - 1] != '/' {
        crate::text::push_char(base, '/');
    }
    crate::text::push_str(base, part);
}

/// Where the store file lives, from the three variables that decide it.
pub open spec fn store_path_spec(
    override_path: Option<Seq<char>>,
    xdg_state_home: Option<Seq<char>>,
    home: Option<Seq<char>>,
) -> Seq<char> {
    if override_path is Some && trim(override_path->0).len() > 0 {
        trim(override_path->0)
    } else {
        let state = if xdg_state_home is Some && trim(xdg_state_home->0).len() > 0 {
            trim(xdg_state_home->0)
        } else {
            let h = if home is Some && home->0.len() > 0 {
                home->0
            } else {
                seq!['/']
            };
            join_spec(join_spec(h, ".local"@), "state"@)
        };
        join_spec(join_spec(state, "my-workspace-status"@), "comments.json"@)
    }
}

/// Store path from `WS_STATUS_COMMENT_STORE`, `XDG_STATE_HOME`, and `HOME`.
///
/// A non-blank override wins. Otherwise the file is
/// `<state>/my-workspace-status/comments.json`, with `<state>` the trimmed
/// `XDG_STATE_HOME`, else `$HOME/.local/state` (`/` when `HOME` is empty).
pub fn comment_store_path_from_env(
    override_path: Option<&str>,
    xdg_state_home: Option<&str>,
    home: Option<&str>,
) -> (r: String)
    ensures
        r@ == store_path_spec(
            match override_path {
                Some(p) => Some(p@),
                None => None,
            },
            match xdg_state_home {
                Some(p) => Some(p@),
                None => None,
            },
            match home {
                Some(p) => Some(p@),
                None => None,
            },
        ),
{
    if let Some(p) = override_path {
        let t = crate::text::trim_str(p);
        if !t.as_str().is_empty() {
            return t;
        }
    }
    let mut state = String::new();
    let mut from_xdg = false;
    if let Some(x) = xdg_state_home {
        let t = crate::text::trim_str(x);
        if !t.as_str().is_empty() {
            state = t;
            from_xdg = true;
        }
    }
    if !from_xdg {
        state = match home {
            Some(h) => if h.is_empty() {
                crate::text::owned("/")
            } else {
                crate::text::owned(h)
            },
            None => crate::text::owned("/"),
        };
        proof {
            reveal_strlit("/");
        }
        join(&mut state, ".local");
        join(&mut state, "state");
    }
    join(&mut state, "my-workspace-status");
    join(&mut state, "comments.json");
    state
}

/* ── File records ──────────────────────────────────────────────────────── */

/// One record of the JSON file (`endLine` absent on one-line comments).
#[derive(Clone, Debug, PartialEq, Eq)]
pub enum CommentRecord {
    Branch { repo: String, branch: String, body: String, resolved: bool },
    Commit { repo: String, sha: String, body: String, resolved: bool },
    Worktree { path: String, body: String, resolved: bool },
    WorktreeLine {
        repo: String,
        branch: String,
        path: String,
        line: u32,
        end_line: Option<u32>,
        body: String,
        resolved: bool,
    },
    CommitLine {
        repo: String,
        sha: String,
        path: String,
        line: u32,
        end_line: Option<u32>,
        body: String,
        resolved: bool,
    },
}

/// `endLine` as written: absent for a one-line comment.
pub open spec fn record_end_line(line: u32, end_line: u32) -> Option<u32> {
    if end_line == line {
        None
    } else {
        Some(end_line)
    }
}

/// The key's range as loaded: a missing end is the start; ends are ordered.
pub open spec fn loaded_range(line: u32, end_line: Option<u32>) -> (u32, u32) {
    let e = match end_line {
        Some(x) => x,
        None => line,
    };
    if line <= e {
        (line, e)
    } else {
        (e, line)
    }
}

/// `r` is the record written for the stored pair `(k, e)`: same fields, and
/// `endLine` only when the range spans more than one line.
pub open spec fn writes_record(k: KeyView, e: EntryView, r: CommentRecord) -> bool {
    match (k, r) {
        (KeyView::Branch { repo, branch }, CommentRecord::Branch { repo: r2, branch: b2, body, resolved }) => repo
            == r2@ && branch == b2@ && body@ == e.body && resolved == e.resolved,
        (KeyView::Commit { repo, sha }, CommentRecord::Commit { repo: r2, sha: s2, body, resolved }) => repo == r2@
            && sha == s2@ && body@ == e.body && resolved == e.resolved,
        (KeyView::Worktree { path }, CommentRecord::Worktree { path: p2, body, resolved }) => path == p2@ && body@
            == e.body && resolved == e.resolved,
        (
            KeyView::WorktreeLine { repo, branch, path, line, end_line },
            CommentRecord::WorktreeLine { repo: r2, branch: b2, path: p2, line: l2, end_line: e2, body, resolved },
        ) => repo == r2@ && branch == b2@ && path == p2@ && line == l2 && e2 == record_end_line(line, end_line)
            && body@ == e.body && resolved == e.resolved,
        (
            KeyView::CommitLine { repo, sha, path, line, end_line },
            CommentRecord::CommitLine { repo: r2, sha: s2, path: p2, line: l2, end_line: e2, body, resolved },
        ) => repo == r2@ && sha == s2@ && path == p2@ && line == l2 && e2 == record_end_line(line, end_line) && body@
            == e.body && resolved == e.resolved,
        _ => false,
    }
}

/// Record written for a stored pair.
pub fn into_record(key: &CommentKey, entry: &CommentEntry) -> (r: CommentRecord)
    ensures
        writes_record(key@, entry@, r),
{
    let body = entry.body.clone();
    let resolved = entry.resolved;
    match key {
        CommentKey::Branch { repo, branch } => CommentRecord::Branch {
            repo: repo.clone(),
            branch: branch.clone(),
            body,
            resolved,
        },
        CommentKey::Commit { repo, sha } => CommentRecord::Commit { repo: repo.clone(), sha: sha.clone(), body, resolved },
        CommentKey::Worktree { path } => CommentRecord::Worktree { path: path.clone(), body, resolved },
        CommentKey::WorktreeLine { repo, branch, path, line, end_line } => CommentRecord::WorktreeLine {
            repo: repo.clone(),
            branch: branch.clone(),
            path: path.clone(),
            line: *line,
            end_line: if *end_line == *line { None } else { Some(*end_line) },
            body,
            resolved,
        },
        CommentKey::CommitLine { repo, sha, path, line, end_line } => CommentRecord::CommitLine {
            repo: repo.clone(),
            sha: sha.clone(),
            path: path.clone(),
            line: *line,
            end_line: if *end_line == *line { None } else { Some(*end_line) },
            body,
            resolved,
        },
    }
}

/// `r` is the pair `(k, e)`, or nothing exactly when the body is blank.
pub open spec fn loaded_as(r: Option<(CommentKey, CommentEntry)>, k: KeyView, e: EntryView) -> bool {
    match r {
        Some(p) => trim(e.body).len() > 0 && p.0@ == k && p.1@ == e,
        None => trim(e.body).len() == 0,
    }
}

/// A line key's range starts at or before its end.
pub open spec fn key_range_ordered(k: KeyView) -> bool {
    match k {
        KeyView::WorktreeLine { line, end_line, .. } => line <= end_line,
        KeyView::CommitLine { line, end_line, .. } => line <= end_line,
        _ => true,
    }
}

proof fn lemma_written_reads_back(k: KeyView, e: EntryView, r: CommentRecord)
    requires
        writes_record(k, e, r),
        key_range_ordered(k),
    ensures
        record_key(r) == k,
        record_entry(r) == e,
{
}

/// Saving a store and loading the records back gives the same store: the
/// records written for its pairs, in order, fold back into exactly those
/// pairs (stored bodies are non-blank and line ranges ordered).
pub proof fn lemma_save_then_load(s: Seq<(KeyView, EntryView)>, rs: Seq<CommentRecord>)
    requires
        sorted_keys(s),
        rs.len() == s.len(),
        forall|i: int| 0 <= i < s.len() ==> writes_record(s[i].0, s[i].1, #[trigger] rs[i]),
        forall|i: int| 0 <= i < s.len() ==> trim(#[trigger] s[i].1.body).len() > 0,
        forall|i: int| 0 <= i < s.len() ==> key_range_ordered(#[trigger] s[i].0),
    ensures
        records_fold(rs) == s,
    decreases s.len(),
{
    if s.len() > 0 {
        let t = s.drop_last();
        let n = t.len() as int;
        assert forall|i: int| 0 <= i < t.len() implies writes_record(t[i].0, t[i].1, #[trigger] rs.drop_last()[i]) by {
            assert(t[i] == s[i]);
        }
        assert forall|i: int| 0 <= i < t.len() implies trim(#[trigger] t[i].1.body).len() > 0 by {
            assert(t[i] == s[i]);
        }
        assert forall|i: int| 0 <= i < t.len() implies key_range_ordered(#[trigger] t[i].0) by {
            assert(t[i] == s[i]);
        }
        lemma_save_then_load(t, rs.drop_last());
        assert(writes_record(s[n].0, s[n].1, rs[n]));
        assert(trim(s[n].1.body).len() > 0);
        assert(key_range_ordered(s[n].0));
        lemma_written_reads_back(s[n].0, s[n].1, rs[n]);
        let k = s[n].0;
        lemma_lower_bound(t, k);
        let lb = lower_bound(t, k);
        if lb < n {
            assert(key_lt(s[lb].0, s[n].0));
            assert(t[lb] == s[lb]);
        }
        assert(lb == n);
        assert(put_spec(t, k, Some(s[n].1)) =~= s);
    }
}

/// Key of a loaded record: a missing end is the start, ends are ordered.
pub open spec fn record_key(record: CommentRecord) -> KeyView {
    match record {
        CommentRecord::Branch { repo, branch, .. } => KeyView::Branch { repo: repo@, branch: branch@ },
        CommentRecord::Commit { repo, sha, .. } => KeyView::Commit { repo: repo@, sha: sha@ },
        CommentRecord::Worktree { path, .. } => KeyView::Worktree { path: path@ },
        CommentRecord::WorktreeLine { repo, branch, path, line, end_line, .. } => KeyView::WorktreeLine {
            repo: repo@,
            branch: branch@,
            path: path@,
            line: loaded_range(line, end_line).0,
            end_line: loaded_range(line, end_line).1,
        },
        CommentRecord::CommitLine { repo, sha, path, line, end_line, .. } => KeyView::CommitLine {
            repo: repo@,
            sha: sha@,
            path: path@,
            line: loaded_range(line, end_line).0,
            end_line: loaded_range(line, end_line).1,
        },
    }
}

/// Entry of a loaded record.
pub open spec fn record_entry(record: CommentRecord) -> EntryView {
    match record {
        CommentRecord::Branch { body, resolved, .. } => EntryView { body: body@, resolved },
        CommentRecord::Commit { body, resolved, .. } => EntryView { body: body@, resolved },
        CommentRecord::Worktree { body, resolved, .. } => EntryView { body: body@, resolved },
        CommentRecord::WorktreeLine { body, resolved, .. } => EntryView { body: body@, resolved },
        CommentRecord::CommitLine { body, resolved, .. } => EntryView { body: body@, resolved },
    }
}

/// Key and entry of a loaded record; `None` for a blank body.
pub fn record_pair(record: &CommentRecord) -> (r: Option<(CommentKey, CommentEntry)>)
    ensures
        loaded_as(r, record_key(*record), record_entry(*record)),
{
    let (key, body, resolved) = match record {
        CommentRecord::Branch { repo, branch, body, resolved } => (
            CommentKey::Branch { repo: repo.clone(), branch: branch.clone() },
            body,
            *resolved,
        ),
        CommentRecord::Commit { repo, sha, body, resolved } => (
            CommentKey::Commit { repo: repo.clone(), sha: sha.clone() },
            body,
            *resolved,
        ),
        CommentRecord::Worktree { path, body, resolved } => (CommentKey::Worktree { path: path.clone() }, body, *resolved),
        CommentRecord::WorktreeLine { repo, branch, path, line, end_line, body, resolved } => {
            let e = match end_line {
                Some(x) => *x,
                None => *line,
            };
            let (a, b) = ordered_line_range(*line, e);
            (
                CommentKey::WorktreeLine {
                    repo: repo.clone(),
                    branch: branch.clone(),
                    path: path.clone(),
                    line: a,
                    end_line: b,
                },
                body,
                *resolved,
            )
        },
        CommentRecord::CommitLine { repo, sha, path, line, end_line, body, resolved } => {
            let e = match end_line {
                Some(x) => *x,
                None => *line,
            };
            let (a, b) = ordered_line_range(*line, e);
            (
                CommentKey::CommitLine { repo: repo.clone(), sha: sha.clone(), path: path.clone(), line: a, end_line: b },
                body,
                *resolved,
            )
        },
    };
    if crate::text::str_is_blank(body.as_str()) {
        None
    } else {
        Some((key, CommentEntry { body: body.clone(), resolved }))
    }
}

/// Store contents after loading `records` in order: blank bodies are
/// skipped, a later record for the same key wins.
pub open spec fn records_fold(records: Seq<CommentRecord>) -> Seq<(KeyView, EntryView)>
    decreases records.len(),
{
    if records.len() == 0 {
        Seq::empty()
    } else {
        let prev = records_fold(records.drop_last());
        let e = record_entry(records.last());
        if trim(e.body).len() == 0 {
            prev
        } else {
            put_spec(prev, record_key(records.last()), Some(e))
        }
    }
}

/// A store holding the non-blank records, later records winning.
pub fn store_from_records(records: &Vec<CommentRecord>) -> (s: CommentStore)
    ensures
        s@ == records_fold(records@),
        sorted_keys(s@),
{
    let mut store = CommentStore::new();
    let mut i: usize = 0;
    assert(records@.take(0) =~= Seq::<CommentRecord>::empty());
    while i < records.len()
        invariant
            i <= records@.len(),
            store@ == records_fold(records@.take(i as int)),
        decreases records@.len() - i,
    {
        assert(records@.take(i + 1).drop_last() =~= records@.take(i as int));
        assert(records@.take(i + 1).last() == records@[i as int]);
        if let Some((key, entry)) = record_pair(&records[i]) {
            store = put_comment_entry(&store, key, entry.body.as_str(), entry.resolved);
        }
        i += 1;
    }
    assert(records@.take(i as int) =~= records@);
    let _ = store.sorted();
    store
}

/// Entries of `s` whose flag is set, in order.
pub open spec fn keep_spec(s: Seq<(KeyView, EntryView)>, keep: Seq<bool>) -> Seq<(KeyView, EntryView)>
    decreases s.len(),
{
    if s.len() == 0 {
        Seq::empty()
    } else {
        let r = keep_spec(s.drop_last(), keep);
        if keep[s.len() - 1] {
            r.push(s.last())
        } else {
            r
        }
    }
}

pub(crate) proof fn lemma_keep_sorted(s: Seq<(KeyView, EntryView)>, keep: Seq<bool>)
    requires
        sorted_keys(s),
    ensures
        sorted_keys(keep_spec(s, keep)),
        forall|i: int| 0 <= i < keep_spec(s, keep).len() ==> exists|j: int| 0 <= j < s.len() && #[trigger] keep_spec(s, keep)[i] == s[j],
        keep_spec(s, keep).len() > 0 && s.len() > 0 ==> key_lt(keep_spec(s, keep).last().0, s.last().0) || keep_spec(s, keep).last() == s.last(),
    decreases s.len(),
{
    if s.len() > 0 {
        let p = s.drop_last();
        assert(sorted_keys(p));
        lemma_keep_sorted(p, keep);
        let r = keep_spec(p, keep);
        assert forall|i: int| 0 <= i < r.len() implies key_lt(#[trigger] r[i].0, s.last().0) by {
            let j = choose|j: int| 0 <= j < p.len() && r[i] == p[j];
            assert(s[j] == p[j]);
        }
        if keep[s.len() - 1] {
            let q = r.push(s.last());
            assert forall|i: int, j: int| 0 <= i < j < q.len() implies key_lt(#[trigger] q[i].0, #[trigger] q[j].0) by {
                if j < r.len() {
                    assert(q[i] == r[i] && q[j] == r[j]);
                } else {
                    assert(q[i] == r[i]);
                }
            }
            assert forall|i: int| 0 <= i < q.len() implies exists|j: int| 0 <= j < s.len() && #[trigger] q[i] == s[j] by {
                if i < r.len() {
                    let j = choose|j: int| 0 <= j < p.len() && r[i] == p[j];
                    assert(q[i] == s[j]);
                } else {
                    assert(q[i] == s[s.len() - 1]);
                }
            }
        } else {
            assert forall|i: int| 0 <= i < r.len() implies exists|j: int| 0 <= j < s.len() && #[trigger] r[i] == s[j] by {
                let j = choose|j: int| 0 <= j < p.len() && r[i] == p[j];
                assert(r[i] == s[j]);
            }
            if r.len() > 0 {
                assert(key_lt(r.last().0, s.last().0));
            }
        }
    }
}

impl CommentStore {
    /// The entries whose flag in `keep` is set (one flag per entry, in order).
    pub fn keep_where(&self, keep: &Vec<bool>) -> (s: CommentStore)
        requires
            keep@.len() == self@.len(),
        ensures
            s@ == keep_spec(self@, keep@),
    {
        proof {
            use_type_invariant(self);
            lemma_keep_sorted(self@, keep@);
        }
        let ghost v = self@;
        let mut out: Vec<(CommentKey, CommentEntry)> = Vec::new();
        let mut i: usize = 0;
        assert(v.take(0) =~= Seq::<(KeyView, EntryView)>::empty());
        while i < self.entries.len()
            invariant
                i <= v.len(),
                v == pair_views(self.entries@),
                keep@.len() == v.len(),
                pair_views(out@) == keep_spec(v.take(i as int), keep@),
            decreases v.len() - i,
        {
            assert(v.take(i + 1).drop_last() =~= v.take(i as int));
            if keep[i] {
                let k = copy_key(&self.entries[i].0);
                let e = copy_entry(&self.entries[i].1);
                let ghost before = pair_views(out@);
                out.push((k, e));
                assert(pair_views(out@) =~= before.push(v[i as int]));
            }
            i += 1;
        }
        assert(v.take(i as int) =~= v);
        CommentStore { entries: out }
    }
}

/// In a sorted store, the entry at `i` is what a read of its key finds.
pub proof fn lemma_lookup_at(s: Seq<(KeyView, EntryView)>, i: int)
    requires
        sorted_keys(s),
        0 <= i < s.len(),
    ensures
        lookup(s, s[i].0) == Some(s[i].1),
    decreases i,
{
    if i > 0 {
        let t = s.drop_first();
        assert(sorted_keys(t)) by {
            assert forall|a: int, b: int| 0 <= a < b < t.len() implies key_lt(#[trigger] t[a].0, #[trigger] t[b].0) by {
                assert(t[a] == s[a + 1] && t[b] == s[b + 1]);
            }
        }
        assert(t[i - 1] == s[i]);
        lemma_lookup_at(t, i - 1);
        lemma_key_order(s[0].0, s[i].0, s[i].0);
        assert(key_lt(s[0].0, s[i].0));
    }
}

} // verus!
