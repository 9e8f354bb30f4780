//! Local branch picker (`b`): list, filter, create, checkout.

use vstd::prelude::*;

use crate::chrome::{family_container, is_family_container, FocusedRowFacts, HintRowKind, SnapshotCheckout};
use crate::command_palette::{clamp_cursor_move, clamp_index, clamp_move};
use crate::order::{chars_lt, lemma_lt_irreflexive, lemma_lt_total, lemma_lt_transitive, seq_lt, str_lt};
use crate::text::{
    ascii_lower, char_is_whitespace, chars_eq, contains_chars, has_substr, is_ws, lower_chars,
    lower_str_chars, starts_with, str_chars, str_starts_with, string_views, trim, trim_chars, parse_i64,
    parse_i64_spec, split_chars, split_on, string_from_chars, views,
};

verus! {

/// One local branch as `git for-each-ref` lists it.
#[derive(Clone, Debug, PartialEq, Eq)]
pub struct LocalBranch {
    pub name: String,
    pub current: bool,
    /// Committer date of the tip, seconds since the epoch.
    pub authordate: i64,
}

/// What a [`LocalBranch`] holds, as plain values.
pub struct BranchView {
    pub name: Seq<char>,
    pub current: bool,
    pub authordate: i64,
}

impl View for LocalBranch {
    type V = BranchView;

    open spec fn view(&self) -> BranchView {
        BranchView { name: self.name@, current: self.current, authordate: self.authordate }
    }
}

/// Views of a sequence of branches.
pub open spec fn branch_views(s: Seq<LocalBranch>) -> Seq<BranchView> {
    s.map_values(|b: LocalBranch| b@)
}

/// A field-for-field copy.
pub fn copy_branch(b: &LocalBranch) -> (r: LocalBranch)
    ensures
        r@ == b@,
{
    LocalBranch { name: b.name.clone(), current: b.current, authordate: b.authordate }
}

/* ── Picker order ──────────────────────────────────────────────────────── */

/// `b` is the pinned default branch.
pub open spec fn is_default(b: BranchView, default: Option<Seq<char>>) -> bool {
    default is Some && b.name == default->0
}

/// `a` sorts before `b`: the default first, then newer first, then by name.
pub open spec fn picker_before(a: BranchView, b: BranchView, default: Option<Seq<char>>) -> bool {
    let ad = is_default(a, default);
    let bd = is_default(b, default);
    if ad != bd {
        ad
    } else if a.authordate != b.authordate {
        a.authordate > b.authordate
    } else {
        seq_lt(a.name, b.name)
    }
}

/// Order on positions of `v`: by [`picker_before`], ties kept in input order.
pub open spec fn slot_before(v: Seq<BranchView>, default: Option<Seq<char>>, i: int, j: int) -> bool {
    picker_before(v[i], v[j], default) || (!picker_before(v[j], v[i], default) && i < j)
}

proof fn lemma_picker_asym(a: BranchView, b: BranchView, d: Option<Seq<char>>)
    ensures
        !(picker_before(a, b, d) && picker_before(b, a, d)),
{
    lemma_lt_total(a.name, b.name);
}

proof fn lemma_picker_trans(a: BranchView, b: BranchView, c: BranchView, d: Option<Seq<char>>)
    requires
        picker_before(a, b, d),
        picker_before(b, c, d),
    ensures
        picker_before(a, c, d),
{
    if is_default(a, d) == is_default(b, d) && is_default(b, d) == is_default(c, d)
        && a.authordate == b.authordate && b.authordate == c.authordate {
        lemma_lt_transitive(a.name, b.name, c.name);
    }
}

/// Neither before the other: same pin, same date, same name.
proof fn lemma_picker_tie_trans(a: BranchView, b: BranchView, c: BranchView, d: Option<Seq<char>>)
    ensures
        picker_before(a, b, d) && !picker_before(c, b, d) && !picker_before(b, c, d) ==> picker_before(a, c, d),
        picker_before(b, c, d) && !picker_before(a, b, d) && !picker_before(b, a, d) ==> picker_before(a, c, d),
        !picker_before(a, b, d) && !picker_before(b, a, d) && !picker_before(b, c, d) && !picker_before(c, b, d)
            ==> !picker_before(a, c, d) && !picker_before(c, a, d),
{
    lemma_lt_total(a.name, b.name);
    lemma_lt_total(b.name, c.name);
    lemma_lt_total(a.name, c.name);
    lemma_lt_irreflexive(a.name);
    lemma_lt_irreflexive(b.name);
}

/// [`slot_before`] is a strict total order on distinct positions.
pub proof fn lemma_slot_order(v: Seq<BranchView>, d: Option<Seq<char>>, i: int, j: int, k: int)
    ensures
        !slot_before(v, d, i, i),
        i != j ==> (slot_before(v, d, i, j) != slot_before(v, d, j, i)),
        slot_before(v, d, i, j) && slot_before(v, d, j, k) ==> slot_before(v, d, i, k),
{
    lemma_picker_asym(v[i], v[j], d);
    lemma_picker_asym(v[i], v[i], d);
    lemma_picker_asym(v[j], v[k], d);
    lemma_picker_asym(v[i], v[k], d);
    if picker_before(v[i], v[j], d) && picker_before(v[j], v[k], d) {
        lemma_picker_trans(v[i], v[j], v[k], d);
    }
    lemma_picker_tie_trans(v[i], v[j], v[k], d);
}

/// `p` lists each of `0..n` once.
pub open spec fn is_permutation(p: Seq<int>, n: nat) -> bool {
    &&& p.len() == n
    &&& forall|k: int| 0 <= k < n ==> 0 <= #[trigger] p[k] < n
    &&& forall|k: int, l: int| 0 <= k < l < n ==> p[k] != p[l]
    &&& forall|x: int| 0 <= x < n ==> #[trigger] lists(p, x)
}

/// `x` occurs in `p`.
pub open spec fn lists(p: Seq<int>, x: int) -> bool {
    exists|k: int| 0 <= k < p.len() && p[k] == x
}

/// `x` occurs among the first `upto` slots of `s`.
pub open spec fn slot_of(s: Seq<usize>, upto: int, x: int) -> bool {
    exists|k: int| 0 <= k < upto && s[k] == x
}

/// `out` is `input` stably sorted for the picker: default pinned first,
/// then newest `authordate`, then name; equal keys keep their input order.
pub open spec fn picker_sorted(input: Seq<BranchView>, out: Seq<BranchView>, default: Option<Seq<char>>) -> bool {
    exists|p: Seq<int>|
        #![trigger is_permutation(p, input.len())]
        is_permutation(p, input.len()) && out.len() == input.len() && (forall|k: int|
            0 <= k < out.len() ==> #[trigger] out[k] == input[p[k]]) && (forall|k: int, l: int|
            0 <= k < l < out.len() ==> slot_before(input, default, p[k], p[l]))
}

/// When the default branch is in the list, the sorted list starts with it.
pub proof fn lemma_default_pinned_first(
    input: Seq<BranchView>,
    out: Seq<BranchView>,
    default: Option<Seq<char>>,
    j: int,
)
    requires
        picker_sorted(input, out, default),
        0 <= j < input.len(),
        is_default(input[j], default),
    ensures
        is_default(out[0], default),
{
    let p = choose|p: Seq<int>|
        #![trigger is_permutation(p, input.len())]
        is_permutation(p, input.len()) && out.len() == input.len() && (forall|k: int|
            0 <= k < out.len() ==> #[trigger] out[k] == input[p[k]]) && (forall|k: int, l: int|
            0 <= k < l < out.len() ==> slot_before(input, default, p[k], p[l]));
    assert(lists(p, j));
    let k = choose|k: int| 0 <= k < p.len() && p[k] == j;
    assert(out[0] == input[p[0]]);
    if k > 0 {
        assert(slot_before(input, default, p[0], p[k]));
    } else {
        assert(out[0] == input[j]);
    }
}

fn slot_before_exec(
    branches: &Vec<LocalBranch>,
    names: &Vec<Vec<char>>,
    default: &Option<Vec<char>>,
    i: usize,
    j: usize,
) -> (r: bool)
    requires
        i < branches.len(),
        j < branches.len(),
        names.len() == branches.len(),
        forall|k: int| 0 <= k < names.len() ==> (#[trigger] names@[k])@ == branches@[k].name@,
    ensures
        r == slot_before(branch_views(branches@), match default {
            Some(x) => Some(x@),
            None => None,
        }, i as int, j as int),
{
    let ghost v = branch_views(branches@);
    let ghost d = match default {
        Some(x) => Some(x@),
        None => None::<Seq<char>>,
    };
    let (ad, bd) = match default {
        Some(x) => (chars_eq(names[i].as_slice(), x.as_slice()), chars_eq(names[j].as_slice(), x.as_slice())),
        None => (false, false),
    };
    assert(ad == is_default(v[i as int], d));
    assert(bd == is_default(v[j as int], d));
    let ai = branches[i].authordate;
    let aj = branches[j].authordate;
    if ad != bd {
        return ad;
    }
    if ai != aj {
        return ai > aj;
    }
    if chars_lt(names[i].as_slice(), names[j].as_slice()) {
        return true;
    }
    if chars_lt(names[j].as_slice(), names[i].as_slice()) {
        return false;
    }
    i < j
}

/// Default branch name pinned first, then newest authordate, then name.
pub fn sort_branches_for_picker(branches: Vec<LocalBranch>, default_branch: Option<&str>) -> (out: Vec<LocalBranch>)
    ensures
        picker_sorted(branch_views(branches@), branch_views(out@), match default_branch {
            Some(x) => Some(x@),
            None => None,
        }),
{
    let ghost v = branch_views(branches@);
    let ghost d = match default_branch {
        Some(x) => Some(x@),
        None => None::<Seq<char>>,
    };
    let n = branches.len();
    let mut names: Vec<Vec<char>> = Vec::new();
    for k in 0..n
        invariant
            n == branches.len(),
            names.len() == k,
            forall|m: int| 0 <= m < k ==> (#[trigger] names@[m])@ == branches@[m].name@,
    {
        names.push(str_chars(branches[k].name.as_str()));
    }
    let default: Option<Vec<char>> = match default_branch {
        Some(x) => Some(str_chars(x)),
        None => None,
    };
    assert(d == match default {
        Some(x) => Some(x@),
        None => None::<Seq<char>>,
    });
    let mut idx: Vec<usize> = Vec::new();
    let mut i: usize = 0;
    while i < n
        invariant
            i <= n,
            n == branches.len(),
            v == branch_views(branches@),
            names.len() == n,
            forall|m: int| 0 <= m < n ==> (#[trigger] names@[m])@ == branches@[m].name@,
            d == match default {
                Some(x) => Some(x@),
                None => None::<Seq<char>>,
            },
            idx@.len() == i,
            forall|k: int| 0 <= k < i ==> #[trigger] idx@[k] < i,
            forall|x: int| 0 <= x < i ==> #[trigger] slot_of(idx@, i as int, x),
            forall|k: int, l: int| 0 <= k < l < i ==> slot_before(v, d, idx@[k] as int, idx@[l] as int),
        decreases n - i,
    {
        let mut pos: usize = 0;
        while pos < idx.len() && !slot_before_exec(&branches, &names, &default, i, idx[pos])
            invariant
                pos <= idx@.len(),
                i < n,
                n == branches.len(),
                v == branch_views(branches@),
                names.len() == n,
                forall|m: int| 0 <= m < n ==> (#[trigger] names@[m])@ == branches@[m].name@,
                d == match default {
                    Some(x) => Some(x@),
                    None => None::<Seq<char>>,
                },
                idx@.len() == i,
                forall|k: int| 0 <= k < i ==> #[trigger] idx@[k] < i,
                forall|m: int| 0 <= m < pos ==> !slot_before(v, d, i as int, #[trigger] idx@[m] as int),
            decreases idx@.len() - pos,
        {
            pos += 1;
        }
        let ghost old_idx = idx@;
        idx.insert(pos, i);
        proof {
            assert forall|k: int| 0 <= k < i + 1 implies #[trigger] idx@[k] < i + 1 by {
                if k < pos {
                    assert(idx@[k] == old_idx[k]);
                } else if k > pos {
                    assert(idx@[k] == old_idx[k - 1]);
                }
            }
            assert forall|x: int| 0 <= x < i + 1 implies #[trigger] slot_of(idx@, i + 1, x) by {
                if x == i {
                    assert(idx@[pos as int] == x);
                } else {
                    assert(slot_of(old_idx, i as int, x));
                    let k = choose|k: int| 0 <= k < i && old_idx[k] == x;
                    if k < pos {
                        assert(idx@[k] == x);
                    } else {
                        assert(idx@[k + 1] == x);
                    }
                }
            }
            assert forall|k: int, l: int| 0 <= k < l < i + 1 implies slot_before(
                v,
                d,
                idx@[k] as int,
                idx@[l] as int,
            ) by {
                let a = idx@[k] as int;
                let b = idx@[l] as int;
                if l < pos {
                    assert(a == old_idx[k] && b == old_idx[l]);
                } else if k > pos {
                    assert(a == old_idx[k - 1] && b == old_idx[l - 1]);
                } else if l == pos {
                    assert(a == old_idx[k]);
                    assert(b == i);
                    lemma_slot_order(v, d, a, b, b);
                } else if k == pos {
                    assert(a == i);
                    assert(b == old_idx[l - 1]);
                    let c = old_idx[pos as int] as int;
                    assert(slot_before(v, d, i as int, c));
                    if l - 1 > pos {
                        assert(slot_before(v, d, c, b));
                        lemma_slot_order(v, d, a, c, b);
                    }
                } else {
                    assert(k < pos && pos < l);
                    assert(a == old_idx[k]);
                    assert(b == old_idx[l - 1]);
                }
            }
        }
        i += 1;
    }
    let mut out: Vec<LocalBranch> = Vec::new();
    for k in 0..n
        invariant
            n == branches.len(),
            idx@.len() == n,
            forall|m: int| 0 <= m < n ==> #[trigger] idx@[m] < n,
            forall|x: int| 0 <= x < n ==> #[trigger] slot_of(idx@, n as int, x),
            out@.len() == k,
            forall|m: int| 0 <= m < k ==> (#[trigger] out@[m])@ == branches@[idx@[m] as int]@,
    {
        out.push(copy_branch(&branches[idx[k]]));
    }
    proof {
        let p = idx@.map_values(|x: usize| x as int);
        let w = branch_views(out@);
        assert forall|k: int, l: int| 0 <= k < l < n implies p[k] != p[l] by {
            lemma_slot_order(v, d, p[k], p[l], p[l]);
        }
        assert forall|x: int| 0 <= x < n implies #[trigger] lists(p, x) by {
            assert(slot_of(idx@, n as int, x));
            let k = choose|k: int| 0 <= k < n && idx@[k] == x;
            assert(p[k] == x);
        }
        assert(is_permutation(p, v.len()));
        assert forall|k: int| 0 <= k < w.len() implies #[trigger] w[k] == v[p[k]] by {}
    }
    out
}

/* ── Filter ────────────────────────────────────────────────────────────── */

/// The picker query as matched: trimmed and ASCII-lower-cased.
pub open spec fn query_key(query: Seq<char>) -> Seq<char> {
    ascii_lower(trim(query))
}

/// `b` survives the (non-empty) key `q`: its lower-cased name contains it.
pub open spec fn branch_matches(b: BranchView, q: Seq<char>) -> bool {
    has_substr(ascii_lower(b.name), q)
}

/// Branches kept by key `q`, in order (all of them for an empty key).
pub open spec fn filter_spec(v: Seq<BranchView>, q: Seq<char>) -> Seq<BranchView>
    decreases v.len(),
{
    if v.len() == 0 {
        Seq::empty()
    } else {
        let r = filter_spec(v.drop_last(), q);
        if q.len() == 0 || branch_matches(v.last(), q) {
            r.push(v.last())
        } else {
            r
        }
    }
}

/// Views of a sequence of borrowed branches.
pub open spec fn ref_views(s: Seq<&LocalBranch>) -> Seq<BranchView> {
    s.map_values(|b: &LocalBranch| b@)
}

/// Case-insensitive substring filter on branch name.
pub fn filter_branches<'a>(branches: &'a [LocalBranch], query: &str) -> (out: Vec<&'a LocalBranch>)
    ensures
        ref_views(out@) == filter_spec(branch_views(branches@), query_key(query@)),
{
    let ghost v = branch_views(branches@);
    let qc = str_chars(query);
    let t = trim_chars(qc.as_slice());
    let q = lower_chars(t.as_slice());
    let mut out: Vec<&'a LocalBranch> = Vec::new();
    let mut i: usize = 0;
    assert(v.take(0) =~= Seq::<BranchView>::empty());
    while i < branches.len()
        invariant
            i <= branches.len(),
            v == branch_views(branches@),
            q@ == query_key(query@),
            ref_views(out@) == filter_spec(v.take(i as int), q@),
        decreases branches.len() - i,
    {
        let b = &branches[i];
        let keep = if q.len() == 0 {
            true
        } else {
            let name = lower_str_chars(b.name.as_str());
            contains_chars(name.as_slice(), q.as_slice())
        };
        let ghost before = ref_views(out@);
        if keep {
            out.push(b);
            assert(ref_views(out@) =~= before.push(v[i as int]));
        }
        assert(v.take(i + 1).drop_last() =~= v.take(i as int));
        i += 1;
    }
    assert(v.take(i as int) =~= v);
    out
}

/* ── Names ─────────────────────────────────────────────────────────────── */

/// Non-empty, no white space, no leading `-` (after trimming).
pub open spec fn valid_branch_name(name: Seq<char>) -> bool {
    let t = trim(name);
    &&& t.len() > 0
    &&& forall|i: int| 0 <= i < t.len() ==> !is_ws(#[trigger] t[i])
    &&& t[0] != '-'
}

/// Non-empty, no spaces, no leading `-`.
pub fn is_valid_branch_name(name: &str) -> (b: bool)
    ensures
        b == valid_branch_name(name@),
{
    let c = str_chars(name);
    let t = trim_chars(c.as_slice());
    if t.len() == 0 {
        return false;
    }
    let mut i: usize = 0;
    while i < t.len()
        invariant
            i <= t.len(),
            t@ == trim(name@),
            forall|j: int| 0 <= j < i ==> !is_ws(#[trigger] t@[j]),
        decreases t.len() - i,
    {
        if char_is_whitespace(t[i]) {
            assert(is_ws(t@[i as int]));
            return false;
        }
        i += 1;
    }
    t[0] != '-'
}

/// The `origin/` prefix of origin remote-tracking refs.
pub open spec fn origin_prefix() -> Seq<char> {
    seq!['o', 'r', 'i', 'g', 'i', 'n', '/']
}

/// True iff `name` is an origin remote-tracking ref (`origin/...`).
pub fn is_origin_remote_ref(name: &str) -> (b: bool)
    ensures
        b == starts_with(name@, origin_prefix()),
{
    let p = "origin/";
    proof {
        reveal_strlit("origin/");
        assert(p@ =~= origin_prefix());
    }
    str_starts_with(name, p)
}

/// `name` without a leading `origin/` (unchanged when absent).
pub open spec fn local_name_spec(name: Seq<char>) -> Seq<char> {
    if starts_with(name, origin_prefix()) {
        name.skip(7)
    } else {
        name
    }
}

/// Local short name for an origin remote-tracking ref.
pub fn local_name_from_origin_ref(name: &str) -> (r: String)
    ensures
        r@ == local_name_spec(name@),
{
    if is_origin_remote_ref(name) {
        let c = str_chars(name);
        let rest = crate::text::slice_chars(c.as_slice(), 7, c.len());
        crate::text::string_from_chars(rest.as_slice())
    } else {
        crate::text::owned(name)
    }
}

/// Branch to check out for a picker or single-name selection.
pub fn checkout_name_for_ref(selected: &str) -> (r: String)
    ensures
        r@ == local_name_spec(selected@),
{
    local_name_from_origin_ref(selected)
}

/* ── Checkoutable names at a graph commit ──────────────────────────────── */

/// Kind of a ref decorating a graph commit.
#[derive(Clone, Copy, Debug, PartialEq, Eq)]
pub enum RefKind {
    Local,
    Remote,
    Tag,
}

/// A ref decorating a graph commit (short name).
#[derive(Clone, Debug, PartialEq, Eq)]
pub struct GraphRef {
    pub name: String,
    pub kind: RefKind,
}

impl GraphRef {
    /// A local branch ref.
    pub fn local(name: &str) -> (r: GraphRef)
        ensures
            r.name@ == name@,
            r.kind == RefKind::Local,
    {
        GraphRef { name: crate::text::owned(name), kind: RefKind::Local }
    }

    /// A remote-tracking ref.
    pub fn remote(name: &str) -> (r: GraphRef)
        ensures
            r.name@ == name@,
            r.kind == RefKind::Remote,
    {
        GraphRef { name: crate::text::owned(name), kind: RefKind::Remote }
    }

    /// A tag ref.
    pub fn tag(name: &str) -> (r: GraphRef)
        ensures
            r.name@ == name@,
            r.kind == RefKind::Tag,
    {
        GraphRef { name: crate::text::owned(name), kind: RefKind::Tag }
    }
}

/// Every element is below every later one (so no element repeats).
pub open spec fn strictly_sorted(s: Seq<Seq<char>>) -> bool {
    forall|i: int, j: int| 0 <= i < j < s.len() ==> seq_lt(s[i], s[j])
}

/// Names of local branch refs.
pub open spec fn local_ref_names(refs: Seq<GraphRef>) -> Set<Seq<char>> {
    Set::new(|n: Seq<char>| exists|i: int| 0 <= i < refs.len() && refs[i].kind == RefKind::Local && #[trigger] refs[i].name@ == n)
}

/// Names of `origin/*` remote-tracking refs.
pub open spec fn origin_ref_names(refs: Seq<GraphRef>) -> Set<Seq<char>> {
    Set::new(|n: Seq<char>| exists|i: int| 0 <= i < refs.len() && refs[i].kind == RefKind::Remote
        && starts_with(refs[i].name@, origin_prefix()) && #[trigger] refs[i].name@ == n)
}

/// Insert `s` into a strictly sorted list unless it is already there.
pub(crate) fn insert_sorted_unique(list: &mut Vec<String>, s: String)
    requires
        strictly_sorted(string_views(old(list)@)),
    ensures
        strictly_sorted(string_views(final(list)@)),
        string_views(final(list)@).to_set() == string_views(old(list)@).to_set().insert(s@),
{
    let ghost old_v = string_views(list@);
    let mut pos: usize = 0;
    while pos < list.len() && str_lt(list[pos].as_str(), s.as_str())
        invariant
            pos <= list@.len(),
            old_v == string_views(list@),
            strictly_sorted(old_v),
            forall|m: int| 0 <= m < pos ==> seq_lt(#[trigger] old_v[m], s@),
        decreases list@.len() - pos,
    {
        pos += 1;
    }
    if pos < list.len() && crate::text::str_eq(list[pos].as_str(), s.as_str()) {
        assert(old_v.to_set().insert(s@) =~= old_v.to_set()) by {
            assert(old_v[pos as int] == s@);
        }
        return;
    }
    proof {
        if pos < old_v.len() {
            lemma_lt_total(old_v[pos as int], s@);
        }
    }
    list.insert(pos, s);
    proof {
        let nv = string_views(list@);
        assert(nv =~= old_v.insert(pos as int, s@));
        assert forall|i: int, j: int| 0 <= i < j < nv.len() implies seq_lt(nv[i], nv[j]) by {
            if j < pos {
            } else if i > pos {
                assert(nv[i] == old_v[i - 1] && nv[j] == old_v[j - 1]);
            } else if j == pos {
            } else if i == pos {
                assert(nv[j] == old_v[j - 1]);
                if j - 1 > pos {
                    lemma_lt_transitive(s@, old_v[pos as int], old_v[j - 1]);
                }
            } else {
                assert(nv[j] == old_v[j - 1]);
            }
        }
        assert forall|x: Seq<char>| nv.to_set().contains(x) <==> old_v.to_set().insert(s@).contains(x) by {
            if nv.to_set().contains(x) {
                let k = choose|k: int| 0 <= k < nv.len() && nv[k] == x;
                if k < pos {
                    assert(old_v[k] == x);
                } else if k > pos {
                    assert(old_v[k - 1] == x);
                }
            }
            if old_v.to_set().contains(x) {
                let k = choose|k: int| 0 <= k < old_v.len() && old_v[k] == x;
                if k < pos {
                    assert(nv[k] == x);
                } else {
                    assert(nv[k + 1] == x);
                }
            }
            if x == s@ {
                assert(nv[pos as int] == x);
            }
        }
        assert(nv.to_set() =~= old_v.to_set().insert(s@));
    }
}

/// Local and `origin/*` names `b` may checkout at a graph commit.
///
/// Locals first, then remotes. Each group is unique and sorted.
/// Tags and non-origin remotes stay out.
pub fn checkoutable_branch_names(refs: &[GraphRef]) -> (out: Vec<String>)
    ensures
        exists|n: int|
            0 <= n <= out@.len() && strictly_sorted(#[trigger] string_views(out@).take(n))
                && strictly_sorted(string_views(out@).skip(n)) && string_views(out@).take(n).to_set()
                == local_ref_names(refs@) && string_views(out@).skip(n).to_set() == origin_ref_names(refs@),
{
    let mut locals: Vec<String> = Vec::new();
    let mut remotes: Vec<String> = Vec::new();
    let mut i: usize = 0;
    proof {
        assert(string_views(locals@).to_set() =~= Set::<Seq<char>>::empty());
        assert(string_views(remotes@).to_set() =~= Set::<Seq<char>>::empty());
    }
    while i < refs.len()
        invariant
            i <= refs.len(),
            strictly_sorted(string_views(locals@)),
            strictly_sorted(string_views(remotes@)),
            string_views(locals@).to_set() == Set::new(|n: Seq<char>| exists|k: int| 0 <= k < i && refs@[k].kind == RefKind::Local && #[trigger] refs@[k].name@ == n),
            string_views(remotes@).to_set() == Set::new(|n: Seq<char>| exists|k: int| 0 <= k < i && refs@[k].kind == RefKind::Remote
                && starts_with(refs@[k].name@, origin_prefix()) && #[trigger] refs@[k].name@ == n),
        decreases refs.len() - i,
    {
        let r = &refs[i];
        let ghost lset = string_views(locals@).to_set();
        let ghost rset = string_views(remotes@).to_set();
        match r.kind {
            RefKind::Local => {
                insert_sorted_unique(&mut locals, r.name.clone());
            },
            RefKind::Remote => {
                if is_origin_remote_ref(r.name.as_str()) {
                    insert_sorted_unique(&mut remotes, r.name.clone());
                }
            },
            RefKind::Tag => {},
        }
        proof {
            let nl = Set::new(|n: Seq<char>| exists|k: int| 0 <= k < i + 1 && refs@[k].kind == RefKind::Local && #[trigger] refs@[k].name@ == n);
            let nr = Set::new(|n: Seq<char>| exists|k: int| 0 <= k < i + 1 && refs@[k].kind == RefKind::Remote
                && starts_with(refs@[k].name@, origin_prefix()) && #[trigger] refs@[k].name@ == n);
            assert forall|x: Seq<char>| string_views(locals@).to_set().contains(x) <==> nl.contains(x) by {
                if nl.contains(x) {
                    let k = choose|k: int| 0 <= k < i + 1 && refs@[k].kind == RefKind::Local && #[trigger] refs@[k].name@ == x;
                    if k < i {
                        assert(lset.contains(x));
                    }
                }
                if lset.contains(x) {
                    let k = choose|k: int| 0 <= k < i && refs@[k].kind == RefKind::Local && #[trigger] refs@[k].name@ == x;
                    assert(nl.contains(x));
                }
            }
            assert forall|x: Seq<char>| string_views(remotes@).to_set().contains(x) <==> nr.contains(x) by {
                if nr.contains(x) {
                    let k = choose|k: int| 0 <= k < i + 1 && refs@[k].kind == RefKind::Remote
                        && starts_with(refs@[k].name@, origin_prefix()) && #[trigger] refs@[k].name@ == x;
                    if k < i {
                        assert(rset.contains(x));
                    }
                }
                if rset.contains(x) {
                    let k = choose|k: int| 0 <= k < i && refs@[k].kind == RefKind::Remote
                        && starts_with(refs@[k].name@, origin_prefix()) && #[trigger] refs@[k].name@ == x;
                    assert(nr.contains(x));
                }
            }
            assert(string_views(locals@).to_set() =~= nl);
            assert(string_views(remotes@).to_set() =~= nr);
        }
        i += 1;
    }
    let ghost lv = string_views(locals@);
    let ghost rv = string_views(remotes@);
    let n = locals.len();
    let mut out = locals;
    let mut k: usize = 0;
    while k < remotes.len()
        invariant
            k <= remotes@.len(),
            rv == string_views(remotes@),
            string_views(out@) == lv + rv.take(k as int),
            n == lv.len(),
        decreases remotes@.len() - k,
    {
        let ghost before = string_views(out@);
        out.push(remotes[k].clone());
        assert(string_views(out@) =~= before.push(rv[k as int]));
        assert(rv.take(k + 1) =~= rv.take(k as int).push(rv[k as int]));
        assert(string_views(out@) =~= lv + rv.take(k + 1));
        k += 1;
    }
    proof {
        let w = string_views(out@);
        assert(rv.take(k as int) =~= rv);
        assert(w.take(n as int) =~= lv);
        assert(w.skip(n as int) =~= rv);
        assert(local_ref_names(refs@) =~= lv.to_set());
        assert(origin_ref_names(refs@) =~= rv.to_set());
        assert(strictly_sorted(w.take(n as int)));
    }
    out
}

/* ── Checkout plan ─────────────────────────────────────────────────────── */

/// Status copy when checkout refuses a dirty worktree (tracked changes only).
pub const DIRTY_WORKTREE_STATUS: &'static str = "Dirty worktree — commit or stash first";

/// Pure checkout vs confirm-then-fast-forward decision (no git I/O).
///
/// Origin remotes with an out-of-sync (or unread) local counterpart confirm,
/// then `merge --ff-only` of the selected `origin/*` ref. Local names never
/// confirm.
#[derive(Clone, Debug, PartialEq, Eq)]
pub enum GraphCheckoutPlan {
    Checkout { branch: String },
    ConfirmLocalThenPull { local_branch: String, remote_ref: String },
}

/// Views of an optional string slice.
pub open spec fn opt_str(s: Option<&str>) -> Option<Seq<char>> {
    match s {
        Some(t) => Some(t@),
        None => None,
    }
}

/// The plan as plain values: `(confirm, branch or local branch, remote ref)`.
pub open spec fn plan_spec(
    selected: Seq<char>,
    local_exists: bool,
    local_sha: Option<Seq<char>>,
    remote_sha: Option<Seq<char>>,
) -> (bool, Seq<char>) {
    if !starts_with(selected, origin_prefix()) {
        (false, selected)
    } else if local_exists && (local_sha is None || remote_sha is None || local_sha != remote_sha) {
        (true, local_name_spec(selected))
    } else {
        (false, local_name_spec(selected))
    }
}

/// Plan checkout for a picker or single-name selection.
///
/// Confirm only when `selected_name` is `origin/…` **and** a local branch of
/// that name exists with a null or mismatched SHA.
pub fn plan_graph_checkout(
    selected_name: &str,
    local_exists: bool,
    local_sha: Option<&str>,
    remote_sha: Option<&str>,
) -> (plan: GraphCheckoutPlan)
    ensures
        ({
            let (confirm, name) = plan_spec(selected_name@, local_exists, opt_str(local_sha), opt_str(remote_sha));
            match plan {
                GraphCheckoutPlan::Checkout { branch } => !confirm && branch@ == name,
                GraphCheckoutPlan::ConfirmLocalThenPull { local_branch, remote_ref } => confirm
                    && local_branch@ == name && remote_ref@ == selected_name@,
            }
        }),
{
    if !is_origin_remote_ref(selected_name) {
        return GraphCheckoutPlan::Checkout { branch: crate::text::owned(selected_name) };
    }
    let local_branch = local_name_from_origin_ref(selected_name);
    let differ = match (local_sha, remote_sha) {
        (Some(a), Some(b)) => !crate::text::str_eq(a, b),
        _ => true,
    };
    if local_exists && differ {
        return GraphCheckoutPlan::ConfirmLocalThenPull {
            local_branch,
            remote_ref: crate::text::owned(selected_name),
        };
    }
    GraphCheckoutPlan::Checkout { branch: local_branch }
}

/// A local (non-`origin/`) selection is always checked out as is.
pub proof fn lemma_local_selection_never_confirms(
    selected: Seq<char>,
    local_exists: bool,
    local_sha: Option<Seq<char>>,
    remote_sha: Option<Seq<char>>,
)
    requires
        !starts_with(selected, origin_prefix()),
    ensures
        plan_spec(selected, local_exists, local_sha, remote_sha) == (false, selected),
{
}

/* ── Picker state ──────────────────────────────────────────────────────── */

/// Interactive picker state.
#[derive(Clone, Debug, PartialEq, Eq)]
pub struct BranchPickerState {
    pub repo: String,
    pub branches: Vec<LocalBranch>,
    pub filter: String,
    pub cursor: usize,
    /// Graph commit picker paints `Checkout at {short}`. Tree picker is `None`.
    pub commit_id: Option<String>,
}

impl BranchPickerState {
    /// Rows the filter keeps.
    pub open spec fn visible_spec(&self) -> Seq<BranchView> {
        filter_spec(branch_views(self.branches@), query_key(self.filter@))
    }

    /// Unfiltered picker at the first row.
    pub fn new(repo: String, branches: Vec<LocalBranch>) -> (s: Self)
        ensures
            s.repo == repo,
            s.branches == branches,
            s.filter@ == Seq::<char>::empty(),
            s.cursor == 0,
            s.commit_id is None,
    {
        BranchPickerState { repo, branches, filter: String::new(), cursor: 0, commit_id: None }
    }

    /// Graph `b` picker: only the names on the focused commit.
    pub fn from_names(repo: String, names: Vec<String>, commit_id: Option<String>) -> (s: Self)
        ensures
            s.repo == repo,
            s.branches@.len() == names@.len(),
            forall|i: int| 0 <= i < names@.len() ==> (#[trigger] s.branches@[i])@ == (BranchView {
                name: names@[i]@,
                current: false,
                authordate: 0,
            }),
            s.filter@ == Seq::<char>::empty(),
            s.cursor == 0,
            s.commit_id == commit_id,
    {
        let mut branches: Vec<LocalBranch> = Vec::new();
        let mut i: usize = 0;
        while i < names.len()
            invariant
                i <= names@.len(),
                branches@.len() == i,
                forall|k: int| 0 <= k < i ==> (#[trigger] branches@[k])@ == (BranchView {
                    name: names@[k]@,
                    current: false,
                    authordate: 0,
                }),
            decreases names@.len() - i,
        {
            branches.push(LocalBranch { name: names[i].clone(), current: false, authordate: 0 });
            i += 1;
        }
        let mut state = Self::new(repo, branches);
        state.commit_id = commit_id;
        state
    }

    /// Rows the filter keeps.
    pub fn visible(&self) -> (v: Vec<&LocalBranch>)
        ensures
            ref_views(v@) == self.visible_spec(),
    {
        filter_branches(self.branches.as_slice(), self.filter.as_str())
    }

    /// Highlighted row, if any.
    pub fn selected(&self) -> (b: Option<&LocalBranch>)
        ensures
            match b {
                Some(x) => self.cursor < self.visible_spec().len() && x@ == self.visible_spec()[self.cursor as int],
                None => self.cursor >= self.visible_spec().len(),
            },
    {
        let visible = self.visible();
        if self.cursor < visible.len() {
            let x = visible[self.cursor];
            assert(ref_views(visible@)[self.cursor as int] == x@);
            Some(x)
        } else {
            None
        }
    }

    /// Move the highlight by `delta` rows, clamped to the visible list.
    pub fn move_cursor(&mut self, delta: i32)
        ensures
            final(self).repo == old(self).repo,
            final(self).branches == old(self).branches,
            final(self).filter == old(self).filter,
            final(self).commit_id == old(self).commit_id,
            final(self).cursor == clamp_move(old(self).cursor, delta, old(self).visible_spec().len()),
    {
        let len = self.visible().len();
        self.cursor = clamp_cursor_move(self.cursor, delta, len);
    }

    /// Replace the filter and keep the highlight inside the new list.
    pub fn set_filter(&mut self, filter: String)
        ensures
            final(self).repo == old(self).repo,
            final(self).branches == old(self).branches,
            final(self).filter == filter,
            final(self).commit_id == old(self).commit_id,
            final(self).cursor == clamp_index(old(self).cursor, final(self).visible_spec().len()),
    {
        self.filter = filter;
        let len = self.visible().len();
        if len == 0 {
            self.cursor = 0;
        } else if self.cursor > len - 1 {
            self.cursor = len - 1;
        }
    }
}

/// Name prompt after `C` in the picker, graph `c`, or Enter on a new filter.
#[derive(Clone, Debug, PartialEq, Eq)]
pub struct CreateBranchState {
    pub repo: String,
    pub name: String,
    /// Graph `c` sets this. Picker `C` leaves it `None` (create+checkout at HEAD).
    pub commit_id: Option<String>,
}

/// One line of `git for-each-ref --format=%(refname:short)%00%(HEAD)%00%(committerdate:unix)`:
/// name, `*` on the checked-out branch, and the committer date (0 when it
/// does not read as a number). Lines with fewer than three fields list
/// nothing.
pub open spec fn branch_line_spec(line: Seq<char>) -> Option<BranchView> {
    let f = split_on(line, '\0');
    if f.len() >= 3 {
        Some(BranchView {
            name: f[0],
            current: f[1] == seq!['*'],
            authordate: match parse_i64_spec(trim(f[2])) {
                Some(v) => v,
                None => 0,
            },
        })
    } else {
        None
    }
}

/// The branches of the listed lines, in order.
pub open spec fn branch_lines_spec(lines: Seq<Seq<char>>) -> Seq<BranchView>
    decreases lines.len(),
{
    if lines.len() == 0 {
        Seq::empty()
    } else {
        let r = branch_lines_spec(lines.drop_last());
        match branch_line_spec(lines.last()) {
            Some(b) => r.push(b),
            None => r,
        }
    }
}

/// Local branches from the `git for-each-ref` listing above, one per line.
pub fn parse_local_branches(text: &str) -> (r: Vec<LocalBranch>)
    ensures
        branch_views(r@) == branch_lines_spec(split_on(text@, '\n')),
{
    let chars = str_chars(text);
    let lines = split_chars(chars.as_slice(), '\n');
    let ghost ls = split_on(text@, '\n');
    let mut out: Vec<LocalBranch> = Vec::new();
    let mut k: usize = 0;
    while k < lines.len()
        invariant
            k <= lines@.len(),
            views(lines@) == ls,
            branch_views(out@) == branch_lines_spec(ls.take(k as int)),
        decreases lines@.len() - k,
    {
        let line = &lines[k];
        assert(line@ == ls[k as int]);
        let fields = split_chars(line.as_slice(), '\0');
        let ghost f = split_on(line@, '\0');
        assert(ls.take(k + 1).drop_last() =~= ls.take(k as int));
        assert(ls.take(k + 1).last() == ls[k as int]);
        if fields.len() >= 3 {
            assert(fields@[0]@ == f[0] && fields@[1]@ == f[1] && fields@[2]@ == f[2]);
            let star = fields[1].len() == 1 && fields[1][0] == '*';
            assert(star == (f[1] == seq!['*'])) by {
                if fields@[1]@.len() == 1 && fields@[1]@[0] == '*' {
                    assert(f[1] =~= seq!['*']);
                }
            }
            let date = trim_chars(fields[2].as_slice());
            let authordate: i64 = match parse_i64(date.as_slice()) {
                Some(v) => v,
                None => 0,
            };
            let ghost before = branch_views(out@);
            out.push(LocalBranch { name: string_from_chars(fields[0].as_slice()), current: star, authordate });
            assert(branch_views(out@) =~= before.push(out@.last()@));
        }
        k += 1;
    }
    assert(ls.take(lines@.len() as int) =~= ls);
    out
}

/// The branch picker opens on a checkout row that stands for a checkout, or
/// on a repo row that does not fold linked worktrees under it.
pub open spec fn branch_picker_ok_spec(snap: Seq<SnapshotCheckout>, row: FocusedRowFacts) -> bool {
    match row.kind {
        HintRowKind::Checkout => row.checkout_path is Some,
        HintRowKind::Repo => row.repo matches Some(r) && !family_container(snap, r@),
        _ => false,
    }
}

/// Whether the branch picker can open on the focused row.
pub fn can_open_branch_picker(snap: &[SnapshotCheckout], row: &FocusedRowFacts) -> (b: bool)
    ensures
        b == branch_picker_ok_spec(snap@, *row),
{
    match row.kind {
        HintRowKind::Checkout => row.checkout_path.is_some(),
        HintRowKind::Repo => match &row.repo {
            Some(r) => !is_family_container(snap, r.as_str()),
            None => false,
        },
        _ => false,
    }
}

} // verus!
