//! Graph branch-focus overlay (`o` / `O`).
//!
//! Lists local branches. Space marks a set; Enter applies visible marks, or
//! the cursor row when none of the visible rows are marked. Marks hidden by
//! the filter (including the current focus pre-marked on reopen) do not leak
//! through. The graph then loads ancestors of those tips instead of `--all`.
//! Unmarking every `[x]` then Enter, and `O`, restore the full graph.

use vstd::prelude::*;

use crate::branches::{
    branch_views, filter_branches, filter_spec, insert_sorted_unique, query_key, ref_views,
    strictly_sorted, BranchView, LocalBranch,
};
use crate::command_palette::{clamp_cursor_move, clamp_index, clamp_move};
use crate::order::{lemma_lt_irreflexive, seq_lt};
use crate::text::{starts_with, str_eq, str_starts_with, string_views};

verus! {

/// Interactive overlay for choosing graph focus branches.
#[derive(Debug, PartialEq, Eq)]
pub struct GraphFocusPickerState {
    /// Checkout the graph was loaded for.
    repo: String,
    /// Local branches, default-first then newest.
    branches: Vec<LocalBranch>,
    /// Substring filter (case-insensitive).
    filter: String,
    /// Index into [`Self::visible`].
    cursor: usize,
    /// Names toggled with space, sorted and without repeats. Enter uses this
    /// set for rows still visible under the filter.
    marked: Vec<String>,
    /// Enter with no remaining marks restores `--all` when the user cleared
    /// every `[x]` (including a pre-marked current focus). Filter-then-Enter
    /// still applies the cursor row while any mark remains, including hidden.
    empty_apply_clears: bool,
}

/// Names of `v`, in order.
pub open spec fn names_of(v: Seq<BranchView>) -> Seq<Seq<char>> {
    v.map_values(|b: BranchView| b.name)
}

/// Names of the rows of `vis` that are marked, in row order.
pub open spec fn visible_marks_spec(vis: Seq<BranchView>, marks: Set<Seq<char>>) -> Seq<Seq<char>>
    decreases vis.len(),
{
    if vis.len() == 0 {
        Seq::empty()
    } else {
        let r = visible_marks_spec(vis.drop_last(), marks);
        if marks.contains(vis.last().name) {
            r.push(vis.last().name)
        } else {
            r
        }
    }
}

/// Position of the first row named `name`, if any.
pub open spec fn first_named(v: Seq<BranchView>, name: Seq<char>) -> Option<int>
    decreases v.len(),
{
    if v.len() == 0 {
        None
    } else {
        match first_named(v.drop_last(), name) {
            Some(k) => Some(k),
            None => if v.last().name == name {
                Some(v.len() - 1)
            } else {
                None
            },
        }
    }
}

/// First preselected name that names a branch, if any.
pub open spec fn first_present(pre: Seq<Seq<char>>, names: Seq<Seq<char>>) -> Option<Seq<char>>
    decreases pre.len(),
{
    if pre.len() == 0 {
        None
    } else if names.contains(pre[0]) {
        Some(pre[0])
    } else {
        first_present(pre.drop_first(), names)
    }
}

/// `x` sits in the strictly sorted `v` at `k`.
proof fn lemma_sorted_unique_index(v: Seq<Seq<char>>, k: int, j: int)
    requires
        strictly_sorted(v),
        0 <= k < v.len(),
        0 <= j < v.len(),
        v[k] == v[j],
    ensures
        k == j,
{
    if k < j {
        lemma_lt_irreflexive(v[k]);
    } else if j < k {
        lemma_lt_irreflexive(v[k]);
    }
}

fn contains_string(list: &Vec<String>, s: &str) -> (r: Option<usize>)
    ensures
        match r {
            Some(k) => k < list@.len() && list@[k as int]@ == s@,
            None => !string_views(list@).contains(s@),
        },
{
    let mut k: usize = 0;
    while k < list.len()
        invariant
            k <= list@.len(),
            forall|m: int| 0 <= m < k ==> (#[trigger] list@[m])@ != s@,
        decreases list@.len() - k,
    {
        if str_eq(list[k].as_str(), s) {
            return Some(k);
        }
        k += 1;
    }
    proof {
        if string_views(list@).contains(s@) {
            let m = choose|m: int| 0 <= m < list@.len() && string_views(list@)[m] == s@;
            assert(list@[m]@ == s@);
        }
    }
    None
}

/// Space on the cursor row flips that name in or out of the marks; with
/// no row under the cursor nothing changes.
pub closed spec fn toggle_mark_post(before: GraphFocusPickerState, after: GraphFocusPickerState) -> bool {
    &&& after.repo == before.repo
    &&& after.branches == before.branches
    &&& after.filter == before.filter
    &&& after.cursor == before.cursor
    &&& before.cursor < before.visible_spec().len() ==> {
        let name = before.visible_spec()[before.cursor as int].name;
        &&& after.clears_on_empty()
        &&& after.mark_set() == if before.mark_set().contains(name) {
            before.mark_set().remove(name)
        } else {
            before.mark_set().insert(name)
        }
    }
    &&& before.cursor >= before.visible_spec().len() ==> after == before
}

/// Pressing space twice on the same row leaves the marks as they were.
pub proof fn lemma_toggle_twice_restores_marks(
    first: GraphFocusPickerState,
    second: GraphFocusPickerState,
    third: GraphFocusPickerState,
)
    requires
        toggle_mark_post(first, second),
        toggle_mark_post(second, third),
    ensures
        third.mark_set() == first.mark_set(),
        third@.cursor == first@.cursor,
        third@.filter == first@.filter,
{
    if first.cursor < first.visible_spec().len() {
        let name = first.visible_spec()[first.cursor as int].name;
        assert(second.visible_spec() == first.visible_spec());
        if first.mark_set().contains(name) {
            assert(third.mark_set() =~= first.mark_set());
        } else {
            assert(third.mark_set() =~= first.mark_set());
        }
    }
}

/// The picker's fields, as its contracts speak of them.
pub struct GraphFocusPickerView {
    pub repo: String,
    pub branches: Vec<LocalBranch>,
    pub filter: String,
    pub cursor: usize,
    pub marked: Vec<String>,
    pub empty_apply_clears: bool,
}

impl View for GraphFocusPickerState {
    type V = GraphFocusPickerView;

    closed spec fn view(&self) -> GraphFocusPickerView {
        GraphFocusPickerView {
            repo: self.repo,
            branches: self.branches,
            filter: self.filter,
            cursor: self.cursor,
            marked: self.marked,
            empty_apply_clears: self.empty_apply_clears,
        }
    }
}

impl GraphFocusPickerState {
    /// `marked` is sorted without repeats.
    #[verifier::type_invariant]
    pub closed spec fn wf(&self) -> bool {
        strictly_sorted(string_views(self.marked@))
    }

    /// Checkout the graph was loaded for.
    pub fn repo(&self) -> (r: &String)
        ensures
            *r == self@.repo,
    {
        &self.repo
    }

    /// Local branches the picker lists.
    pub fn branches(&self) -> (r: &Vec<LocalBranch>)
        ensures
            *r == self@.branches,
    {
        &self.branches
    }

    /// Current filter text.
    pub fn filter(&self) -> (r: &String)
        ensures
            *r == self@.filter,
    {
        &self.filter
    }

    /// Cursor row in the filtered list.
    pub fn cursor(&self) -> (r: usize)
        ensures
            r == self@.cursor,
    {
        self.cursor
    }

    /// Marked names, sorted without repeats.
    pub fn marked(&self) -> (r: &Vec<String>)
        ensures
            *r == self@.marked,
            strictly_sorted(string_views(r@)),
    {
        proof {
            use_type_invariant(self);
        }
        &self.marked
    }

    /// The marked names as a set.
    pub closed spec fn mark_set(&self) -> Set<Seq<char>> {
        string_views(self.marked@).to_set()
    }

    /// Rows the filter keeps.
    pub closed spec fn visible_spec(&self) -> Seq<BranchView> {
        filter_spec(branch_views(self.branches@), query_key(self.filter@))
    }

    /// Whether Enter with no marks left restores `--all`.
    pub closed spec fn clears_on_empty(&self) -> bool {
        self.empty_apply_clears
    }

    /// Build a picker. `preselected` names that still exist start marked.
    pub fn new(repo: String, branches: Vec<LocalBranch>, preselected: &[String]) -> (s: Self)
        ensures
            s@.repo == repo,
            s@.branches == branches,
            s@.filter@ == Seq::<char>::empty(),
            s.mark_set() == string_views(preselected@).to_set().filter(
                |n: Seq<char>| names_of(branch_views(branches@)).contains(n),
            ),
            s@.cursor == match first_present(string_views(preselected@), names_of(branch_views(branches@))) {
                Some(n) => match first_named(branch_views(branches@), n) {
                    Some(k) => k as usize,
                    None => 0,
                },
                None => 0,
            },
            s.clears_on_empty() == (s@.marked@.len() > 0),
    {
        let ghost v = branch_views(branches@);
        let ghost names = names_of(v);
        let ghost pre = string_views(preselected@);
        let mut marked: Vec<String> = Vec::new();
        let mut first: Option<usize> = None;
        let mut i: usize = 0;
        proof {
            assert(string_views(marked@).to_set() =~= Set::<Seq<char>>::empty());
            assert(pre.skip(0) =~= pre);
            assert(pre.take(0).to_set().filter(|n: Seq<char>| names.contains(n)) =~= Set::<Seq<char>>::empty());
        }
        while i < preselected.len()
            invariant
                i <= preselected@.len(),
                v == branch_views(branches@),
                names == names_of(v),
                pre == string_views(preselected@),
                strictly_sorted(string_views(marked@)),
                string_views(marked@).to_set() == pre.take(i as int).to_set().filter(|n: Seq<char>| names.contains(n)),
                first_present(pre, names) == match first {
                    Some(k) => Some(pre[k as int]),
                    None => first_present(pre.skip(i as int), names),
                },
                match first {
                    Some(k) => k < i && names.contains(pre[k as int]),
                    None => true,
                },
            decreases preselected@.len() - i,
        {
            let name = &preselected[i];
            let mut present = false;
            let mut j: usize = 0;
            while j < branches.len()
                invariant
                    j <= branches@.len(),
                    v == branch_views(branches@),
                    names == names_of(v),
                    present == names.take(j as int).contains(name@),
                decreases branches@.len() - j,
            {
                let eq = str_eq(branches[j].name.as_str(), name.as_str());
                proof {
                    let t0 = names.take(j as int);
                    let t1 = names.take(j + 1);
                    assert(t1 =~= t0.push(names[j as int]));
                    assert(v[j as int] == branches@[j as int]@);
                    assert(names[j as int] == v[j as int].name);
                    if eq {
                        assert(t1[j as int] == name@);
                    }
                    if t0.contains(name@) {
                        let m = choose|m: int| 0 <= m < t0.len() && #[trigger] t0[m] == name@;
                        assert(t1[m] == name@);
                    }
                    if t1.contains(name@) && !eq {
                        let m = choose|m: int| 0 <= m < t1.len() && #[trigger] t1[m] == name@;
                        assert(m < j);
                        assert(t0[m] == name@);
                    }
                }
                present = present || eq;
                j += 1;
            }
            assert(names.take(j as int) =~= names);
            let ghost before = string_views(marked@).to_set();
            if present {
                insert_sorted_unique(&mut marked, name.clone());
                if first.is_none() {
                    first = Some(i);
                }
            }
            proof {
                assert(pre[i as int] == name@);
                let now = pre.take(i + 1).to_set().filter(|n: Seq<char>| names.contains(n));
                assert(pre.take(i + 1) =~= pre.take(i as int).push(pre[i as int]));
                assert forall|x: Seq<char>| string_views(marked@).to_set().contains(x) <==> now.contains(x) by {
                    if pre.take(i as int).contains(x) {
                        let m = choose|m: int| 0 <= m < i && #[trigger] pre.take(i as int)[m] == x;
                        assert(pre.take(i + 1)[m] == x);
                    }
                    if pre.take(i + 1).contains(x) && x != pre[i as int] {
                        let m = choose|m: int| 0 <= m < i + 1 && #[trigger] pre.take(i + 1)[m] == x;
                        assert(m < i);
                        assert(pre.take(i as int)[m] == x);
                    }
                    if x == pre[i as int] {
                        assert(pre.take(i + 1)[i as int] == x);
                    }
                }
                assert(string_views(marked@).to_set() =~= now);
                let rest = pre.skip(i as int);
                assert(rest[0] == pre[i as int]);
                assert(rest.drop_first() =~= pre.skip(i + 1));
            }
            i += 1;
        }
        assert(pre.take(i as int) =~= pre);
        let cursor = match first {
            Some(k) => {
                let target = preselected[k].as_str();
                assert(pre[k as int] == preselected@[k as int]@);
                let mut pos: usize = 0;
                let mut found: Option<usize> = None;
                proof {
                    assert(v.take(0) =~= Seq::<BranchView>::empty());
                }
                while pos < branches.len()
                    invariant
                        pos <= branches@.len(),
                        v == branch_views(branches@),
                        target@ == pre[k as int],
                        match found {
                            Some(f) => first_named(v, target@) == Some(f as int),
                            None => first_named(v.take(pos as int), target@) is None,
                        },
                    decreases branches@.len() - pos,
                {
                    if found.is_none() {
                        proof {
                            assert(v.take(pos + 1).drop_last() =~= v.take(pos as int));
                            lemma_first_named_prefix(v, target@, pos + 1);
                        }
                        if str_eq(branches[pos].name.as_str(), target) {
                            found = Some(pos);
                        }
                    }
                    pos += 1;
                }
                proof {
                    assert(v.take(pos as int) =~= v);
                }
                match found {
                    Some(f) => f,
                    None => 0,
                }
            },
            None => {
                proof {
                    assert(pre.skip(i as int) =~= Seq::<Seq<char>>::empty());
                }
                0
            },
        };
        let clears = marked.len() > 0;
        GraphFocusPickerState {
            repo,
            branches,
            filter: String::new(),
            cursor,
            marked,
            empty_apply_clears: clears,
        }
    }

    /// Branches matching the current filter.
    pub fn visible(&self) -> (v: Vec<&LocalBranch>)
        ensures
            ref_views(v@) == self.visible_spec(),
    {
        filter_branches(self.branches.as_slice(), self.filter.as_str())
    }

    /// Cursor row, if the filter still has hits.
    pub fn selected(&self) -> (b: Option<&LocalBranch>)
        ensures
            match b {
                Some(x) => self@.cursor < self.visible_spec().len() && x@ == self.visible_spec()[self@.cursor as int],
                None => self@.cursor >= self.visible_spec().len(),
            },
    {
        let visible = self.visible();
        if self.cursor < visible.len() {
            let x = visible[self.cursor];
            assert(ref_views(visible@)[self.cursor as int] == x@);
            Some(x)
        } else {
            None
        }
    }

    /// Move the cursor in the filtered list.
    pub fn move_cursor(&mut self, delta: i32)
        ensures
            final(self)@.repo == old(self)@.repo,
            final(self)@.branches == old(self)@.branches,
            final(self)@.filter == old(self)@.filter,
            final(self)@.marked == old(self)@.marked,
            final(self).clears_on_empty() == old(self).clears_on_empty(),
            final(self)@.cursor == clamp_move(old(self)@.cursor, delta, old(self).visible_spec().len()),
    {
        proof {
            use_type_invariant(&*self);
        }
        let len = self.visible().len();
        self.cursor = clamp_cursor_move(self.cursor, delta, len);
    }

    /// Replace the filter and clamp the cursor.
    pub fn set_filter(&mut self, filter: String)
        ensures
            final(self)@.repo == old(self)@.repo,
            final(self)@.branches == old(self)@.branches,
            final(self)@.filter == filter,
            final(self)@.marked == old(self)@.marked,
            final(self).clears_on_empty() == old(self).clears_on_empty(),
            final(self)@.cursor == clamp_index(old(self)@.cursor, final(self).visible_spec().len()),
    {
        proof {
            use_type_invariant(&*self);
        }
        self.filter = filter;
        let len = self.visible().len();
        if len == 0 {
            self.cursor = 0;
        } else if self.cursor > len - 1 {
            self.cursor = len - 1;
        }
    }

    /// Toggle space-mark on the cursor row.
    pub fn toggle_mark(&mut self)
        ensures
            toggle_mark_post(*old(self), *final(self)),
    {
        proof {
            use_type_invariant(&*self);
        }
        let name = match self.selected() {
            Some(branch) => branch.name.clone(),
            None => return,
        };
        self.empty_apply_clears = true;
        let mut marked: Vec<String> = Vec::new();
        std::mem::swap(&mut marked, &mut self.marked);
        let ghost old_v = string_views(marked@);
        match contains_string(&marked, name.as_str()) {
            Some(k) => {
                marked.remove(k);
                proof {
                    let nv = string_views(marked@);
                    assert(nv =~= old_v.remove(k as int));
                    assert forall|x: Seq<char>| nv.to_set().contains(x) <==> old_v.to_set().remove(name@).contains(x) by {
                        if nv.to_set().contains(x) {
                            let m = choose|m: int| 0 <= m < nv.len() && nv[m] == x;
                            if m < k {
                                assert(old_v[m] == x);
                                if x == name@ {
                                    lemma_sorted_unique_index(old_v, m, k as int);
                                }
                            } else {
                                assert(old_v[m + 1] == x);
                                if x == name@ {
                                    lemma_sorted_unique_index(old_v, m + 1, k as int);
                                }
                            }
                        }
                        if old_v.to_set().contains(x) && x != name@ {
                            let m = choose|m: int| 0 <= m < old_v.len() && old_v[m] == x;
                            if m < k {
                                assert(nv[m] == x);
                            } else {
                                assert(m != k);
                                assert(nv[m - 1] == x);
                            }
                        }
                    }
                    assert(nv.to_set() =~= old_v.to_set().remove(name@));
                    assert forall|a: int, b: int| 0 <= a < b < nv.len() implies seq_lt(nv[a], nv[b]) by {
                        let oa = if a < k { a } else { a + 1 };
                        let ob = if b < k { b } else { b + 1 };
                        assert(nv[a] == old_v[oa] && nv[b] == old_v[ob]);
                    }
                    assert(old_v.to_set().contains(name@)) by {
                        assert(old_v[k as int] == name@);
                    }
                }
            },
            None => {
                insert_sorted_unique(&mut marked, name);
            },
        }
        self.marked = marked;
    }

    /// Names to load, or `None` when the filter has no rows (Enter is a no-op).
    ///
    /// Visible space-marks win. Hidden marks do not leak through a filter.
    /// When no visible row is marked, Enter applies the cursor row, except
    /// after every `[x]` was cleared (`Some([])` → restore `--all`).
    pub fn apply_names(&self) -> (r: Option<Vec<String>>)
        ensures
            r is None <==> (self.visible_spec().len() == 0 || (visible_marks_spec(self.visible_spec(), self.mark_set()).len() == 0
                && !(self@.marked@.len() == 0 && self.clears_on_empty())
                && self@.cursor >= self.visible_spec().len())),
            r is Some ==> string_views(r->0@) == (if visible_marks_spec(self.visible_spec(), self.mark_set()).len() > 0 {
                visible_marks_spec(self.visible_spec(), self.mark_set())
            } else if self@.marked@.len() == 0 && self.clears_on_empty() {
                Seq::empty()
            } else {
                seq![self.visible_spec()[self@.cursor as int].name]
            }),
    {
        let visible = self.visible();
        if visible.len() == 0 {
            return None;
        }
        let ghost vis = self.visible_spec();
        let ghost marks = self.mark_set();
        let mut out: Vec<String> = Vec::new();
        let mut i: usize = 0;
        assert(vis.take(0) =~= Seq::<BranchView>::empty());
        while i < visible.len()
            invariant
                i <= visible@.len(),
                ref_views(visible@) == vis,
                marks == string_views(self.marked@).to_set(),
                string_views(out@) == visible_marks_spec(vis.take(i as int), marks),
            decreases visible@.len() - i,
        {
            let b = visible[i];
            assert(vis[i as int] == b@);
            let ghost before = string_views(out@);
            match contains_string(&self.marked, b.name.as_str()) {
                Some(k) => {
                    assert(string_views(self.marked@)[k as int] == b.name@);
                    out.push(b.name.clone());
                    assert(string_views(out@) =~= before.push(b.name@));
                },
                None => {},
            }
            assert(vis.take(i + 1).drop_last() =~= vis.take(i as int));
            i += 1;
        }
        assert(vis.take(i as int) =~= vis);
        if out.len() > 0 {
            return Some(out);
        }
        if self.marked.len() == 0 && self.empty_apply_clears {
            return Some(Vec::new());
        }
        match self.selected() {
            Some(b) => {
                let mut one: Vec<String> = Vec::new();
                one.push(b.name.clone());
                assert(string_views(one@) =~= seq![b.name@]);
                Some(one)
            },
            None => None,
        }
    }
}

proof fn lemma_first_named_prefix(v: Seq<BranchView>, name: Seq<char>, n: int)
    requires
        0 < n <= v.len(),
        first_named(v.take(n - 1), name) is None,
    ensures
        first_named(v.take(n), name) == (if v[n - 1].name == name {
            Some(n - 1)
        } else {
            None::<int>
        }),
        v[n - 1].name == name ==> first_named(v, name) == Some(n - 1),
    decreases v.len() - n,
{
    assert(v.take(n).drop_last() =~= v.take(n - 1));
    if v[n - 1].name == name {
        lemma_first_named_extends(v, name, n);
    }
}

proof fn lemma_first_named_extends(v: Seq<BranchView>, name: Seq<char>, n: int)
    requires
        0 < n <= v.len(),
        first_named(v.take(n), name) is Some,
    ensures
        first_named(v, name) == first_named(v.take(n), name),
    decreases v.len() - n,
{
    if n < v.len() {
        assert(v.take(n + 1).drop_last() =~= v.take(n));
        lemma_first_named_extends(v, name, n + 1);
    } else {
        assert(v.take(n) =~= v);
    }
}

/// `refs/heads/` prefix for short branch names.
pub open spec fn focus_rev_spec(name: Seq<char>) -> Seq<char> {
    if starts_with(name, "refs/"@) {
        name
    } else {
        "refs/heads/"@ + name
    }
}

/// `git log` revision for a local branch name (`refs/heads/…`).
pub fn focus_rev_for_branch(name: &str) -> (r: String)
    ensures
        r@ == focus_rev_spec(name@),
{
    if str_starts_with(name, "refs/") {
        crate::text::owned(name)
    } else {
        let mut s = crate::text::owned("refs/heads/");
        crate::text::push_str(&mut s, name);
        s
    }
}

} // verus!
