//! EasyMotion labels and prefix resolve.
//!
//! Labels cover the painted viewport only: `a`–`z`, then `aa`, `ab`, …

use vstd::prelude::*;

use crate::text::{starts_with, str_starts_with, string_views};

verus! {

/// Most rows that two-letter labels can name (`a`..`z`, `aa`..`zz`).
pub const MAX_LABELS: usize = 702;

/// How a typed prefix compares to assigned labels.
#[derive(Clone, Copy, Debug, PartialEq, Eq)]
pub enum EasyMotionResolve {
    Partial,
    Hit { index: usize },
    Miss,
}

/// The `k`-th lower-case letter.
pub open spec fn letter(k: int) -> char {
    (97 + k) as char
}

/// Label of slot `i`: one letter below 26, else two letters.
pub open spec fn label_spec(i: int) -> Seq<char> {
    if i < 26 {
        seq![letter(i)]
    } else {
        seq![letter((i - 26) / 26), letter((i - 26) % 26)]
    }
}

/// The first `count` labels.
pub open spec fn labels_spec(count: nat) -> Seq<Seq<char>> {
    Seq::new(count, |i: int| label_spec(i))
}

fn letter_exec(k: usize) -> (c: char)
    requires
        k < 26,
    ensures
        c == letter(k as int),
{
    let b: u8 = 97u8 + (k as u8);
    b as char
}

/// Labels `a`–`z`, then `aa`, `ab`, … enough for `count` (at most 702).
pub fn easy_motion_labels(count: usize) -> (out: Vec<String>)
    requires
        count <= MAX_LABELS,
    ensures
        string_views(out@) == labels_spec(count as nat),
{
    let mut out: Vec<String> = Vec::new();
    let mut i: usize = 0;
    while i < count
        invariant
            i <= count,
            count <= MAX_LABELS,
            out@.len() == i,
            forall|j: int| 0 <= j < i ==> (#[trigger] out@[j])@ == label_spec(j),
        decreases count - i,
    {
        let mut s = String::new();
        if i < 26 {
            crate::text::push_char(&mut s, letter_exec(i));
        } else {
            let n = i - 26;
            crate::text::push_char(&mut s, letter_exec(n / 26));
            crate::text::push_char(&mut s, letter_exec(n % 26));
        }
        out.push(s);
        i += 1;
    }
    assert(string_views(out@) =~= labels_spec(count as nat));
    out
}

/// What typing `typed` means against `labels`: the first equal label is a
/// hit, a label that extends `typed` keeps the prefix open, else a miss.
pub open spec fn resolves_to(labels: Seq<Seq<char>>, typed: Seq<char>, r: EasyMotionResolve) -> bool {
    match r {
        EasyMotionResolve::Hit { index } => {
            &&& typed.len() > 0
            &&& index < labels.len()
            &&& labels[index as int] == typed
            &&& forall|j: int| 0 <= j < index ==> labels[j] != typed
        },
        EasyMotionResolve::Partial => typed.len() == 0 || ((forall|j: int|
            0 <= j < labels.len() ==> labels[j] != typed) && exists|j: int|
            0 <= j < labels.len() && #[trigger] starts_with(labels[j], typed)),
        EasyMotionResolve::Miss => {
            &&& typed.len() > 0
            &&& forall|j: int| 0 <= j < labels.len() ==> labels[j] != typed
            &&& forall|j: int| 0 <= j < labels.len() ==> !#[trigger] starts_with(labels[j], typed)
        },
    }
}

/// Resolve typed prefix against assigned labels.
pub fn resolve_easy_motion_label(labels: &[String], typed: &str) -> (r: EasyMotionResolve)
    ensures
        resolves_to(string_views(labels@), typed@, r),
{
    let ghost ls = string_views(labels@);
    if typed.is_empty() {
        return EasyMotionResolve::Partial;
    }
    let mut i: usize = 0;
    while i < labels.len()
        invariant
            i <= labels.len(),
            typed@.len() > 0,
            ls == string_views(labels@),
            forall|j: int| 0 <= j < i ==> ls[j] != typed@,
        decreases labels.len() - i,
    {
        if crate::text::str_eq(labels[i].as_str(), typed) {
            assert(ls[i as int] == typed@);
            return EasyMotionResolve::Hit { index: i };
        }
        i += 1;
    }
    let mut k: usize = 0;
    while k < labels.len()
        invariant
            k <= labels.len(),
            ls == string_views(labels@),
            typed@.len() > 0,
            forall|j: int| 0 <= j < labels@.len() ==> ls[j] != typed@,
            forall|j: int| 0 <= j < k ==> !#[trigger] starts_with(ls[j], typed@),
        decreases labels.len() - k,
    {
        if str_starts_with(labels[k].as_str(), typed) {
            assert(starts_with(ls[k as int], typed@));
            return EasyMotionResolve::Partial;
        }
        k += 1;
    }
    EasyMotionResolve::Miss
}

/// The absolute result of a jump: a hit moves by `start`.
pub open spec fn shift_hit(r: EasyMotionResolve, start: int) -> EasyMotionResolve {
    match r {
        EasyMotionResolve::Hit { index } => EasyMotionResolve::Hit { index: (start + index) as usize },
        other => other,
    }
}

/// Resolve a typed prefix against the painted visible window.
///
/// On hit, `index` is the absolute list index (`start + label slot`).
pub fn resolve_easy_motion_jump(visible_count: usize, start: usize, typed: &str) -> (r: EasyMotionResolve)
    requires
        visible_count <= MAX_LABELS,
        start + visible_count <= usize::MAX,
    ensures
        exists|slot: EasyMotionResolve|
            resolves_to(labels_spec(visible_count as nat), typed@, slot) && r == shift_hit(slot, start as int),
{
    let labels = easy_motion_labels(visible_count);
    let slot = resolve_easy_motion_label(labels.as_slice(), typed);
    let r = match slot {
        EasyMotionResolve::Hit { index } => {
            assert(index < visible_count);
            EasyMotionResolve::Hit { index: start + index }
        },
        other => other,
    };
    assert(resolves_to(labels_spec(visible_count as nat), typed@, slot) && r == shift_hit(slot, start as int));
    r
}

/// Labels of two different slots differ.
pub proof fn lemma_labels_distinct(i: int, j: int)
    requires
        0 <= i < j < MAX_LABELS,
    ensures
        label_spec(i) != label_spec(j),
{
    if i < 26 && j >= 26 {
        assert(label_spec(i).len() != label_spec(j).len());
    } else if i < 26 {
        assert(label_spec(i)[0] != label_spec(j)[0]);
    } else {
        let a = i - 26;
        let b = j - 26;
        if a / 26 == b / 26 {
            assert(a % 26 != b % 26);
            assert(label_spec(i)[1] != label_spec(j)[1]);
        } else {
            assert(label_spec(i)[0] != label_spec(j)[0]);
        }
    }
}

/// Typing the label of a painted slot jumps to exactly that slot.
pub proof fn lemma_label_hits_its_slot(count: nat, i: int)
    requires
        count <= MAX_LABELS,
        0 <= i < count,
    ensures
        resolves_to(labels_spec(count), label_spec(i), EasyMotionResolve::Hit { index: i as usize }),
{
    let ls = labels_spec(count);
    assert forall|j: int| 0 <= j < i implies ls[j] != label_spec(i) by {
        lemma_labels_distinct(j, i);
    }
}

/// First visible index, centred on `cursor`.
pub open spec fn viewport_start_spec(row_count: int, cursor: int, height: int) -> int {
    let view_height = if height < 1 { 1 } else { height };
    let max_start = if row_count > view_height { row_count - view_height } else { 0 };
    let ideal = if cursor > view_height / 2 { cursor - view_height / 2 } else { 0 };
    if ideal < max_start { ideal } else { max_start }
}

/// First visible index, centred on `cursor`.
pub fn list_viewport_start(row_count: usize, cursor: usize, height: usize) -> (start: usize)
    ensures
        start == viewport_start_spec(row_count as int, cursor as int, height as int),
{
    let view_height = if height < 1 { 1 } else { height };
    let max_start = row_count.saturating_sub(view_height);
    let ideal = cursor.saturating_sub(view_height / 2);
    if ideal < max_start { ideal } else { max_start }
}

/// Painted window: `(start, visible_count)`.
pub open spec fn visible_window_spec(row_count: int, cursor: int, height: int) -> (int, int) {
    let view_height = if height < 1 { 1 } else { height };
    let start = viewport_start_spec(row_count, cursor, view_height);
    let left = if row_count > start { row_count - start } else { 0 };
    (start, if left < view_height { left } else { view_height })
}

/// Painted window: `(start, visible_count)`.
pub fn visible_window(row_count: usize, cursor: usize, height: usize) -> (w: (usize, usize))
    ensures
        w.0 == visible_window_spec(row_count as int, cursor as int, height as int).0,
        w.1 == visible_window_spec(row_count as int, cursor as int, height as int).1,
{
    let view_height = if height < 1 { 1 } else { height };
    let start = list_viewport_start(row_count, cursor, view_height);
    let left = row_count.saturating_sub(start);
    let count = if left < view_height { left } else { view_height };
    (start, count)
}

/// The painted window stays inside the list, is no taller than the pane,
/// and shows the cursor row whenever the cursor is on a row.
pub proof fn lemma_window_shows_cursor(row_count: nat, cursor: nat, height: nat)
    ensures
        ({
            let (start, count) = visible_window_spec(row_count as int, cursor as int, height as int);
            &&& 0 <= start
            &&& 0 <= count
            &&& start + count <= row_count
            &&& count <= (if height < 1 { 1 } else { height as int })
            &&& cursor < row_count ==> start <= cursor < start + count
        }),
{
}

} // verus!
