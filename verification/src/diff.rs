//! Unified-diff parse and numbered rows for the file-diff pane.
//!
//! Path header, line-number gutter, and STAGED / UNSTAGED / NEW labels.

use vstd::prelude::*;

use crate::text::{
    decimal, decimal_chars, push_decimal, push_str, trim,
    ends_with, ends_with_chars, is_blank, lemma_split_on_nonempty, normalize_newlines,
    normalize_newlines_exec, parse_u32, parse_u32_spec, slice_chars, split_chars, split_on,
    split_words, starts_with, string_views, starts_with_chars, str_chars, string_from_chars, trim_bounds, views,
    words,
};

verus! {

/// Inline or side-by-side layout of the diff pane.
#[derive(Clone, Copy, Debug, PartialEq, Eq, Structural)]
pub enum DiffMode {
    Inline,
    SideBySide,
}

/// Staged / unstaged / untracked section label.
#[derive(Clone, Copy, Debug, PartialEq, Eq, Structural)]
pub enum DiffSection {
    Staged,
    Unstaged,
    New,
}

/// Cell kind for one side of a diff row.
#[derive(Clone, Copy, Debug, PartialEq, Eq, Structural)]
pub enum DiffCellKind {
    Add,
    Del,
    Ctx,
    Meta,
    Empty,
}

/// One side of a painted diff line.
#[derive(Clone, Debug, PartialEq, Eq)]
pub struct DiffCell {
    pub kind: DiffCellKind,
    pub text: String,
    /// 1-based line number in the gutter (`None` for meta / empty).
    pub line_no: Option<u32>,
}

/// Model of a [`DiffCell`].
pub struct CellView {
    pub kind: DiffCellKind,
    pub text: Seq<char>,
    pub line_no: Option<u32>,
}

impl View for DiffCell {
    type V = CellView;

    open spec fn view(&self) -> CellView {
        CellView { kind: self.kind, text: self.text@, line_no: self.line_no }
    }
}

/// One painted body row (section, hunk header, or inline / split line).
#[derive(Clone, Debug, PartialEq, Eq)]
pub enum DiffRow {
    Section(DiffSection),
    Hunk { text: String },
    Line { left: DiffCell, right: Option<DiffCell> },
}

/// Model of a [`DiffRow`].
pub enum RowView {
    Section(DiffSection),
    Hunk { text: Seq<char> },
    Line { left: CellView, right: Option<CellView> },
}

/// Model of an optional right cell.
pub open spec fn opt_cell_view(c: Option<DiffCell>) -> Option<CellView> {
    match c {
        Some(cell) => Some(cell@),
        None => None,
    }
}

impl View for DiffRow {
    type V = RowView;

    open spec fn view(&self) -> RowView {
        match self {
            DiffRow::Section(s) => RowView::Section(*s),
            DiffRow::Hunk { text } => RowView::Hunk { text: text@ },
            DiffRow::Line { left, right } => RowView::Line {
                left: left@,
                right: opt_cell_view(*right),
            },
        }
    }
}

/// Models of a run of rows.
pub open spec fn row_views(rows: Seq<DiffRow>) -> Seq<RowView> {
    rows.map_values(|r: DiffRow| r@)
}

/// Parsed unified-diff line.
#[derive(Clone, Debug, PartialEq, Eq)]
pub struct ParsedLine {
    pub kind: DiffCellKind,
    pub text: String,
    pub old_no: Option<u32>,
    pub new_no: Option<u32>,
}

/// Model of a [`ParsedLine`].
pub struct LineView {
    pub kind: DiffCellKind,
    pub text: Seq<char>,
    pub old_no: Option<u32>,
    pub new_no: Option<u32>,
}

impl View for ParsedLine {
    type V = LineView;

    open spec fn view(&self) -> LineView {
        LineView { kind: self.kind, text: self.text@, old_no: self.old_no, new_no: self.new_no }
    }
}

/// One `@@` hunk.
#[derive(Clone, Debug, PartialEq, Eq)]
pub struct Hunk {
    pub header: String,
    pub lines: Vec<ParsedLine>,
}

/// Model of a [`Hunk`].
pub struct HunkView {
    pub header: Seq<char>,
    pub lines: Seq<LineView>,
}

/// Models of a run of parsed lines.
pub open spec fn line_views(lines: Seq<ParsedLine>) -> Seq<LineView> {
    lines.map_values(|l: ParsedLine| l@)
}

impl View for Hunk {
    type V = HunkView;

    open spec fn view(&self) -> HunkView {
        HunkView { header: self.header@, lines: line_views(self.lines@) }
    }
}

/// Models of a run of hunks.
pub open spec fn hunk_views(hunks: Seq<Hunk>) -> Seq<HunkView> {
    hunks.map_values(|h: Hunk| h@)
}

/* ── Line-level parse ──────────────────────────────────────────────────── */

/// `n.saturating_add(1)`.
pub open spec fn sat_inc(n: u32) -> u32 {
    if n == u32::MAX {
        n
    } else {
        (n + 1) as u32
    }
}

/// `Binary files … differ`.
pub open spec fn is_binary_marker(line: Seq<char>) -> bool {
    starts_with(line, "Binary files "@) && ends_with(line, " differ"@)
}

/// Leading copies of `c` removed (`trim_start_matches(c)`).
pub open spec fn strip_leading(s: Seq<char>, c: char) -> Seq<char>
    decreases s.len(),
{
    if s.len() > 0 && s[0] == c {
        strip_leading(s.drop_first(), c)
    } else {
        s
    }
}

/// Count before the first `,`, or 0 when it does not parse.
pub open spec fn parse_hunk_count_spec(token: Seq<char>) -> u32 {
    match parse_u32_spec(split_on(token, ',')[0]) {
        Some(n) => n,
        None => 0,
    }
}

/// `@@ -OLD[,n] +NEW[,n] @@` → start line numbers; garbage yields 0.
pub open spec fn hunk_starts_spec(line: Seq<char>) -> (u32, u32) {
    if !starts_with(line, "@@"@) {
        (0, 0)
    } else {
        let ws = words(line.skip(2));
        let old = if ws.len() > 0 {
            ws[0]
        } else {
            Seq::<char>::empty()
        };
        let new = if ws.len() > 1 {
            ws[1]
        } else {
            Seq::<char>::empty()
        };
        (
            parse_hunk_count_spec(strip_leading(old, '-')),
            parse_hunk_count_spec(strip_leading(new, '+')),
        )
    }
}

/// Parser state after some lines.
pub struct ParseState {
    pub hunks: Seq<HunkView>,
    /// The last hunk still takes body lines.
    pub open: bool,
    pub old_no: u32,
    pub new_no: u32,
}

/// A body line with the given kind and numbers.
pub open spec fn mk_line(kind: DiffCellKind, text: Seq<char>, old_no: Option<u32>, new_no: Option<u32>) -> LineView {
    LineView { kind, text, old_no, new_no }
}

/// Append `l` to the last hunk.
pub open spec fn append_line(st: ParseState, l: LineView) -> Seq<HunkView> {
    let last = st.hunks.last();
    st.hunks.update(
        st.hunks.len() - 1,
        HunkView { header: last.header, lines: last.lines.push(l) },
    )
}

/// One line of the unified diff applied to the parser state.
pub open spec fn parse_step(st: ParseState, line: Seq<char>) -> ParseState {
    if is_binary_marker(line) {
        ParseState {
            hunks: st.hunks.push(
                HunkView {
                    header: Seq::empty(),
                    lines: seq![mk_line(DiffCellKind::Meta, line, None, None)],
                },
            ),
            open: false,
            ..st
        }
    } else if starts_with(line, "@@"@) {
        let (o, n) = hunk_starts_spec(line);
        ParseState {
            hunks: st.hunks.push(HunkView { header: line, lines: Seq::empty() }),
            open: true,
            old_no: o,
            new_no: n,
        }
    } else if !st.open {
        st
    } else if starts_with(line, "\\"@) {
        ParseState {
            hunks: append_line(st, mk_line(DiffCellKind::Meta, line, None, None)),
            ..st
        }
    } else if starts_with(line, "+"@) {
        ParseState {
            hunks: append_line(st, mk_line(DiffCellKind::Add, line.drop_first(), None, Some(st.new_no))),
            new_no: sat_inc(st.new_no),
            ..st
        }
    } else if starts_with(line, "-"@) {
        ParseState {
            hunks: append_line(st, mk_line(DiffCellKind::Del, line.drop_first(), Some(st.old_no), None)),
            old_no: sat_inc(st.old_no),
            ..st
        }
    } else if starts_with(line, " "@) || line.len() == 0 {
        let text = if line.len() > 0 {
            line.drop_first()
        } else {
            line
        };
        ParseState {
            hunks: append_line(
                st,
                mk_line(DiffCellKind::Ctx, text, Some(st.old_no), Some(st.new_no)),
            ),
            old_no: sat_inc(st.old_no),
            new_no: sat_inc(st.new_no),
            ..st
        }
    } else {
        ParseState {
            hunks: append_line(st, mk_line(DiffCellKind::Meta, line, None, None)),
            ..st
        }
    }
}

/// Parser state after the first `i` lines.
pub open spec fn parse_prefix(lines: Seq<Seq<char>>, i: nat) -> ParseState
    decreases i,
{
    if i == 0 || i > lines.len() {
        ParseState { hunks: Seq::empty(), open: false, old_no: 0, new_no: 0 }
    } else {
        parse_step(parse_prefix(lines, (i - 1) as nat), lines[i - 1])
    }
}

/// Raw lines of a diff: newlines normalised, one trailing empty line dropped.
pub open spec fn diff_lines(text: Seq<char>) -> Seq<Seq<char>> {
    let raw = split_on(normalize_newlines(text), '\n');
    if raw.len() > 0 && raw.last().len() == 0 {
        raw.drop_last()
    } else {
        raw
    }
}

/// Hunks of a unified diff. File headers before the first `@@` are skipped.
pub open spec fn parse_unified_diff_spec(text: Seq<char>) -> Seq<HunkView> {
    if is_blank(text) {
        Seq::empty()
    } else {
        parse_prefix(diff_lines(text), diff_lines(text).len()).hunks
    }
}

/// `a + n`, held at the top of `u32`.
pub open spec fn sat_add(a: u32, n: nat) -> u32 {
    if a + n > u32::MAX { u32::MAX } else { (a + n) as u32 }
}

/// How many of `ls` are of kind `k1` or `k2`.
pub open spec fn count_kinds(ls: Seq<LineView>, k1: DiffCellKind, k2: DiffCellKind) -> nat
    decreases ls.len(),
{
    if ls.len() == 0 {
        0
    } else {
        count_kinds(ls.drop_last(), k1, k2) + if ls.last().kind == k1 || ls.last().kind == k2 { 1nat } else { 0nat }
    }
}

/// The lines of a hunk whose header starts the old side at `old_start` and
/// the new side at `new_start` carry consecutive numbers: each line present
/// in the new file (an addition or context) is numbered `new_start` plus the
/// count of such lines before it, and likewise on the old side for
/// deletions and context.
pub open spec fn numbered_from(ls: Seq<LineView>, old_start: u32, new_start: u32) -> bool {
    forall|j: int|
        0 <= j < ls.len() ==> {
            &&& ((#[trigger] ls[j]).kind == DiffCellKind::Add || ls[j].kind == DiffCellKind::Ctx) ==> ls[j].new_no
                == Some(sat_add(new_start, count_kinds(ls.take(j), DiffCellKind::Add, DiffCellKind::Ctx)))
            &&& (ls[j].kind == DiffCellKind::Del || ls[j].kind == DiffCellKind::Ctx) ==> ls[j].old_no == Some(
                sat_add(old_start, count_kinds(ls.take(j), DiffCellKind::Del, DiffCellKind::Ctx)),
            )
        }
}

/// What stays true of the parser state as lines are read.
pub open spec fn numbering_inv(st: ParseState) -> bool {
    &&& forall|i: int|
        0 <= i < st.hunks.len() && (#[trigger] st.hunks[i]).header.len() > 0 ==> numbered_from(
            st.hunks[i].lines,
            hunk_starts_spec(st.hunks[i].header).0,
            hunk_starts_spec(st.hunks[i].header).1,
        )
    &&& st.open ==> {
        let last = st.hunks.last();
        &&& st.hunks.len() > 0
        &&& last.header.len() > 0
        &&& st.old_no == sat_add(
            hunk_starts_spec(last.header).0,
            count_kinds(last.lines, DiffCellKind::Del, DiffCellKind::Ctx),
        )
        &&& st.new_no == sat_add(
            hunk_starts_spec(last.header).1,
            count_kinds(last.lines, DiffCellKind::Add, DiffCellKind::Ctx),
        )
    }
}

proof fn lemma_sat_inc_add(a: u32, n: nat)
    ensures
        sat_inc(sat_add(a, n)) == sat_add(a, n + 1),
{
}

proof fn lemma_numbered_push(ls: Seq<LineView>, l: LineView, o: u32, n: u32)
    requires
        numbered_from(ls, o, n),
        (l.kind == DiffCellKind::Add || l.kind == DiffCellKind::Ctx) ==> l.new_no == Some(
            sat_add(n, count_kinds(ls, DiffCellKind::Add, DiffCellKind::Ctx)),
        ),
        (l.kind == DiffCellKind::Del || l.kind == DiffCellKind::Ctx) ==> l.old_no == Some(
            sat_add(o, count_kinds(ls, DiffCellKind::Del, DiffCellKind::Ctx)),
        ),
    ensures
        numbered_from(ls.push(l), o, n),
{
    let ls2 = ls.push(l);
    assert forall|j: int| 0 <= j < ls2.len() implies {
        &&& ((#[trigger] ls2[j]).kind == DiffCellKind::Add || ls2[j].kind == DiffCellKind::Ctx) ==> ls2[j].new_no
            == Some(sat_add(n, count_kinds(ls2.take(j), DiffCellKind::Add, DiffCellKind::Ctx)))
        &&& (ls2[j].kind == DiffCellKind::Del || ls2[j].kind == DiffCellKind::Ctx) ==> ls2[j].old_no == Some(
            sat_add(o, count_kinds(ls2.take(j), DiffCellKind::Del, DiffCellKind::Ctx)),
        )
    } by {
        if j < ls.len() {
            assert(ls2.take(j) =~= ls.take(j));
            assert(ls2[j] == ls[j]);
        } else {
            assert(ls2.take(j) =~= ls);
        }
    }
}

proof fn lemma_numbering_step(st: ParseState, line: Seq<char>)
    requires
        numbering_inv(st),
    ensures
        numbering_inv(parse_step(st, line)),
{
    let nx = parse_step(st, line);
    if is_binary_marker(line) || starts_with(line, "@@"@) {
        if starts_with(line, "@@"@) && !is_binary_marker(line) {
            reveal_strlit("@@");
            assert(line.len() >= 2);
            assert(nx.hunks.last().lines =~= Seq::<LineView>::empty());
        }
        assert forall|i: int|
            0 <= i < nx.hunks.len() && (#[trigger] nx.hunks[i]).header.len() > 0 implies numbered_from(
            nx.hunks[i].lines,
            hunk_starts_spec(nx.hunks[i].header).0,
            hunk_starts_spec(nx.hunks[i].header).1,
        ) by {
            if i < st.hunks.len() {
                assert(nx.hunks[i] == st.hunks[i]);
            }
        }
    } else if !st.open {
    } else {
        let last = st.hunks.last();
        let (o, n) = hunk_starts_spec(last.header);
        assert(numbered_from(last.lines, o, n)) by {
            assert(st.hunks[st.hunks.len() - 1] == last);
        }
        let cn = count_kinds(last.lines, DiffCellKind::Add, DiffCellKind::Ctx);
        let co = count_kinds(last.lines, DiffCellKind::Del, DiffCellKind::Ctx);
        let l = nx.hunks.last().lines.last();
        assert(nx.hunks.len() == st.hunks.len());
        assert(nx.hunks.last().lines == last.lines.push(l));
        assert(nx.hunks.last().header == last.header);
        assert(last.lines.push(l).drop_last() =~= last.lines);
        lemma_sat_inc_add(n, cn);
        lemma_sat_inc_add(o, co);
        lemma_numbered_push(last.lines, l, o, n);
        assert forall|i: int|
            0 <= i < nx.hunks.len() && (#[trigger] nx.hunks[i]).header.len() > 0 implies numbered_from(
            nx.hunks[i].lines,
            hunk_starts_spec(nx.hunks[i].header).0,
            hunk_starts_spec(nx.hunks[i].header).1,
        ) by {
            if i < st.hunks.len() - 1 {
                assert(nx.hunks[i] == st.hunks[i]);
            }
        }
    }
}

proof fn lemma_numbering_prefix(lines: Seq<Seq<char>>, i: nat)
    ensures
        numbering_inv(parse_prefix(lines, i)),
    decreases i,
{
    if i > 0 && i <= lines.len() {
        lemma_numbering_prefix(lines, (i - 1) as nat);
        lemma_numbering_step(parse_prefix(lines, (i - 1) as nat), lines[i - 1]);
    } else {
        let st = parse_prefix(lines, i);
        assert(st.hunks =~= Seq::<HunkView>::empty());
    }
}

/// Parsed hunks number their lines from the header on: in each hunk, the
/// additions and context lines run `+N, N+1, …` and the deletions and
/// context lines run `-M, M+1, …` with no gap or repeat, where `-M` and
/// `+N` are the header's starts.
pub proof fn lemma_parsed_lines_numbered(text: Seq<char>)
    ensures
        forall|i: int|
            0 <= i < parse_unified_diff_spec(text).len() && (#[trigger] parse_unified_diff_spec(text)[i]).header.len()
                > 0 ==> numbered_from(
                parse_unified_diff_spec(text)[i].lines,
                hunk_starts_spec(parse_unified_diff_spec(text)[i].header).0,
                hunk_starts_spec(parse_unified_diff_spec(text)[i].header).1,
            ),
{
    lemma_numbering_prefix(diff_lines(text), diff_lines(text).len());
}

/* ── Exec parse ────────────────────────────────────────────────────────── */

/// Count before the first `,`, or 0 when it does not parse.
pub fn parse_hunk_count(token: &[char]) -> (n: u32)
    ensures
        n == parse_hunk_count_spec(token@),
{
    let parts = split_chars(token, ',');
    proof {
        lemma_split_on_nonempty(token@, ',');
        assert(parts@[0]@ == split_on(token@, ',')[0]);
    }
    match parse_u32(parts[0].as_slice()) {
        Some(n) => n,
        None => 0,
    }
}

proof fn lemma_strip_leading_skip(s: Seq<char>, c: char, i: int)
    requires
        0 <= i <= s.len(),
        forall|j: int| 0 <= j < i ==> #[trigger] s[j] == c,
    ensures
        strip_leading(s, c) == strip_leading(s.skip(i), c),
    decreases i,
{
    if i > 0 {
        assert(s[0] == c);
        lemma_strip_leading_skip(s.drop_first(), c, i - 1);
        assert(s.drop_first().skip(i - 1) == s.skip(i));
    } else {
        assert(s.skip(0) == s);
    }
}

/// `trim_start_matches(c)`.
pub fn strip_leading_exec(v: &[char], c: char) -> (r: Vec<char>)
    ensures
        r@ == strip_leading(v@, c),
{
    let mut i: usize = 0;
    while i < v.len() && v[i] == c
        invariant
            i <= v.len(),
            forall|j: int| 0 <= j < i ==> #[trigger] v@[j] == c,
        decreases v.len() - i,
    {
        i += 1;
    }
    proof {
        lemma_strip_leading_skip(v@, c, i as int);
        if i < v.len() {
            assert(v@.skip(i as int)[0] == v@[i as int]);
        }
    }
    slice_chars(v, i, v.len())
}

/// `@@ -OLD[,n] +NEW[,n] @@` → start line numbers. Garbage headers yield `(0, 0)`.
pub fn hunk_starts(line: &[char]) -> (r: (u32, u32))
    ensures
        r == hunk_starts_spec(line@),
{
    let at = str_chars("@@");
    proof {
        reveal_strlit("@@");
    }
    if !starts_with_chars(line, at.as_slice()) {
        return (0, 0);
    }
    let rest = slice_chars(line, 2, line.len());
    assert(rest@ == line@.skip(2));
    let ws = split_words(rest.as_slice());
    let empty: Vec<char> = Vec::new();
    let old_tok = if ws.len() > 0 {
        strip_leading_exec(ws[0].as_slice(), '-')
    } else {
        strip_leading_exec(empty.as_slice(), '-')
    };
    let new_tok = if ws.len() > 1 {
        strip_leading_exec(ws[1].as_slice(), '+')
    } else {
        strip_leading_exec(empty.as_slice(), '+')
    };
    proof {
        assert(ws@.len() == words(line@.skip(2)).len());
        if ws@.len() > 0 {
            assert(ws@[0]@ == words(line@.skip(2))[0]);
        }
        if ws@.len() > 1 {
            assert(ws@[1]@ == words(line@.skip(2))[1]);
        }
        assert(empty@ == Seq::<char>::empty());
    }
    (parse_hunk_count(old_tok.as_slice()), parse_hunk_count(new_tok.as_slice()))
}

/// `Binary files … differ`.
pub fn is_binary_marker_exec(line: &[char]) -> (r: bool)
    ensures
        r == is_binary_marker(line@),
{
    let a = str_chars("Binary files ");
    let b = str_chars(" differ");
    starts_with_chars(line, a.as_slice()) && ends_with_chars(line, b.as_slice())
}

/// Parser state over real hunks.
pub struct Parser {
    pub hunks: Vec<Hunk>,
    pub open: bool,
    pub old_no: u32,
    pub new_no: u32,
}

impl View for Parser {
    type V = ParseState;

    open spec fn view(&self) -> ParseState {
        ParseState {
            hunks: hunk_views(self.hunks@),
            open: self.open,
            old_no: self.old_no,
            new_no: self.new_no,
        }
    }
}

/// A fresh parsed line.
pub fn make_line(kind: DiffCellKind, text: &[char], old_no: Option<u32>, new_no: Option<u32>) -> (l: ParsedLine)
    ensures
        l@ == mk_line(kind, text@, old_no, new_no),
{
    ParsedLine { kind, text: string_from_chars(text), old_no, new_no }
}

/// Append `l` to the last hunk.
pub fn push_to_last(hunks: Vec<Hunk>, l: ParsedLine) -> (r: Vec<Hunk>)
    requires
        hunks.len() > 0,
    ensures
        r.len() == hunks.len(),
        hunk_views(r@) == ({
            let last = hunk_views(hunks@).last();
            hunk_views(hunks@).update(
                hunks.len() - 1,
                HunkView { header: last.header, lines: last.lines.push(l@) },
            )
        }),
{
    let mut hunks = hunks;
    let ghost before = hunks@;
    let mut h = hunks.pop().unwrap();
    let ghost old_lines = h.lines@;
    h.lines.push(l);
    proof {
        assert(line_views(h.lines@) =~= line_views(old_lines).push(l@));
    }
    hunks.push(h);
    proof {
        assert(hunks@ =~= before.update(before.len() - 1, h));
        assert(hunk_views(hunks@) =~= hunk_views(before).update(
            before.len() - 1,
            HunkView { header: hunk_views(before).last().header, lines: hunk_views(before).last().lines.push(l@) },
        ));
    }
    hunks
}

/// One line applied to the parser.
pub fn parse_step_exec(st: Parser, line: &[char]) -> (r: Parser)
    requires
        st.open ==> st.hunks.len() > 0,
    ensures
        r@ == parse_step(st@, line@),
        r.open ==> r.hunks.len() > 0,
{
    let mut st = st;
    if is_binary_marker_exec(line) {
        let ghost before = st.hunks@;
        let h = Hunk {
            header: String::new(),
            lines: vec![make_line(DiffCellKind::Meta, line, None, None)],
        };
        proof {
            assert(line_views(h.lines@) =~= seq![mk_line(DiffCellKind::Meta, line@, None, None)]);
        }
        st.hunks.push(h);
        st.open = false;
        proof {
            assert(hunk_views(st.hunks@) =~= hunk_views(before).push(h@));
        }
        return st;
    }
    let at = str_chars("@@");
    if starts_with_chars(line, at.as_slice()) {
        let (o, n) = hunk_starts(line);
        let ghost before = st.hunks@;
        let h = Hunk { header: string_from_chars(line), lines: Vec::new() };
        proof {
            assert(line_views(h.lines@) =~= Seq::<LineView>::empty());
        }
        st.hunks.push(h);
        st.open = true;
        st.old_no = o;
        st.new_no = n;
        proof {
            assert(hunk_views(st.hunks@) =~= hunk_views(before).push(h@));
        }
        return st;
    }
    if !st.open {
        return st;
    }
    let bs = str_chars("\\");
    let plus = str_chars("+");
    let minus = str_chars("-");
    let space = str_chars(" ");
    proof {
        reveal_strlit("+");
        reveal_strlit("-");
        reveal_strlit(" ");
    }
    if starts_with_chars(line, bs.as_slice()) {
        let l = make_line(DiffCellKind::Meta, line, None, None);
        st.hunks = push_to_last(st.hunks, l);
        return st;
    }
    if starts_with_chars(line, plus.as_slice()) {
        let text = slice_chars(line, 1, line.len());
        assert(text@ == line@.drop_first());
        let l = make_line(DiffCellKind::Add, text.as_slice(), None, Some(st.new_no));
        st.hunks = push_to_last(st.hunks, l);
        st.new_no = st.new_no.saturating_add(1);
        return st;
    }
    if starts_with_chars(line, minus.as_slice()) {
        let text = slice_chars(line, 1, line.len());
        assert(text@ == line@.drop_first());
        let l = make_line(DiffCellKind::Del, text.as_slice(), Some(st.old_no), None);
        st.hunks = push_to_last(st.hunks, l);
        st.old_no = st.old_no.saturating_add(1);
        return st;
    }
    if starts_with_chars(line, space.as_slice()) || line.len() == 0 {
        let text = if line.len() > 0 {
            slice_chars(line, 1, line.len())
        } else {
            slice_chars(line, 0, 0)
        };
        assert(text@ == (if line@.len() > 0 {
            line@.drop_first()
        } else {
            line@
        }));
        let l = make_line(DiffCellKind::Ctx, text.as_slice(), Some(st.old_no), Some(st.new_no));
        st.hunks = push_to_last(st.hunks, l);
        st.old_no = st.old_no.saturating_add(1);
        st.new_no = st.new_no.saturating_add(1);
        return st;
    }
    let l = make_line(DiffCellKind::Meta, line, None, None);
    st.hunks = push_to_last(st.hunks, l);
    st
}

/// Raw lines of a diff: newlines normalised, one trailing empty line dropped.
pub fn diff_lines_exec(v: &[char]) -> (r: Vec<Vec<char>>)
    ensures
        views(r@) == diff_lines(v@),
{
    let norm = normalize_newlines_exec(v);
    let mut raw = split_chars(norm.as_slice(), '\n');
    if raw.len() > 0 && raw[raw.len() - 1].len() == 0 {
        let ghost before = raw@;
        raw.pop();
        proof {
            assert(views(raw@) =~= views(before).drop_last());
        }
    }
    raw
}

/// Parse a unified diff into hunks. File headers are skipped until the first `@@`.
pub fn parse_unified_diff(text: &str) -> (hunks: Vec<Hunk>)
    ensures
        hunk_views(hunks@) == parse_unified_diff_spec(text@),
{
    let chars = str_chars(text);
    let (lo, hi) = trim_bounds(chars.as_slice());
    if lo == hi {
        return Vec::new();
    }
    let lines = diff_lines_exec(chars.as_slice());
    let mut st = Parser { hunks: Vec::new(), open: false, old_no: 0, new_no: 0 };
    proof {
        assert(st@ == parse_prefix(views(lines@), 0)) by {
            assert(hunk_views(st.hunks@) =~= Seq::<HunkView>::empty());
        }
    }
    let mut i: usize = 0;
    while i < lines.len()
        invariant
            i <= lines.len(),
            st@ == parse_prefix(views(lines@), i as nat),
            st.open ==> st.hunks.len() > 0,
        decreases lines.len() - i,
    {
        st = parse_step_exec(st, lines[i].as_slice());
        i += 1;
    }
    st.hunks
}

/* ── Rows ──────────────────────────────────────────────────────────────── */

/// Which line number a cell shows.
#[derive(Clone, Copy, Debug, PartialEq, Eq, Structural)]
pub enum Side {
    Old,
    New,
}

/// Cell for one side of a parsed line (falls back to the other number).
pub open spec fn cell_spec(l: LineView, side: Side) -> CellView {
    CellView {
        kind: l.kind,
        text: l.text,
        line_no: match side {
            Side::Old => if l.old_no is Some {
                l.old_no
            } else {
                l.new_no
            },
            Side::New => if l.new_no is Some {
                l.new_no
            } else {
                l.old_no
            },
        },
    }
}

/// Blank filler cell.
pub open spec fn empty_cell_spec() -> CellView {
    CellView { kind: DiffCellKind::Empty, text: Seq::empty(), line_no: None }
}

/// Hunk header row, unless the header is empty (binary marker hunks).
pub open spec fn header_rows(h: HunkView) -> Seq<RowView> {
    if h.header.len() > 0 {
        seq![RowView::Hunk { text: h.header }]
    } else {
        Seq::empty()
    }
}

/// One inline row per parsed line.
pub open spec fn inline_hunk_rows(h: HunkView) -> Seq<RowView> {
    header_rows(h) + h.lines.map_values(|l: LineView| RowView::Line { left: cell_spec(l, Side::New), right: None })
}

/// Inline layout of every hunk.
pub open spec fn inline_rows_spec(hs: Seq<HunkView>) -> Seq<RowView>
    decreases hs.len(),
{
    if hs.len() == 0 {
        Seq::empty()
    } else {
        inline_rows_spec(hs.drop_last()) + inline_hunk_rows(hs.last())
    }
}

/// Length of the leading run of `k` lines.
pub open spec fn run_len(lines: Seq<LineView>, k: DiffCellKind) -> nat
    decreases lines.len(),
{
    if lines.len() > 0 && lines[0].kind == k {
        1 + run_len(lines.drop_first(), k)
    } else {
        0
    }
}

pub proof fn lemma_run_len(lines: Seq<LineView>, k: DiffCellKind)
    ensures
        run_len(lines, k) <= lines.len(),
        forall|j: int| 0 <= j < run_len(lines, k) ==> (#[trigger] lines[j]).kind == k,
        run_len(lines, k) < lines.len() ==> lines[run_len(lines, k) as int].kind != k,
    decreases lines.len(),
{
    if lines.len() > 0 && lines[0].kind == k {
        lemma_run_len(lines.drop_first(), k);
        assert forall|j: int| 0 <= j < run_len(lines, k) implies (#[trigger] lines[j]).kind == k by {
            if j > 0 {
                assert(lines[j] == lines.drop_first()[j - 1]);
            }
        }
    }
}

/// Deletions beside additions, padded with blank cells.
pub open spec fn zip_rows(dels: Seq<LineView>, adds: Seq<LineView>) -> Seq<RowView> {
    let n = if dels.len() >= adds.len() {
        dels.len()
    } else {
        adds.len()
    };
    Seq::new(
        n,
        |j: int|
            RowView::Line {
                left: if j < dels.len() {
                    cell_spec(dels[j], Side::Old)
                } else {
                    empty_cell_spec()
                },
                right: Some(
                    if j < adds.len() {
                        cell_spec(adds[j], Side::New)
                    } else {
                        empty_cell_spec()
                    },
                ),
            },
    )
}

/// Side-by-side rows of one hunk body: context on both sides, each run
/// of deletions paired with the run of additions that follows it.
pub open spec fn pair_lines(lines: Seq<LineView>) -> Seq<RowView>
    decreases lines.len(),
{
    if lines.len() == 0 {
        Seq::empty()
    } else if lines[0].kind == DiffCellKind::Meta {
        seq![RowView::Line { left: cell_spec(lines[0], Side::Old), right: None }] + pair_lines(
            lines.drop_first(),
        )
    } else if lines[0].kind == DiffCellKind::Ctx {
        seq![
            RowView::Line {
                left: cell_spec(lines[0], Side::Old),
                right: Some(cell_spec(lines[0], Side::New)),
            },
        ] + pair_lines(lines.drop_first())
    } else {
        let a = run_len(lines, DiffCellKind::Del);
        proof {
            lemma_run_len(lines, DiffCellKind::Del);
            lemma_run_len(lines.skip(a as int), DiffCellKind::Add);
        }
        let rest = lines.skip(a as int);
        let b = run_len(rest, DiffCellKind::Add);
        if a + b == 0 {
            Seq::empty()
        } else {
            zip_rows(lines.take(a as int), rest.take(b as int)) + pair_lines(rest.skip(b as int))
        }
    }
}

/// Side-by-side layout of every hunk.
pub open spec fn split_rows_spec(hs: Seq<HunkView>) -> Seq<RowView>
    decreases hs.len(),
{
    if hs.len() == 0 {
        Seq::empty()
    } else {
        split_rows_spec(hs.drop_last()) + header_rows(hs.last()) + pair_lines(hs.last().lines)
    }
}

/// No parsed line is a blank filler cell (the parser never makes one).
pub open spec fn no_empty_kind(lines: Seq<LineView>) -> bool {
    forall|j: int| 0 <= j < lines.len() ==> (#[trigger] lines[j]).kind != DiffCellKind::Empty
}

/// Hunks as the parser makes them.
pub open spec fn hunks_well_formed(hs: Seq<HunkView>) -> bool {
    forall|i: int| 0 <= i < hs.len() ==> no_empty_kind(#[trigger] hs[i].lines)
}

pub proof fn lemma_parse_prefix_well_formed(lines: Seq<Seq<char>>, i: nat)
    ensures
        hunks_well_formed(parse_prefix(lines, i).hunks),
        parse_prefix(lines, i).open ==> parse_prefix(lines, i).hunks.len() > 0,
    decreases i,
{
    if i > 0 && i <= lines.len() {
        lemma_parse_prefix_well_formed(lines, (i - 1) as nat);
        let st = parse_prefix(lines, (i - 1) as nat);
        let nx = parse_step(st, lines[i - 1]);
        assert forall|k: int| 0 <= k < nx.hunks.len() implies no_empty_kind(#[trigger] nx.hunks[k].lines) by {
            if k < st.hunks.len() && k != st.hunks.len() - 1 {
                assert(nx.hunks[k] == st.hunks[k]);
            }
        }
    }
}

/// Hunks from the parser never carry filler cells.
pub proof fn lemma_parse_well_formed(text: Seq<char>)
    ensures
        hunks_well_formed(parse_unified_diff_spec(text)),
{
    lemma_parse_prefix_well_formed(diff_lines(text), diff_lines(text).len());
}

/// The line rows of `rows`, in order (section and hunk headers left out).
pub open spec fn line_rows(rows: Seq<RowView>) -> Seq<RowView>
    decreases rows.len(),
{
    if rows.len() == 0 {
        Seq::empty()
    } else {
        let r = line_rows(rows.drop_last());
        if rows.last() is Line { r.push(rows.last()) } else { r }
    }
}

/// Every parsed line of the hunks, hunk after hunk.
pub open spec fn all_lines(hs: Seq<HunkView>) -> Seq<LineView>
    decreases hs.len(),
{
    if hs.len() == 0 {
        Seq::empty()
    } else {
        all_lines(hs.drop_last()) + hs.last().lines
    }
}

/// `c` paints line `l` with its new-file number (the old one for a deletion).
pub open spec fn shows_new_number(c: CellView, l: LineView) -> bool {
    &&& c.kind == l.kind
    &&& c.text == l.text
    &&& c.line_no == (if l.new_no is Some { l.new_no } else { l.old_no })
}

/// `c` paints line `l` with its old-file number (the new one for an addition).
pub open spec fn shows_old_number(c: CellView, l: LineView) -> bool {
    &&& c.kind == l.kind
    &&& c.text == l.text
    &&& c.line_no == (if l.old_no is Some { l.old_no } else { l.new_no })
}

/// `r` is the inline row of line `l`: its cell alone, with the new-file number.
pub open spec fn inline_row_of(r: RowView, l: LineView) -> bool {
    r matches RowView::Line { left, right } && (right is None && shows_new_number(left, l))
}

proof fn lemma_line_rows_append(x: Seq<RowView>, y: Seq<RowView>)
    ensures
        line_rows(x + y) == line_rows(x) + line_rows(y),
    decreases y.len(),
{
    if y.len() == 0 {
        assert(x + y =~= x);
        assert(line_rows(y) =~= Seq::<RowView>::empty());
        assert(line_rows(x) + line_rows(y) =~= line_rows(x));
    } else {
        assert((x + y).drop_last() =~= x + y.drop_last());
        assert((x + y).last() == y.last());
        lemma_line_rows_append(x, y.drop_last());
        if y.last() is Line {
            assert(line_rows(x) + line_rows(y) =~= (line_rows(x) + line_rows(y.drop_last())).push(y.last()));
        }
    }
}

proof fn lemma_line_rows_of_lines(ls: Seq<LineView>)
    ensures
        ({
            let rows = ls.map_values(|l: LineView| RowView::Line { left: cell_spec(l, Side::New), right: None });
            line_rows(rows) == rows
        }),
    decreases ls.len(),
{
    let rows = ls.map_values(|l: LineView| RowView::Line { left: cell_spec(l, Side::New), right: None });
    if ls.len() > 0 {
        lemma_line_rows_of_lines(ls.drop_last());
        let p = ls.drop_last().map_values(|l: LineView| RowView::Line { left: cell_spec(l, Side::New), right: None });
        assert(rows.drop_last() =~= p);
        assert(rows =~= p.push(rows.last()));
    } else {
        assert(rows =~= Seq::<RowView>::empty());
    }
}

/// Inline layout paints one row per parsed line, in order, each with its
/// new-file number: a context line shows where it sits in the new file, so
/// the numbers of the rows that are not deletions run on without gaps.
pub proof fn lemma_inline_rows_show_new_numbers(hs: Seq<HunkView>)
    ensures
        ({
            let ls = line_rows(inline_rows_spec(hs));
            let al = all_lines(hs);
            &&& ls.len() == al.len()
            &&& forall|j: int| 0 <= j < ls.len() ==> inline_row_of(#[trigger] ls[j], al[j])
        }),
    decreases hs.len(),
{
    if hs.len() > 0 {
        let h = hs.last();
        let p = hs.drop_last();
        lemma_inline_rows_show_new_numbers(p);
        let mapped = h.lines.map_values(|l: LineView| RowView::Line { left: cell_spec(l, Side::New), right: None });
        lemma_line_rows_append(inline_rows_spec(p), header_rows(h) + mapped);
        lemma_line_rows_append(header_rows(h), mapped);
        lemma_line_rows_of_lines(h.lines);
        if h.header.len() > 0 {
            assert(line_rows(header_rows(h)).len() == 0) by {
                let hr = header_rows(h);
                assert(hr.drop_last() =~= Seq::<RowView>::empty());
                assert(hr.last() == (RowView::Hunk { text: h.header }));
                assert(line_rows(hr.drop_last()) =~= Seq::<RowView>::empty());
            }
        }
        assert(line_rows(header_rows(h)) =~= Seq::<RowView>::empty());
        let ls = line_rows(inline_rows_spec(hs));
        let lp = line_rows(inline_rows_spec(p));
        assert(ls =~= lp + mapped);
        let al = all_lines(hs);
        assert(al == all_lines(p) + h.lines);
        assert forall|j: int| 0 <= j < ls.len() implies inline_row_of(#[trigger] ls[j], al[j]) by {
            if j < lp.len() {
                assert(ls[j] == lp[j]);
                assert(al[j] == all_lines(p)[j]);
            } else {
                assert(ls[j] == mapped[j - lp.len()]);
                assert(al[j] == h.lines[j - lp.len()]);
            }
        }
    } else {
        assert(line_rows(inline_rows_spec(hs)) =~= Seq::<RowView>::empty());
    }
}

/// The cell a row paints on one side: the right one (`right_side`) or the left.
pub open spec fn row_cell(r: RowView, right_side: bool) -> Option<CellView> {
    match r {
        RowView::Line { left, right } => if right_side { right } else { Some(left) },
        _ => None,
    }
}

/// The cells of kind `k` painted on one side of `rows`, in order.
pub open spec fn side_cells(rows: Seq<RowView>, right_side: bool, k: DiffCellKind) -> Seq<CellView>
    decreases rows.len(),
{
    if rows.len() == 0 {
        Seq::empty()
    } else {
        let r = side_cells(rows.drop_last(), right_side, k);
        match row_cell(rows.last(), right_side) {
            Some(c) => if c.kind == k { r.push(c) } else { r },
            None => r,
        }
    }
}

/// The parsed lines of kind `k`, in order.
pub open spec fn lines_of_kind(ls: Seq<LineView>, k: DiffCellKind) -> Seq<LineView>
    decreases ls.len(),
{
    if ls.len() == 0 {
        Seq::empty()
    } else {
        let r = lines_of_kind(ls.drop_last(), k);
        if ls.last().kind == k { r.push(ls.last()) } else { r }
    }
}

pub open spec fn side_of(right_side: bool) -> Side {
    if right_side { Side::New } else { Side::Old }
}

pub open spec fn side_cells_of_lines(ls: Seq<LineView>, right_side: bool) -> Seq<CellView> {
    ls.map_values(|l: LineView| cell_spec(l, side_of(right_side)))
}

/// Kinds a side can paint: additions and context on the right; deletions,
/// context and metadata on the left.
pub open spec fn side_kind(rs: bool, k: DiffCellKind) -> bool {
    if rs {
        k == DiffCellKind::Add || k == DiffCellKind::Ctx
    } else {
        k == DiffCellKind::Del || k == DiffCellKind::Ctx || k == DiffCellKind::Meta
    }
}

/// The change kind a side pairs up: additions on the right, deletions on the left.
pub open spec fn change_side(rs: bool, k: DiffCellKind) -> bool {
    (rs && k == DiffCellKind::Add) || (!rs && k == DiffCellKind::Del)
}

proof fn lemma_side_cells_append(x: Seq<RowView>, y: Seq<RowView>, rs: bool, k: DiffCellKind)
    ensures
        side_cells(x + y, rs, k) == side_cells(x, rs, k) + side_cells(y, rs, k),
    decreases y.len(),
{
    if y.len() == 0 {
        assert(x + y =~= x);
        assert(side_cells(x, rs, k) + side_cells(y, rs, k) =~= side_cells(x, rs, k));
    } else {
        assert((x + y).drop_last() =~= x + y.drop_last());
        assert((x + y).last() == y.last());
        lemma_side_cells_append(x, y.drop_last(), rs, k);
        let r0 = side_cells(x, rs, k) + side_cells(y.drop_last(), rs, k);
        match row_cell(y.last(), rs) {
            Some(c) => if c.kind == k {
                assert(side_cells(x, rs, k) + side_cells(y, rs, k) =~= r0.push(c));
            },
            None => {},
        }
    }
}

proof fn lemma_lines_of_kind_append(x: Seq<LineView>, y: Seq<LineView>, k: DiffCellKind)
    ensures
        lines_of_kind(x + y, k) == lines_of_kind(x, k) + lines_of_kind(y, k),
    decreases y.len(),
{
    if y.len() == 0 {
        assert(x + y =~= x);
        assert(lines_of_kind(x, k) + lines_of_kind(y, k) =~= lines_of_kind(x, k));
    } else {
        assert((x + y).drop_last() =~= x + y.drop_last());
        assert((x + y).last() == y.last());
        lemma_lines_of_kind_append(x, y.drop_last(), k);
        if y.last().kind == k {
            assert(lines_of_kind(x, k) + lines_of_kind(y, k) =~= (lines_of_kind(x, k) + lines_of_kind(
                y.drop_last(),
                k,
            )).push(y.last()));
        }
    }
}

proof fn lemma_lines_of_kind_all(ls: Seq<LineView>, k: DiffCellKind, j: DiffCellKind)
    requires
        forall|i: int| 0 <= i < ls.len() ==> (#[trigger] ls[i]).kind == j,
    ensures
        lines_of_kind(ls, k) == (if k == j { ls } else { Seq::empty() }),
    decreases ls.len(),
{
    if ls.len() > 0 {
        lemma_lines_of_kind_all(ls.drop_last(), k, j);
        assert(ls.last().kind == j);
        if k == j {
            assert(ls.drop_last().push(ls.last()) =~= ls);
        }
    } else {
        assert(ls =~= Seq::<LineView>::empty());
    }
}

proof fn lemma_zip_side_cells(d: Seq<LineView>, ad: Seq<LineView>, rs: bool, k: DiffCellKind, m: int)
    requires
        forall|i: int| 0 <= i < d.len() ==> (#[trigger] d[i]).kind == DiffCellKind::Del,
        forall|i: int| 0 <= i < ad.len() ==> (#[trigger] ad[i]).kind == DiffCellKind::Add,
        side_kind(rs, k),
        0 <= m <= zip_rows(d, ad).len(),
    ensures
        ({
            let src = if rs { ad } else { d };
            side_cells(zip_rows(d, ad).take(m), rs, k) == if change_side(rs, k) {
                side_cells_of_lines(src.take(if m < src.len() { m } else { src.len() as int }), rs)
            } else {
                Seq::empty()
            }
        }),
    decreases m,
{
    let z = zip_rows(d, ad);
    let src = if rs { ad } else { d };
    if m == 0 {
        assert(z.take(0) =~= Seq::<RowView>::empty());
        assert(side_cells_of_lines(src.take(0), rs) =~= Seq::<CellView>::empty());
    } else {
        lemma_zip_side_cells(d, ad, rs, k, m - 1);
        assert(z.take(m).drop_last() =~= z.take(m - 1));
        assert(z.take(m).last() == z[m - 1]);
        if m - 1 < src.len() && change_side(rs, k) {
            assert(src.take(m).drop_last() =~= src.take(m - 1));
            assert(side_cells_of_lines(src.take(m), rs) =~= side_cells_of_lines(src.take(m - 1), rs).push(
                cell_spec(src[m - 1], side_of(rs)),
            ));
        }
    }
}

proof fn lemma_tail_no_empty(ls: Seq<LineView>, n: int)
    requires
        no_empty_kind(ls),
        0 <= n <= ls.len(),
    ensures
        no_empty_kind(ls.skip(n)),
{
    assert forall|j: int| 0 <= j < ls.skip(n).len() implies (#[trigger] ls.skip(n)[j]).kind != DiffCellKind::Empty by {
        assert(ls.skip(n)[j] == ls[j + n]);
    }
}

proof fn lemma_pair_head_case(ls: Seq<LineView>, rs: bool, k: DiffCellKind)
    requires
        ls.len() > 0,
        ls[0].kind == DiffCellKind::Meta || ls[0].kind == DiffCellKind::Ctx,
        side_kind(rs, k),
        side_cells(pair_lines(ls.drop_first()), rs, k) == side_cells_of_lines(lines_of_kind(ls.drop_first(), k), rs),
    ensures
        side_cells(pair_lines(ls), rs, k) == side_cells_of_lines(lines_of_kind(ls, k), rs),
{
    let first = seq![ls[0]];
    let tail = ls.drop_first();
    let head = if ls[0].kind == DiffCellKind::Meta {
        seq![RowView::Line { left: cell_spec(ls[0], Side::Old), right: None }]
    } else {
        seq![RowView::Line { left: cell_spec(ls[0], Side::Old), right: Some(cell_spec(ls[0], Side::New)) }]
    };
    assert(pair_lines(ls) == head + pair_lines(tail));
    lemma_side_cells_append(head, pair_lines(tail), rs, k);
    assert(head.drop_last() =~= Seq::<RowView>::empty());
    assert(side_cells(head.drop_last(), rs, k) =~= Seq::<CellView>::empty());
    assert(first + tail =~= ls);
    lemma_lines_of_kind_append(first, tail, k);
    assert(first.drop_last() =~= Seq::<LineView>::empty());
    assert(lines_of_kind(first.drop_last(), k) =~= Seq::<LineView>::empty());
    assert(first.last() == ls[0]);
    assert(head.last() == head[0]);
    if ls[0].kind == k && (!rs || ls[0].kind == DiffCellKind::Ctx) {
        assert(lines_of_kind(first, k) =~= first);
        assert(side_cells(head, rs, k) =~= seq![cell_spec(ls[0], side_of(rs))]);
        assert(side_cells_of_lines(first, rs) =~= seq![cell_spec(ls[0], side_of(rs))]);
    } else {
        assert(lines_of_kind(first, k) =~= Seq::<LineView>::empty());
        assert(side_cells(head, rs, k) =~= Seq::<CellView>::empty());
    }
    assert(side_cells_of_lines(lines_of_kind(ls, k), rs) =~= side_cells_of_lines(lines_of_kind(first, k), rs)
        + side_cells_of_lines(lines_of_kind(tail, k), rs));
}

/// The change run at the front of `ls`: its deletions, its additions, and
/// the lines after it.
pub open spec fn run_parts(ls: Seq<LineView>) -> (Seq<LineView>, Seq<LineView>, Seq<LineView>) {
    let a = run_len(ls, DiffCellKind::Del);
    let rest = ls.skip(a as int);
    let b = run_len(rest, DiffCellKind::Add);
    (ls.take(a as int), rest.take(b as int), rest.skip(b as int))
}

proof fn lemma_run_parts(ls: Seq<LineView>)
    requires
        ls.len() > 0,
        ls[0].kind == DiffCellKind::Del || ls[0].kind == DiffCellKind::Add,
    ensures
        ({
            let (dels, adds, after) = run_parts(ls);
            &&& pair_lines(ls) == zip_rows(dels, adds) + pair_lines(after)
            &&& ls == dels + adds + after
            &&& dels.len() + adds.len() > 0
            &&& forall|i: int| 0 <= i < dels.len() ==> (#[trigger] dels[i]).kind == DiffCellKind::Del
            &&& forall|i: int| 0 <= i < adds.len() ==> (#[trigger] adds[i]).kind == DiffCellKind::Add
            &&& after.len() < ls.len()
            &&& after == ls.skip((dels.len() + adds.len()) as int)
            &&& after.len() > 0 ==> after[0].kind != DiffCellKind::Add
            &&& (after.len() > 0 && adds.len() == 0) ==> after[0].kind != DiffCellKind::Del
        }),
{
    let a = run_len(ls, DiffCellKind::Del);
    lemma_run_len(ls, DiffCellKind::Del);
    let rest = ls.skip(a as int);
    lemma_run_len(rest, DiffCellKind::Add);
    let b = run_len(rest, DiffCellKind::Add);
    if a == 0 {
        assert(rest =~= ls);
    }
    let dels = ls.take(a as int);
    let adds = rest.take(b as int);
    let after = rest.skip(b as int);
    assert forall|i: int| 0 <= i < dels.len() implies (#[trigger] dels[i]).kind == DiffCellKind::Del by {
        assert(dels[i] == ls[i]);
    }
    assert forall|i: int| 0 <= i < adds.len() implies (#[trigger] adds[i]).kind == DiffCellKind::Add by {
        assert(adds[i] == rest[i]);
    }
    assert(ls =~= dels + adds + after);
    assert(after =~= ls.skip((a + b) as int));
    if after.len() > 0 {
        assert(after[0] == rest[b as int]);
        if b == 0 {
            assert(rest[0] == ls[a as int]);
        }
    }
}

proof fn lemma_pair_run_case(ls: Seq<LineView>, rs: bool, k: DiffCellKind)
    requires
        ls.len() > 0,
        ls[0].kind == DiffCellKind::Del || ls[0].kind == DiffCellKind::Add,
        side_kind(rs, k),
        side_cells(pair_lines(run_parts(ls).2), rs, k) == side_cells_of_lines(lines_of_kind(run_parts(ls).2, k), rs),
    ensures
        side_cells(pair_lines(ls), rs, k) == side_cells_of_lines(lines_of_kind(ls, k), rs),
{
    lemma_run_parts(ls);
    let (dels, adds, after) = run_parts(ls);
    let z = zip_rows(dels, adds);
    lemma_zip_side_cells(dels, adds, rs, k, z.len() as int);
    assert(z.take(z.len() as int) =~= z);
    let src = if rs { adds } else { dels };
    assert(src.take(src.len() as int) =~= src);
    lemma_side_cells_append(z, pair_lines(after), rs, k);
    lemma_lines_of_kind_append(dels + adds, after, k);
    lemma_lines_of_kind_append(dels, adds, k);
    lemma_lines_of_kind_all(dels, k, DiffCellKind::Del);
    lemma_lines_of_kind_all(adds, k, DiffCellKind::Add);
    let lk = lines_of_kind(ls, k);
    if change_side(rs, k) {
        if rs {
            assert(lk =~= adds + lines_of_kind(after, k));
        } else {
            assert(lk =~= dels + lines_of_kind(after, k));
        }
        assert(side_cells_of_lines(lk, rs) =~= side_cells_of_lines(src, rs) + side_cells_of_lines(
            lines_of_kind(after, k),
            rs,
        ));
    } else {
        assert(lk =~= lines_of_kind(after, k));
        assert(side_cells(pair_lines(ls), rs, k) =~= side_cells(pair_lines(after), rs, k));
    }
}

proof fn lemma_pair_lines_side_cells(ls: Seq<LineView>, rs: bool, k: DiffCellKind)
    requires
        no_empty_kind(ls),
        side_kind(rs, k),
    ensures
        side_cells(pair_lines(ls), rs, k) == side_cells_of_lines(lines_of_kind(ls, k), rs),
    decreases ls.len(),
{
    if ls.len() == 0 {
        assert(side_cells_of_lines(lines_of_kind(ls, k), rs) =~= Seq::<CellView>::empty());
    } else if ls[0].kind == DiffCellKind::Meta || ls[0].kind == DiffCellKind::Ctx {
        lemma_tail_no_empty(ls, 1);
        assert(ls.skip(1) =~= ls.drop_first());
        lemma_pair_lines_side_cells(ls.drop_first(), rs, k);
        lemma_pair_head_case(ls, rs, k);
    } else {
        assert(ls[0].kind != DiffCellKind::Empty);
        lemma_run_parts(ls);
        let n = run_parts(ls).0.len() + run_parts(ls).1.len();
        lemma_tail_no_empty(ls, n as int);
        lemma_pair_lines_side_cells(run_parts(ls).2, rs, k);
        lemma_pair_run_case(ls, rs, k);
    }
}

/// Side-by-side rows a hunk body needs, counted line by line: a metadata
/// or context line takes a row of its own; a change run of `d` deletions
/// followed by `a` additions takes max(d, a) rows, the deletions beside the
/// additions. `d` and `a` count the run read so far.
pub open spec fn rows_needed_from(ls: Seq<LineView>, d: nat, a: nat) -> nat
    decreases ls.len(),
{
    let run = if d >= a { d } else { a };
    if ls.len() == 0 {
        run
    } else if ls[0].kind == DiffCellKind::Del {
        if a > 0 {
            run + rows_needed_from(ls.drop_first(), 1, 0)
        } else {
            rows_needed_from(ls.drop_first(), d + 1, 0)
        }
    } else if ls[0].kind == DiffCellKind::Add {
        rows_needed_from(ls.drop_first(), d, a + 1)
    } else {
        run + 1 + rows_needed_from(ls.drop_first(), 0, 0)
    }
}

proof fn lemma_rows_needed_dels(dels: Seq<LineView>, x: Seq<LineView>, d: nat)
    requires
        forall|i: int| 0 <= i < dels.len() ==> (#[trigger] dels[i]).kind == DiffCellKind::Del,
    ensures
        rows_needed_from(dels + x, d, 0) == rows_needed_from(x, d + dels.len(), 0),
    decreases dels.len(),
{
    if dels.len() > 0 {
        assert((dels + x).drop_first() =~= dels.drop_first() + x);
        assert((dels + x)[0] == dels[0]);
        assert forall|i: int| 0 <= i < dels.drop_first().len() implies (#[trigger] dels.drop_first()[i]).kind
            == DiffCellKind::Del by {
            assert(dels.drop_first()[i] == dels[i + 1]);
        }
        lemma_rows_needed_dels(dels.drop_first(), x, d + 1);
    } else {
        assert(dels + x =~= x);
    }
}

proof fn lemma_rows_needed_adds(adds: Seq<LineView>, x: Seq<LineView>, d: nat, a: nat)
    requires
        forall|i: int| 0 <= i < adds.len() ==> (#[trigger] adds[i]).kind == DiffCellKind::Add,
    ensures
        rows_needed_from(adds + x, d, a) == rows_needed_from(x, d, a + adds.len()),
    decreases adds.len(),
{
    if adds.len() > 0 {
        assert((adds + x).drop_first() =~= adds.drop_first() + x);
        assert((adds + x)[0] == adds[0]);
        assert forall|i: int| 0 <= i < adds.drop_first().len() implies (#[trigger] adds.drop_first()[i]).kind
            == DiffCellKind::Add by {
            assert(adds.drop_first()[i] == adds[i + 1]);
        }
        lemma_rows_needed_adds(adds.drop_first(), x, d, a + 1);
    } else {
        assert(adds + x =~= x);
    }
}

proof fn lemma_pair_lines_len(ls: Seq<LineView>)
    requires
        no_empty_kind(ls),
    ensures
        pair_lines(ls).len() == rows_needed_from(ls, 0, 0),
    decreases ls.len(),
{
    if ls.len() == 0 {
    } else if ls[0].kind == DiffCellKind::Meta || ls[0].kind == DiffCellKind::Ctx {
        lemma_tail_no_empty(ls, 1);
        assert(ls.skip(1) =~= ls.drop_first());
        lemma_pair_lines_len(ls.drop_first());
    } else {
        assert(ls[0].kind != DiffCellKind::Empty);
        lemma_run_parts(ls);
        let (dels, adds, after) = run_parts(ls);
        lemma_tail_no_empty(ls, (dels.len() + adds.len()) as int);
        lemma_pair_lines_len(after);
        assert(ls == dels + (adds + after)) by {
            assert(dels + adds + after =~= dels + (adds + after));
        }
        lemma_rows_needed_dels(dels, adds + after, 0);
        lemma_rows_needed_adds(adds, after, dels.len(), 0);
        let d = dels.len();
        let b = adds.len();
        if after.len() > 0 {
            assert(after.drop_first().len() < after.len());
        }
    }
}

proof fn lemma_header_side_cells(h: HunkView, rs: bool, k: DiffCellKind)
    ensures
        side_cells(header_rows(h), rs, k) == Seq::<CellView>::empty(),
{
    let hr = header_rows(h);
    if h.header.len() > 0 {
        assert(hr.drop_last() =~= Seq::<RowView>::empty());
        assert(side_cells(hr.drop_last(), rs, k) =~= Seq::<CellView>::empty());
        assert(hr.last() == (RowView::Hunk { text: h.header }));
    } else {
        assert(hr =~= Seq::<RowView>::empty());
    }
}

proof fn lemma_split_side_cells(hs: Seq<HunkView>, rs: bool, k: DiffCellKind)
    requires
        hunks_well_formed(hs),
        side_kind(rs, k),
    ensures
        side_cells(split_rows_spec(hs), rs, k) == side_cells_of_lines(lines_of_kind(all_lines(hs), k), rs),
    decreases hs.len(),
{
    if hs.len() == 0 {
        assert(all_lines(hs) =~= Seq::<LineView>::empty());
        assert(side_cells_of_lines(lines_of_kind(all_lines(hs), k), rs) =~= Seq::<CellView>::empty());
    } else {
        let p = hs.drop_last();
        let h = hs.last();
        assert(hunks_well_formed(p)) by {
            assert forall|i: int| 0 <= i < p.len() implies no_empty_kind(#[trigger] p[i].lines) by {
                assert(p[i] == hs[i]);
            }
        }
        assert(no_empty_kind(h.lines)) by {
            assert(h == hs[hs.len() - 1]);
        }
        lemma_split_side_cells(p, rs, k);
        lemma_pair_lines_side_cells(h.lines, rs, k);
        lemma_header_side_cells(h, rs, k);
        lemma_side_cells_append(split_rows_spec(p) + header_rows(h), pair_lines(h.lines), rs, k);
        lemma_side_cells_append(split_rows_spec(p), header_rows(h), rs, k);
        lemma_lines_of_kind_append(all_lines(p), h.lines, k);
        assert(side_cells_of_lines(lines_of_kind(all_lines(hs), k), rs) =~= side_cells_of_lines(
            lines_of_kind(all_lines(p), k),
            rs,
        ) + side_cells_of_lines(lines_of_kind(h.lines, k), rs));
        assert(side_cells(split_rows_spec(p), rs, k) + side_cells(header_rows(h), rs, k) =~= side_cells(
            split_rows_spec(p),
            rs,
            k,
        ));
    }
}

/// Across a whole side-by-side diff, each side shows exactly its lines, in
/// order: on the right every addition and context line with its new-file
/// number; on the left every deletion, context and metadata line with its
/// old-file number.
pub proof fn lemma_side_by_side_keeps_every_line(hs: Seq<HunkView>, rs: bool, k: DiffCellKind)
    requires
        hunks_well_formed(hs),
        side_kind(rs, k),
    ensures
        ({
            let cells = side_cells(split_rows_spec(hs), rs, k);
            let ls = lines_of_kind(all_lines(hs), k);
            &&& cells.len() == ls.len()
            &&& forall|j: int| 0 <= j < ls.len() ==> if rs {
                shows_new_number(#[trigger] cells[j], ls[j])
            } else {
                shows_old_number(cells[j], ls[j])
            }
        }),
{
    lemma_split_side_cells(hs, rs, k);
}

/// Side-by-side layout takes exactly the rows the body needs: one per
/// metadata or context line, and max(deletions, additions) per change run.
pub proof fn lemma_side_by_side_row_count(ls: Seq<LineView>)
    requires
        no_empty_kind(ls),
    ensures
        pair_lines(ls).len() == rows_needed_from(ls, 0, 0),
{
    lemma_pair_lines_len(ls);
}

/// Side-by-side layout keeps every added line, in order, as a right cell
/// with its new-file number, and every deleted line, in order, as a left
/// cell with its old-file number: pairing a run of deletions with the run
/// of additions that follows drops none of either.
pub proof fn lemma_side_by_side_keeps_changes(ls: Seq<LineView>)
    requires
        no_empty_kind(ls),
    ensures
        ({
            let rows = pair_lines(ls);
            let adds = lines_of_kind(ls, DiffCellKind::Add);
            let dels = lines_of_kind(ls, DiffCellKind::Del);
            let right = side_cells(rows, true, DiffCellKind::Add);
            let left = side_cells(rows, false, DiffCellKind::Del);
            &&& right.len() == adds.len()
            &&& forall|j: int| 0 <= j < right.len() ==> shows_new_number(#[trigger] right[j], adds[j])
            &&& left.len() == dels.len()
            &&& forall|j: int| 0 <= j < left.len() ==> shows_old_number(#[trigger] left[j], dels[j])
        }),
{
    lemma_pair_lines_side_cells(ls, true, DiffCellKind::Add);
    lemma_pair_lines_side_cells(ls, false, DiffCellKind::Del);
}

/// Side-by-side layout shows every context line on both sides, in order,
/// its old-file number on the left and its new-file number on the right,
/// and every metadata line on the left.
pub proof fn lemma_side_by_side_keeps_context(ls: Seq<LineView>)
    requires
        no_empty_kind(ls),
    ensures
        ({
            let rows = pair_lines(ls);
            let ctx = lines_of_kind(ls, DiffCellKind::Ctx);
            let meta = lines_of_kind(ls, DiffCellKind::Meta);
            let left = side_cells(rows, false, DiffCellKind::Ctx);
            let right = side_cells(rows, true, DiffCellKind::Ctx);
            let notes = side_cells(rows, false, DiffCellKind::Meta);
            &&& left.len() == ctx.len() && right.len() == ctx.len()
            &&& forall|j: int| 0 <= j < ctx.len() ==> shows_old_number(#[trigger] left[j], ctx[j])
            &&& forall|j: int| 0 <= j < ctx.len() ==> shows_new_number(#[trigger] right[j], ctx[j])
            &&& notes.len() == meta.len()
            &&& forall|j: int| 0 <= j < meta.len() ==> shows_old_number(#[trigger] notes[j], meta[j])
        }),
{
    lemma_pair_lines_side_cells(ls, true, DiffCellKind::Ctx);
    lemma_pair_lines_side_cells(ls, false, DiffCellKind::Ctx);
    lemma_pair_lines_side_cells(ls, false, DiffCellKind::Meta);
}

/// Cell for one side of a parsed line.
pub fn cell_from_line(line: &ParsedLine, side: Side) -> (c: DiffCell)
    ensures
        c@ == cell_spec(line@, side),
{
    let line_no = match side {
        Side::Old => if line.old_no.is_some() {
            line.old_no
        } else {
            line.new_no
        },
        Side::New => if line.new_no.is_some() {
            line.new_no
        } else {
            line.old_no
        },
    };
    DiffCell { kind: line.kind, text: line.text.clone(), line_no }
}

/// Blank filler cell.
pub fn empty_cell() -> (c: DiffCell)
    ensures
        c@ == empty_cell_spec(),
{
    DiffCell { kind: DiffCellKind::Empty, text: String::new(), line_no: None }
}

/// Appends the header row of `h` when it has one.
fn push_header(out: &mut Vec<DiffRow>, h: &Hunk)
    ensures
        row_views(final(out)@) == row_views(old(out)@) + header_rows(h@),
{
    let ghost before = out@;
    if !h.header.as_str().is_empty() {
        out.push(DiffRow::Hunk { text: h.header.clone() });
    }
    assert(row_views(out@) =~= row_views(before) + header_rows(h@));
}

/// Inline rows: one cell per parsed line, each hunk after its header row.
pub fn inline_rows(hunks: &Vec<Hunk>) -> (rows: Vec<DiffRow>)
    ensures
        row_views(rows@) == inline_rows_spec(hunk_views(hunks@)),
{
    let mut out: Vec<DiffRow> = Vec::new();
    let mut i: usize = 0;
    while i < hunks.len()
        invariant
            i <= hunks.len(),
            row_views(out@) == inline_rows_spec(hunk_views(hunks@.take(i as int))),
        decreases hunks.len() - i,
    {
        let h = &hunks[i];
        let ghost start = row_views(out@);
        push_header(&mut out, h);
        let ghost mid = row_views(out@);
        let mut k: usize = 0;
        while k < h.lines.len()
            invariant
                k <= h.lines.len(),
                row_views(out@) == mid + line_views(h.lines@).take(k as int).map_values(
                    |l: LineView| RowView::Line { left: cell_spec(l, Side::New), right: None },
                ),
            decreases h.lines.len() - k,
        {
            let ghost prev = out@;
            out.push(DiffRow::Line { left: cell_from_line(&h.lines[k], Side::New), right: None });
            k += 1;
            proof {
                assert(line_views(h.lines@).take(k as int) =~= line_views(h.lines@).take(k - 1).push(
                    h.lines@[k - 1]@,
                ));
                assert(row_views(out@) =~= row_views(prev).push(
                    RowView::Line { left: cell_spec(h.lines@[k - 1]@, Side::New), right: None },
                ));
            }
        }
        proof {
            assert(line_views(h.lines@).take(k as int) =~= line_views(h.lines@));
            let hv = hunk_views(hunks@.take(i + 1));
            assert(hv.drop_last() =~= hunk_views(hunks@.take(i as int)));
            assert(hv.last() == h@);
        }
        i += 1;
    }
    assert(hunks@.take(hunks.len() as int) =~= hunks@);
    out
}

/// `run_len` equals a run measured by a scan.
proof fn lemma_run_len_is(ls: Seq<LineView>, k: DiffCellKind, lo: int, hi: int)
    requires
        0 <= lo <= hi <= ls.len(),
        forall|t: int| lo <= t < hi ==> (#[trigger] ls[t]).kind == k,
        hi == ls.len() || ls[hi].kind != k,
    ensures
        run_len(ls.skip(lo), k) == hi - lo,
{
    let rest = ls.skip(lo);
    lemma_run_len(rest, k);
    let r = run_len(rest, k) as int;
    if r < hi - lo {
        assert(rest[r] == ls[lo + r]);
    }
    if r > hi - lo {
        assert(rest[hi - lo] == ls[hi]);
    }
}

/// Unfolds `pair_lines` at a run of deletions followed by additions.
proof fn lemma_pair_run(ls: Seq<LineView>, a_start: int, b_start: int, end: int)
    requires
        0 <= a_start <= b_start <= end <= ls.len(),
        a_start < end,
        no_empty_kind(ls),
        ls[a_start].kind != DiffCellKind::Meta,
        ls[a_start].kind != DiffCellKind::Ctx,
        forall|t: int| a_start <= t < b_start ==> (#[trigger] ls[t]).kind == DiffCellKind::Del,
        b_start == ls.len() || ls[b_start].kind != DiffCellKind::Del,
        forall|t: int| b_start <= t < end ==> (#[trigger] ls[t]).kind == DiffCellKind::Add,
        end == ls.len() || ls[end].kind != DiffCellKind::Add,
    ensures
        pair_lines(ls.skip(a_start)) == zip_rows(ls.subrange(a_start, b_start), ls.subrange(b_start, end))
            + pair_lines(ls.skip(end)),
{
    let rest = ls.skip(a_start);
    assert(rest[0] == ls[a_start]);
    let na = b_start - a_start;
    let nb = end - b_start;
    lemma_run_len_is(ls, DiffCellKind::Del, a_start, b_start);
    assert(rest.skip(na) =~= ls.skip(b_start));
    lemma_run_len_is(ls, DiffCellKind::Add, b_start, end);
    assert(ls.skip(b_start).skip(nb) =~= ls.skip(end));
    assert(rest.take(na) =~= ls.subrange(a_start, b_start));
    assert(ls.skip(b_start).take(nb) =~= ls.subrange(b_start, end));
}

/// Appends `zip_rows` of `lines[a_start..b_start]` and `lines[b_start..end]`.
fn push_zip(out: &mut Vec<DiffRow>, lines: &Vec<ParsedLine>, a_start: usize, b_start: usize, end: usize)
    requires
        a_start <= b_start <= end <= lines.len(),
    ensures
        row_views(final(out)@) == row_views(old(out)@) + zip_rows(
            line_views(lines@).subrange(a_start as int, b_start as int),
            line_views(lines@).subrange(b_start as int, end as int),
        ),
{
    let ghost ls = line_views(lines@);
    let ghost base = row_views(out@);
    let ghost z = zip_rows(ls.subrange(a_start as int, b_start as int), ls.subrange(b_start as int, end as int));
    let na = b_start - a_start;
    let nb = end - b_start;
    let n = if na >= nb {
        na
    } else {
        nb
    };
    let mut j: usize = 0;
    while j < n
        invariant
            j <= n,
            na == b_start - a_start,
            nb == end - b_start,
            a_start <= b_start <= end <= lines.len(),
            n == (if na >= nb {
                na
            } else {
                nb
            }),
            ls == line_views(lines@),
            z == zip_rows(ls.subrange(a_start as int, b_start as int), ls.subrange(b_start as int, end as int)),
            row_views(out@) == base + z.take(j as int),
        decreases n - j,
    {
        let left = if j < na {
            cell_from_line(&lines[a_start + j], Side::Old)
        } else {
            empty_cell()
        };
        let right = if j < nb {
            cell_from_line(&lines[b_start + j], Side::New)
        } else {
            empty_cell()
        };
        let ghost prev = row_views(out@);
        out.push(DiffRow::Line { left, right: Some(right) });
        proof {
            assert(z.take(j + 1) =~= z.take(j as int).push(z[j as int]));
            assert(row_views(out@) =~= prev.push(z[j as int]));
        }
        j += 1;
    }
    proof {
        assert(z.take(n as int) =~= z);
    }
}

/// Side-by-side rows of one hunk body.
pub fn pair_hunk(hunk: &Hunk) -> (rows: Vec<DiffRow>)
    requires
        no_empty_kind(hunk@.lines),
    ensures
        row_views(rows@) == pair_lines(hunk@.lines),
{
    let lines = &hunk.lines;
    let ghost ls = line_views(lines@);
    let mut out: Vec<DiffRow> = Vec::new();
    let mut i: usize = 0;
    assert(ls.skip(0) =~= ls);
    while i < lines.len()
        invariant
            i <= lines.len(),
            ls == line_views(lines@),
            ls.len() == lines.len(),
            no_empty_kind(ls),
            pair_lines(ls) == row_views(out@) + pair_lines(ls.skip(i as int)),
        decreases lines.len() - i,
    {
        let ghost rest = ls.skip(i as int);
        let ghost base = row_views(out@);
        assert(rest[0] == lines@[i as int]@);
        let kind = lines[i].kind;
        if kind == DiffCellKind::Meta {
            out.push(DiffRow::Line { left: cell_from_line(&lines[i], Side::Old), right: None });
            proof {
                assert(rest.drop_first() =~= ls.skip(i + 1));
                assert(row_views(out@) =~= base + seq![RowView::Line { left: cell_spec(rest[0], Side::Old), right: None }]);
            }
            i += 1;
        } else if kind == DiffCellKind::Ctx {
            out.push(
                DiffRow::Line {
                    left: cell_from_line(&lines[i], Side::Old),
                    right: Some(cell_from_line(&lines[i], Side::New)),
                },
            );
            proof {
                assert(rest.drop_first() =~= ls.skip(i + 1));
                assert(row_views(out@) =~= base + seq![
                    RowView::Line {
                        left: cell_spec(rest[0], Side::Old),
                        right: Some(cell_spec(rest[0], Side::New)),
                    },
                ]);
            }
            i += 1;
        } else {
            let a_start = i;
            while i < lines.len() && lines[i].kind == DiffCellKind::Del
                invariant
                    a_start <= i <= lines.len(),
                    ls == line_views(lines@),
                    forall|t: int| a_start <= t < i ==> (#[trigger] ls[t]).kind == DiffCellKind::Del,
                decreases lines.len() - i,
            {
                i += 1;
            }
            let b_start = i;
            while i < lines.len() && lines[i].kind == DiffCellKind::Add
                invariant
                    b_start <= i <= lines.len(),
                    ls == line_views(lines@),
                    forall|t: int| b_start <= t < i ==> (#[trigger] ls[t]).kind == DiffCellKind::Add,
                decreases lines.len() - i,
            {
                i += 1;
            }
            proof {
                if i == a_start {
                    assert(ls[a_start as int].kind != DiffCellKind::Empty);
                }
                lemma_pair_run(ls, a_start as int, b_start as int, i as int);
            }
            push_zip(&mut out, lines, a_start, b_start, i);
        }
    }
    assert(ls.skip(i as int) =~= Seq::<LineView>::empty());
    out
}

/// Side-by-side layout: each hunk header, then its paired body rows.
pub fn side_by_side_rows(hunks: &Vec<Hunk>) -> (rows: Vec<DiffRow>)
    requires
        hunks_well_formed(hunk_views(hunks@)),
    ensures
        row_views(rows@) == split_rows_spec(hunk_views(hunks@)),
{
    let mut out: Vec<DiffRow> = Vec::new();
    let mut i: usize = 0;
    while i < hunks.len()
        invariant
            i <= hunks.len(),
            hunks_well_formed(hunk_views(hunks@)),
            row_views(out@) == split_rows_spec(hunk_views(hunks@.take(i as int))),
        decreases hunks.len() - i,
    {
        let h = &hunks[i];
        assert(hunk_views(hunks@)[i as int] == h@);
        push_header(&mut out, h);
        let ghost mid = row_views(out@);
        let body = pair_hunk(h);
        let ghost bv = row_views(body@);
        let mut body = body;
        out.append(&mut body);
        proof {
            assert(row_views(out@) =~= mid + bv);
            let hv = hunk_views(hunks@.take(i + 1));
            assert(hv.drop_last() =~= hunk_views(hunks@.take(i as int)));
            assert(hv.last() == h@);
        }
        i += 1;
    }
    assert(hunks@.take(hunks.len() as int) =~= hunks@);
    out
}

/// Staged + unstaged unified text for one file.
#[derive(Clone, Debug, Default, PartialEq, Eq)]
pub struct DiffContent {
    pub staged: String,
    pub unstaged: String,
    /// Label the unstaged section `NEW` (untracked synthesised as all-add).
    pub is_new: bool,
}

/// Model of a [`DiffContent`].
pub struct ContentView {
    pub staged: Seq<char>,
    pub unstaged: Seq<char>,
    pub is_new: bool,
}

impl View for DiffContent {
    type V = ContentView;

    open spec fn view(&self) -> ContentView {
        ContentView { staged: self.staged@, unstaged: self.unstaged@, is_new: self.is_new }
    }
}

/// `sep` between consecutive items.
pub open spec fn join_spec(items: Seq<Seq<char>>, sep: Seq<char>) -> Seq<char>
    decreases items.len(),
{
    if items.len() == 0 {
        Seq::empty()
    } else if items.len() == 1 {
        items[0]
    } else {
        join_spec(items.drop_last(), sep) + sep + items.last()
    }
}

impl DiffContent {
    /// Unstaged-only unified text (commit / stash diffs).
    pub fn from_unified(text: String) -> (c: Self)
        ensures
            c@ == (ContentView { staged: Seq::empty(), unstaged: text@, is_new: false }),
    {
        DiffContent { staged: String::new(), unstaged: text, is_new: false }
    }

    /// Join raw git lines into unstaged-only content.
    pub fn from_lines(lines: Vec<String>) -> (c: Self)
        ensures
            c@ == (ContentView {
                staged: Seq::empty(),
                unstaged: join_spec(string_views(lines@), "\n"@),
                is_new: false,
            }),
    {
        let mut out = String::new();
        let mut i: usize = 0;
        while i < lines.len()
            invariant
                i <= lines.len(),
                out@ == join_spec(string_views(lines@.take(i as int)), "\n"@),
            decreases lines.len() - i,
        {
            let ghost prev = out@;
            if i > 0 {
                push_str(&mut out, "\n");
            }
            push_str(&mut out, lines[i].as_str());
            proof {
                let sv = string_views(lines@.take(i + 1));
                assert(sv.drop_last() =~= string_views(lines@.take(i as int)));
                assert(sv.last() == lines@[i as int]@);
                if i == 0 {
                    assert(sv.len() == 1);
                }
            }
            i += 1;
        }
        assert(lines@.take(lines.len() as int) =~= lines@);
        Self::from_unified(out)
    }

    /// True when both slots are empty or whitespace.
    pub fn is_blank(&self) -> (b: bool)
        ensures
            b == (trim(self.staged@).len() == 0 && trim(self.unstaged@).len() == 0),
    {
        crate::text::str_is_blank(self.staged.as_str()) && crate::text::str_is_blank(self.unstaged.as_str())
    }
}

/// Inline or side-by-side rows of parsed hunks.
pub open spec fn render_spec(hs: Seq<HunkView>, mode: DiffMode) -> Seq<RowView> {
    if mode == DiffMode::SideBySide {
        split_rows_spec(hs)
    } else {
        inline_rows_spec(hs)
    }
}

/// Rows for both diff sections. Empty sections are omitted.
pub open spec fn build_diff_rows_spec(c: ContentView, mode: DiffMode) -> Seq<RowView> {
    let staged = parse_unified_diff_spec(c.staged);
    let unstaged = parse_unified_diff_spec(c.unstaged);
    (if staged.len() > 0 {
        seq![RowView::Section(DiffSection::Staged)] + render_spec(staged, mode)
    } else {
        Seq::empty()
    }) + (if unstaged.len() > 0 {
        seq![
            RowView::Section(
                if c.is_new {
                    DiffSection::New
                } else {
                    DiffSection::Unstaged
                },
            ),
        ] + render_spec(unstaged, mode)
    } else {
        Seq::empty()
    })
}

fn render(hunks: &Vec<Hunk>, mode: DiffMode, text: &String) -> (rows: Vec<DiffRow>)
    requires
        hunk_views(hunks@) == parse_unified_diff_spec(text@),
    ensures
        row_views(rows@) == render_spec(hunk_views(hunks@), mode),
{
    if mode == DiffMode::SideBySide {
        proof {
            lemma_parse_well_formed(text@);
        }
        side_by_side_rows(hunks)
    } else {
        inline_rows(hunks)
    }
}

/// Rows for both diff sections. Empty sections are omitted.
pub fn build_diff_rows(content: &DiffContent, mode: DiffMode) -> (rows: Vec<DiffRow>)
    ensures
        row_views(rows@) == build_diff_rows_spec(content@, mode),
{
    let mut out: Vec<DiffRow> = Vec::new();
    let staged = parse_unified_diff(content.staged.as_str());
    if staged.len() > 0 {
        out.push(DiffRow::Section(DiffSection::Staged));
        let mut r = render(&staged, mode, &content.staged);
        let ghost a = row_views(out@);
        let ghost b = row_views(r@);
        out.append(&mut r);
        assert(row_views(out@) =~= a + b);
    }
    let ghost mid = row_views(out@);
    let unstaged = parse_unified_diff(content.unstaged.as_str());
    if unstaged.len() > 0 {
        let section = if content.is_new {
            DiffSection::New
        } else {
            DiffSection::Unstaged
        };
        out.push(DiffRow::Section(section));
        let mut r = render(&unstaged, mode, &content.unstaged);
        let ghost a = row_views(out@);
        let ghost b = row_views(r@);
        out.append(&mut r);
        assert(row_views(out@) =~= a + b);
    }
    proof {
        let s = parse_unified_diff_spec(content@.staged);
        if s.len() == 0 {
            assert(mid =~= Seq::<RowView>::empty());
        }
        assert(row_views(out@) =~= build_diff_rows_spec(content@, mode));
    }
    out
}

/* ── Gutter, labels, header ────────────────────────────────────────────── */

/// Largest line number shown on a row (0 for non-line rows).
pub open spec fn row_max_line(r: RowView) -> nat {
    match r {
        RowView::Line { left, right } => {
            let l: nat = match left.line_no {
                Some(n) => n as nat,
                None => 0,
            };
            let rt: nat = match right {
                Some(c) => match c.line_no {
                    Some(n) => n as nat,
                    None => 0,
                },
                None => 0,
            };
            if l >= rt {
                l
            } else {
                rt
            }
        },
        _ => 0,
    }
}

/// Largest line number on any row.
pub open spec fn max_line(rows: Seq<RowView>) -> nat
    decreases rows.len(),
{
    if rows.len() == 0 {
        0
    } else {
        let a = max_line(rows.drop_last());
        let b = row_max_line(rows.last());
        if a >= b {
            a
        } else {
            b
        }
    }
}

proof fn lemma_max_line_bound(rows: Seq<RowView>)
    ensures
        max_line(rows) <= u32::MAX,
    decreases rows.len(),
{
    if rows.len() > 0 {
        lemma_max_line_bound(rows.drop_last());
    }
}

/// Widest line number in the rows — sizes the gutter column. Floor is 2.
pub fn gutter_width(rows: &[DiffRow]) -> (w: usize)
    ensures
        w == (if decimal(max_line(row_views(rows@))).len() >= 2 {
            decimal(max_line(row_views(rows@))).len()
        } else {
            2
        }),
{
    let mut max: u32 = 0;
    let mut i: usize = 0;
    while i < rows.len()
        invariant
            i <= rows.len(),
            max == max_line(row_views(rows@.take(i as int))),
        decreases rows.len() - i,
    {
        let ghost prev = rows@.take(i as int);
        match &rows[i] {
            DiffRow::Line { left, right } => {
                let l = match left.line_no {
                    Some(n) => n,
                    None => 0,
                };
                if l > max {
                    max = l;
                }
                match right {
                    Some(c) => {
                        let r = match c.line_no {
                            Some(n) => n,
                            None => 0,
                        };
                        if r > max {
                            max = r;
                        }
                    },
                    None => {},
                }
            },
            _ => {},
        }
        proof {
            let rv = row_views(rows@.take(i + 1));
            assert(rv.drop_last() =~= row_views(prev));
            assert(rv.last() == rows@[i as int]@);
        }
        i += 1;
    }
    assert(rows@.take(rows.len() as int) =~= rows@);
    let digits = decimal_chars(max as u64);
    if digits.len() >= 2 {
        digits.len()
    } else {
        2
    }
}

/// Section header text.
pub fn section_header(section: DiffSection) -> (s: &'static str)
    ensures
        s@ == match section {
            DiffSection::Staged => "STAGED"@,
            DiffSection::Unstaged => "UNSTAGED"@,
            DiffSection::New => "NEW"@,
        },
{
    match section {
        DiffSection::Staged => "STAGED",
        DiffSection::Unstaged => "UNSTAGED",
        DiffSection::New => "NEW",
    }
}

/// Sign glyph for a cell kind.
pub fn cell_sign(kind: DiffCellKind) -> (c: char)
    ensures
        c == match kind {
            DiffCellKind::Add => '+',
            DiffCellKind::Del => '-',
            _ => ' ',
        },
{
    match kind {
        DiffCellKind::Add => '+',
        DiffCellKind::Del => '-',
        DiffCellKind::Ctx | DiffCellKind::Meta | DiffCellKind::Empty => ' ',
    }
}

/// Code-column width inside one cell (`width - gutter - " │ " - sign`).
pub fn cell_code_width(col_width: usize, gutter: usize) -> (w: usize)
    ensures
        w == (if col_width - (gutter + 4) >= 1 {
            col_width - (gutter + 4)
        } else {
            1
        }),
{
    let g = gutter.saturating_add(4);
    let w = col_width.saturating_sub(g);
    proof {
        if gutter + 4 > usize::MAX {
            assert(col_width - (gutter + 4) < 1);
        }
    }
    if w >= 1 {
        w
    } else {
        1
    }
}

/// User-facing layout word, including the narrow-fallback note.
pub fn diff_pane_mode_label(mode: DiffMode, effective: DiffMode) -> (s: &'static str)
    ensures
        s@ == (if mode == DiffMode::SideBySide && effective == DiffMode::Inline {
            "inline (too narrow)"@
        } else if effective == DiffMode::Inline {
            "inline"@
        } else {
            "split"@
        }),
{
    if mode == DiffMode::SideBySide && effective == DiffMode::Inline {
        "inline (too narrow)"
    } else if effective == DiffMode::Inline {
        "inline"
    } else {
        "split"
    }
}

/// `{title}  {mode}[ · full][ · pan N][  shown/total]`.
pub open spec fn diff_pane_header_spec(
    path: Seq<char>,
    mode_label: Seq<char>,
    full: bool,
    pan: u16,
    start: nat,
    view_h: nat,
    row_count: nat,
) -> Seq<char> {
    let title = if path.len() == 0 {
        "Diff"@
    } else {
        path
    };
    let shown = if start + view_h <= row_count {
        start + view_h
    } else {
        row_count
    };
    title + "  "@ + mode_label + (if full {
        " · full"@
    } else {
        Seq::empty()
    }) + (if pan > 0 {
        " · pan "@ + decimal(pan as nat)
    } else {
        Seq::empty()
    }) + (if row_count > view_h {
        "  "@ + decimal(shown) + "/"@ + decimal(row_count)
    } else {
        Seq::empty()
    })
}

/// One-line `{path}  inline|split · full?` header (plus pan / scroll when set).
#[verifier::rlimit(40)]
pub fn diff_pane_header(
    path: &str,
    mode_label: &str,
    full: bool,
    pan: u16,
    start: usize,
    view_h: usize,
    row_count: usize,
) -> (s: String)
    requires
        start + view_h <= usize::MAX,
    ensures
        s@ == diff_pane_header_spec(
            path@,
            mode_label@,
            full,
            pan,
            start as nat,
            view_h as nat,
            row_count as nat,
        ),
{
    let mut out = String::new();
    if path.is_empty() {
        push_str(&mut out, "Diff");
    } else {
        push_str(&mut out, path);
    }
    push_str(&mut out, "  ");
    push_str(&mut out, mode_label);
    let ghost a = out@;
    let mut tail1 = String::new();
    if full {
        push_str(&mut tail1, " · full");
    }
    let mut tail2 = String::new();
    if pan > 0 {
        push_str(&mut tail2, " · pan ");
        push_decimal(&mut tail2, pan as u64);
    }
    let mut tail3 = String::new();
    if row_count > view_h {
        let shown = if start + view_h <= row_count {
            start + view_h
        } else {
            row_count
        };
        push_str(&mut tail3, "  ");
        push_decimal(&mut tail3, shown as u64);
        push_str(&mut tail3, "/");
        push_decimal(&mut tail3, row_count as u64);
    }
    push_str(&mut out, tail1.as_str());
    push_str(&mut out, tail2.as_str());
    push_str(&mut out, tail3.as_str());
    out
}

/* ── Search and scroll ─────────────────────────────────────────────────── */

/// Search text for one painted row (code / hunk / section, not raw git).
pub open spec fn row_search_text_spec(r: RowView) -> Seq<char> {
    match r {
        RowView::Section(section) => match section {
            DiffSection::Staged => "STAGED"@,
            DiffSection::Unstaged => "UNSTAGED"@,
            DiffSection::New => "NEW"@,
        },
        RowView::Hunk { text } => text,
        RowView::Line { left, right } => match right {
            Some(c) => if c.text.len() > 0 {
                left.text + " "@ + c.text
            } else {
                left.text
            },
            None => left.text,
        },
    }
}

/// Search text for one painted row (code / hunk / section, not raw git).
pub fn row_search_text(row: &DiffRow) -> (s: String)
    ensures
        s@ == row_search_text_spec(row@),
{
    match row {
        DiffRow::Section(section) => crate::text::owned(section_header(*section)),
        DiffRow::Hunk { text } => text.clone(),
        DiffRow::Line { left, right } => {
            let mut out = left.text.clone();
            match right {
                Some(r) => {
                    if !r.text.as_str().is_empty() {
                        push_str(&mut out, " ");
                        push_str(&mut out, r.text.as_str());
                    }
                },
                None => {},
            }
            out
        },
    }
}

/// Clamp vertical diff scroll so PageDown cannot grow past EOF.
pub fn clamp_diff_scroll(scroll: usize, row_count: usize, view_h: usize) -> (r: usize)
    ensures
        ({
            let h = if view_h >= 1 {
                view_h as int
            } else {
                1
            };
            let max_start = if row_count >= h {
                row_count - h
            } else {
                0
            };
            r == if scroll <= max_start {
                scroll as int
            } else {
                max_start
            }
        }),
{
    let h = if view_h >= 1 {
        view_h
    } else {
        1
    };
    let max_start = row_count.saturating_sub(h);
    if scroll <= max_start {
        scroll
    } else {
        max_start
    }
}

/// Scroll so `row_index` stays in the upper third of `view_h`.
pub fn scroll_to_keep_row(row_index: usize, view_h: usize, row_count: usize) -> (r: u16)
    ensures
        ({
            let h = if view_h >= 1 {
                view_h as int
            } else {
                1
            };
            let max_start = if row_count >= h {
                row_count - h
            } else {
                0
            };
            let want = if row_index >= h / 3 {
                row_index - h / 3
            } else {
                0
            };
            r == (if want <= max_start {
                want
            } else {
                max_start
            }) as u16
        }),
{
    let h = if view_h >= 1 {
        view_h
    } else {
        1
    };
    let max_start = row_count.saturating_sub(h);
    let prefer = h / 3;
    let want = row_index.saturating_sub(prefer);
    let v = if want <= max_start {
        want
    } else {
        max_start
    };
    v as u16
}

/// An added or deleted line on either side.
pub open spec fn is_change_row_spec(r: RowView) -> bool {
    match r {
        RowView::Line { left, right } => (left.kind == DiffCellKind::Add || left.kind == DiffCellKind::Del)
            || match right {
            Some(c) => c.kind == DiffCellKind::Add || c.kind == DiffCellKind::Del,
            None => false,
        },
        _ => false,
    }
}

/// A hunk header row.
pub open spec fn is_hunk_row_spec(r: RowView) -> bool {
    r is Hunk
}

/// True for an added or deleted line on either side.
pub fn is_change_row(row: &DiffRow) -> (b: bool)
    ensures
        b == is_change_row_spec(row@),
{
    match row {
        DiffRow::Line { left, right } => {
            let l = left.kind == DiffCellKind::Add || left.kind == DiffCellKind::Del;
            let r = match right {
                Some(c) => c.kind == DiffCellKind::Add || c.kind == DiffCellKind::Del,
                None => false,
            };
            l || r
        },
        _ => false,
    }
}

/// First visible add/del in the viewport, else nearest hunk at/above scroll.
#[verifier::loop_isolation(false)]
pub fn anchor_row_index(rows: &[DiffRow], scroll: usize, view_h: usize) -> (r: usize)
    requires
        rows.len() == 0 || ({
            let start = if scroll < rows.len() {
                scroll as int
            } else {
                rows.len() - 1
            };
            start + (if view_h >= 1 {
                view_h as int
            } else {
                1
            }) <= usize::MAX
        }),
    ensures
        rows.len() == 0 ==> r == 0,
        rows.len() > 0 ==> ({
            let rv = row_views(rows@);
            let start = if scroll < rows.len() {
                scroll as int
            } else {
                rows.len() - 1
            };
            let h = if view_h >= 1 {
                view_h as int
            } else {
                1
            };
            let end = if start + h <= rows.len() {
                start + h
            } else {
                rows.len() as int
            };
            ||| (start <= r < end && is_change_row_spec(rv[r as int]) && forall|j: int|
                start <= j < r ==> !is_change_row_spec(#[trigger] rv[j]))
            ||| ((forall|j: int| start <= j < end ==> !is_change_row_spec(#[trigger] rv[j])) && r
                <= start && is_hunk_row_spec(rv[r as int]) && forall|j: int|
                r < j <= start ==> !is_hunk_row_spec(#[trigger] rv[j]))
            ||| ((forall|j: int| start <= j < end ==> !is_change_row_spec(#[trigger] rv[j]))
                && (forall|j: int| 0 <= j <= start ==> !is_hunk_row_spec(#[trigger] rv[j])) && r
                == start)
        }),
{
    if rows.len() == 0 {
        return 0;
    }
    let ghost rv = row_views(rows@);
    let start = if scroll < rows.len() {
        scroll
    } else {
        rows.len() - 1
    };
    let h = if view_h >= 1 {
        view_h
    } else {
        1
    };
    let end = if start + h <= rows.len() {
        start + h
    } else {
        rows.len()
    };
    let mut i = start;
    while i < end
        invariant
            start <= i <= end <= rows.len(),
            rv == row_views(rows@),
            forall|j: int| start <= j < i ==> !is_change_row_spec(#[trigger] rv[j]),
        decreases end - i,
    {
        assert(rv[i as int] == rows@[i as int]@);
        if is_change_row(&rows[i]) {
            return i;
        }
        i += 1;
    }
    let mut k = start + 1;
    while k > 0
        invariant
            0 <= k <= start + 1,
            start < rows.len(),
            rv == row_views(rows@),
            forall|j: int| k <= j <= start ==> !is_hunk_row_spec(#[trigger] rv[j]),
        decreases k,
    {
        let is_hunk = match &rows[k - 1] {
            DiffRow::Hunk { .. } => true,
            _ => false,
        };
        assert(rv[k - 1] == rows@[k - 1]@);
        if is_hunk {
            return k - 1;
        }
        k -= 1;
    }
    start
}

/// `+line` for each line, each ending in a newline.
pub open spec fn add_lines_spec(lines: Seq<Seq<char>>) -> Seq<char>
    decreases lines.len(),
{
    if lines.len() == 0 {
        Seq::empty()
    } else {
        add_lines_spec(lines.drop_last()) + "+"@ + lines.last() + "\n"@
    }
}

/// Unified all-add diff body for an untracked file's text (no file headers).
pub open spec fn synthesize_all_add_diff_spec(text: Seq<char>) -> Seq<char> {
    let lines = diff_lines(text);
    if lines.len() == 0 {
        "@@ -0,0 +0,0 @@\n"@
    } else {
        "@@ -0,0 +1,"@ + decimal(lines.len()) + " @@\n"@ + add_lines_spec(lines)
    }
}

/// Build a unified all-add diff from file text (no file headers).
pub fn synthesize_all_add_diff(text: &str) -> (s: String)
    ensures
        s@ == synthesize_all_add_diff_spec(text@),
{
    let chars = str_chars(text);
    let lines = diff_lines_exec(chars.as_slice());
    if lines.len() == 0 {
        return crate::text::owned("@@ -0,0 +0,0 @@\n");
    }
    let mut out = String::new();
    push_str(&mut out, "@@ -0,0 +1,");
    push_decimal(&mut out, lines.len() as u64);
    push_str(&mut out, " @@\n");
    let ghost head = out@;
    let mut i: usize = 0;
    while i < lines.len()
        invariant
            i <= lines.len(),
            out@ == head + add_lines_spec(views(lines@).take(i as int)),
        decreases lines.len() - i,
    {
        push_str(&mut out, "+");
        crate::text::push_chars(&mut out, lines[i].as_slice());
        push_str(&mut out, "\n");
        proof {
            let v = views(lines@).take(i + 1);
            assert(v.drop_last() =~= views(lines@).take(i as int));
            assert(v.last() == lines@[i as int]@);
        }
        i += 1;
    }
    assert(views(lines@).take(lines.len() as int) =~= views(lines@));
    out
}

} // verus!
