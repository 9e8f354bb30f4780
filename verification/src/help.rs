//! Help overlay entries, `/` search (highlight only), and wrap layout.
//!
//! Three columns: MOVE / GIT / VIEW. Extra keys (`q`, Tab, picker `C`,
//! stash `a p D`, Home/End) stay in those groups.

use vstd::prelude::*;

use crate::text::{
    has_substr, is_ws, push_chars, push_str, split_chars, split_on, split_words, str_chars,
    string_from_chars, string_views, strings_from_runs, trim, trim_chars, views, words,
};

verus! {

/// One help row: key chips plus a short description.
#[derive(Clone, Copy, Debug, PartialEq, Eq)]
pub struct HelpEntry {
    pub keys: &'static str,
    pub desc: &'static str,
}

/// One help column.
#[derive(Clone, Debug, PartialEq, Eq)]
pub struct HelpGroup {
    pub title: &'static str,
    pub entries: Vec<HelpEntry>,
}

/// Help overlay stays on three groups.
pub const HELP_COLUMN_COUNT: usize = 3;

/// Idle help footer must mention overlay-local `/` search.
pub const HELP_IDLE_FOOTER_SNIPPET: &'static str = "/ search help";

/// Active help-search footer Esc hint.
pub const HELP_SEARCH_ESC_HINT: &'static str = "Esc clears search";

/// Round border (2) plus horizontal padding (1 each side).
pub const HELP_CHROME_COLS: usize = 4;

/// Chip cluster width: fits `Ctrl-u Ctrl-d` plus at least 2 columns before the description.
pub const HELP_KEY_WIDTH: usize = 18;

/// An entry as plain values: `(keys, description)`.
pub open spec fn entry_view(e: HelpEntry) -> (Seq<char>, Seq<char>) {
    (e.keys@, e.desc@)
}

/// A group as plain values: `(title, entries)`.
pub open spec fn group_view(g: HelpGroup) -> (Seq<char>, Seq<(Seq<char>, Seq<char>)>) {
    (g.title@, g.entries@.map_values(|e: HelpEntry| entry_view(e)))
}

/// Views of a list of groups.
pub open spec fn group_views(gs: Seq<HelpGroup>) -> Seq<(Seq<char>, Seq<(Seq<char>, Seq<char>)>)> {
    gs.map_values(|g: HelpGroup| group_view(g))
}

/// The key list shown in the `?` overlay, by column.
pub open spec fn help_table() -> Seq<(Seq<char>, Seq<(Seq<char>, Seq<char>)>)> {
    seq![
        ("MOVE"@, seq![
            ("j k"@, "down / up"@),
            ("h l"@, "fold \u{b7} pan when right+diff"@),
            ("z"@, "toggle fold (instant; no-op on graph/diff)"@),
            ("zz"@, "toggle subtree (no-op on graph/diff)"@),
            ("gg G"@, "top / bottom of focused pane"@),
            ("Home End"@, "top / bottom"@),
            ("/"@, "search focused pane (Enter arms)"@),
            ("n N"@, "next / prev match (after Enter)"@),
            ("Ctrl-Space ;"@, "EasyMotion on focused list"@),
        ]),
        ("GIT"@, seq![
            ("s"@, "stage scope"@),
            ("S"@, "stash menu"@),
            ("u"@, "unstage scope"@),
            ("x"@, "revert (y/Y)"@),
            ("e"@, "open in editor"@),
            ("space"@, "mark dirty file reviewed (eye)"@),
            ("f"@, "fetch remotes"@),
            ("p"@, "pull behind"@),
            ("P"@, "push ahead/diverged/new"@),
            ("d"@, "default branch"@),
            ("b"@, "depth 0 picker \u{b7} graph local/origin/*"@),
            ("m"@, "graph merge into HEAD"@),
            ("C"@, "create (in picker)"@),
            ("W"@, "remove linked worktree"@),
            ("r"@, "refresh now"@),
            ("a p D"@, "focused stash apply/pop/drop"@),
        ]),
        ("VIEW"@, seq![
            ("i"@, "inline / split"@),
            ("t"@, "flat / tree"@),
            ("."@, "show / hide ignored repos"@),
            ("T"@, "cycle theme"@),
            ("Ctrl-o"@, "full-file \u{b7} keep hunk in view"@),
            ("PgUp PgDn"@, "page focused pane"@),
            ("Ctrl-u Ctrl-d"@, "page focused \u{b1}5"@),
            ("m"@, "mouse \u{b7} drag pane or split divider"@),
            ("Esc"@, "back / unfocus \u{b7} never quit"@),
            ("Enter dblclick"@, "focus right / drill"@),
            ("?"@, "this help"@),
            ("Tab"@, "other pane"@),
            ("q"@, "quit"@),
            ("Ctrl-C Ctrl-C"@, "quit (press twice)"@),
        ]),
    ]
}

fn help_group_0() -> (g: HelpGroup)
    ensures
        group_view(g) == help_table()[0],
{
    let g = HelpGroup {
        title: "MOVE",
        entries: vec![
            HelpEntry { keys: "j k", desc: "down / up" },
            HelpEntry { keys: "h l", desc: "fold \u{b7} pan when right+diff" },
            HelpEntry { keys: "z", desc: "toggle fold (instant; no-op on graph/diff)" },
            HelpEntry { keys: "zz", desc: "toggle subtree (no-op on graph/diff)" },
            HelpEntry { keys: "gg G", desc: "top / bottom of focused pane" },
            HelpEntry { keys: "Home End", desc: "top / bottom" },
            HelpEntry { keys: "/", desc: "search focused pane (Enter arms)" },
            HelpEntry { keys: "n N", desc: "next / prev match (after Enter)" },
            HelpEntry { keys: "Ctrl-Space ;", desc: "EasyMotion on focused list" },
        ],
    };
    assert(group_view(g).1 =~= help_table()[0].1);
    g
}

fn help_group_1() -> (g: HelpGroup)
    ensures
        group_view(g) == help_table()[1],
{
    let g = HelpGroup {
        title: "GIT",
        entries: vec![
            HelpEntry { keys: "s", desc: "stage scope" },
            HelpEntry { keys: "S", desc: "stash menu" },
            HelpEntry { keys: "u", desc: "unstage scope" },
            HelpEntry { keys: "x", desc: "revert (y/Y)" },
            HelpEntry { keys: "e", desc: "open in editor" },
            HelpEntry { keys: "space", desc: "mark dirty file reviewed (eye)" },
            HelpEntry { keys: "f", desc: "fetch remotes" },
            HelpEntry { keys: "p", desc: "pull behind" },
            HelpEntry { keys: "P", desc: "push ahead/diverged/new" },
            HelpEntry { keys: "d", desc: "default branch" },
            HelpEntry { keys: "b", desc: "depth 0 picker \u{b7} graph local/origin/*" },
            HelpEntry { keys: "m", desc: "graph merge into HEAD" },
            HelpEntry { keys: "C", desc: "create (in picker)" },
            HelpEntry { keys: "W", desc: "remove linked worktree" },
            HelpEntry { keys: "r", desc: "refresh now" },
            HelpEntry { keys: "a p D", desc: "focused stash apply/pop/drop" },
        ],
    };
    assert(group_view(g).1 =~= help_table()[1].1);
    g
}

fn help_group_2() -> (g: HelpGroup)
    ensures
        group_view(g) == help_table()[2],
{
    let g = HelpGroup {
        title: "VIEW",
        entries: vec![
            HelpEntry { keys: "i", desc: "inline / split" },
            HelpEntry { keys: "t", desc: "flat / tree" },
            HelpEntry { keys: ".", desc: "show / hide ignored repos" },
            HelpEntry { keys: "T", desc: "cycle theme" },
            HelpEntry { keys: "Ctrl-o", desc: "full-file \u{b7} keep hunk in view" },
            HelpEntry { keys: "PgUp PgDn", desc: "page focused pane" },
            HelpEntry { keys: "Ctrl-u Ctrl-d", desc: "page focused \u{b1}5" },
            HelpEntry { keys: "m", desc: "mouse \u{b7} drag pane or split divider" },
            HelpEntry { keys: "Esc", desc: "back / unfocus \u{b7} never quit" },
            HelpEntry { keys: "Enter dblclick", desc: "focus right / drill" },
            HelpEntry { keys: "?", desc: "this help" },
            HelpEntry { keys: "Tab", desc: "other pane" },
            HelpEntry { keys: "q", desc: "quit" },
            HelpEntry { keys: "Ctrl-C Ctrl-C", desc: "quit (press twice)" },
        ],
    };
    assert(group_view(g).1 =~= help_table()[2].1);
    g
}

/// Short key list shown in the `?` overlay, grouped by column.
pub fn help_groups() -> (gs: Vec<HelpGroup>)
    ensures
        group_views(gs@) == help_table(),
{
    let gs = vec![help_group_0(), help_group_1(), help_group_2()];
    assert(group_views(gs@) =~= help_table());
    gs
}
/// Flattened entries of `gs`, column by column.
pub open spec fn flat_entries(gs: Seq<(Seq<char>, Seq<(Seq<char>, Seq<char>)>)>) -> Seq<(Seq<char>, Seq<char>)>
    decreases gs.len(),
{
    if gs.len() == 0 {
        Seq::empty()
    } else {
        flat_entries(gs.drop_last()) + gs.last().1
    }
}

/// Flattened help rows in column order (MOVE, then GIT, then VIEW).
pub fn help_entries() -> (es: Vec<HelpEntry>)
    ensures
        es@.map_values(|e: HelpEntry| entry_view(e)) == flat_entries(help_table()),
{
    let groups = help_groups();
    let mut out: Vec<HelpEntry> = Vec::new();
    let mut g: usize = 0;
    while g < groups.len()
        invariant
            g <= groups@.len(),
            group_views(groups@) == help_table(),
            out@.map_values(|e: HelpEntry| entry_view(e)) == flat_entries(help_table().take(g as int)),
        decreases groups@.len() - g,
    {
        let ghost before = out@.map_values(|e: HelpEntry| entry_view(e));
        let mut k: usize = 0;
        while k < groups[g].entries.len()
            invariant
                g < groups@.len(),
                k <= groups@[g as int].entries@.len(),
                out@.map_values(|e: HelpEntry| entry_view(e)) == before + groups@[g as int].entries@.take(
                    k as int,
                ).map_values(|e: HelpEntry| entry_view(e)),
            decreases groups@[g as int].entries@.len() - k,
        {
            let e = groups[g].entries[k];
            let ghost old_out = out@;
            out.push(e);
            proof {
                let es = groups@[g as int].entries@;
                assert(e == es[k as int]);
                assert(out@ =~= old_out.push(e));
                assert(out@.map_values(|e: HelpEntry| entry_view(e)) =~= old_out.map_values(|e: HelpEntry| entry_view(e)).push(entry_view(e)));
                assert(es.take(k + 1).map_values(|e: HelpEntry| entry_view(e)) =~= es.take(k as int).map_values(|e: HelpEntry| entry_view(e)).push(entry_view(e)));
                assert(out@.map_values(|e: HelpEntry| entry_view(e)) =~= before + es.take(k + 1).map_values(
                    |e: HelpEntry| entry_view(e),
                ));
            }
            k += 1;
        }
        proof {
            let es = groups@[g as int].entries@;
            assert(es.take(k as int) =~= es);
            let t = help_table();
            assert(t.take(g + 1).drop_last() =~= t.take(g as int));
            assert(t[g as int] == group_view(groups@[g as int]));
        }
        g += 1;
    }
    assert(help_table().take(g as int) =~= help_table());
    out
}

/// Text matched for a help row: keys, a space, the description.
pub open spec fn label_spec(keys: Seq<char>, desc: Seq<char>) -> Seq<char> {
    keys + seq![' '] + desc
}

/// Concatenated text matched for a help key row.
pub fn help_entry_label(keys: &str, desc: &str) -> (r: String)
    ensures
        r@ == label_spec(keys@, desc@),
{
    let mut s = crate::text::owned(keys);
    crate::text::push_char(&mut s, ' ');
    push_str(&mut s, desc);
    s
}

/// Full Unicode lower-case mapping of `s` (`str::to_lowercase`).
pub uninterp spec fn unicode_lowercase(s: Seq<char>) -> Seq<char>;

/// Calls `str::to_lowercase`, the full Unicode lower-case mapping. Its value
/// is named here, not restated: the mapping follows Unicode case tables.
/// Stated besides: the empty string stays empty, and ASCII text lower-cases
/// as ASCII (`A`–`Z` to `a`–`z`, every other ASCII char unchanged).
#[verifier::external_body]
fn to_lowercase(s: &str) -> (r: String)
    ensures
        r@ == unicode_lowercase(s@),
        s@.len() == 0 ==> r@.len() == 0,
        crate::text::ascii_chars(s@) ==> r@ == crate::text::ascii_lower(s@),
{
    s.to_lowercase()
}

/// Query match: the lower-cased trimmed query occurs in the lower-cased label.
pub open spec fn matches_spec(keys: Seq<char>, desc: Seq<char>, query: Seq<char>) -> bool {
    let q = unicode_lowercase(trim(query));
    q.len() > 0 && has_substr(unicode_lowercase(label_spec(keys, desc)), q)
}

/// Case-insensitive substring match on keys + description.
/// Empty or whitespace-only query → no match.
pub fn help_entry_matches(keys: &str, desc: &str, query: &str) -> (b: bool)
    ensures
        b == matches_spec(keys@, desc@, query@),
        crate::text::is_blank(query@) ==> !b,
        crate::text::ascii_chars(keys@) && crate::text::ascii_chars(desc@) && crate::text::ascii_chars(query@) ==> b
            == (trim(query@).len() > 0 && has_substr(
            crate::text::ascii_lower(label_spec(keys@, desc@)),
            crate::text::ascii_lower(trim(query@)),
        )),
{
    proof {
        if crate::text::ascii_chars(query@) {
            crate::text::lemma_trim_ascii(query@);
        }
        if crate::text::ascii_chars(keys@) && crate::text::ascii_chars(desc@) {
            let l = label_spec(keys@, desc@);
            assert forall|i: int| 0 <= i < l.len() implies (#[trigger] l[i] as u32) < 128 by {
                if i < keys@.len() {
                    assert(l[i] == keys@[i]);
                } else if i > keys@.len() {
                    assert(l[i] == desc@[i - keys@.len() - 1]);
                }
            }
        }
    }
    let t = crate::text::trim_str(query);
    let q = to_lowercase(t.as_str());
    if q.as_str().is_empty() {
        return false;
    }
    let label = help_entry_label(keys, desc);
    let l = to_lowercase(label.as_str());
    crate::text::str_contains(l.as_str(), q.as_str())
}

/// Positions of the flattened entries that match `query`, in order.
pub open spec fn match_indices_spec(es: Seq<(Seq<char>, Seq<char>)>, query: Seq<char>) -> Seq<usize>
    decreases es.len(),
{
    if es.len() == 0 {
        Seq::empty()
    } else {
        let r = match_indices_spec(es.drop_last(), query);
        if matches_spec(es.last().0, es.last().1, query) {
            r.push((es.len() - 1) as usize)
        } else {
            r
        }
    }
}

/// Indices of flattened help entries that match `query`, in order.
pub fn help_match_indices(query: &str) -> (r: Vec<usize>)
    ensures
        r@ == match_indices_spec(flat_entries(help_table()), query@),
{
    let es = help_entries();
    let ghost ev = es@.map_values(|e: HelpEntry| entry_view(e));
    let mut out: Vec<usize> = Vec::new();
    let mut i: usize = 0;
    assert(ev.take(0) =~= Seq::<(Seq<char>, Seq<char>)>::empty());
    while i < es.len()
        invariant
            i <= es@.len(),
            ev == es@.map_values(|e: HelpEntry| entry_view(e)),
            out@ == match_indices_spec(ev.take(i as int), query@),
        decreases es@.len() - i,
    {
        let e = es[i];
        assert(ev.take(i + 1).drop_last() =~= ev.take(i as int));
        assert(ev.take(i + 1).last() == entry_view(e));
        if help_entry_matches(e.keys, e.desc, query) {
            out.push(i);
        }
        i += 1;
    }
    assert(ev.take(i as int) =~= ev);
    out
}

/// One painted line of a help entry after wrap.
#[derive(Clone, Debug, PartialEq, Eq)]
pub struct HelpVisualLine {
    /// True on the first line, which also shows the key chips.
    pub chips: bool,
    /// Leading spaces before [`Self::text`] (0 on the chip line).
    pub indent: usize,
    /// Description fragment for this line (empty when chips stand alone).
    pub text: String,
}

/// Chip pad versus description wrap width for one help column.
#[derive(Clone, Copy, Debug, PartialEq, Eq)]
pub struct HelpDescLayout {
    /// Columns before wrapped continuation text.
    pub indent: usize,
    /// Word-wrap width for the description.
    pub width: usize,
    /// When false, chips occupy the first visual line alone.
    pub desc_on_first_line: bool,
}

/// Footer text painted under the help columns when idle.
pub open spec fn idle_footer_spec() -> Seq<char> {
    "Needs a Nerd Font \u{b7} "@ + crate::icons::REQUIRED_FONT@ + " \u{b7} "@ + HELP_IDLE_FOOTER_SNIPPET@
        + " \u{b7} Esc closes"@
}

/// Idle footer painted under the help columns.
pub fn help_idle_footer() -> (r: String)
    ensures
        r@ == idle_footer_spec(),
{
    let mut s = crate::text::owned("Needs a Nerd Font \u{b7} ");
    push_str(&mut s, crate::icons::REQUIRED_FONT);
    push_str(&mut s, " \u{b7} ");
    push_str(&mut s, HELP_IDLE_FOOTER_SNIPPET);
    push_str(&mut s, " \u{b7} Esc closes");
    s
}

/// Content width inside the help border and horizontal padding.
pub fn help_inner_width(term_width: usize) -> (w: usize)
    ensures
        w == (if term_width > HELP_CHROME_COLS { term_width - HELP_CHROME_COLS } else { 0 }),
{
    term_width.saturating_sub(HELP_CHROME_COLS)
}

/// Width of one of the three help columns.
pub open spec fn column_width_spec(term_width: int) -> int {
    let inner = if term_width > HELP_CHROME_COLS { term_width - HELP_CHROME_COLS } else { 0 };
    let c = inner / (HELP_COLUMN_COUNT as int);
    if c < 1 { 1 } else { c }
}

/// Width of one of the three help columns at `term_width`.
pub fn help_column_width(term_width: usize) -> (w: usize)
    ensures
        w == column_width_spec(term_width as int),
{
    let c = help_inner_width(term_width) / HELP_COLUMN_COUNT;
    if c < 1 { 1 } else { c }
}

/// Columns one chip paints: ` chip ` plus a gap, its length plus three
/// (nothing for the empty pieces between repeated spaces).
pub open spec fn chip_cols(chip: Seq<char>) -> int {
    if chip.len() > 0 { chip.len() as int + 3 } else { 0 }
}

/// Columns the chips of a split key list take.
pub open spec fn chip_used_spec(chips: Seq<Seq<char>>) -> int
    decreases chips.len(),
{
    if chips.len() == 0 {
        0
    } else {
        chip_cols(chips[0]) + chip_used_spec(chips.drop_first())
    }
}

/// Chips never take more than four columns per key character.
proof fn lemma_chip_used_linear(s: Seq<char>)
    ensures
        0 <= chip_used_spec(split_on(s, ' ')) <= 4 * s.len(),
    decreases s.len(),
{
    let whole = split_on(s, ' ');
    if s.len() == 0 {
        assert(whole.drop_first() =~= Seq::<Seq<char>>::empty());
        assert(chip_used_spec(whole) == chip_cols(whole[0]) + chip_used_spec(whole.drop_first()));
    } else {
        let rest = split_on(s.drop_first(), ' ');
        lemma_chip_used_linear(s.drop_first());
        crate::text::lemma_split_on_nonempty(s.drop_first(), ' ');
        lemma_chip_used_nonneg(rest.drop_first());
        assert(chip_used_spec(rest) == chip_cols(rest[0]) + chip_used_spec(rest.drop_first()));
        assert(chip_used_spec(whole) == chip_cols(whole[0]) + chip_used_spec(whole.drop_first()));
        if s[0] == ' ' {
            assert(whole =~= seq![Seq::<char>::empty()] + rest);
            assert(whole.drop_first() =~= rest);
        } else {
            assert(whole == crate::text::prefix_first(seq![s[0]], rest));
            assert(whole.drop_first() =~= rest.drop_first());
            assert(whole[0] == seq![s[0]] + rest[0]);
        }
    }
}

fn help_chip_used_width(keys: &str) -> (w: usize)
    requires
        4 * keys@.len() + HELP_KEY_WIDTH <= usize::MAX,
    ensures
        w == chip_used_spec(split_on(keys@, ' ')),
        w <= 4 * keys@.len(),
{
    let kc = str_chars(keys);
    let chips = split_chars(kc.as_slice(), ' ');
    let ghost cv = views(chips@);
    proof {
        lemma_chip_used_linear(keys@);
    }
    let mut total: usize = 0;
    let mut i: usize = 0;
    assert(cv.skip(0) =~= cv);
    while i < chips.len()
        invariant
            i <= chips@.len(),
            cv == views(chips@),
            cv == split_on(keys@, ' '),
            total + chip_used_spec(cv.skip(i as int)) == chip_used_spec(cv),
            chip_used_spec(cv) <= 4 * keys@.len(),
            4 * keys@.len() + HELP_KEY_WIDTH <= usize::MAX,
            0 <= chip_used_spec(cv.skip(i as int)),
        decreases chips@.len() - i,
    {
        proof {
            assert(cv.skip(i as int).drop_first() =~= cv.skip(i + 1));
            assert(cv.skip(i as int)[0] == chips@[i as int]@);
            lemma_chip_used_nonneg(cv.skip(i + 1));
        }
        if chips[i].len() > 0 {
            total = total + chips[i].len() + 3;
        }
        i += 1;
    }
    assert(cv.skip(i as int) =~= Seq::<Seq<char>>::empty());
    total
}

proof fn lemma_chip_used_nonneg(chips: Seq<Seq<char>>)
    ensures
        0 <= chip_used_spec(chips),
    decreases chips.len(),
{
    if chips.len() > 0 {
        lemma_chip_used_nonneg(chips.drop_first());
    }
}

/// Trailing gap after the chips: fill to [`HELP_KEY_WIDTH`], at least one.
pub open spec fn chip_gap_spec(used: int) -> int {
    if HELP_KEY_WIDTH as int - used > 1 { HELP_KEY_WIDTH as int - used } else { 1 }
}

/// Trailing gap spaces after chips so the cluster occupies [`help_chip_pad_width`].
pub fn help_chip_gap_spaces(keys: &str) -> (g: usize)
    requires
        4 * keys@.len() + HELP_KEY_WIDTH <= usize::MAX,
    ensures
        g == chip_gap_spec(chip_used_spec(split_on(keys@, ' '))),
{
    let used = help_chip_used_width(keys);
    let rest = HELP_KEY_WIDTH.saturating_sub(used);
    if rest > 1 { rest } else { 1 }
}

/// Painted columns for a help key cluster (` chip ` plus trailing gap).
pub fn help_chip_pad_width(keys: &str) -> (w: usize)
    requires
        4 * keys@.len() + HELP_KEY_WIDTH <= usize::MAX,
    ensures
        w == chip_used_spec(split_on(keys@, ' ')) + chip_gap_spec(chip_used_spec(split_on(keys@, ' '))),
{
    let used = help_chip_used_width(keys);
    let gap = help_chip_gap_spaces(keys);
    used + gap
}

/// Chip pad vs description wrap width for a column.
pub open spec fn desc_layout_spec(column_width: int, chip_pad: int) -> HelpDescLayout {
    let col = if column_width < 1 { 1 } else { column_width };
    let remaining = if col > chip_pad { col - chip_pad } else { 0 };
    if remaining >= 1 {
        HelpDescLayout { indent: chip_pad as usize, width: remaining as usize, desc_on_first_line: true }
    } else {
        HelpDescLayout { indent: 0, width: col as usize, desc_on_first_line: false }
    }
}

/// Chip pad vs description wrap width for a column.
pub fn help_desc_layout(column_width: usize, chip_pad: usize) -> (l: HelpDescLayout)
    ensures
        l == desc_layout_spec(column_width as int, chip_pad as int),
{
    let col = if column_width < 1 { 1 } else { column_width };
    let remaining = col.saturating_sub(chip_pad);
    if remaining >= 1 {
        HelpDescLayout { indent: chip_pad, width: remaining, desc_on_first_line: true }
    } else {
        HelpDescLayout { indent: 0, width: col, desc_on_first_line: false }
    }
}

/* ── Word wrap ─────────────────────────────────────────────────────────── */

/// Lines emitted so far and the line being filled.
pub struct WrapState {
    pub lines: Seq<Seq<char>>,
    pub current: Seq<char>,
}

/// Full `col`-wide pieces of an overlong word.
pub open spec fn full_chunks(w: Seq<char>, col: nat) -> Seq<Seq<char>>
    decreases w.len(),
{
    if col == 0 || w.len() < col {
        Seq::empty()
    } else {
        seq![w.take(col as int)] + full_chunks(w.skip(col as int), col)
    }
}

/// The piece of an overlong word left after its full chunks.
pub open spec fn chunk_tail(w: Seq<char>, col: nat) -> Seq<char>
    decreases w.len(),
{
    if col == 0 || w.len() < col {
        w
    } else {
        chunk_tail(w.skip(col as int), col)
    }
}

/// `lines` with `current` flushed when it holds text.
pub open spec fn flush(lines: Seq<Seq<char>>, current: Seq<char>) -> Seq<Seq<char>> {
    if current.len() > 0 {
        lines.push(current)
    } else {
        lines
    }
}

/// Greedy wrap of one more word: an overlong word is broken into `col`-wide
/// pieces; otherwise it joins the line when it fits, else starts a new one.
pub open spec fn wrap_step(st: WrapState, word: Seq<char>, col: nat) -> WrapState {
    if word.len() > col {
        WrapState { lines: flush(st.lines, st.current) + full_chunks(word, col), current: chunk_tail(word, col) }
    } else {
        let next = if st.current.len() == 0 {
            word
        } else {
            st.current + seq![' '] + word
        };
        if next.len() <= col {
            WrapState { lines: st.lines, current: next }
        } else {
            WrapState { lines: flush(st.lines, st.current), current: word }
        }
    }
}

/// Wrap state after the words `ws`.
pub open spec fn wrap_fold(ws: Seq<Seq<char>>, col: nat) -> WrapState
    decreases ws.len(),
{
    if ws.len() == 0 {
        WrapState { lines: Seq::empty(), current: Seq::empty() }
    } else {
        wrap_step(wrap_fold(ws.drop_last(), col), ws.last(), col)
    }
}

/// `text` word-wrapped to `width` columns (at least one); never empty.
pub open spec fn wrap_spec(text: Seq<char>, width: nat) -> Seq<Seq<char>> {
    let col: nat = if width < 1 { 1 } else { width };
    let st = wrap_fold(words(trim(text)), col);
    let lines = flush(st.lines, st.current);
    if lines.len() == 0 {
        seq![Seq::<char>::empty()]
    } else {
        lines
    }
}

/// Append the full chunks of `word` to `lines`; return its short tail.
fn push_chunks(lines: &mut Vec<Vec<char>>, word: &Vec<char>, col: usize) -> (tail: Vec<char>)
    requires
        col >= 1,
    ensures
        views(final(lines)@) == views(old(lines)@) + full_chunks(word@, col as nat),
        tail@ == chunk_tail(word@, col as nat),
{
    let mut p: usize = 0;
    let ghost base = views(lines@);
    assert(word@.skip(0) =~= word@);
    assert(views(lines@) =~= base + Seq::<Seq<char>>::empty());
    while word.len() - p >= col
        invariant
            p <= word@.len(),
            col >= 1,
            full_chunks(word@, col as nat) == views(lines@).skip(base.len() as int) + full_chunks(word@.skip(p as int), col as nat),
            views(lines@).take(base.len() as int) == base,
            views(lines@).len() >= base.len(),
            chunk_tail(word@, col as nat) == chunk_tail(word@.skip(p as int), col as nat),
        decreases word@.len() - p,
    {
        let ghost rest = word@.skip(p as int);
        let piece = crate::text::slice_chars(word.as_slice(), p, p + col);
        let ghost before = views(lines@);
        assert(piece@ =~= rest.take(col as int));
        assert(rest.skip(col as int) =~= word@.skip(p + col));
        lines.push(piece);
        assert(views(lines@) =~= before.push(rest.take(col as int)));
        assert(views(lines@).skip(base.len() as int) =~= before.skip(base.len() as int).push(rest.take(col as int)));
        assert(views(lines@).take(base.len() as int) =~= before.take(base.len() as int));
        p = p + col;
    }
    proof {
        let rest = word@.skip(p as int);
        assert(full_chunks(rest, col as nat) =~= Seq::<Seq<char>>::empty());
        assert(views(lines@) =~= views(lines@).take(base.len() as int) + views(lines@).skip(base.len() as int));
    }
    crate::text::slice_chars(word.as_slice(), p, word.len())
}

fn wrap_step_exec(lines: &mut Vec<Vec<char>>, current: Vec<char>, word: &Vec<char>, col: usize) -> (next: Vec<char>)
    requires
        col >= 1,
    ensures
        (WrapState { lines: views(final(lines)@), current: next@ }) == wrap_step(
            WrapState { lines: views(old(lines)@), current: current@ },
            word@,
            col as nat,
        ),
{
    let ghost st = WrapState { lines: views(lines@), current: current@ };
    if word.len() > col {
        let ghost flushed = flush(views(lines@), current@);
        if current.len() > 0 {
            let ghost cv = current@;
            lines.push(current);
            assert(views(lines@) =~= st.lines.push(cv));
        }
        assert(views(lines@) == flushed);
        return push_chunks(lines, word, col);
    }
    if current.len() == 0 {
        let next = crate::text::slice_chars(word.as_slice(), 0, word.len());
        assert(next@ =~= word@);
        return next;
    }
    if current.len() < col - word.len() {
        let mut next = current;
        next.push(' ');
        let mut k: usize = 0;
        let ghost start = next@;
        while k < word.len()
            invariant
                k <= word@.len(),
                next@ == start + word@.take(k as int),
            decreases word@.len() - k,
        {
            next.push(word[k]);
            assert(word@.take(k + 1) =~= word@.take(k as int).push(word@[k as int]));
            k += 1;
        }
        assert(word@.take(k as int) =~= word@);
        assert(next@ =~= current@ + seq![' '] + word@);
        return next;
    }
    let ghost cv = current@;
    lines.push(current);
    assert(views(lines@) =~= st.lines.push(cv));
    let next = crate::text::slice_chars(word.as_slice(), 0, word.len());
    assert(next@ =~= word@);
    next
}

/// Word-wrap `text` to `width` columns. Breaks overlong words. Never ellipsizes.
pub fn wrap_help_description(text: &str, width: usize) -> (r: Vec<String>)
    ensures
        string_views(r@) == wrap_spec(text@, width as nat),
{
    let col: usize = if width < 1 { 1 } else { width };
    let tc = str_chars(text);
    let trimmed = trim_chars(tc.as_slice());
    let ws = split_words(trimmed.as_slice());
    let ghost wv = views(ws@);
    let mut lines: Vec<Vec<char>> = Vec::new();
    let mut current: Vec<char> = Vec::new();
    let mut i: usize = 0;
    assert(wv.take(0) =~= Seq::<Seq<char>>::empty());
    assert(views(lines@) =~= Seq::<Seq<char>>::empty());
    while i < ws.len()
        invariant
            i <= ws@.len(),
            col >= 1,
            wv == views(ws@),
            (WrapState { lines: views(lines@), current: current@ }) == wrap_fold(wv.take(i as int), col as nat),
        decreases ws@.len() - i,
    {
        assert(wv.take(i + 1).drop_last() =~= wv.take(i as int));
        assert(wv.take(i + 1).last() == ws@[i as int]@);
        current = wrap_step_exec(&mut lines, current, &ws[i], col);
        i += 1;
    }
    assert(wv.take(i as int) =~= wv);
    if current.len() > 0 {
        let ghost before = views(lines@);
        let ghost cv = current@;
        lines.push(current);
        assert(views(lines@) =~= before.push(cv));
    }
    if lines.len() == 0 {
        let mut one: Vec<String> = Vec::new();
        one.push(String::new());
        assert(string_views(one@) =~= seq![Seq::<char>::empty()]);
        return one;
    }
    strings_from_runs(&lines)
}

/// Wrap the help footer to the overlay inner width.
pub fn wrap_help_footer(text: &str, inner_width: usize) -> (r: Vec<String>)
    ensures
        string_views(r@) == wrap_spec(text@, if inner_width < 1 { 1 } else { inner_width as nat }),
{
    let w = if inner_width < 1 { 1 } else { inner_width };
    wrap_help_description(text, w)
}

/// A wrapped description never comes back empty.
pub proof fn lemma_wrap_nonempty(text: Seq<char>, width: nat)
    ensures
        wrap_spec(text, width).len() >= 1,
{
}

proof fn lemma_full_chunks_len(w: Seq<char>, col: nat)
    requires
        col >= 1,
    ensures
        forall|i: int| 0 <= i < full_chunks(w, col).len() ==> (#[trigger] full_chunks(w, col)[i]).len() == col,
    decreases w.len(),
{
    if w.len() >= col {
        lemma_full_chunks_len(w.skip(col as int), col);
        let rest = full_chunks(w.skip(col as int), col);
        assert forall|i: int| 0 <= i < full_chunks(w, col).len() implies (#[trigger] full_chunks(w, col)[i]).len()
            == col by {
            if i > 0 {
                assert(full_chunks(w, col)[i] == rest[i - 1]);
            }
        }
    }
}

proof fn lemma_chunk_tail_len(w: Seq<char>, col: nat)
    requires
        col >= 1,
    ensures
        chunk_tail(w, col).len() < col,
    decreases w.len(),
{
    if w.len() >= col {
        lemma_chunk_tail_len(w.skip(col as int), col);
    }
}

/// Every line so far, and the line being filled, fits in `col` columns.
pub open spec fn fits(st: WrapState, col: nat) -> bool {
    &&& forall|i: int| 0 <= i < st.lines.len() ==> (#[trigger] st.lines[i]).len() <= col
    &&& st.current.len() <= col
}

proof fn lemma_wrap_fold_fits(ws: Seq<Seq<char>>, col: nat)
    requires
        col >= 1,
    ensures
        fits(wrap_fold(ws, col), col),
    decreases ws.len(),
{
    if ws.len() > 0 {
        lemma_wrap_fold_fits(ws.drop_last(), col);
        let st = wrap_fold(ws.drop_last(), col);
        let w = ws.last();
        let fl = flush(st.lines, st.current);
        assert forall|i: int| 0 <= i < fl.len() implies (#[trigger] fl[i]).len() <= col by {
            if i < st.lines.len() {
                assert(fl[i] == st.lines[i]);
            }
        }
        if w.len() > col {
            lemma_full_chunks_len(w, col);
            lemma_chunk_tail_len(w, col);
            let ch = full_chunks(w, col);
            assert forall|i: int| 0 <= i < (fl + ch).len() implies (#[trigger] (fl + ch)[i]).len() <= col by {
                if i < fl.len() {
                    assert((fl + ch)[i] == fl[i]);
                } else {
                    assert((fl + ch)[i] == ch[i - fl.len()]);
                }
            }
        }
    }
}

/// A wrapped description never has a line wider than the wrap width
/// (at least one column).
pub proof fn lemma_wrap_width(text: Seq<char>, width: nat)
    ensures
        forall|i: int| 0 <= i < wrap_spec(text, width).len() ==> (#[trigger] wrap_spec(text, width)[i]).len()
            <= if width < 1 { 1 } else { width },
{
    let col: nat = if width < 1 { 1 } else { width };
    let st = wrap_fold(words(trim(text)), col);
    lemma_wrap_fold_fits(words(trim(text)), col);
    let lines = flush(st.lines, st.current);
    assert forall|i: int| 0 <= i < lines.len() implies (#[trigger] lines[i]).len() <= col by {
        if i < st.lines.len() {
            assert(lines[i] == st.lines[i]);
        }
    }
}

/// The lines run together.
pub open spec fn concat_lines(ls: Seq<Seq<char>>) -> Seq<char>
    decreases ls.len(),
{
    if ls.len() == 0 {
        Seq::empty()
    } else {
        concat_lines(ls.drop_last()) + ls.last()
    }
}

/// `s` without its spaces.
pub open spec fn no_spaces(s: Seq<char>) -> Seq<char>
    decreases s.len(),
{
    if s.len() == 0 {
        Seq::empty()
    } else {
        no_spaces(s.drop_last()) + (if s.last() == ' ' { Seq::empty() } else { seq![s.last()] })
    }
}

proof fn lemma_concat_single(x: Seq<char>)
    ensures
        concat_lines(seq![x]) == x,
{
    let s = seq![x];
    assert(s.drop_last() =~= Seq::<Seq<char>>::empty());
    assert(s.last() == x);
    assert(concat_lines(s.drop_last()) =~= Seq::<char>::empty());
    assert(concat_lines(s) =~= Seq::<char>::empty() + x);
    assert(Seq::<char>::empty() + x =~= x);
}

proof fn lemma_no_spaces_space()
    ensures
        no_spaces(seq![' ']) == Seq::<char>::empty(),
{
    let s = seq![' '];
    assert(s.drop_last() =~= Seq::<char>::empty());
    assert(s.last() == ' ');
    assert(no_spaces(s.drop_last()) =~= Seq::<char>::empty());
    assert(no_spaces(s) =~= Seq::<char>::empty());
}

proof fn lemma_no_spaces_add(a: Seq<char>, b: Seq<char>)
    ensures
        no_spaces(a + b) == no_spaces(a) + no_spaces(b),
    decreases b.len(),
{
    if b.len() == 0 {
        assert(a + b =~= a);
        assert(no_spaces(a) + no_spaces(b) =~= no_spaces(a));
    } else {
        lemma_no_spaces_add(a, b.drop_last());
        assert((a + b).drop_last() =~= a + b.drop_last());
        assert((a + b).last() == b.last());
        assert(no_spaces(a + b) =~= no_spaces(a) + no_spaces(b));
    }
}

proof fn lemma_concat_add(a: Seq<Seq<char>>, b: Seq<Seq<char>>)
    ensures
        concat_lines(a + b) == concat_lines(a) + concat_lines(b),
    decreases b.len(),
{
    if b.len() == 0 {
        assert(a + b =~= a);
        assert(concat_lines(a) + concat_lines(b) =~= concat_lines(a));
    } else {
        lemma_concat_add(a, b.drop_last());
        assert((a + b).drop_last() =~= a + b.drop_last());
        assert((a + b).last() == b.last());
        assert(concat_lines(a + b) =~= concat_lines(a) + concat_lines(b));
    }
}

proof fn lemma_chunks_concat(w: Seq<char>, col: nat)
    requires
        col >= 1,
    ensures
        concat_lines(full_chunks(w, col)) + chunk_tail(w, col) == w,
    decreases w.len(),
{
    if w.len() < col {
        assert(concat_lines(full_chunks(w, col)) + w =~= w);
    } else {
        let rest = w.skip(col as int);
        lemma_chunks_concat(rest, col);
        lemma_concat_add(seq![w.take(col as int)], full_chunks(rest, col));
        lemma_concat_single(w.take(col as int));
        assert(w.take(col as int) + (concat_lines(full_chunks(rest, col)) + chunk_tail(rest, col)) =~= w);
        assert(concat_lines(full_chunks(w, col)) + chunk_tail(w, col) =~= w);
    }
}

proof fn lemma_flush_concat(lines: Seq<Seq<char>>, current: Seq<char>)
    ensures
        concat_lines(flush(lines, current)) == concat_lines(lines) + current,
{
    if current.len() > 0 {
        assert(lines.push(current).drop_last() =~= lines);
    } else {
        assert(concat_lines(lines) + current =~= concat_lines(lines));
    }
}

proof fn lemma_wrap_fold_keeps_chars(ws: Seq<Seq<char>>, col: nat)
    requires
        col >= 1,
    ensures
        no_spaces(concat_lines(wrap_fold(ws, col).lines) + wrap_fold(ws, col).current) == no_spaces(concat_lines(ws)),
    decreases ws.len(),
{
    if ws.len() == 0 {
        assert(concat_lines(wrap_fold(ws, col).lines) + wrap_fold(ws, col).current =~= Seq::<char>::empty());
    } else {
        let p = ws.drop_last();
        let w = ws.last();
        lemma_wrap_fold_keeps_chars(p, col);
        let st = wrap_fold(p, col);
        let before = concat_lines(st.lines) + st.current;
        lemma_flush_concat(st.lines, st.current);
        lemma_no_spaces_add(before, w);
        lemma_no_spaces_add(concat_lines(p), w);
        if w.len() > col {
            lemma_concat_add(flush(st.lines, st.current), full_chunks(w, col));
            lemma_chunks_concat(w, col);
            assert(concat_lines(flush(st.lines, st.current) + full_chunks(w, col)) + chunk_tail(w, col) =~= before + w);
        } else {
            let next = if st.current.len() == 0 { w } else { st.current + seq![' '] + w };
            if st.current.len() > 0 {
                lemma_no_spaces_add(concat_lines(st.lines) + st.current, seq![' ']);
                lemma_no_spaces_add(concat_lines(st.lines) + st.current + seq![' '], w);
                lemma_no_spaces_space();
                assert(concat_lines(st.lines) + next =~= before + seq![' '] + w);
            } else {
                assert(concat_lines(st.lines) + next =~= before + w);
            }
            if next.len() > col {
                assert(concat_lines(flush(st.lines, st.current)) + w =~= before + w);
            }
        }
    }
}

/// Wrapping drops and adds no character but spaces: run together, the
/// wrapped lines hold the description's words in order.
pub proof fn lemma_wrap_keeps_text(text: Seq<char>, width: nat)
    ensures
        no_spaces(concat_lines(wrap_spec(text, width))) == no_spaces(concat_lines(words(trim(text)))),
{
    let col: nat = if width < 1 { 1 } else { width };
    let st = wrap_fold(words(trim(text)), col);
    lemma_wrap_fold_keeps_chars(words(trim(text)), col);
    lemma_flush_concat(st.lines, st.current);
    let lines = flush(st.lines, st.current);
    if lines.len() == 0 {
        lemma_concat_single(Seq::<char>::empty());
        assert(concat_lines(lines) =~= Seq::<char>::empty());
    }
}

/* ── Layout ────────────────────────────────────────────────────────────── */

/// A painted help line as plain values: `(chips, indent, text)`.
pub open spec fn visual_view(l: HelpVisualLine) -> (bool, usize, Seq<char>) {
    (l.chips, l.indent, l.text@)
}

/// Chip cluster width for `keys` (the key width when there are none).
pub open spec fn chip_pad_spec(keys: Seq<char>) -> int {
    if keys.len() == 0 {
        HELP_KEY_WIDTH as int
    } else {
        chip_used_spec(split_on(keys, ' ')) + chip_gap_spec(chip_used_spec(split_on(keys, ' ')))
    }
}

/// Non-empty wrapped lines as continuation rows at `indent`.
pub open spec fn continuation_rows(lines: Seq<Seq<char>>, indent: usize) -> Seq<(bool, usize, Seq<char>)>
    decreases lines.len(),
{
    if lines.len() == 0 {
        Seq::empty()
    } else {
        let r = continuation_rows(lines.drop_last(), indent);
        if lines.last().len() > 0 {
            r.push((false, indent, lines.last()))
        } else {
            r
        }
    }
}

/// Painted lines of one help entry in a column of `column_width`.
pub open spec fn visual_spec(description: Seq<char>, column_width: int, keys: Seq<char>) -> Seq<(bool, usize, Seq<char>)> {
    let layout = desc_layout_spec(column_width, chip_pad_spec(keys));
    let wrapped = wrap_spec(description, layout.width as nat);
    if !layout.desc_on_first_line {
        seq![(true, 0usize, Seq::<char>::empty())] + continuation_rows(wrapped, layout.indent)
    } else {
        Seq::new(wrapped.len(), |i: int| (i == 0, if i == 0 { 0usize } else { layout.indent }, wrapped[i]))
    }
}

/// Visual lines for one help entry at `column_width`.
pub fn help_entry_visual_lines(description: &str, column_width: usize, keys: &str) -> (r: Vec<HelpVisualLine>)
    requires
        4 * keys@.len() + HELP_KEY_WIDTH <= usize::MAX,
    ensures
        r@.map_values(|l: HelpVisualLine| visual_view(l)) == visual_spec(description@, column_width as int, keys@),
{
    let chip_pad = if keys.is_empty() {
        HELP_KEY_WIDTH
    } else {
        help_chip_pad_width(keys)
    };
    let layout = help_desc_layout(column_width, chip_pad);
    let wrapped = wrap_help_description(description, layout.width);
    let ghost wv = string_views(wrapped@);
    let mut out: Vec<HelpVisualLine> = Vec::new();
    if !layout.desc_on_first_line {
        out.push(HelpVisualLine { chips: true, indent: 0, text: String::new() });
        let ghost head = out@.map_values(|l: HelpVisualLine| visual_view(l));
        assert(head =~= seq![(true, 0usize, Seq::<char>::empty())]);
        let mut i: usize = 0;
        assert(wv.take(0) =~= Seq::<Seq<char>>::empty());
        while i < wrapped.len()
            invariant
                i <= wrapped@.len(),
                wv == string_views(wrapped@),
                out@.map_values(|l: HelpVisualLine| visual_view(l)) == head + continuation_rows(wv.take(i as int), layout.indent),
            decreases wrapped@.len() - i,
        {
            assert(wv.take(i + 1).drop_last() =~= wv.take(i as int));
            assert(wv.take(i + 1).last() == wrapped@[i as int]@);
            if wrapped[i].as_str().is_empty() == false {
                let ghost before = out@.map_values(|l: HelpVisualLine| visual_view(l));
                let line = HelpVisualLine { chips: false, indent: layout.indent, text: wrapped[i].clone() };
                out.push(line);
                assert(out@.map_values(|l: HelpVisualLine| visual_view(l)) =~= before.push(visual_view(line)));
            }
            i += 1;
        }
        assert(wv.take(i as int) =~= wv);
        out
    } else {
        let mut i: usize = 0;
        while i < wrapped.len()
            invariant
                i <= wrapped@.len(),
                wv == string_views(wrapped@),
                layout.desc_on_first_line,
                out@.len() == i,
                forall|k: int| 0 <= k < i ==> #[trigger] visual_view(out@[k]) == (k == 0, if k == 0 { 0usize } else { layout.indent }, wv[k]),
            decreases wrapped@.len() - i,
        {
            let indent = if i == 0 { 0 } else { layout.indent };
            out.push(HelpVisualLine { chips: i == 0, indent, text: wrapped[i].clone() });
            i += 1;
        }
        assert(out@.map_values(|l: HelpVisualLine| visual_view(l)) =~= visual_spec(description@, column_width as int, keys@));
        out
    }
}

/// Height of body row `row`: the tallest cell of that row, at least one.
pub open spec fn row_height(gs: Seq<(Seq<char>, Seq<(Seq<char>, Seq<char>)>)>, row: int, column_width: int) -> int
    decreases gs.len(),
{
    if gs.len() == 0 {
        1
    } else {
        let h = row_height(gs.drop_last(), row, column_width);
        let es = gs.last().1;
        let cell = if 0 <= row < es.len() {
            visual_spec(es[row].1, column_width, es[row].0).len() as int
        } else {
            1
        };
        if cell > h { cell } else { h }
    }
}

/// Number of body rows: the longest column.
pub open spec fn row_count(gs: Seq<(Seq<char>, Seq<(Seq<char>, Seq<char>)>)>) -> int
    decreases gs.len(),
{
    if gs.len() == 0 {
        0
    } else {
        let r = row_count(gs.drop_last());
        if gs.last().1.len() > r { gs.last().1.len() as int } else { r }
    }
}

/// Sum of the first `rows` row heights.
pub open spec fn body_sum(gs: Seq<(Seq<char>, Seq<(Seq<char>, Seq<char>)>)>, rows: int, column_width: int) -> int
    decreases rows,
{
    if rows <= 0 {
        0
    } else {
        body_sum(gs, rows - 1, column_width) + row_height(gs, rows - 1, column_width)
    }
}

/// Every key list is short enough for its chip arithmetic.
pub open spec fn keys_fit(gs: Seq<(Seq<char>, Seq<(Seq<char>, Seq<char>)>)>) -> bool {
    forall|g: int, e: int| 0 <= g < gs.len() && 0 <= e < gs[g].1.len() ==> 4 * #[trigger] gs[g].1[e].0.len() + HELP_KEY_WIDTH <= usize::MAX
}

/// `x` capped at `usize::MAX`.
pub open spec fn cap(x: int) -> int {
    if x > usize::MAX { usize::MAX as int } else { x }
}

proof fn lemma_row_height_pos(gs: Seq<(Seq<char>, Seq<(Seq<char>, Seq<char>)>)>, row: int, column_width: int)
    ensures
        row_height(gs, row, column_width) >= 1,
    decreases gs.len(),
{
    if gs.len() > 0 {
        lemma_row_height_pos(gs.drop_last(), row, column_width);
    }
}

/// Body rows after wrap: each aligned index uses the tallest of the three
/// cells. Saturates at `usize::MAX`.
pub fn help_body_line_count(groups: &[HelpGroup], column_width: usize) -> (n: usize)
    requires
        keys_fit(group_views(groups@)),
    ensures
        n == cap(body_sum(group_views(groups@), row_count(group_views(groups@)), column_width as int)),
{
    let ghost gv = group_views(groups@);
    let mut rows: usize = 0;
    let mut g: usize = 0;
    assert(gv.take(0) =~= Seq::<(Seq<char>, Seq<(Seq<char>, Seq<char>)>)>::empty());
    while g < groups.len()
        invariant
            g <= groups@.len(),
            gv == group_views(groups@),
            rows == row_count(gv.take(g as int)),
        decreases groups@.len() - g,
    {
        assert(gv.take(g + 1).drop_last() =~= gv.take(g as int));
        assert(gv.take(g + 1).last().1.len() == groups@[g as int].entries@.len());
        if groups[g].entries.len() > rows {
            rows = groups[g].entries.len();
        }
        g += 1;
    }
    assert(gv.take(g as int) =~= gv);
    let mut total: usize = 0;
    let mut row: usize = 0;
    while row < rows
        invariant
            row <= rows,
            gv == group_views(groups@),
            keys_fit(gv),
            rows == row_count(gv),
            total == cap(body_sum(gv, row as int, column_width as int)),
        decreases rows - row,
    {
        let mut height: usize = 1;
        let mut k: usize = 0;
        assert(gv.take(0) =~= Seq::<(Seq<char>, Seq<(Seq<char>, Seq<char>)>)>::empty());
        while k < groups.len()
            invariant
                k <= groups@.len(),
                gv == group_views(groups@),
                keys_fit(gv),
                height == row_height(gv.take(k as int), row as int, column_width as int),
            decreases groups@.len() - k,
        {
            assert(gv.take(k + 1).drop_last() =~= gv.take(k as int));
            let ghost es = gv.take(k + 1).last().1;
            assert(es == gv[k as int].1);
            if row < groups[k].entries.len() {
                let e = groups[k].entries[row];
                assert(es[row as int] == entry_view(e));
                assert(4 * gv[k as int].1[row as int].0.len() + HELP_KEY_WIDTH <= usize::MAX);
                let lines = help_entry_visual_lines(e.desc, column_width, e.keys);
                assert(lines@.map_values(|l: HelpVisualLine| visual_view(l)).len() == lines@.len());
                if lines.len() > height {
                    height = lines.len();
                }
            }
            k += 1;
        }
        assert(gv.take(k as int) =~= gv);
        proof {
            lemma_row_height_pos(gv, row as int, column_width as int);
        }
        total = total.saturating_add(height);
        row += 1;
    }
    total
}

/// Overlay rows: border (2) + title + wrapped body + footer.
pub fn help_overlay_row_count(body_rows: usize, footer_rows: usize) -> (n: usize)
    requires
        3 + body_rows + footer_rows <= usize::MAX,
    ensures
        n == 3 + body_rows + footer_rows,
{
    2 + 1 + body_rows + footer_rows
}

/// Full overlay height: border, title, body, footer (saturating).
pub open spec fn overlay_height_spec(gs: Seq<(Seq<char>, Seq<(Seq<char>, Seq<char>)>)>, term_width: int, footer: Seq<char>) -> int {
    let body = cap(body_sum(gs, row_count(gs), column_width_spec(term_width)));
    let inner = if term_width > HELP_CHROME_COLS { term_width - HELP_CHROME_COLS } else { 0 };
    let f = wrap_spec(footer, if inner < 1 { 1 } else { inner as nat }).len() as int;
    cap(3 + body + (if f < 1 { 1 } else { f }))
}

/// Full overlay height for `groups` at `term_width` with a wrappable footer.
pub fn help_overlay_height(groups: &[HelpGroup], term_width: usize, footer: &str) -> (n: usize)
    requires
        keys_fit(group_views(groups@)),
    ensures
        n == overlay_height_spec(group_views(groups@), term_width as int, footer@),
{
    let body = help_body_line_count(groups, help_column_width(term_width));
    let lines = wrap_help_footer(footer, help_inner_width(term_width));
    assert(string_views(lines@).len() == lines@.len());
    let f = if lines.len() < 1 { 1 } else { lines.len() };
    3usize.saturating_add(body).saturating_add(f)
}

/// Every key list of the built-in table is a handful of characters.
proof fn lemma_table_keys_fit()
    ensures
        keys_fit(help_table()),
{
    let t = help_table();
    assert forall|g: int, e: int| 0 <= g < t.len() && 0 <= e < t[g].1.len() implies 4 * #[trigger] t[g].1[e].0.len()
        + HELP_KEY_WIDTH <= usize::MAX by {
        lemma_literal_keys_short(g, e);
    }
}

/// Overlay rows reserved for `?` help at `term_cols` (truncated to `u16`).
pub fn help_status_lines(term_cols: u16) -> (n: u16)
    ensures
        n == (overlay_height_spec(help_table(), (if term_cols < 1 { 1 } else { term_cols }) as int, idle_footer_spec()) as u16),
{
    let groups = help_groups();
    proof {
        lemma_table_keys_fit();
    }
    let cols: u16 = if term_cols < 1 { 1 } else { term_cols };
    let footer = help_idle_footer();
    let h = help_overlay_height(groups.as_slice(), cols as usize, footer.as_str());
    #[verifier::truncate]
    (h as u16)
}

/// Each key list of the built-in table is at most 16 characters.
proof fn lemma_literal_keys_short(g: int, e: int)
    requires
        0 <= g < help_table().len(),
        0 <= e < help_table()[g].1.len(),
    ensures
        help_table()[g].1[e].0.len() <= 16,
{
    reveal_strlit("j k");
    reveal_strlit("h l");
    reveal_strlit("z");
    reveal_strlit("zz");
    reveal_strlit("gg G");
    reveal_strlit("Home End");
    reveal_strlit("/");
    reveal_strlit("n N");
    reveal_strlit("Ctrl-Space ;");
    reveal_strlit("s");
    reveal_strlit("S");
    reveal_strlit("u");
    reveal_strlit("x");
    reveal_strlit("e");
    reveal_strlit("space");
    reveal_strlit("f");
    reveal_strlit("p");
    reveal_strlit("P");
    reveal_strlit("d");
    reveal_strlit("b");
    reveal_strlit("m");
    reveal_strlit("C");
    reveal_strlit("W");
    reveal_strlit("r");
    reveal_strlit("a p D");
    reveal_strlit("i");
    reveal_strlit("t");
    reveal_strlit(".");
    reveal_strlit("T");
    reveal_strlit("Ctrl-o");
    reveal_strlit("PgUp PgDn");
    reveal_strlit("Ctrl-u Ctrl-d");
    reveal_strlit("Esc");
    reveal_strlit("Enter dblclick");
    reveal_strlit("?");
    reveal_strlit("Tab");
    reveal_strlit("q");
    reveal_strlit("Ctrl-C Ctrl-C");
    let t = help_table();
    if g == 0 {
        assert(t[0].1[0].0.len() <= 16);
        assert(t[0].1[1].0.len() <= 16);
        assert(t[0].1[2].0.len() <= 16);
        assert(t[0].1[3].0.len() <= 16);
        assert(t[0].1[4].0.len() <= 16);
        assert(t[0].1[5].0.len() <= 16);
        assert(t[0].1[6].0.len() <= 16);
        assert(t[0].1[7].0.len() <= 16);
        assert(t[0].1[8].0.len() <= 16);
    }
    if g == 1 {
        assert(t[1].1[0].0.len() <= 16);
        assert(t[1].1[1].0.len() <= 16);
        assert(t[1].1[2].0.len() <= 16);
        assert(t[1].1[3].0.len() <= 16);
        assert(t[1].1[4].0.len() <= 16);
        assert(t[1].1[5].0.len() <= 16);
        assert(t[1].1[6].0.len() <= 16);
        assert(t[1].1[7].0.len() <= 16);
        assert(t[1].1[8].0.len() <= 16);
        assert(t[1].1[9].0.len() <= 16);
        assert(t[1].1[10].0.len() <= 16);
        assert(t[1].1[11].0.len() <= 16);
        assert(t[1].1[12].0.len() <= 16);
        assert(t[1].1[13].0.len() <= 16);
        assert(t[1].1[14].0.len() <= 16);
        assert(t[1].1[15].0.len() <= 16);
    }
    if g == 2 {
        assert(t[2].1[0].0.len() <= 16);
        assert(t[2].1[1].0.len() <= 16);
        assert(t[2].1[2].0.len() <= 16);
        assert(t[2].1[3].0.len() <= 16);
        assert(t[2].1[4].0.len() <= 16);
        assert(t[2].1[5].0.len() <= 16);
        assert(t[2].1[6].0.len() <= 16);
        assert(t[2].1[7].0.len() <= 16);
        assert(t[2].1[8].0.len() <= 16);
        assert(t[2].1[9].0.len() <= 16);
        assert(t[2].1[10].0.len() <= 16);
        assert(t[2].1[11].0.len() <= 16);
        assert(t[2].1[12].0.len() <= 16);
        assert(t[2].1[13].0.len() <= 16);
    }
}

} // verus!
