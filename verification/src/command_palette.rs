//! Named-command overlay (`Ctrl-k` / `:`).
//!
//! Filter is case-insensitive substring on title, key chips, and group.

use vstd::prelude::*;

use crate::action::{Action, PaletteOpenedBy};
use crate::text::{
    ascii_lower, contains_chars, has_substr, lower_chars, lower_str_chars, pop_char, push_char,
    str_chars, trim, trim_chars,
};

verus! {

/// Help-column group names (MOVE / GIT / VIEW).
#[derive(Clone, Copy, Debug, PartialEq, Eq, Structural)]
pub enum CommandGroup {
    Move,
    Git,
    View,
}

/// Column title of a group.
pub open spec fn group_title_spec(g: CommandGroup) -> Seq<char> {
    match g {
        CommandGroup::Move => "MOVE"@,
        CommandGroup::Git => "GIT"@,
        CommandGroup::View => "VIEW"@,
    }
}

impl CommandGroup {
    /// Overlay / help column title.
    pub fn title(self) -> (s: &'static str)
        ensures
            s@ == group_title_spec(self),
    {
        match self {
            CommandGroup::Move => "MOVE",
            CommandGroup::Git => "GIT",
            CommandGroup::View => "VIEW",
        }
    }
}

/// One named command in the palette catalog.
#[derive(Clone, Copy, Debug, PartialEq, Eq)]
pub struct PaletteCommand {
    /// User-facing title (filter target).
    pub title: &'static str,
    /// Key chips shown in the row (filter target).
    pub keys: &'static str,
    /// MOVE / GIT / VIEW.
    pub group: CommandGroup,
    /// Dispatched after the palette closes.
    pub action: Action,
}

/// The catalog: named commands only, in table order.
pub open spec fn catalog() -> Seq<PaletteCommand> {
    seq![
        PaletteCommand { title: "Search focused pane", keys: "/", group: CommandGroup::Move, action: Action::SearchStart },
        PaletteCommand { title: "Stage", keys: "s", group: CommandGroup::Git, action: Action::Stage },
        PaletteCommand { title: "Unstage", keys: "u", group: CommandGroup::Git, action: Action::Unstage },
        PaletteCommand { title: "Revert", keys: "x", group: CommandGroup::Git, action: Action::Revert },
        PaletteCommand { title: "Stash menu", keys: "S", group: CommandGroup::Git, action: Action::StashMenu },
        PaletteCommand { title: "Fetch remotes", keys: "f", group: CommandGroup::Git, action: Action::Fetch },
        PaletteCommand { title: "Pull behind", keys: "p", group: CommandGroup::Git, action: Action::Pull },
        PaletteCommand { title: "Push", keys: "P", group: CommandGroup::Git, action: Action::Push },
        PaletteCommand { title: "Default branch", keys: "d", group: CommandGroup::Git, action: Action::DefaultBranch },
        PaletteCommand { title: "Branch picker", keys: "b", group: CommandGroup::Git, action: Action::Branch },
        PaletteCommand { title: "Checkout commit refs", keys: "b", group: CommandGroup::Git, action: Action::GraphCheckout },
        PaletteCommand { title: "Create branch at commit", keys: "c", group: CommandGroup::Git, action: Action::GraphCreateBranch },
        PaletteCommand { title: "Merge into HEAD", keys: "m", group: CommandGroup::Git, action: Action::GraphMerge },
        PaletteCommand { title: "Remove worktree", keys: "W", group: CommandGroup::Git, action: Action::RemoveWorktree },
        PaletteCommand { title: "Apply stash", keys: "a", group: CommandGroup::Git, action: Action::GraphStashApply },
        PaletteCommand { title: "Pop stash", keys: "p", group: CommandGroup::Git, action: Action::GraphStashPop },
        PaletteCommand { title: "Drop stash", keys: "D", group: CommandGroup::Git, action: Action::GraphStashDrop },
        PaletteCommand { title: "Open in editor", keys: "e", group: CommandGroup::Git, action: Action::Edit },
        PaletteCommand { title: "Open in diff tool", keys: "E", group: CommandGroup::Git, action: Action::ExternalDiff },
        PaletteCommand { title: "Refresh", keys: "r", group: CommandGroup::Git, action: Action::Refresh },
        PaletteCommand { title: "Mark reviewed", keys: "space", group: CommandGroup::Git, action: Action::ToggleReviewed },
        PaletteCommand { title: "Keymap help", keys: "?", group: CommandGroup::View, action: Action::ToggleHelp },
        PaletteCommand { title: "Cycle theme", keys: "T", group: CommandGroup::View, action: Action::CycleTheme },
        PaletteCommand { title: "Flat / tree", keys: "t", group: CommandGroup::View, action: Action::ToggleTreeMode },
        PaletteCommand { title: "Show ignored", keys: ".", group: CommandGroup::View, action: Action::ToggleShowIgnored },
        PaletteCommand { title: "Inline / split", keys: "i", group: CommandGroup::View, action: Action::ToggleDiffMode },
        PaletteCommand { title: "Toggle mouse", keys: "m", group: CommandGroup::View, action: Action::ToggleMouse },
        PaletteCommand { title: "Full-file context", keys: "Ctrl-o", group: CommandGroup::View, action: Action::ToggleFullContext },
        PaletteCommand { title: "Graph focus branches", keys: "o", group: CommandGroup::View, action: Action::GraphFocusBranches },
        PaletteCommand { title: "Clear graph focus", keys: "O", group: CommandGroup::View, action: Action::GraphFocusClear },
        PaletteCommand { title: "Comment", keys: ";", group: CommandGroup::View, action: Action::CommentStart },
        PaletteCommand { title: "Highlight diff lines", keys: "V", group: CommandGroup::View, action: Action::DiffVisualStart },
        PaletteCommand { title: "Copy comments", keys: "y", group: CommandGroup::View, action: Action::ExportComments },
        PaletteCommand { title: "Copy entity reference", keys: "'", group: CommandGroup::View, action: Action::CopyEntityReference },
    ]
}

/// Named commands only. Pointer / overlay-internal actions stay out.
pub fn palette_commands() -> (v: Vec<PaletteCommand>)
    ensures
        v@ == catalog(),
{
    let v = vec![
        PaletteCommand { title: "Search focused pane", keys: "/", group: CommandGroup::Move, action: Action::SearchStart },
        PaletteCommand { title: "Stage", keys: "s", group: CommandGroup::Git, action: Action::Stage },
        PaletteCommand { title: "Unstage", keys: "u", group: CommandGroup::Git, action: Action::Unstage },
        PaletteCommand { title: "Revert", keys: "x", group: CommandGroup::Git, action: Action::Revert },
        PaletteCommand { title: "Stash menu", keys: "S", group: CommandGroup::Git, action: Action::StashMenu },
        PaletteCommand { title: "Fetch remotes", keys: "f", group: CommandGroup::Git, action: Action::Fetch },
        PaletteCommand { title: "Pull behind", keys: "p", group: CommandGroup::Git, action: Action::Pull },
        PaletteCommand { title: "Push", keys: "P", group: CommandGroup::Git, action: Action::Push },
        PaletteCommand { title: "Default branch", keys: "d", group: CommandGroup::Git, action: Action::DefaultBranch },
        PaletteCommand { title: "Branch picker", keys: "b", group: CommandGroup::Git, action: Action::Branch },
        PaletteCommand { title: "Checkout commit refs", keys: "b", group: CommandGroup::Git, action: Action::GraphCheckout },
        PaletteCommand { title: "Create branch at commit", keys: "c", group: CommandGroup::Git, action: Action::GraphCreateBranch },
        PaletteCommand { title: "Merge into HEAD", keys: "m", group: CommandGroup::Git, action: Action::GraphMerge },
        PaletteCommand { title: "Remove worktree", keys: "W", group: CommandGroup::Git, action: Action::RemoveWorktree },
        PaletteCommand { title: "Apply stash", keys: "a", group: CommandGroup::Git, action: Action::GraphStashApply },
        PaletteCommand { title: "Pop stash", keys: "p", group: CommandGroup::Git, action: Action::GraphStashPop },
        PaletteCommand { title: "Drop stash", keys: "D", group: CommandGroup::Git, action: Action::GraphStashDrop },
        PaletteCommand { title: "Open in editor", keys: "e", group: CommandGroup::Git, action: Action::Edit },
        PaletteCommand { title: "Open in diff tool", keys: "E", group: CommandGroup::Git, action: Action::ExternalDiff },
        PaletteCommand { title: "Refresh", keys: "r", group: CommandGroup::Git, action: Action::Refresh },
        PaletteCommand { title: "Mark reviewed", keys: "space", group: CommandGroup::Git, action: Action::ToggleReviewed },
        PaletteCommand { title: "Keymap help", keys: "?", group: CommandGroup::View, action: Action::ToggleHelp },
        PaletteCommand { title: "Cycle theme", keys: "T", group: CommandGroup::View, action: Action::CycleTheme },
        PaletteCommand { title: "Flat / tree", keys: "t", group: CommandGroup::View, action: Action::ToggleTreeMode },
        PaletteCommand { title: "Show ignored", keys: ".", group: CommandGroup::View, action: Action::ToggleShowIgnored },
        PaletteCommand { title: "Inline / split", keys: "i", group: CommandGroup::View, action: Action::ToggleDiffMode },
        PaletteCommand { title: "Toggle mouse", keys: "m", group: CommandGroup::View, action: Action::ToggleMouse },
        PaletteCommand { title: "Full-file context", keys: "Ctrl-o", group: CommandGroup::View, action: Action::ToggleFullContext },
        PaletteCommand { title: "Graph focus branches", keys: "o", group: CommandGroup::View, action: Action::GraphFocusBranches },
        PaletteCommand { title: "Clear graph focus", keys: "O", group: CommandGroup::View, action: Action::GraphFocusClear },
        PaletteCommand { title: "Comment", keys: ";", group: CommandGroup::View, action: Action::CommentStart },
        PaletteCommand { title: "Highlight diff lines", keys: "V", group: CommandGroup::View, action: Action::DiffVisualStart },
        PaletteCommand { title: "Copy comments", keys: "y", group: CommandGroup::View, action: Action::ExportComments },
        PaletteCommand { title: "Copy entity reference", keys: "'", group: CommandGroup::View, action: Action::CopyEntityReference },
    ];
    assert(v@ =~= catalog());
    v
}

/// Lower-cased trimmed query.
pub open spec fn norm_query(query: Seq<char>) -> Seq<char> {
    ascii_lower(trim(query))
}

/// Case-insensitive substring on title, key chips, and group.
pub open spec fn command_matches_spec(c: PaletteCommand, query: Seq<char>) -> bool {
    let q = norm_query(query);
    q.len() == 0 || has_substr(ascii_lower(c.title@), q) || has_substr(ascii_lower(c.keys@), q)
        || has_substr(ascii_lower(group_title_spec(c.group)), q)
}

/// Filter of `cmds` by the query.
pub open spec fn filter_spec(cmds: Seq<PaletteCommand>, query: Seq<char>) -> Seq<PaletteCommand> {
    cmds.filter(|c: PaletteCommand| command_matches_spec(c, query))
}

fn matches_normalized(command: &PaletteCommand, q: &[char]) -> (b: bool)
    requires
        q@.len() > 0,
    ensures
        b == (has_substr(ascii_lower(command.title@), q@) || has_substr(ascii_lower(command.keys@), q@)
            || has_substr(ascii_lower(group_title_spec(command.group)), q@)),
{
    let t = lower_str_chars(command.title);
    let k = lower_str_chars(command.keys);
    let g = lower_str_chars(command.group.title());
    contains_chars(t.as_slice(), q) || contains_chars(k.as_slice(), q) || contains_chars(g.as_slice(), q)
}

fn normalize_query(query: &str) -> (q: Vec<char>)
    ensures
        q@ == norm_query(query@),
{
    let v = str_chars(query);
    let t = trim_chars(v.as_slice());
    lower_chars(t.as_slice())
}

/// Case-insensitive substring on title, key chips, and group.
pub fn command_matches(command: &PaletteCommand, query: &str) -> (b: bool)
    ensures
        b == command_matches_spec(*command, query@),
{
    let q = normalize_query(query);
    if q.len() == 0 {
        return true;
    }
    matches_normalized(command, q.as_slice())
}

/// Filtered catalog in table order. Empty query keeps every command.
pub fn filter_commands(query: &str) -> (v: Vec<PaletteCommand>)
    ensures
        v@ == filter_spec(catalog(), query@),
{
    let all = palette_commands();
    let mut out: Vec<PaletteCommand> = Vec::new();
    let mut i: usize = 0;
    while i < all.len()
        invariant
            i <= all.len(),
            all@ == catalog(),
            out@ == filter_spec(all@.take(i as int), query@),
        decreases all.len() - i,
    {
        let c = all[i];
        if command_matches(&c, query) {
            out.push(c);
        }
        proof {
            reveal(Seq::filter);
            assert(all@.take(i + 1).drop_last() =~= all@.take(i as int));
            assert(all@.take(i + 1).last() == c);
        }
        i += 1;
    }
    assert(all@.take(all.len() as int) =~= all@);
    out
}

/// The three groups in column order.
pub open spec fn all_groups() -> Seq<CommandGroup> {
    seq![CommandGroup::Move, CommandGroup::Git, CommandGroup::View]
}

/// Some catalog command of `g` matches the query.
pub open spec fn group_has_hit(g: CommandGroup, query: Seq<char>) -> bool {
    exists|i: int| 0 <= i < catalog().len() && (#[trigger] catalog()[i]).group == g && command_matches_spec(catalog()[i], query)
}

/// Groups that still have a hit. Empty query keeps MOVE / GIT / VIEW.
pub open spec fn visible_groups_spec(query: Seq<char>) -> Seq<CommandGroup> {
    if trim(query).len() == 0 {
        all_groups()
    } else {
        all_groups().filter(|g: CommandGroup| group_has_hit(g, query))
    }
}

fn group_hit(g: CommandGroup, query: &str) -> (b: bool)
    ensures
        b == group_has_hit(g, query@),
{
    let all = palette_commands();
    let mut i: usize = 0;
    while i < all.len()
        invariant
            i <= all.len(),
            all@ == catalog(),
            forall|j: int| 0 <= j < i ==> !((#[trigger] catalog()[j]).group == g && command_matches_spec(catalog()[j], query@)),
        decreases all.len() - i,
    {
        let c = all[i];
        if c.group == g && command_matches(&c, query) {
            return true;
        }
        i += 1;
    }
    false
}

/// Groups that still have a hit. Empty query keeps MOVE / GIT / VIEW.
pub fn visible_groups(query: &str) -> (v: Vec<CommandGroup>)
    ensures
        v@ == visible_groups_spec(query@),
{
    if crate::text::str_is_blank(query) {
        let v = vec![CommandGroup::Move, CommandGroup::Git, CommandGroup::View];
        assert(v@ =~= all_groups());
        return v;
    }
    let groups = vec![CommandGroup::Move, CommandGroup::Git, CommandGroup::View];
    assert(groups@ =~= all_groups());
    let mut out: Vec<CommandGroup> = Vec::new();
    let mut i: usize = 0;
    while i < groups.len()
        invariant
            i <= groups.len(),
            groups@ == all_groups(),
            out@ == groups@.take(i as int).filter(|g: CommandGroup| group_has_hit(g, query@)),
        decreases groups.len() - i,
    {
        let g = groups[i];
        if group_hit(g, query) {
            out.push(g);
        }
        proof {
            reveal(Seq::filter);
            assert(groups@.take(i + 1).drop_last() =~= groups@.take(i as int));
        }
        i += 1;
    }
    assert(groups@.take(3) =~= groups@);
    out
}

/// One painted palette line (group header or command).
#[derive(Clone, Copy, Debug, PartialEq, Eq)]
pub enum PalettePaintRow {
    /// MOVE / GIT / VIEW heading.
    Header(&'static str),
    /// Catalog row. `index` is into [`CommandPaletteState::visible`].
    Command { command: PaletteCommand, index: usize },
}

/// Group headers plus commands: a header before each change of group.
pub open spec fn paint_spec(vis: Seq<PaletteCommand>) -> Seq<PalettePaintRow>
    decreases vis.len(),
{
    if vis.len() == 0 {
        Seq::empty()
    } else {
        let n = vis.len() - 1;
        let head = if n == 0 || vis[n - 1].group != vis[n].group {
            seq![PalettePaintRow::Header(header_str(vis[n].group))]
        } else {
            Seq::empty()
        };
        paint_spec(vis.drop_last()) + head + seq![PalettePaintRow::Command { command: vis[n], index: n as usize }]
    }
}

/// The heading literal of a group.
pub open spec fn header_str(g: CommandGroup) -> &'static str {
    match g {
        CommandGroup::Move => "MOVE",
        CommandGroup::Git => "GIT",
        CommandGroup::View => "VIEW",
    }
}

/// Interactive palette state (filter + highlight).
#[derive(Clone, Debug, PartialEq, Eq)]
pub struct CommandPaletteState {
    /// Key that opened the overlay (`:` vs Ctrl-k prompt prefix).
    pub opened_by: PaletteOpenedBy,
    /// Filter query (substring).
    pub filter: String,
    /// Highlight index into [`Self::visible`].
    pub cursor: usize,
}

/// `cursor + delta` clamped into `0..len` (0 when `len == 0`).
pub open spec fn clamp_move(cursor: usize, delta: i32, len: nat) -> usize {
    if len == 0 {
        0
    } else {
        let next = cursor as int + delta as int;
        if next < 0 {
            0
        } else if next > len - 1 {
            (len - 1) as usize
        } else {
            next as usize
        }
    }
}

/// `cursor` clamped into `0..len` (0 when `len == 0`).
pub open spec fn clamp_index(cursor: usize, len: nat) -> usize {
    if len == 0 {
        0
    } else if cursor <= len - 1 {
        cursor
    } else {
        (len - 1) as usize
    }
}

/// `cursor + delta` clamped into `0..len`.
pub fn clamp_cursor_move(cursor: usize, delta: i32, len: usize) -> (r: usize)
    ensures
        r == clamp_move(cursor, delta, len as nat),
{
    if len == 0 {
        return 0;
    }
    let next: i128 = cursor as i128 + delta as i128;
    if next < 0 {
        0
    } else if next > (len - 1) as i128 {
        len - 1
    } else {
        next as usize
    }
}

impl CommandPaletteState {
    /// Empty filter, first row highlighted.
    pub fn new(opened_by: PaletteOpenedBy) -> (s: Self)
        ensures
            s.opened_by == opened_by,
            s.filter@ == Seq::<char>::empty(),
            s.cursor == 0,
    {
        CommandPaletteState { opened_by, filter: String::new(), cursor: 0 }
    }

    /// Commands that match the current filter, table order.
    pub fn visible(&self) -> (v: Vec<PaletteCommand>)
        ensures
            v@ == filter_spec(catalog(), self.filter@),
    {
        filter_commands(self.filter.as_str())
    }

    /// Highlighted command, if the filtered list is non-empty.
    pub fn selected(&self) -> (c: Option<PaletteCommand>)
        ensures
            c == (if self.cursor < filter_spec(catalog(), self.filter@).len() {
                Some(filter_spec(catalog(), self.filter@)[self.cursor as int])
            } else {
                None
            }),
    {
        let v = self.visible();
        if self.cursor < v.len() {
            Some(v[self.cursor])
        } else {
            None
        }
    }

    /// Mapped [`Action`] for the highlighted command, if any.
    pub fn selected_action(&self) -> (a: Option<Action>)
        ensures
            a == (if self.cursor < filter_spec(catalog(), self.filter@).len() {
                Some(filter_spec(catalog(), self.filter@)[self.cursor as int].action)
            } else {
                None
            }),
    {
        match self.selected() {
            Some(c) => Some(c.action),
            None => None,
        }
    }

    /// Clamp like the branch picker.
    pub fn move_cursor(&mut self, delta: i32)
        ensures
            final(self).opened_by == old(self).opened_by,
            final(self).filter == old(self).filter,
            final(self).cursor == clamp_move(old(self).cursor, delta, filter_spec(catalog(), old(self).filter@).len()),
    {
        let len = self.visible().len();
        self.cursor = clamp_cursor_move(self.cursor, delta, len);
    }

    /// Clamp the highlight into the filtered list.
    pub fn clamp_cursor(&mut self)
        ensures
            final(self).opened_by == old(self).opened_by,
            final(self).filter == old(self).filter,
            final(self).cursor == clamp_index(old(self).cursor, filter_spec(catalog(), old(self).filter@).len()),
    {
        let len = self.visible().len();
        if len == 0 {
            self.cursor = 0;
        } else if self.cursor > len - 1 {
            self.cursor = len - 1;
        }
    }

    /// Append a filter character and clamp the highlight.
    pub fn push_char(&mut self, c: char)
        ensures
            final(self).opened_by == old(self).opened_by,
            final(self).filter@ == old(self).filter@.push(c),
            final(self).cursor == clamp_index(old(self).cursor, filter_spec(catalog(), old(self).filter@.push(c)).len()),
    {
        push_char(&mut self.filter, c);
        self.clamp_cursor();
    }

    /// Delete the last filter character and clamp the highlight.
    pub fn backspace(&mut self)
        ensures
            final(self).opened_by == old(self).opened_by,
            final(self).filter@ == (if old(self).filter@.len() > 0 {
                old(self).filter@.drop_last()
            } else {
                old(self).filter@
            }),
            final(self).cursor == clamp_index(old(self).cursor, filter_spec(catalog(), final(self).filter@).len()),
    {
        let _ = pop_char(&mut self.filter);
        self.clamp_cursor();
    }

    /// Group headers plus commands in table order (empty groups omitted when filtering).
    pub fn paint_rows(&self) -> (rows: Vec<PalettePaintRow>)
        ensures
            rows@ == (if filter_spec(catalog(), self.filter@).len() == 0 {
                if trim(self.filter@).len() == 0 {
                    seq![
                        PalettePaintRow::Header("MOVE"),
                        PalettePaintRow::Header("GIT"),
                        PalettePaintRow::Header("VIEW"),
                    ]
                } else {
                    Seq::empty()
                }
            } else {
                paint_spec(filter_spec(catalog(), self.filter@))
            }),
    {
        let visible = self.visible();
        let mut out: Vec<PalettePaintRow> = Vec::new();
        if visible.len() == 0 {
            if crate::text::str_is_blank(self.filter.as_str()) {
                out.push(PalettePaintRow::Header("MOVE"));
                out.push(PalettePaintRow::Header("GIT"));
                out.push(PalettePaintRow::Header("VIEW"));
                assert(out@ =~= seq![
                    PalettePaintRow::Header("MOVE"),
                    PalettePaintRow::Header("GIT"),
                    PalettePaintRow::Header("VIEW"),
                ]);
            }
            return out;
        }
        let mut i: usize = 0;
        while i < visible.len()
            invariant
                i <= visible.len(),
                out@ == paint_spec(visible@.take(i as int)),
            decreases visible.len() - i,
        {
            let command = visible[i];
            if i == 0 || visible[i - 1].group != command.group {
                let h = match command.group {
                    CommandGroup::Move => "MOVE",
                    CommandGroup::Git => "GIT",
                    CommandGroup::View => "VIEW",
                };
                out.push(PalettePaintRow::Header(h));
            }
            out.push(PalettePaintRow::Command { command, index: i });
            proof {
                let t = visible@.take(i + 1);
                assert(t.drop_last() =~= visible@.take(i as int));
                assert(t[i as int] == command);
                if i > 0 {
                    assert(t[i - 1] == visible@[i - 1]);
                }
            }
            i += 1;
        }
        assert(visible@.take(visible.len() as int) =~= visible@);
        out
    }
}

} // verus!
