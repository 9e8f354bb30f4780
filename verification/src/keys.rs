//! Terminal events to [`Action`].
//!
//! Events are the library's own plain model of a terminal key / mouse /
//! resize event; the binary converts the terminal backend's events into it.

use vstd::prelude::*;

use crate::action::Action;

verus! {

/// Window for `zz` / `gg` after the first key.
pub const DOUBLE_TAP_MS: u64 = 400;

/// Poll while a nav key may still be held.
pub const NAV_REPEAT_POLL_MS: u64 = 16;

/// How the keymap reads the next key.
#[derive(Clone, Copy, Debug, PartialEq, Eq, Structural)]
pub enum InputMode {
    Normal { search_active: bool },
    /// First `z` already toggled; second `z` in the window is subtree.
    ZPending { search_active: bool },
    /// First `g` armed; second `g` in the window is `gg` (move to start).
    GPending { search_active: bool },
    SearchPrompt,
    Confirm,
    Help,
    /// `?` overlay with `/` help query open (chars append; highlight only).
    HelpSearch,
    StashMenu,
    BranchPicker,
    GraphFocusPicker,
    CreateBranch,
    Comment,
    CommentExport,
}

/// Key code of a key event.
#[derive(Clone, Copy, Debug, PartialEq, Eq, Structural)]
pub enum KeyCode {
    Char(char),
    Enter,
    Esc,
    Backspace,
    Tab,
    Left,
    Right,
    Up,
    Down,
    Home,
    End,
    PageUp,
    PageDown,
    /// Any other key (function keys, insert, delete, …).
    Other,
}

/// Modifier state of a key or mouse event.
#[derive(Clone, Copy, Debug, PartialEq, Eq, Structural)]
pub struct KeyModifiers {
    pub control: bool,
    pub shift: bool,
    pub alt: bool,
}

/// Press, auto-repeat, or release.
#[derive(Clone, Copy, Debug, PartialEq, Eq, Structural)]
pub enum KeyEventKind {
    Press,
    Repeat,
    Release,
}

/// One key event.
#[derive(Clone, Copy, Debug, PartialEq, Eq, Structural)]
pub struct KeyEvent {
    pub code: KeyCode,
    pub modifiers: KeyModifiers,
    pub kind: KeyEventKind,
}

/// Mouse button.
#[derive(Clone, Copy, Debug, PartialEq, Eq, Structural)]
pub enum MouseButton {
    Left,
    Right,
    Middle,
}

/// Mouse event kind.
#[derive(Clone, Copy, Debug, PartialEq, Eq, Structural)]
pub enum MouseEventKind {
    Down(MouseButton),
    Up(MouseButton),
    Drag(MouseButton),
    Moved,
    ScrollDown,
    ScrollUp,
    ScrollLeft,
    ScrollRight,
}

/// One mouse event.
#[derive(Clone, Copy, Debug, PartialEq, Eq, Structural)]
pub struct MouseEvent {
    pub kind: MouseEventKind,
    pub column: u16,
    pub row: u16,
    pub modifiers: KeyModifiers,
}

/// One terminal event.
#[derive(Clone, Copy, Debug, PartialEq, Eq, Structural)]
pub enum Event {
    Key(KeyEvent),
    Mouse(MouseEvent),
    Resize(u16, u16),
    /// Focus, paste, and other events the keymap ignores.
    Other,
}

/// Keys that fire again while held.
pub open spec fn repeats_while_held_spec(key: KeyEvent) -> bool {
    if key.modifiers.control {
        key.code == KeyCode::Char('u') || key.code == KeyCode::Char('d')
    } else {
        key.code == KeyCode::Char('h') || key.code == KeyCode::Char('j') || key.code
            == KeyCode::Char('k') || key.code == KeyCode::Char('l') || key.code == KeyCode::Left
            || key.code == KeyCode::Right || key.code == KeyCode::Up || key.code == KeyCode::Down
            || key.code == KeyCode::PageUp || key.code == KeyCode::PageDown
    }
}

/// Keys that fire again while held (typical terminal key-repeat).
pub fn key_repeats_while_held(key: KeyEvent) -> (b: bool)
    ensures
        b == repeats_while_held_spec(key),
{
    if key.modifiers.control {
        return matches!(key.code, KeyCode::Char('u') | KeyCode::Char('d'));
    }
    matches!(
        key.code,
        KeyCode::Char('h') | KeyCode::Char('j') | KeyCode::Char('k') | KeyCode::Char('l')
            | KeyCode::Left | KeyCode::Right | KeyCode::Up | KeyCode::Down | KeyCode::PageUp
            | KeyCode::PageDown
    )
}

/// Typing into an overlay: backspace or an unmodified char.
pub open spec fn is_typing_spec(key: KeyEvent) -> bool {
    !key.modifiers.control && (key.code is Backspace || key.code is Char)
}

/// A repeat of `key` maps to an action in `mode`.
pub open spec fn repeat_maps_spec(key: KeyEvent, mode: InputMode) -> bool {
    if repeats_while_held_spec(key) {
        true
    } else {
        match mode {
            InputMode::SearchPrompt | InputMode::HelpSearch | InputMode::CreateBranch => is_typing_spec(key),
            InputMode::BranchPicker => match key.code {
                KeyCode::Backspace => true,
                KeyCode::Char(c) => c != 'C' && is_typing_spec(key),
                _ => false,
            },
            _ => false,
        }
    }
}

fn repeat_maps_to_action(key: KeyEvent, mode: InputMode) -> (b: bool)
    ensures
        b == repeat_maps_spec(key, mode),
{
    if key_repeats_while_held(key) {
        return true;
    }
    let typing = !key.modifiers.control && matches!(key.code, KeyCode::Backspace | KeyCode::Char(_));
    match mode {
        InputMode::SearchPrompt | InputMode::HelpSearch | InputMode::CreateBranch => typing,
        InputMode::BranchPicker => match key.code {
            KeyCode::Backspace => true,
            KeyCode::Char(c) => c != 'C' && typing,
            _ => false,
        },
        _ => false,
    }
}

/// Queued press / repeat / release of the same held nav key.
pub fn is_held_nav_backlog(held: KeyEvent, event: &Event) -> (b: bool)
    ensures
        b == (match *event {
            Event::Key(next) => repeats_while_held_spec(held) && next.code == held.code
                && next.modifiers == held.modifiers,
            _ => false,
        }),
{
    match event {
        Event::Key(next) => {
            if !key_repeats_while_held(held) {
                return false;
            }
            next.code == held.code && next.modifiers == held.modifiers
        },
        _ => false,
    }
}

/// Press or Repeat of a nav key that should arm the short repeat poll.
pub fn held_nav_key(event: &Event) -> (r: Option<KeyEvent>)
    ensures
        r == (match *event {
            Event::Key(key) => if (key.kind == KeyEventKind::Press || key.kind
                == KeyEventKind::Repeat) && repeats_while_held_spec(key) {
                Some(key)
            } else {
                None
            },
            _ => None,
        }),
{
    match event {
        Event::Key(key) => {
            if (key.kind == KeyEventKind::Press || key.kind == KeyEventKind::Repeat)
                && key_repeats_while_held(*key) {
                Some(*key)
            } else {
                None
            }
        },
        _ => None,
    }
}

/// `j`/`k`/Page keys on a focused diff scroll it; elsewhere they move.
pub open spec fn move_or_scroll(on_diff: bool, scroll: i32, mv: Action) -> Action {
    if on_diff {
        Action::ScrollDiff(scroll)
    } else {
        mv
    }
}

/// `h` / `l` / arrows: fold the workspace tree, otherwise pan.
pub open spec fn hl_or_pan_spec(key: KeyEvent, delta: i32, focus_right: bool, hl_folds: bool) -> Action {
    if key.modifiers.shift || !hl_folds || focus_right {
        if delta < 0 {
            Action::PanDiff(-1i32)
        } else {
            Action::PanDiff(1i32)
        }
    } else if delta < 0 {
        Action::FoldClose
    } else {
        Action::FoldOpen
    }
}

/// Normal-mode keymap.
pub open spec fn normal_key_spec(
    key: KeyEvent,
    search_active: bool,
    right_is_diff: bool,
    focus_right: bool,
    graph_stash_focused: bool,
    graph_commit_focused: bool,
    hl_folds: bool,
) -> Action {
    let on_diff = focus_right && right_is_diff;
    let ctrl = key.modifiers.control;
    if graph_stash_focused && key.code == KeyCode::Char('a') {
        Action::GraphStashApply
    } else if graph_stash_focused && key.code == KeyCode::Char('p') {
        Action::GraphStashPop
    } else if graph_stash_focused && key.code == KeyCode::Char('D') {
        Action::GraphStashDrop
    } else if graph_commit_focused && key.code == KeyCode::Char('b') {
        Action::GraphCheckout
    } else if graph_commit_focused && key.code == KeyCode::Char('c') {
        Action::GraphCreateBranch
    } else if graph_commit_focused && key.code == KeyCode::Char('m') {
        Action::GraphMerge
    } else if ctrl && key.code == KeyCode::Char('o') {
        Action::ToggleFullContext
    } else if ctrl && key.code == KeyCode::Char('u') {
        move_or_scroll(on_diff, -5i32, Action::Move(-5i32))
    } else if ctrl && key.code == KeyCode::Char('d') {
        move_or_scroll(on_diff, 5i32, Action::Move(5i32))
    } else {
        match key.code {
            KeyCode::Char(c) => if c == 'T' {
                Action::CycleTheme
            } else if c == 't' {
                Action::ToggleTreeMode
            } else if c == 'q' {
                Action::Quit
            } else if c == '?' {
                Action::ToggleHelp
            } else if c == '.' {
                Action::ToggleShowIgnored
            } else if c == 'f' {
                Action::Fetch
            } else if c == 'p' {
                Action::Pull
            } else if c == 'd' {
                Action::DefaultBranch
            } else if c == 'r' {
                Action::Refresh
            } else if c == ' ' {
                Action::ToggleReviewed
            } else if c == 'z' {
                Action::FoldToggle
            } else if c == '/' {
                Action::SearchStart
            } else if c == 's' {
                Action::Stage
            } else if c == 'u' {
                Action::Unstage
            } else if c == 'x' {
                Action::Revert
            } else if c == 'e' {
                Action::Edit
            } else if c == 'E' {
                Action::ExternalDiff
            } else if c == 'P' {
                Action::Push
            } else if c == 'S' {
                Action::StashMenu
            } else if c == 'b' {
                Action::Branch
            } else if c == 'w' || c == 'W' {
                Action::RemoveWorktree
            } else if c == 'i' {
                Action::ToggleDiffMode
            } else if c == 'm' {
                Action::ToggleMouse
            } else if c == 'n' && search_active {
                Action::SearchNext
            } else if c == 'N' && search_active {
                Action::SearchPrev
            } else if c == 'G' {
                Action::MoveToEnd
            } else if c == 'g' {
                Action::ArmGChord
            } else if c == 'j' {
                move_or_scroll(on_diff, 1i32, Action::Move(1i32))
            } else if c == 'k' {
                move_or_scroll(on_diff, -1i32, Action::Move(-1i32))
            } else if c == 'h' {
                hl_or_pan_spec(key, -1i32, focus_right, hl_folds)
            } else if c == 'l' {
                hl_or_pan_spec(key, 1i32, focus_right, hl_folds)
            } else {
                Action::NoOp
            },
            KeyCode::Tab => if focus_right {
                Action::FocusLeft
            } else {
                Action::FocusRight
            },
            KeyCode::Home => Action::MoveToStart,
            KeyCode::End => Action::MoveToEnd,
            KeyCode::PageUp => move_or_scroll(on_diff, -10i32, Action::PageMove(-1i32)),
            KeyCode::PageDown => move_or_scroll(on_diff, 10i32, Action::PageMove(1i32)),
            KeyCode::Down => move_or_scroll(on_diff, 1i32, Action::Move(1i32)),
            KeyCode::Up => move_or_scroll(on_diff, -1i32, Action::Move(-1i32)),
            KeyCode::Left => hl_or_pan_spec(key, -1i32, focus_right, hl_folds),
            KeyCode::Right => hl_or_pan_spec(key, 1i32, focus_right, hl_folds),
            KeyCode::Enter => Action::NavEnter,
            KeyCode::Esc => Action::NavEsc,
            _ => Action::NoOp,
        }
    }
}

fn hl_or_pan(key: KeyEvent, delta: i32, focus_right: bool, hl_folds: bool) -> (a: Action)
    ensures
        a == hl_or_pan_spec(key, delta, focus_right, hl_folds),
{
    let pan = if delta < 0 {
        Action::PanDiff(-1i32)
    } else {
        Action::PanDiff(1i32)
    };
    if key.modifiers.shift || !hl_folds || focus_right {
        return pan;
    }
    if delta < 0 {
        Action::FoldClose
    } else {
        Action::FoldOpen
    }
}

/// Normal-mode keymap (also the fall-through of the `z` / `g` chords).
pub fn normal_key(
    key: KeyEvent,
    search_active: bool,
    right_is_diff: bool,
    focus_right: bool,
    graph_stash_focused: bool,
    graph_commit_focused: bool,
    hl_folds: bool,
) -> (a: Action)
    ensures
        a == normal_key_spec(
            key,
            search_active,
            right_is_diff,
            focus_right,
            graph_stash_focused,
            graph_commit_focused,
            hl_folds,
        ),
{
    if graph_stash_focused {
        match key.code {
            KeyCode::Char('a') => return Action::GraphStashApply,
            KeyCode::Char('p') => return Action::GraphStashPop,
            KeyCode::Char('D') => return Action::GraphStashDrop,
            _ => {},
        }
    }
    if graph_commit_focused {
        match key.code {
            KeyCode::Char('b') => return Action::GraphCheckout,
            KeyCode::Char('c') => return Action::GraphCreateBranch,
            KeyCode::Char('m') => return Action::GraphMerge,
            _ => {},
        }
    }
    let on_diff = focus_right && right_is_diff;
    if key.modifiers.control && key.code == KeyCode::Char('o') {
        return Action::ToggleFullContext;
    }
    if key.modifiers.control && key.code == KeyCode::Char('u') {
        return if on_diff {
            Action::ScrollDiff(-5i32)
        } else {
            Action::Move(-5i32)
        };
    }
    if key.modifiers.control && key.code == KeyCode::Char('d') {
        return if on_diff {
            Action::ScrollDiff(5)
        } else {
            Action::Move(5i32)
        };
    }
    match key.code {
        KeyCode::Char('T') => Action::CycleTheme,
        KeyCode::Char('t') => Action::ToggleTreeMode,
        KeyCode::Char('q') => Action::Quit,
        KeyCode::Char('?') => Action::ToggleHelp,
        KeyCode::Char('.') => Action::ToggleShowIgnored,
        KeyCode::Char('f') => Action::Fetch,
        KeyCode::Char('p') => Action::Pull,
        KeyCode::Char('d') => Action::DefaultBranch,
        KeyCode::Char('r') => Action::Refresh,
        KeyCode::Char(' ') => Action::ToggleReviewed,
        KeyCode::Char('z') => Action::FoldToggle,
        KeyCode::Char('/') => Action::SearchStart,
        KeyCode::Char('s') => Action::Stage,
        KeyCode::Char('u') => Action::Unstage,
        KeyCode::Char('x') => Action::Revert,
        KeyCode::Char('e') => Action::Edit,
        KeyCode::Char('E') => Action::ExternalDiff,
        KeyCode::Char('P') => Action::Push,
        KeyCode::Char('S') => Action::StashMenu,
        KeyCode::Char('b') => Action::Branch,
        KeyCode::Char('w') | KeyCode::Char('W') => Action::RemoveWorktree,
        KeyCode::Char('i') => Action::ToggleDiffMode,
        KeyCode::Char('m') => Action::ToggleMouse,
        KeyCode::Char('n') if search_active => Action::SearchNext,
        KeyCode::Char('N') if search_active => Action::SearchPrev,
        KeyCode::Tab => {
            if focus_right {
                Action::FocusLeft
            } else {
                Action::FocusRight
            }
        },
        KeyCode::Char('G') => Action::MoveToEnd,
        KeyCode::Char('g') => Action::ArmGChord,
        KeyCode::Home => Action::MoveToStart,
        KeyCode::End => Action::MoveToEnd,
        KeyCode::PageUp => {
            if on_diff {
                Action::ScrollDiff(-10i32)
            } else {
                Action::PageMove(-1i32)
            }
        },
        KeyCode::PageDown => {
            if on_diff {
                Action::ScrollDiff(10)
            } else {
                Action::PageMove(1i32)
            }
        },
        KeyCode::Char('j') | KeyCode::Down => {
            if on_diff {
                Action::ScrollDiff(1)
            } else {
                Action::Move(1i32)
            }
        },
        KeyCode::Char('k') | KeyCode::Up => {
            if on_diff {
                Action::ScrollDiff(-1i32)
            } else {
                Action::Move(-1i32)
            }
        },
        KeyCode::Char('h') | KeyCode::Left => hl_or_pan(key, -1, focus_right, hl_folds),
        KeyCode::Char('l') | KeyCode::Right => hl_or_pan(key, 1, focus_right, hl_folds),
        KeyCode::Enter => Action::NavEnter,
        KeyCode::Esc => Action::NavEsc,
        _ => Action::NoOp,
    }
}

/// Overlay keymaps and the chord modes in front of [`normal_key_spec`].
pub open spec fn key_to_action_spec(
    key: KeyEvent,
    mode: InputMode,
    right_is_diff: bool,
    focus_right: bool,
    graph_stash_focused: bool,
    graph_commit_focused: bool,
    hl_folds: bool,
) -> Action {
    let ctrl = key.modifiers.control;
    let normal = |search_active: bool|
        normal_key_spec(
            key,
            search_active,
            right_is_diff,
            focus_right,
            graph_stash_focused,
            graph_commit_focused,
            hl_folds,
        );
    if ctrl && key.code == KeyCode::Char('c') {
        Action::CtrlC
    } else {
        match mode {
            InputMode::Help => match key.code {
                KeyCode::Char('/') => Action::SearchStart,
                KeyCode::Char('q') | KeyCode::Esc | KeyCode::Char('?') => Action::ToggleHelp,
                _ => Action::NoOp,
            },
            InputMode::HelpSearch | InputMode::SearchPrompt => match key.code {
                KeyCode::Esc => Action::SearchCancel,
                KeyCode::Enter => if mode == InputMode::SearchPrompt {
                    Action::SearchSubmit
                } else {
                    Action::NoOp
                },
                KeyCode::Backspace => Action::SearchBackspace,
                KeyCode::Char(c) => if ctrl {
                    if c == 'h' {
                        Action::SearchBackspace
                    } else {
                        Action::NoOp
                    }
                } else {
                    Action::SearchChar(c)
                },
                _ => Action::NoOp,
            },
            InputMode::ZPending { search_active } => match key.code {
                KeyCode::Char('z') => Action::FoldToggleSubtree,
                KeyCode::Esc => Action::NoOp,
                _ => normal(search_active),
            },
            InputMode::GPending { search_active } => match key.code {
                KeyCode::Char('g') => Action::MoveToStart,
                KeyCode::Esc => Action::NoOp,
                _ => normal(search_active),
            },
            InputMode::Confirm => match key.code {
                KeyCode::Char('Y') => Action::ConfirmYesClean,
                KeyCode::Char('y') | KeyCode::Enter => Action::ConfirmYes,
                KeyCode::Char('n') | KeyCode::Esc => Action::ConfirmNo,
                _ => Action::NoOp,
            },
            InputMode::StashMenu => match key.code {
                KeyCode::Esc => Action::StashMenuCancel,
                KeyCode::Enter => Action::StashMenuEnter,
                KeyCode::Char(c) => if ctrl {
                    Action::NoOp
                } else {
                    Action::StashMenuChar(c)
                },
                _ => Action::NoOp,
            },
            InputMode::BranchPicker => match key.code {
                KeyCode::Esc => Action::BranchCancel,
                KeyCode::Enter => Action::BranchSubmit,
                KeyCode::Backspace => Action::BranchBackspace,
                KeyCode::Char('j') | KeyCode::Down => Action::BranchMove(1),
                KeyCode::Char('k') | KeyCode::Up => Action::BranchMove(-1i32),
                KeyCode::Char('C') => Action::CreateBranchStart,
                KeyCode::Char(c) => if ctrl {
                    Action::NoOp
                } else {
                    Action::BranchChar(c)
                },
                _ => Action::NoOp,
            },
            InputMode::CreateBranch => match key.code {
                KeyCode::Esc => Action::CreateBranchCancel,
                KeyCode::Enter => Action::CreateBranchSubmit,
                KeyCode::Backspace => Action::CreateBranchBackspace,
                KeyCode::Char(c) => if ctrl {
                    Action::NoOp
                } else {
                    Action::CreateBranchChar(c)
                },
                _ => Action::NoOp,
            },
            InputMode::Normal { search_active } => normal(search_active),
            _ => Action::NoOp,
        }
    }
}

/// Overlay keymaps and the chord modes in front of [`normal_key`].
pub fn key_to_action(
    key: KeyEvent,
    mode: InputMode,
    right_is_diff: bool,
    focus_right: bool,
    graph_stash_focused: bool,
    graph_commit_focused: bool,
    hl_folds: bool,
) -> (a: Action)
    ensures
        a == key_to_action_spec(
            key,
            mode,
            right_is_diff,
            focus_right,
            graph_stash_focused,
            graph_commit_focused,
            hl_folds,
        ),
{
    let ctrl = key.modifiers.control;
    if ctrl && key.code == KeyCode::Char('c') {
        return Action::CtrlC;
    }
    match mode {
        InputMode::Help => match key.code {
            KeyCode::Char('/') => Action::SearchStart,
            KeyCode::Char('q') | KeyCode::Esc | KeyCode::Char('?') => Action::ToggleHelp,
            _ => Action::NoOp,
        },
        InputMode::HelpSearch => match key.code {
            KeyCode::Esc => Action::SearchCancel,
            KeyCode::Backspace => Action::SearchBackspace,
            KeyCode::Char('h') if ctrl => Action::SearchBackspace,
            KeyCode::Char(c) if !ctrl => Action::SearchChar(c),
            _ => Action::NoOp,
        },
        InputMode::ZPending { search_active } => match key.code {
            KeyCode::Char('z') => Action::FoldToggleSubtree,
            KeyCode::Esc => Action::NoOp,
            _ => normal_key(
                key,
                search_active,
                right_is_diff,
                focus_right,
                graph_stash_focused,
                graph_commit_focused,
                hl_folds,
            ),
        },
        InputMode::GPending { search_active } => match key.code {
            KeyCode::Char('g') => Action::MoveToStart,
            KeyCode::Esc => Action::NoOp,
            _ => normal_key(
                key,
                search_active,
                right_is_diff,
                focus_right,
                graph_stash_focused,
                graph_commit_focused,
                hl_folds,
            ),
        },
        InputMode::Confirm => match key.code {
            KeyCode::Char('Y') => Action::ConfirmYesClean,
            KeyCode::Char('y') | KeyCode::Enter => Action::ConfirmYes,
            KeyCode::Char('n') | KeyCode::Esc => Action::ConfirmNo,
            _ => Action::NoOp,
        },
        InputMode::SearchPrompt => match key.code {
            KeyCode::Esc => Action::SearchCancel,
            KeyCode::Enter => Action::SearchSubmit,
            KeyCode::Backspace => Action::SearchBackspace,
            KeyCode::Char('h') if ctrl => Action::SearchBackspace,
            KeyCode::Char(c) if !ctrl => Action::SearchChar(c),
            _ => Action::NoOp,
        },
        InputMode::StashMenu => match key.code {
            KeyCode::Esc => Action::StashMenuCancel,
            KeyCode::Enter => Action::StashMenuEnter,
            KeyCode::Char(c) if !ctrl => Action::StashMenuChar(c),
            _ => Action::NoOp,
        },
        InputMode::BranchPicker => match key.code {
            KeyCode::Esc => Action::BranchCancel,
            KeyCode::Enter => Action::BranchSubmit,
            KeyCode::Backspace => Action::BranchBackspace,
            KeyCode::Char('j') | KeyCode::Down => Action::BranchMove(1),
            KeyCode::Char('k') | KeyCode::Up => Action::BranchMove(-1i32),
            KeyCode::Char('C') => Action::CreateBranchStart,
            KeyCode::Char(c) if !ctrl => Action::BranchChar(c),
            _ => Action::NoOp,
        },
        InputMode::CreateBranch => match key.code {
            KeyCode::Esc => Action::CreateBranchCancel,
            KeyCode::Enter => Action::CreateBranchSubmit,
            KeyCode::Backspace => Action::CreateBranchBackspace,
            KeyCode::Char(c) if !ctrl => Action::CreateBranchChar(c),
            _ => Action::NoOp,
        },
        InputMode::Normal { search_active } => normal_key(
            key,
            search_active,
            right_is_diff,
            focus_right,
            graph_stash_focused,
            graph_commit_focused,
            hl_folds,
        ),
        _ => Action::NoOp,
    }
}

/// Vertical wheel, or horizontal pan (wheel left/right / Shift+wheel).
pub open spec fn wheel_action_spec(mouse: MouseEvent, delta: i32, horizontal: bool) -> Action {
    Action::ScrollWheel {
        col: mouse.column,
        row: mouse.row,
        delta,
        horizontal: horizontal || mouse.modifiers.shift,
    }
}

/// Mouse gestures: left click / drag / release and the four wheel directions.
pub open spec fn mouse_to_action_spec(mouse: MouseEvent) -> Action {
    match mouse.kind {
        MouseEventKind::Down(MouseButton::Left) => Action::Click { col: mouse.column, row: mouse.row },
        MouseEventKind::Drag(MouseButton::Left) => Action::Drag { col: mouse.column, row: mouse.row },
        MouseEventKind::Up(MouseButton::Left) => Action::Release,
        MouseEventKind::ScrollDown => wheel_action_spec(mouse, 1i32, false),
        MouseEventKind::ScrollUp => wheel_action_spec(mouse, -1i32, false),
        MouseEventKind::ScrollLeft => wheel_action_spec(mouse, -1i32, true),
        MouseEventKind::ScrollRight => wheel_action_spec(mouse, 1i32, true),
        _ => Action::NoOp,
    }
}

fn mouse_to_action(mouse: MouseEvent) -> (a: Action)
    ensures
        a == mouse_to_action_spec(mouse),
{
    let shift = mouse.modifiers.shift;
    match mouse.kind {
        MouseEventKind::Down(MouseButton::Left) => Action::Click { col: mouse.column, row: mouse.row },
        MouseEventKind::Drag(MouseButton::Left) => Action::Drag { col: mouse.column, row: mouse.row },
        MouseEventKind::Up(MouseButton::Left) => Action::Release,
        MouseEventKind::ScrollDown => Action::ScrollWheel { col: mouse.column, row: mouse.row, delta: 1, horizontal: shift },
        MouseEventKind::ScrollUp => Action::ScrollWheel { col: mouse.column, row: mouse.row, delta: -1, horizontal: shift },
        MouseEventKind::ScrollLeft => Action::ScrollWheel { col: mouse.column, row: mouse.row, delta: -1, horizontal: true },
        MouseEventKind::ScrollRight => Action::ScrollWheel { col: mouse.column, row: mouse.row, delta: 1, horizontal: true },
        _ => Action::NoOp,
    }
}

/// Overlay modes that swallow the mouse.
pub open spec fn mouse_blocked_spec(mode: InputMode) -> bool {
    !(mode is Normal || mode is ZPending || mode is GPending)
}

/// One terminal event mapped to an action.
///
/// Key release is ignored. Repeat fires only for held nav and overlay
/// typing. Overlays swallow the mouse.
pub open spec fn event_to_action_spec(
    event: Event,
    mode: InputMode,
    right_is_diff: bool,
    focus_right: bool,
    graph_stash_focused: bool,
    graph_commit_focused: bool,
    hl_folds: bool,
) -> Action {
    match event {
        Event::Resize(cols, rows) => Action::Resize { cols, rows },
        Event::Key(key) => match key.kind {
            KeyEventKind::Release => Action::NoOp,
            KeyEventKind::Press => key_to_action_spec(
                key,
                mode,
                right_is_diff,
                focus_right,
                graph_stash_focused,
                graph_commit_focused,
                hl_folds,
            ),
            KeyEventKind::Repeat => if repeat_maps_spec(key, mode) {
                key_to_action_spec(
                    key,
                    mode,
                    right_is_diff,
                    focus_right,
                    graph_stash_focused,
                    graph_commit_focused,
                    hl_folds,
                )
            } else {
                Action::NoOp
            },
        },
        Event::Mouse(mouse) => if mouse_blocked_spec(mode) {
            Action::NoOp
        } else {
            mouse_to_action_spec(mouse)
        },
        Event::Other => Action::NoOp,
    }
}

/// [`event_to_action_ex`] with an explicit fold-vs-pan flag for `h` / `l`.
pub fn event_to_action_with(
    event: &Event,
    mode: InputMode,
    right_is_diff: bool,
    focus_right: bool,
    graph_stash_focused: bool,
    graph_commit_focused: bool,
    hl_folds: bool,
) -> (a: Action)
    ensures
        a == event_to_action_spec(
            *event,
            mode,
            right_is_diff,
            focus_right,
            graph_stash_focused,
            graph_commit_focused,
            hl_folds,
        ),
{
    match event {
        Event::Resize(cols, rows) => Action::Resize { cols: *cols, rows: *rows },
        Event::Key(key) => match key.kind {
            KeyEventKind::Release => Action::NoOp,
            KeyEventKind::Press => key_to_action(
                *key,
                mode,
                right_is_diff,
                focus_right,
                graph_stash_focused,
                graph_commit_focused,
                hl_folds,
            ),
            KeyEventKind::Repeat => {
                if repeat_maps_to_action(*key, mode) {
                    key_to_action(
                        *key,
                        mode,
                        right_is_diff,
                        focus_right,
                        graph_stash_focused,
                        graph_commit_focused,
                        hl_folds,
                    )
                } else {
                    Action::NoOp
                }
            },
        },
        Event::Mouse(mouse) => {
            let blocked = !matches!(
                mode,
                InputMode::Normal { .. } | InputMode::ZPending { .. } | InputMode::GPending { .. }
            );
            if blocked {
                Action::NoOp
            } else {
                mouse_to_action(*mouse)
            }
        },
        Event::Other => Action::NoOp,
    }
}

/// Map one terminal event, including graph-stash and graph-commit keys.
/// `h` / `l` fold the workspace tree.
pub fn event_to_action_ex(
    event: &Event,
    mode: InputMode,
    right_is_diff: bool,
    focus_right: bool,
    graph_stash_focused: bool,
    graph_commit_focused: bool,
) -> (a: Action)
    ensures
        a == event_to_action_spec(
            *event,
            mode,
            right_is_diff,
            focus_right,
            graph_stash_focused,
            graph_commit_focused,
            true,
        ),
{
    event_to_action_with(
        event,
        mode,
        right_is_diff,
        focus_right,
        graph_stash_focused,
        graph_commit_focused,
        true,
    )
}

/// Map one terminal event with no graph row focused.
pub fn event_to_action(event: &Event, mode: InputMode, right_is_diff: bool, focus_right: bool) -> (a: Action)
    ensures
        a == event_to_action_spec(*event, mode, right_is_diff, focus_right, false, false, true),
{
    event_to_action_ex(event, mode, right_is_diff, focus_right, false, false)
}

/// Ctrl-C quits (first press prompts) from every mode, on press.
pub proof fn lemma_ctrl_c_everywhere(key: KeyEvent, mode: InputMode, rd: bool, fr: bool, gs: bool, gc: bool, hl: bool)
    requires
        key.modifiers.control,
        key.code == KeyCode::Char('c'),
        key.kind == KeyEventKind::Press,
    ensures
        event_to_action_spec(Event::Key(key), mode, rd, fr, gs, gc, hl) == Action::CtrlC,
{
}

/// A key release never maps to an action.
pub proof fn lemma_release_is_none(key: KeyEvent, mode: InputMode, rd: bool, fr: bool, gs: bool, gc: bool, hl: bool)
    requires
        key.kind == KeyEventKind::Release,
    ensures
        event_to_action_spec(Event::Key(key), mode, rd, fr, gs, gc, hl) == Action::NoOp,
{
}

/// A repeat of a one-shot key (`z`, `g`, a write, quit) is dropped.
pub proof fn lemma_repeat_of_chord_is_none(key: KeyEvent, search_active: bool, rd: bool, fr: bool, gs: bool, gc: bool, hl: bool)
    requires
        key.kind == KeyEventKind::Repeat,
        !key.modifiers.control,
        key.code == KeyCode::Char('z') || key.code == KeyCode::Char('g') || key.code
            == KeyCode::Char('s') || key.code == KeyCode::Char('q'),
    ensures
        event_to_action_spec(
            Event::Key(key),
            InputMode::Normal { search_active },
            rd,
            fr,
            gs,
            gc,
            hl,
        ) == Action::NoOp,
{
}

/// The normal-mode key table: with Ctrl up, no graph row focused and no
/// search running, each pressed key gives its own action.
pub proof fn lemma_normal_mode_key_table(key: KeyEvent, right_is_diff: bool, focus_right: bool, hl_folds: bool)
    requires
        key.kind == KeyEventKind::Press,
        !key.modifiers.control,
    ensures
        ({
            let a = event_to_action_spec(
                Event::Key(key),
                InputMode::Normal { search_active: false },
                right_is_diff,
                focus_right,
                false,
                false,
                hl_folds,
            );
            &&& key.code == KeyCode::Char('s') ==> a == Action::Stage
            &&& key.code == KeyCode::Char('u') ==> a == Action::Unstage
            &&& key.code == KeyCode::Char('x') ==> a == Action::Revert
            &&& key.code == KeyCode::Char('e') ==> a == Action::Edit
            &&& key.code == KeyCode::Char('T') ==> a == Action::CycleTheme
            &&& key.code == KeyCode::Char('t') ==> a == Action::ToggleTreeMode
            &&& key.code == KeyCode::Char('q') ==> a == Action::Quit
            &&& key.code == KeyCode::Char('?') ==> a == Action::ToggleHelp
            &&& key.code == KeyCode::Char('.') ==> a == Action::ToggleShowIgnored
            &&& key.code == KeyCode::Char('f') ==> a == Action::Fetch
            &&& key.code == KeyCode::Char('p') ==> a == Action::Pull
            &&& key.code == KeyCode::Char('P') ==> a == Action::Push
            &&& key.code == KeyCode::Char('d') ==> a == Action::DefaultBranch
            &&& key.code == KeyCode::Char('r') ==> a == Action::Refresh
            &&& key.code == KeyCode::Char(' ') ==> a == Action::ToggleReviewed
            &&& key.code == KeyCode::Char('z') ==> a == Action::FoldToggle
            &&& key.code == KeyCode::Char('/') ==> a == Action::SearchStart
            &&& key.code == KeyCode::Char('S') ==> a == Action::StashMenu
            &&& key.code == KeyCode::Char('b') ==> a == Action::Branch
            &&& key.code == KeyCode::Char('w') ==> a == Action::RemoveWorktree
            &&& key.code == KeyCode::Char('W') ==> a == Action::RemoveWorktree
            &&& key.code == KeyCode::Char('i') ==> a == Action::ToggleDiffMode
            &&& key.code == KeyCode::Char('m') ==> a == Action::ToggleMouse
            &&& key.code == KeyCode::Char('G') ==> a == Action::MoveToEnd
            &&& key.code == KeyCode::Char('g') ==> a == Action::ArmGChord
            &&& key.code == KeyCode::Home ==> a == Action::MoveToStart
            &&& key.code == KeyCode::End ==> a == Action::MoveToEnd
            &&& key.code == KeyCode::Enter ==> a == Action::NavEnter
            &&& key.code == KeyCode::Esc ==> a == Action::NavEsc
            &&& key.code == KeyCode::Char('n') ==> a == Action::NoOp
        }),
{
}

/// Graph-row keys, Ctrl chords and movement keys of normal mode: a focused
/// stash takes `a` / `p` / `D`, a focused commit takes `b` / `c` / `m`;
/// Ctrl-o, Ctrl-u and Ctrl-d toggle full context and move or scroll by
/// five; `j` / `k` and the page keys scroll a focused diff and move
/// elsewhere; Tab swaps the focused pane.
pub proof fn lemma_normal_mode_focus_keys(
    key: KeyEvent,
    right_is_diff: bool,
    focus_right: bool,
    stash: bool,
    commit: bool,
    hl_folds: bool,
)
    requires
        key.kind == KeyEventKind::Press,
    ensures
        ({
            let a = event_to_action_spec(
                Event::Key(key),
                InputMode::Normal { search_active: false },
                right_is_diff,
                focus_right,
                stash,
                commit,
                hl_folds,
            );
            let on_diff = focus_right && right_is_diff;
            &&& stash && key.code == KeyCode::Char('a') && !key.modifiers.control ==> a == Action::GraphStashApply
            &&& stash && key.code == KeyCode::Char('p') && !key.modifiers.control ==> a == Action::GraphStashPop
            &&& stash && key.code == KeyCode::Char('D') && !key.modifiers.control ==> a == Action::GraphStashDrop
            &&& !stash && commit && key.code == KeyCode::Char('b') && !key.modifiers.control ==> a
                == Action::GraphCheckout
            &&& !stash && commit && key.code == KeyCode::Char('c') && !key.modifiers.control ==> a
                == Action::GraphCreateBranch
            &&& !stash && commit && key.code == KeyCode::Char('m') && !key.modifiers.control ==> a
                == Action::GraphMerge
            &&& !stash && !commit && key.modifiers.control && key.code == KeyCode::Char('o') ==> a
                == Action::ToggleFullContext
            &&& !stash && !commit && key.modifiers.control && key.code == KeyCode::Char('u') ==> a == (if on_diff {
                Action::ScrollDiff(-5i32)
            } else {
                Action::Move(-5i32)
            })
            &&& !stash && !commit && key.modifiers.control && key.code == KeyCode::Char('d') ==> a == (if on_diff {
                Action::ScrollDiff(5i32)
            } else {
                Action::Move(5i32)
            })
            &&& !stash && !commit && !key.modifiers.control && (key.code == KeyCode::Char('j') || key.code
                == KeyCode::Down) ==> a == (if on_diff { Action::ScrollDiff(1i32) } else { Action::Move(1i32) })
            &&& !stash && !commit && !key.modifiers.control && (key.code == KeyCode::Char('k') || key.code
                == KeyCode::Up) ==> a == (if on_diff { Action::ScrollDiff(-1i32) } else { Action::Move(-1i32) })
            &&& !stash && !commit && !key.modifiers.control && key.code == KeyCode::PageUp ==> a == (if on_diff {
                Action::ScrollDiff(-10i32)
            } else {
                Action::PageMove(-1i32)
            })
            &&& !stash && !commit && !key.modifiers.control && key.code == KeyCode::PageDown ==> a == (if on_diff {
                Action::ScrollDiff(10i32)
            } else {
                Action::PageMove(1i32)
            })
            &&& !stash && !commit && !key.modifiers.control && key.code == KeyCode::Tab ==> a == (if focus_right {
                Action::FocusLeft
            } else {
                Action::FocusRight
            })
        }),
{
}

} // verus!
