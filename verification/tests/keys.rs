use workspace_status::action::Action;
use workspace_status::keys::{
    event_to_action, event_to_action_ex, event_to_action_with, held_nav_key, is_held_nav_backlog,
    Event, InputMode, KeyCode, KeyEvent, KeyEventKind, KeyModifiers, MouseButton, MouseEvent,
    MouseEventKind,
};

const NONE: KeyModifiers = KeyModifiers {
    control: false,
    shift: false,
    alt: false,
};
const CTRL: KeyModifiers = KeyModifiers {
    control: true,
    shift: false,
    alt: false,
};
const SHIFT: KeyModifiers = KeyModifiers {
    control: false,
    shift: true,
    alt: false,
};

fn key_with(code: KeyCode, modifiers: KeyModifiers, kind: KeyEventKind) -> Event {
    Event::Key(KeyEvent {
        code,
        modifiers,
        kind,
    })
}

fn key(code: KeyCode) -> Event {
    key_with(code, NONE, KeyEventKind::Press)
}

fn normal() -> InputMode {
    InputMode::Normal {
        search_active: false,
    }
}

#[test]
fn resize_maps_to_resize_action() {
    assert_eq!(
        event_to_action(&Event::Resize(120, 40), normal(), false, false),
        Action::Resize {
            cols: 120,
            rows: 40
        }
    );
}

#[test]
fn daily_keys_map_in_normal_mode() {
    assert_eq!(event_to_action(&key(KeyCode::Char('q')), normal(), false, false), Action::Quit);
    assert_eq!(event_to_action(&key(KeyCode::Char('j')), normal(), false, false), Action::Move(1));
    assert_eq!(event_to_action(&key(KeyCode::Char('k')), normal(), true, true), Action::ScrollDiff(-1));
    assert_eq!(event_to_action(&key(KeyCode::Tab), normal(), false, true), Action::FocusLeft);
    assert_eq!(event_to_action(&key(KeyCode::Char('g')), normal(), false, false), Action::ArmGChord);
    assert_eq!(
        event_to_action(
            &key(KeyCode::Char('g')),
            InputMode::GPending {
                search_active: false
            },
            false,
            false
        ),
        Action::MoveToStart
    );
    assert_eq!(
        event_to_action(&key(KeyCode::Char('n')), normal(), false, false),
        Action::NoOp
    );
    assert_eq!(
        event_to_action(
            &key(KeyCode::Char('n')),
            InputMode::Normal {
                search_active: true
            },
            false,
            false
        ),
        Action::SearchNext
    );
}

#[test]
fn ctrl_c_is_the_quit_chord_in_every_mode() {
    for mode in [normal(), InputMode::Help, InputMode::Confirm, InputMode::BranchPicker] {
        assert_eq!(
            event_to_action(
                &key_with(KeyCode::Char('c'), CTRL, KeyEventKind::Press),
                mode,
                false,
                false
            ),
            Action::CtrlC
        );
    }
}

#[test]
fn release_and_one_shot_repeats_are_ignored() {
    assert_eq!(
        event_to_action(
            &key_with(KeyCode::Char('j'), NONE, KeyEventKind::Release),
            normal(),
            false,
            false
        ),
        Action::NoOp
    );
    assert_eq!(
        event_to_action(
            &key_with(KeyCode::Char('z'), NONE, KeyEventKind::Repeat),
            normal(),
            false,
            false
        ),
        Action::NoOp
    );
    assert_eq!(
        event_to_action(
            &key_with(KeyCode::Char('j'), NONE, KeyEventKind::Repeat),
            normal(),
            false,
            false
        ),
        Action::Move(1)
    );
    assert_eq!(
        event_to_action(
            &key_with(KeyCode::Char('x'), NONE, KeyEventKind::Repeat),
            InputMode::SearchPrompt,
            false,
            false
        ),
        Action::SearchChar('x')
    );
}

#[test]
fn graph_focus_keys_and_shift_pan() {
    assert_eq!(
        event_to_action_ex(&key(KeyCode::Char('p')), normal(), false, true, true, false),
        Action::GraphStashPop
    );
    assert_eq!(
        event_to_action_ex(&key(KeyCode::Char('b')), normal(), false, true, false, true),
        Action::GraphCheckout
    );
    assert_eq!(
        event_to_action_with(&key(KeyCode::Char('h')), normal(), false, false, false, false, true),
        Action::FoldClose
    );
    assert_eq!(
        event_to_action_with(
            &key_with(KeyCode::Left, SHIFT, KeyEventKind::Press),
            normal(),
            false,
            false,
            false,
            false,
            true
        ),
        Action::PanDiff(-1)
    );
    assert_eq!(
        event_to_action_with(&key(KeyCode::Char('l')), normal(), false, false, false, false, false),
        Action::PanDiff(1)
    );
}

#[test]
fn mouse_wheel_and_overlay_swallow() {
    let wheel = Event::Mouse(MouseEvent {
        kind: MouseEventKind::ScrollDown,
        column: 3,
        row: 4,
        modifiers: SHIFT,
    });
    assert_eq!(
        event_to_action(&wheel, normal(), false, false),
        Action::ScrollWheel {
            col: 3,
            row: 4,
            delta: 1,
            horizontal: true
        }
    );
    assert_eq!(event_to_action(&wheel, InputMode::Help, false, false), Action::NoOp);
    let click = Event::Mouse(MouseEvent {
        kind: MouseEventKind::Down(MouseButton::Left),
        column: 1,
        row: 2,
        modifiers: NONE,
    });
    assert_eq!(
        event_to_action(&click, normal(), false, false),
        Action::Click { col: 1, row: 2 }
    );
}

#[test]
fn held_nav_backlog_matches_same_key_only() {
    let held = KeyEvent {
        code: KeyCode::Char('j'),
        modifiers: NONE,
        kind: KeyEventKind::Press,
    };
    assert!(is_held_nav_backlog(
        held,
        &key_with(KeyCode::Char('j'), NONE, KeyEventKind::Release)
    ));
    assert!(!is_held_nav_backlog(held, &key(KeyCode::Char('k'))));
    assert_eq!(held_nav_key(&key(KeyCode::Char('j'))), Some(held));
    assert_eq!(held_nav_key(&key(KeyCode::Char('q'))), None);
}
