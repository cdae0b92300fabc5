use ankurah_chat_leptos::keys::{
    key_action, moves_caret, popup_next, popup_pick, popup_prev, would_write_draft, KeyAction, KeyPress, Popup,
};

fn press(key: &str) -> KeyPress {
    KeyPress {
        key: key.to_string(),
        shift: false,
        ctrl: false,
        meta: false,
        alt: false,
        composing: false,
        key_code: 0,
        repeat: false,
    }
}

#[test]
fn writing_keys() {
    assert!(would_write_draft("a", false, false, false));
    assert!(would_write_draft("\u{e9}", false, false, false));
    assert!(would_write_draft("a", false, false, false));
    assert!(would_write_draft("Enter", false, false, false));
    assert!(would_write_draft("Backspace", false, false, false));
    assert!(would_write_draft("Delete", false, false, false));
    assert!(would_write_draft("v", true, false, false));
    assert!(would_write_draft("X", false, true, false));
    assert!(would_write_draft("Insert", false, false, true));
}

#[test]
fn non_writing_keys() {
    assert!(!would_write_draft("ArrowLeft", false, false, false));
    assert!(!would_write_draft("Tab", false, false, false));
    assert!(!would_write_draft("Shift", false, false, false));
    assert!(!would_write_draft("Escape", false, false, false));
    assert!(!would_write_draft("c", true, false, false));
    assert!(!would_write_draft("Insert", false, false, false));
}

#[test]
fn caret_moving_keys() {
    for k in ["ArrowLeft", "ArrowRight", "ArrowUp", "ArrowDown", "Home", "End"] {
        assert!(moves_caret(k));
    }
    assert!(!moves_caret("a"));
    assert!(!moves_caret("Enter"));
}

#[test]
fn popup_row_arithmetic() {
    assert_eq!(popup_next(2, 3), 0);
    assert_eq!(popup_next(0, 3), 1);
    assert_eq!(popup_prev(0, 3), 2);
    assert_eq!(popup_prev(2, 3), 1);
    assert_eq!(popup_pick(5, 3), 2);
    assert_eq!(popup_pick(1, 3), 1);
}

#[test]
fn anonymous_writing_key_demands() {
    assert_eq!(key_action(&press("a"), true, 0, 0, 0, 0, false, false), KeyAction::Demand);
    assert_eq!(key_action(&press("ArrowLeft"), true, 0, 0, 0, 0, false, false), KeyAction::Pass);
}

#[test]
fn mention_popup_captures_its_keys() {
    assert_eq!(key_action(&press("ArrowDown"), false, 3, 2, 0, 0, false, false), KeyAction::Select(Popup::Mention, 0));
    assert_eq!(key_action(&press("ArrowUp"), false, 3, 0, 0, 0, false, false), KeyAction::Select(Popup::Mention, 2));
    assert_eq!(key_action(&press("Enter"), false, 3, 2, 0, 0, false, false), KeyAction::Pick(Popup::Mention, 2));
    assert_eq!(key_action(&press("Tab"), false, 3, 5, 0, 0, false, false), KeyAction::Pick(Popup::Mention, 2));
    assert_eq!(key_action(&press("Escape"), false, 3, 0, 0, 0, true, false), KeyAction::Close(Popup::Mention));
}

#[test]
fn popup_ignores_ime_commits_and_modified_keys() {
    let mut composing = press("Enter");
    composing.composing = true;
    assert_eq!(key_action(&composing, false, 3, 0, 0, 0, false, false), KeyAction::Hold);
    let mut webkit = press("Enter");
    webkit.key_code = 229;
    assert_eq!(key_action(&webkit, false, 0, 0, 2, 0, false, false), KeyAction::Hold);
    let mut ctrl_down = press("ArrowDown");
    ctrl_down.ctrl = true;
    assert_eq!(key_action(&ctrl_down, false, 3, 0, 0, 0, true, false), KeyAction::EditNewer);
    let mut shift_enter = press("Enter");
    shift_enter.shift = true;
    assert_eq!(key_action(&shift_enter, false, 3, 0, 0, 0, false, false), KeyAction::Pass);
}

#[test]
fn emoji_popup_captures_its_keys() {
    assert_eq!(key_action(&press("ArrowDown"), false, 0, 0, 2, 1, false, false), KeyAction::Select(Popup::Emoji, 0));
    assert_eq!(key_action(&press("Enter"), false, 0, 0, 2, 1, false, false), KeyAction::Pick(Popup::Emoji, 1));
    assert_eq!(key_action(&press("Escape"), false, 0, 0, 2, 1, false, false), KeyAction::Close(Popup::Emoji));
}

#[test]
fn enter_sends_once() {
    assert_eq!(key_action(&press("Enter"), false, 0, 0, 0, 0, false, false), KeyAction::Send);
    let mut repeat = press("Enter");
    repeat.repeat = true;
    assert_eq!(key_action(&repeat, false, 0, 0, 0, 0, false, false), KeyAction::Pass);
    let mut composing = press("Enter");
    composing.composing = true;
    assert_eq!(key_action(&composing, false, 0, 0, 0, 0, false, false), KeyAction::Pass);
    let mut shift = press("Enter");
    shift.shift = true;
    assert_eq!(key_action(&shift, false, 0, 0, 0, 0, false, false), KeyAction::Pass);
}

#[test]
fn escape_cancels_edit_before_reply() {
    assert_eq!(key_action(&press("Escape"), false, 0, 0, 0, 0, true, true), KeyAction::CancelEdit);
    assert_eq!(key_action(&press("Escape"), false, 0, 0, 0, 0, false, true), KeyAction::CancelReply);
    assert_eq!(key_action(&press("Escape"), false, 0, 0, 0, 0, false, false), KeyAction::Pass);
}

#[test]
fn edit_navigation_chords() {
    let mut up = press("ArrowUp");
    up.meta = true;
    assert_eq!(key_action(&up, false, 0, 0, 0, 0, false, false), KeyAction::EditOlder);
    let mut down = press("ArrowDown");
    down.ctrl = true;
    assert_eq!(key_action(&down, false, 0, 0, 0, 0, false, false), KeyAction::Pass);
    assert_eq!(key_action(&down, false, 0, 0, 0, 0, true, false), KeyAction::EditNewer);
    assert_eq!(key_action(&press("ArrowUp"), false, 0, 0, 0, 0, false, false), KeyAction::Pass);
}
