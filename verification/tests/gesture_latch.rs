use ankurah_chat_leptos::latch::GestureLatch;

#[test]
fn single_click_demands_once() {
    let mut l = GestureLatch::new();
    l.pointer_down(true);
    let p = l.press(true, 0, 1);
    assert!(p.prevent_default && p.demand);
    // The focus the closing ceremony hands back raises nothing.
    let f = l.focus(true);
    assert!(f.blur && !f.demand);
}

#[test]
fn double_and_triple_click_demand_once() {
    let mut l = GestureLatch::new();
    l.pointer_down(true);
    assert!(l.press(true, 0, 1).demand);
    let second = l.press(true, 0, 2);
    let third = l.press(true, 0, 3);
    assert!(second.prevent_default && !second.demand);
    assert!(!third.demand);
    // The next single click is a new gesture.
    l.pointer_down(true);
    assert!(l.press(true, 0, 1).demand);
}

#[test]
fn tap_with_focus_before_press_demands_once() {
    let mut l = GestureLatch::new();
    l.pointer_down(true);
    assert!(l.focus(true).demand);
    let p = l.press(true, 0, 1);
    assert!(p.prevent_default && !p.demand);
}

#[test]
fn stopped_pointer_down_still_demands_every_click() {
    let mut l = GestureLatch::new();
    assert!(l.press(true, 0, 1).demand);
    assert!(l.press(true, 0, 1).demand);
    assert!(l.press(true, 0, 1).demand);
}

#[test]
fn host_focus_then_clicks() {
    // A focus with no press behind it demands once and latches; the press
    // that follows finds no completed press behind that demand; the next
    // click demands again.
    let mut l = GestureLatch::new();
    assert!(l.focus(true).demand);
    assert!(!l.focus(true).demand);
    l.pointer_down(true);
    assert!(!l.press(true, 0, 1).demand);
    l.pointer_down(true);
    assert!(l.press(true, 0, 1).demand);
}

#[test]
fn right_press_refuses_caret_without_ceremony() {
    let mut l = GestureLatch::new();
    l.pointer_down(true);
    let before = l;
    let p = l.press(true, 2, 1);
    assert!(p.prevent_default && !p.demand);
    assert_eq!(l, before);
}

#[test]
fn drop_rearms_and_demands() {
    let mut l = GestureLatch::new();
    assert!(l.focus(true).demand);
    let d = l.dropped(true);
    assert!(d.prevent_default && d.demand);
    let d = l.dropped(true);
    assert!(d.demand);
}

#[test]
fn reply_rearm_lets_focus_demand_again() {
    let mut l = GestureLatch::new();
    assert!(l.focus(true).demand);
    assert!(!l.focus(true).demand);
    l.rearm();
    assert!(l.focus(true).demand);
}

#[test]
fn held_key_asks_once() {
    let mut l = GestureLatch::new();
    assert!(!l.key(true, false));
    assert!(l.key(true, true));
    assert!(!l.key(true, true));
}

#[test]
fn signed_in_reader_is_untouched() {
    let mut l = GestureLatch::new();
    l.pointer_down(false);
    let p = l.press(false, 0, 1);
    let f = l.focus(false);
    let d = l.dropped(false);
    assert!(!p.prevent_default && !p.demand);
    assert!(!f.blur && !f.demand);
    assert!(!d.prevent_default && !d.demand);
    assert!(!l.key(false, true));
    assert_eq!(l, GestureLatch::new());
}

#[test]
fn pointer_down_counts_gestures() {
    let mut l = GestureLatch::new();
    l.pointer_down(true);
    l.pointer_down(true);
    assert_eq!(l.gesture_seq, 2);
    assert_eq!(l.last_press_seq, None);
    l.press(true, 0, 1);
    assert_eq!(l.last_press_seq, Some(2));
    assert_eq!(l.demanded_in, Some(2));
}
