use ankurah_chat_leptos::read_state::{window_source, FlushStep, MarkRead, ReadStateManager, ReadStateRow, UpsertTarget, WindowMessage};

const ME: u128 = 7;
const ROOM: u128 = 100;

fn msg(ts: i64, author: u128) -> WindowMessage {
    WindowMessage { timestamp: Some(ts), author: Some(author) }
}

fn ready_manager() -> ReadStateManager {
    let mut m = ReadStateManager::new(ME);
    m.on_read_states(&[]);
    m.add_window(ROOM);
    m
}

#[test]
fn badge_counts_others_messages_past_the_cursor() {
    let mut m = ready_manager();
    m.on_read_states(&[ReadStateRow { id: 1, room: Some(ROOM), last_read_ts: Some(20) }]);
    let window = [msg(10, 8), msg(25, 8), msg(30, ME), msg(40, 9), WindowMessage { timestamp: None, author: Some(8) }];
    assert!(m.recompute_room(ROOM, &window));
    assert_eq!(m.unread_count(ROOM), 2);
    // Unchanged recomputation reports no change.
    assert!(!m.recompute_room(ROOM, &window));
}

#[test]
fn no_badge_before_the_cursors_arrive() {
    let mut m = ReadStateManager::new(ME);
    m.add_window(ROOM);
    m.recompute_room(ROOM, &[msg(10, 8)]);
    assert_eq!(m.unread_count(ROOM), 0);
    m.on_read_states(&[]);
    assert_eq!(m.unread_count(ROOM), 1);
}

#[test]
fn mark_read_advances_only_forward() {
    let mut m = ready_manager();
    assert_eq!(m.mark_read(ROOM, 50, &[]), MarkRead::Advanced { start_flush: true, badge_changed: false });
    assert_eq!(m.mark_read(ROOM, 40, &[]), MarkRead::Ignored);
    assert_eq!(m.mark_read(ROOM, 50, &[]), MarkRead::Ignored);
    // A burst while a flush is running joins it.
    assert_eq!(m.mark_read(ROOM, 60, &[]), MarkRead::Advanced { start_flush: false, badge_changed: false });
    m.recompute_room(ROOM, &[msg(55, 8), msg(65, 8)]);
    assert_eq!(m.unread_count(ROOM), 1);
}

#[test]
fn flush_chases_the_cursor_and_stops() {
    let mut m = ready_manager();
    m.mark_read(ROOM, 50, &[]);
    assert_eq!(m.flush_step(ROOM), FlushStep::Upsert(50));
    m.mark_read(ROOM, 60, &[]);
    m.flush_succeeded(ROOM, 50);
    assert_eq!(m.flush_step(ROOM), FlushStep::Upsert(60));
    m.flush_succeeded(ROOM, 60);
    assert_eq!(m.flush_step(ROOM), FlushStep::Stop);
    m.flush_finished(ROOM);
    assert_eq!(m.mark_read(ROOM, 70, &[]), MarkRead::Advanced { start_flush: true, badge_changed: false });
}

#[test]
fn cursor_rows_from_other_devices_never_move_it_back() {
    let mut m = ready_manager();
    m.mark_read(ROOM, 50, &[]);
    m.on_read_states(&[ReadStateRow { id: 1, room: Some(ROOM), last_read_ts: Some(30) }]);
    assert_eq!(m.mark_read(ROOM, 45, &[]), MarkRead::Ignored);
    m.on_read_states(&[ReadStateRow { id: 1, room: Some(ROOM), last_read_ts: Some(80) }]);
    assert_eq!(m.mark_read(ROOM, 70, &[]), MarkRead::Ignored);
}

#[test]
fn upsert_targets() {
    let mut m = ready_manager();
    let rows = [
        ReadStateRow { id: 3, room: Some(200), last_read_ts: Some(1) },
        ReadStateRow { id: 4, room: Some(ROOM), last_read_ts: Some(1) },
        ReadStateRow { id: 5, room: Some(ROOM), last_read_ts: Some(2) },
    ];
    assert_eq!(m.upsert_target(ROOM, &rows), UpsertTarget::Edit(4));
    assert_eq!(m.upsert_target(ROOM, &[]), UpsertTarget::Create);
    m.record_created(ROOM, 9);
    assert_eq!(m.upsert_target(ROOM, &[]), UpsertTarget::Fetch(9));
}

#[test]
fn disposal_is_final() {
    let mut m = ready_manager();
    m.mark_read(ROOM, 50, &[]);
    m.dispose();
    assert!(m.is_disposed());
    assert!(!m.should_commit());
    assert_eq!(m.mark_read(ROOM, 90, &[]), MarkRead::Ignored);
    assert_eq!(m.flush_step(ROOM), FlushStep::Stop);
    assert!(!m.wants_window(ROOM));
    assert!(m.window_rooms().is_empty());
}

#[test]
fn windows_are_tracked_once() {
    let mut m = ReadStateManager::new(ME);
    assert!(m.wants_window(ROOM));
    m.add_window(ROOM);
    m.add_window(ROOM);
    assert!(!m.wants_window(ROOM));
    assert_eq!(m.window_rooms(), vec![ROOM]);
    assert!(!m.remove_room(ROOM));
    assert!(m.wants_window(ROOM));
    assert_eq!(m.user(), ME);
}

#[test]
fn mark_read_recounts_the_badge_at_once() {
    let mut m = ready_manager();
    let window = [msg(10, 8), msg(20, 8), msg(30, 9), msg(35, ME)];
    m.recompute_room(ROOM, &window);
    assert_eq!(m.unread_count(ROOM), 3);
    assert_eq!(m.mark_read(ROOM, 20, &window), MarkRead::Advanced { start_flush: true, badge_changed: true });
    assert_eq!(m.unread_count(ROOM), 1);
    // Joining a running flush still recounts.
    assert_eq!(m.mark_read(ROOM, 30, &window), MarkRead::Advanced { start_flush: false, badge_changed: true });
    assert_eq!(m.unread_count(ROOM), 0);
    // A mark that does not advance leaves the badge as it is.
    assert_eq!(m.mark_read(ROOM, 5, &window), MarkRead::Ignored);
    assert_eq!(m.unread_count(ROOM), 0);
}

#[test]
fn badge_window_sources() {
    assert_eq!(window_source(false), "room = ? AND deleted = false ORDER BY timestamp DESC LIMIT 10");
    assert_eq!(window_source(true), "thread = ? AND deleted = false ORDER BY timestamp DESC LIMIT 10");
}
