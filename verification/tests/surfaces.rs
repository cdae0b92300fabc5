use ankurah_chat_leptos::context::WriteSession;
use ankurah_chat_leptos::menu::{
    delete_plan, dismisses_menu, menu_items, menu_key, menu_position, toggled_collaborative, DeletePlan, MenuItems,
    MenuKey,
};
use ankurah_chat_leptos::rooms::{
    at_live_tail, badge_text, closes_on_blur, newest_timestamp, new_room_key, reply_disarmed, room_selected, ChatStyles,
    NewRoomKey, TimelineDebugHeader,
};
use ankurah_chat_leptos::timeline::{dm_row_layout, empty_thread_title, named_users, resolution_lands, ResolveTracker};

#[test]
fn unread_badges() {
    assert_eq!(badge_text(0), None);
    assert_eq!(badge_text(3), Some("3".to_string()));
    assert_eq!(badge_text(9), Some("9".to_string()));
    assert_eq!(badge_text(10), Some("10+".to_string()));
    assert_eq!(badge_text(42), Some("10+".to_string()));
}

#[test]
fn one_rail_row_looks_selected() {
    assert!(room_selected(None, Some(4), 4));
    assert!(room_selected(Some(true), Some(4), 4));
    assert!(!room_selected(Some(false), Some(4), 4));
    assert!(!room_selected(None, Some(5), 4));
    assert!(!room_selected(None, None, 4));
}

#[test]
fn new_room_input_keys() {
    assert_eq!(
        new_room_key("Enter", "  general ", WriteSession::Write(7)),
        NewRoomKey::Create { name: "general".to_string(), author: 7 }
    );
    assert_eq!(new_room_key("Enter", "   ", WriteSession::Write(7)), NewRoomKey::Stay);
    assert_eq!(new_room_key("Enter", "general", WriteSession::DemandAuth), NewRoomKey::Stay);
    assert_eq!(new_room_key("Escape", "general", WriteSession::Write(7)), NewRoomKey::Cancel);
    assert_eq!(new_room_key("a", "general", WriteSession::Write(7)), NewRoomKey::Pass);
    assert!(closes_on_blur("  "));
    assert!(!closes_on_blur("x"));
}

#[test]
fn newest_visible_timestamp() {
    assert_eq!(newest_timestamp(&[Some(5), None, Some(9), Some(2)]), Some(9));
    assert_eq!(newest_timestamp(&[None, None]), None);
    assert_eq!(newest_timestamp(&[]), None);
}

#[test]
fn reply_disarms_on_room_change_only() {
    assert!(!reply_disarmed(None, Some(1)));
    assert!(!reply_disarmed(Some(Some(1)), Some(1)));
    assert!(reply_disarmed(Some(Some(1)), Some(2)));
    assert!(reply_disarmed(Some(Some(1)), None));
    assert!(reply_disarmed(Some(None), Some(2)));
    assert!(!reply_disarmed(Some(None), None));
}

#[test]
fn debug_header_text() {
    let h = TimelineDebugHeader("Live", true, false, true, 42);
    assert_eq!(h.mode, "Live");
    assert_eq!(h.mode_class, "debugValue mode-live");
    assert_eq!(h.items, "42");
    assert_eq!(h.more_preceding, "yes");
    assert_eq!(h.more_following, "no");
    assert_eq!(h.auto_scroll, "yes");
    assert_eq!(TimelineDebugHeader("", false, false, false, 0).items, "0");
}

#[test]
fn styles_install_once() {
    assert!(ChatStyles(false));
    assert!(!ChatStyles(true));
}

#[test]
fn menu_items_by_role() {
    assert_eq!(
        menu_items(true, false, false, None),
        MenuItems { edit: true, toggle_collaborative: true, collaborative: false, delete: true, moderator_delete: false }
    );
    assert_eq!(
        menu_items(false, false, false, Some(true)),
        MenuItems { edit: true, toggle_collaborative: false, collaborative: true, delete: false, moderator_delete: false }
    );
    assert_eq!(
        menu_items(false, true, true, None),
        MenuItems { edit: false, toggle_collaborative: false, collaborative: false, delete: true, moderator_delete: true }
    );
    assert!(!menu_items(false, true, false, None).delete);
    assert!(toggled_collaborative(None));
    assert!(!toggled_collaborative(Some(true)));
    assert!(toggled_collaborative(Some(false)));
}

#[test]
fn delete_plans() {
    assert_eq!(delete_plan(false, true, WriteSession::Write(7)), DeletePlan::HandToHost);
    assert_eq!(delete_plan(false, false, WriteSession::Write(7)), DeletePlan::Nothing);
    assert_eq!(delete_plan(true, false, WriteSession::Write(7)), DeletePlan::Tombstone(7));
    assert_eq!(delete_plan(true, true, WriteSession::DemandAuth), DeletePlan::NoSession);
}

#[test]
fn menu_stays_on_screen() {
    assert_eq!(menu_position(100, 100, 200, 150, 1024, 768), (100, 100));
    assert_eq!(menu_position(900, 700, 200, 150, 1024, 768), (814, 608));
    assert_eq!(menu_position(2, 3, 50, 50, 1024, 768), (10, 10));
    assert_eq!(menu_position(100, 100, 2000, 150, 1024, 768), (10, 100));
}

#[test]
fn menu_keyboard() {
    assert_eq!(menu_key("Tab", 4, None), MenuKey::Close);
    assert_eq!(menu_key("Enter", 4, Some(1)), MenuKey::Pass);
    assert_eq!(menu_key("ArrowDown", 0, None), MenuKey::Stay);
    assert_eq!(menu_key("Home", 4, Some(2)), MenuKey::Focus(0));
    assert_eq!(menu_key("End", 4, Some(0)), MenuKey::Focus(3));
    assert_eq!(menu_key("ArrowDown", 4, Some(3)), MenuKey::Focus(0));
    assert_eq!(menu_key("ArrowDown", 4, None), MenuKey::Focus(0));
    assert_eq!(menu_key("ArrowUp", 4, Some(0)), MenuKey::Focus(3));
    assert_eq!(menu_key("ArrowUp", 4, None), MenuKey::Focus(3));
    assert!(dismisses_menu("Escape"));
    assert!(!dismisses_menu("Esc"));
}

#[test]
fn mention_names_skip_unresolved_and_unnamed() {
    let resolved = vec![(1, Some("Ann".to_string())), (2, None), (3, Some(String::new())), (4, Some("Bo".to_string()))];
    let named = named_users(&resolved);
    assert_eq!(named.iter().map(|m| (m.id, m.name.clone())).collect::<Vec<_>>(), vec![(1, "Ann".to_string()), (4, "Bo".to_string())]);
}

#[test]
fn each_id_resolves_once_per_session() {
    let mut t = ResolveTracker::new();
    assert!(!t.begin(1));
    assert!(t.claim_user(10));
    assert!(t.claim_user(11));
    assert!(!t.claim_user(10));
    assert!(t.claim_target(50));
    assert!(!t.claim_target(50));
    // Same session: nothing forgotten.
    assert!(!t.begin(1));
    assert!(!t.claim_user(10));
    // A swap forgets everything.
    assert!(t.begin(2));
    assert!(t.claim_user(10));
    assert!(t.claim_target(50));
    assert!(resolution_lands(2, 2));
    assert!(!resolution_lands(1, 2));
}

#[test]
fn dm_row_layouts() {
    let mine = dm_row_layout(Some(7), Some(7), true, false, None, true);
    assert!(mine.own && !mine.gutter && !mine.avatar && mine.meta && !mine.author_name);
    assert_eq!(mine.row_class, "messageRow own groupFirst");
    assert_eq!(mine.bubble_class, "messageBubble ownMessage");
    assert!(!mine.tombstone && mine.edited_marker);

    let theirs = dm_row_layout(Some(8), Some(7), false, true, Some(true), true);
    assert!(!theirs.own && theirs.gutter && !theirs.avatar && !theirs.meta);
    assert_eq!(theirs.row_class, "messageRow groupLast");
    assert_eq!(theirs.bubble_class, "messageBubble tombstone");
    assert!(theirs.tombstone && !theirs.edited_marker);

    let anonymous = dm_row_layout(Some(8), None, true, true, Some(false), false);
    assert!(!anonymous.own && anonymous.avatar && anonymous.author_name);
    assert_eq!(anonymous.row_class, "messageRow groupFirst groupLast");
    assert_eq!(dm_row_layout(None, None, false, false, None, false).bubble_class, "messageBubble");
}

#[test]
fn empty_conversation_title() {
    assert_eq!(empty_thread_title("Ann"), "No messages with Ann yet");
}

#[test]
fn debug_mode_class_from_lowered_mode() {
    assert_eq!(ankurah_chat_leptos::rooms::debug_mode_class("live"), "debugValue mode-live");
    assert_eq!(ankurah_chat_leptos::rooms::debug_mode_class(""), "debugValue mode-");
}

#[test]
fn live_tail_is_the_bottom_within_the_slack() {
    // 1000 tall, 400 visible: scrolled to 600 is the very bottom.
    assert!(at_live_tail(600, 400, 1000));
    assert!(at_live_tail(552, 400, 1000));
    assert!(!at_live_tail(551, 400, 1000));
    assert!(!at_live_tail(0, 400, 1000));
    // Content shorter than the pane is always at its tail.
    assert!(at_live_tail(0, 400, 300));
}
