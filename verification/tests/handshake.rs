use ankurah_chat_leptos::context::{
    next_version, query_label, Access, Attach, ChatContext, CursorEvent, CursorKind, Publish, QueryEvent, QueryKind,
    WriteSession,
};

type Ctx = ChatContext<&'static str, u32, &'static str>;

fn live() -> Ctx {
    ChatContext::new("true".to_string(), true)
}

#[test]
fn publish_then_peek_serves_the_published_query() {
    let mut c = live();
    assert!(matches!(c.publish_query(0, QueryKind::Members, "q1"), Publish::Won));
    assert_eq!(c.peek_query(0, QueryKind::Members), Some(&"q1"));
    assert_eq!(c.peek_query(0, QueryKind::Rooms), None);
}

#[test]
fn occupied_slot_is_never_overwritten() {
    let mut c = live();
    assert!(matches!(c.publish_query(0, QueryKind::Rooms, "first"), Publish::Won));
    assert!(matches!(c.publish_query(0, QueryKind::Rooms, "second"), Publish::Lost("second")));
    assert_eq!(c.peek_query(0, QueryKind::Rooms), Some(&"first"));
}

#[test]
fn registration_attaches_after_publication() {
    let mut c = live();
    assert!(matches!(c.attach_registration(0, QueryKind::Members, 7), Attach::Orphaned(7)));
    assert!(matches!(c.publish_query(0, QueryKind::Members, "q"), Publish::Won));
    assert!(matches!(c.attach_registration(0, QueryKind::Members, 7), Attach::Attached(None)));
    assert!(matches!(c.attach_registration(0, QueryKind::Members, 8), Attach::Attached(Some(7))));
    assert_eq!(c.peek_query(0, QueryKind::Members), Some(&"q"));
}

#[test]
fn nothing_crosses_a_generation() {
    let mut c = live();
    assert!(matches!(c.publish_query(1, QueryKind::Members, "q"), Publish::Refused("q")));
    assert!(matches!(c.publish_query(0, QueryKind::Members, "q0"), Publish::Won));
    assert_eq!(c.peek_query(1, QueryKind::Members), None);
    // Moving to generation 1 hands back what generation 0 built.
    let stale = c.discard_stale(1);
    assert!(stale.is_some());
    assert_eq!(stale.unwrap().members.map(|s| s.query), Some("q0"));
    assert_eq!(c.peek_query(1, QueryKind::Members), None);
    assert!(c.discard_stale(1).is_none());
}

#[test]
fn cursor_managers_publish_once_per_generation() {
    let mut c = live();
    assert!(matches!(c.publish_cursors(0, CursorKind::Rooms, "m1"), Publish::Won));
    assert!(matches!(c.publish_cursors(0, CursorKind::Rooms, "m2"), Publish::Lost("m2")));
    assert_eq!(c.peek_cursors(0, CursorKind::Rooms), Some(&"m1"));
    assert_eq!(c.peek_cursors(0, CursorKind::Dms), None);
}

#[test]
fn crossing_is_reported_only_for_another_generation() {
    let c = live();
    assert_eq!(c.crossed(3, 3), None);
    assert_eq!(c.crossed(3, 4), Some(4));
}

#[test]
fn teardown_is_final() {
    let mut c = live();
    assert!(matches!(c.publish_query(0, QueryKind::Reactions, "r"), Publish::Won));
    let held = c.discard_all(5);
    assert_eq!(held.reactions.map(|s| s.query), Some("r"));
    assert!(c.ended());
    assert_eq!(c.generation(9), 5);
    assert_eq!(c.crossed(5, 9), None);
    assert_eq!(c.peek_query(5, QueryKind::Reactions), None);
    assert!(matches!(c.publish_query(5, QueryKind::Reactions, "again"), Publish::Refused("again")));
    assert!(c.discard_stale(9).is_none());
    assert_eq!(c.write_session(Some(1)), WriteSession::Refuse);
    assert!(!c.is_authenticated(Some(1)));
    assert!(!c.can_demand_auth());
}

#[test]
fn writes_go_out_as_the_reader() {
    let c = live();
    assert_eq!(c.generation(4), 4);
    assert_eq!(c.write_session(Some(42)), WriteSession::Write(42));
    assert_eq!(c.write_session(None), WriteSession::DemandAuth);
    assert!(c.is_authenticated(Some(42)));
    assert!(!c.is_authenticated(None));
    assert!(c.can_demand_auth());
    let quiet: Ctx = ChatContext::new("true".to_string(), false);
    assert!(!quiet.can_demand_auth());
}

#[test]
fn narrowed_room_sets() {
    let all: Ctx = ChatContext::new("  true ".to_string(), true);
    let some: Ctx = ChatContext::new("name = 'general'".to_string(), true);
    assert!(!all.rooms_narrowed());
    assert!(some.rooms_narrowed());
}

#[test]
fn shared_query_sources_and_labels() {
    let c: Ctx = ChatContext::new("name = 'general'".to_string(), true);
    assert_eq!(c.query_source(QueryKind::Members), "true");
    assert_eq!(c.query_source(QueryKind::Reactions), "active = true");
    assert_eq!(c.query_source(QueryKind::DmThreads), "deleted = false");
    assert_eq!(c.query_source(QueryKind::Rooms), "name = 'general' ORDER BY name ASC");
    assert_eq!(query_label(QueryKind::Members), "members");
    assert_eq!(query_label(QueryKind::DmThreads), "dm threads");
}

#[test]
fn query_accessor_builds_registers_then_serves_from_the_cache() {
    let mut c = live();
    let (a, l) = c.query_step(0, 0, QueryKind::Members, QueryEvent::Start);
    assert_eq!(a, Access::Build);
    assert!(l.stale.is_none() && l.query.is_none());
    let (a, l) = c.query_step(0, 0, QueryKind::Members, QueryEvent::Built("q"));
    assert_eq!(a, Access::Register);
    assert!(l.query.is_none());
    let (a, l) = c.query_step(0, 0, QueryKind::Members, QueryEvent::Registered(9));
    assert_eq!(a, Access::Serve);
    assert!(l.registration.is_none());
    assert_eq!(c.peek_query(0, QueryKind::Members), Some(&"q"));
    // A second access in the same session is a lookup: nothing is built.
    let (a, l) = c.query_step(0, 0, QueryKind::Members, QueryEvent::Start);
    assert_eq!(a, Access::Serve);
    assert!(l.stale.is_none() && l.query.is_none() && l.registration.is_none() && l.cursors.is_none());
}

#[test]
fn a_second_build_loses_to_the_cached_query() {
    let mut c = live();
    c.query_step(0, 0, QueryKind::Rooms, QueryEvent::Start);
    c.query_step(0, 0, QueryKind::Rooms, QueryEvent::Built("first"));
    let (a, l) = c.query_step(0, 0, QueryKind::Rooms, QueryEvent::Built("second"));
    assert_eq!(a, Access::Serve);
    assert_eq!(l.query, Some("second"));
    assert_eq!(c.peek_query(0, QueryKind::Rooms), Some(&"first"));
}

#[test]
fn an_accessor_never_serves_across_a_session_move() {
    let mut c = live();
    c.query_step(0, 0, QueryKind::Members, QueryEvent::Start);
    // The signal moved while the query was being built.
    let (a, l) = c.query_step(0, 1, QueryKind::Members, QueryEvent::Built("old"));
    assert_eq!(a, Access::Retry(1));
    assert_eq!(l.query, Some("old"));
    assert_eq!(c.peek_query(0, QueryKind::Members), None);
    // The signal moved after the registration.
    c.query_step(1, 1, QueryKind::Members, QueryEvent::Start);
    c.query_step(1, 1, QueryKind::Members, QueryEvent::Built("mid"));
    let (a, _) = c.query_step(1, 2, QueryKind::Members, QueryEvent::Registered(3));
    assert_eq!(a, Access::Retry(2));
    // The first access for the new session hands the old cache back.
    let (a, l) = c.query_step(2, 2, QueryKind::Members, QueryEvent::Start);
    assert_eq!(a, Access::Build);
    let stale = l.stale.expect("the previous session's cache is handed back");
    assert_eq!(stale.built_for, 1);
    assert_eq!(stale.members.map(|s| s.query), Some("mid"));
    assert_eq!(c.peek_query(2, QueryKind::Members), None);
}

#[test]
fn cursor_accessor_gathers_builds_and_serves() {
    let mut c = live();
    assert_eq!(c.cursor_step(4, 4, CursorKind::Rooms, CursorEvent::Start).0, Access::Gather);
    let gathered = CursorEvent::Gathered { query_ready: true, viewer: Some(7) };
    assert_eq!(c.cursor_step(4, 4, CursorKind::Rooms, gathered).0, Access::Build);
    let (a, l) = c.cursor_step(4, 4, CursorKind::Rooms, CursorEvent::Built("m1"));
    assert_eq!(a, Access::Serve);
    assert!(l.cursors.is_none());
    assert_eq!(c.peek_cursors(4, CursorKind::Rooms), Some(&"m1"));
    assert_eq!(c.cursor_step(4, 4, CursorKind::Rooms, CursorEvent::Start).0, Access::Serve);
    // A manager built as the session moved is handed back for disposal.
    let (a, l) = c.cursor_step(4, 5, CursorKind::Dms, CursorEvent::Built("m2"));
    assert_eq!(a, Access::Retry(5));
    assert_eq!(l.cursors, Some("m2"));
    // The next session disposes the first manager.
    let (a, l) = c.cursor_step(5, 5, CursorKind::Rooms, CursorEvent::Start);
    assert_eq!(a, Access::Gather);
    assert_eq!(l.stale.and_then(|s| s.room_cursors), Some("m1"));
}

#[test]
fn ended_handshake_stops_every_accessor() {
    let mut c = live();
    c.discard_all(3);
    assert_eq!(c.query_step(3, 3, QueryKind::Members, QueryEvent::Start).0, Access::Stop);
    let (a, l) = c.query_step(3, 3, QueryKind::Members, QueryEvent::Built("late"));
    assert_eq!(a, Access::Stop);
    assert_eq!(l.query, Some("late"));
    assert_eq!(c.cursor_step(3, 3, CursorKind::Dms, CursorEvent::Start).0, Access::Stop);
}

#[test]
fn fresh_handshake_defaults() {
    let c: Ctx = ChatContext::new("true".to_string(), false);
    assert_eq!(next_version(None), 0);
    assert_eq!(next_version(Some(0)), 1);
    assert_eq!(c.generation(next_version(None)), 0);
    assert!(!c.rooms_narrowed());
    assert!(c.online(None));
    assert!(!c.online(Some(false)));
    assert!(!c.can_moderate(None));
    assert!(c.can_moderate(Some(true)));
    assert!(!c.can_demand_auth());
    assert!(c.is_authenticated(Some(7)));
    assert!(!c.is_authenticated(None));
}

#[test]
fn cursor_publication_is_what_the_cache_answers() {
    let mut c = live();
    assert!(matches!(c.publish_cursors(0, CursorKind::Dms, "dm"), Publish::Won));
    assert_eq!(c.peek_cursors(0, CursorKind::Dms), Some(&"dm"));
    assert_eq!(c.peek_cursors(0, CursorKind::Rooms), None);
}

#[test]
fn no_cursor_manager_for_an_anonymous_reader_or_without_its_query() {
    let mut c = live();
    assert_eq!(c.cursor_step(0, 0, CursorKind::Rooms, CursorEvent::Start).0, Access::Gather);
    let anonymous = CursorEvent::Gathered { query_ready: true, viewer: None };
    assert_eq!(c.cursor_step(0, 0, CursorKind::Rooms, anonymous).0, Access::Stop);
    let no_query = CursorEvent::Gathered { query_ready: false, viewer: Some(7) };
    assert_eq!(c.cursor_step(0, 0, CursorKind::Rooms, no_query).0, Access::Stop);
    assert_eq!(c.cursor_step(0, 0, CursorKind::Rooms, CursorEvent::Failed).0, Access::Stop);
    assert_eq!(c.query_step(0, 0, QueryKind::Members, QueryEvent::Failed).0, Access::Stop);
    assert_eq!(c.peek_cursors(0, CursorKind::Rooms), None);
}
