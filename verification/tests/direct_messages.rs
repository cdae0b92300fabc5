use ankurah_chat_leptos::context::WriteSession;
use ankurah_chat_leptos::dm::{
    canonical_pair, canonical_thread, check_dm_send, conversation_activity, conversations, correspondent_name,
    display_name, dm_partner, open_thread_with, pair_rows, partner_of, pick_thread, sidebar_order, thread_predicate,
    unread_total, DmError, DmThread, Member, OpenThread,
};

fn thread(id: u128, a: u128, b: u128) -> DmThread {
    DmThread { id, a: Some(a), b: Some(b) }
}

#[test]
fn pair_order_is_canonical() {
    assert_eq!(canonical_pair(5, 2), (2, 5));
    assert_eq!(canonical_pair(2, 5), (2, 5));
    assert_eq!(canonical_pair(3, 3), (3, 3));
}

#[test]
fn lowest_id_is_the_thread_to_write() {
    assert_eq!(canonical_thread(&[9, 4, 7]), Some(4));
    assert_eq!(canonical_thread(&[]), None);
}

#[test]
fn partner_from_either_seat() {
    assert_eq!(dm_partner(1, 2, 1), Some(2));
    assert_eq!(dm_partner(1, 2, 2), Some(1));
    assert_eq!(dm_partner(1, 2, 3), None);
    assert_eq!(dm_partner(1, 1, 1), None);
    assert_eq!(partner_of(&thread(10, 1, 2), 2), Some(1));
    assert_eq!(partner_of(&DmThread { id: 10, a: None, b: Some(2) }, 2), None);
}

#[test]
fn pair_rows_span_race_twins_in_either_order() {
    let threads = vec![thread(30, 1, 2), thread(10, 2, 1), thread(20, 1, 3), thread(15, 1, 2)];
    assert_eq!(pair_rows(&threads, 1, 2), vec![10, 15, 30]);
    assert_eq!(pair_rows(&threads, 2, 1), vec![10, 15, 30]);
    assert_eq!(pair_rows(&threads, 1, 4), Vec::<u128>::new());
}

#[test]
fn race_twins_collapse_into_one_conversation() {
    let threads = vec![
        thread(30, 1, 2),
        thread(20, 1, 3),
        thread(10, 2, 1),
        DmThread { id: 5, a: None, b: Some(1) },
    ];
    let convs = conversations(&threads);
    assert_eq!(convs.len(), 2);
    assert_eq!(convs[0].canonical, thread(10, 2, 1));
    assert_eq!(convs[0].rows, vec![10, 30]);
    assert_eq!(convs[1].canonical, thread(20, 1, 3));
    assert_eq!(convs[1].rows, vec![20]);
}

#[test]
fn sidebar_lists_active_conversations_newest_first() {
    let convs = conversations(&[thread(1, 1, 2), thread(2, 1, 3), thread(3, 1, 4)]);
    // Conversation 0 is idle, 1 and 2 have activity; ties break by canonical id.
    assert_eq!(sidebar_order(&convs, &[0, 50, 70]), vec![2, 1]);
    assert_eq!(sidebar_order(&convs, &[50, 50, 0]), vec![0, 1]);
    assert_eq!(sidebar_order(&convs, &[0, 0, 0]), Vec::<usize>::new());
}

fn members() -> Vec<Member> {
    vec![
        Member { id: 1, name: "Ann".to_string() },
        Member { id: 2, name: "   ".to_string() },
        Member { id: 1, name: "Second Ann".to_string() },
    ]
}

#[test]
fn display_names_fall_back_to_unknown() {
    assert_eq!(display_name(&members(), 1), "Ann");
    assert_eq!(display_name(&members(), 2), "Unknown");
    assert_eq!(display_name(&members(), 9), "Unknown");
}

#[test]
fn conversation_titles() {
    let t = thread(10, 1, 2);
    assert_eq!(correspondent_name(&t, Some(2), &members(), "You"), "Ann");
    assert_eq!(correspondent_name(&t, Some(1), &members(), "You"), "Unknown");
    assert_eq!(correspondent_name(&t, None, &members(), "Yourself"), "Yourself");
    assert_eq!(correspondent_name(&thread(11, 2, 2), Some(2), &members(), "You"), "You");
}

#[test]
fn no_conversation_with_oneself() {
    assert_eq!(check_dm_send(1, 1), Err(DmError::SelfConversation));
    assert_eq!(check_dm_send(1, 2), Ok(()));
    assert_eq!(open_thread_with(WriteSession::Write(1), 1), OpenThread::WithSelf);
    assert_eq!(open_thread_with(WriteSession::Write(1), 2), OpenThread::Open(1));
    assert_eq!(open_thread_with(WriteSession::DemandAuth, 2), OpenThread::DemandAuth);
    assert_eq!(open_thread_with(WriteSession::Refuse, 2), OpenThread::Refuse);
}

#[test]
fn find_or_create_picks_the_lowest_row() {
    assert_eq!(pick_thread(&[]), None);
    assert_eq!(pick_thread(&[thread(9, 1, 2), thread(4, 2, 1), thread(4, 1, 2)]), Some(1));
}

#[test]
fn predicate_spans_every_row() {
    assert_eq!(thread_predicate(0), None);
    assert_eq!(thread_predicate(1), Some("thread = ?".to_string()));
    assert_eq!(thread_predicate(3), Some("thread = ? OR thread = ? OR thread = ?".to_string()));
}

#[test]
fn badges_and_activity_across_rows() {
    assert_eq!(unread_total(&[3, 0, 4]), 7);
    assert_eq!(unread_total(&[]), 0);
    assert_eq!(conversation_activity(&[5, 90, 12]), 90);
    assert_eq!(conversation_activity(&[]), 0);
}

#[test]
fn each_end_names_the_other() {
    for (a, b) in [(1u128, 2u128), (9, 3)] {
        let p = dm_partner(a, b, a).unwrap();
        assert_eq!(p, b);
        assert_eq!(dm_partner(a, b, p), Some(a));
        assert_eq!(canonical_pair(a, b), canonical_pair(b, a));
    }
}
