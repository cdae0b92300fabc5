use ankurah_chat_leptos::composer::{
    can_send, composer_height, edit_allowed, mention_candidates, navigate_own, plan_send, rearm_reply_after_failure,
    restore_draft, EditNav, EditTarget, NavMessage, SendPlan,
};
use ankurah_chat_leptos::context::WriteSession;
use ankurah_chat_leptos::dm::Member;

fn member(id: u128, name: &str) -> Member {
    Member { id, name: name.to_string() }
}

fn ids(ms: &[Member]) -> Vec<u128> {
    ms.iter().map(|m| m.id).collect()
}

#[test]
fn mention_popup_ranks_prefix_matches_first() {
    let members = vec![
        member(1, "Bob"),
        member(2, "alice"),
        member(3, "Alfred"),
        member(4, "Sal"),
        member(5, ""),
        member(6, "Zed"),
    ];
    // "alfred" < "alice"; then the substring tier.
    assert_eq!(ids(&mention_candidates(&members, "al")), vec![3, 2, 4]);
    // Compared lowercased on both sides.
    assert_eq!(ids(&mention_candidates(&members, "AL")), vec![3, 2, 4]);
    assert_eq!(mention_candidates(&members, "al")[0].name, "Alfred");
}

#[test]
fn mention_popup_bare_at_lists_everyone_named() {
    let members = vec![member(1, "Bob"), member(2, ""), member(3, "amy")];
    assert_eq!(ids(&mention_candidates(&members, "")), vec![3, 1]);
    assert_eq!(ids(&mention_candidates(&members, "zz")), Vec::<u128>::new());
}

#[test]
fn mention_popup_caps_at_eight() {
    let members: Vec<Member> = (0..10u128).map(|i| member(i, &format!("m{}", 9 - i))).collect();
    // Names m9..m0 for ids 0..9: alphabetical order is ids 9, 8, ..., 2.
    assert_eq!(ids(&mention_candidates(&members, "m")), vec![9, 8, 7, 6, 5, 4, 3, 2]);
}

#[test]
fn mention_popup_equal_names_keep_member_order() {
    let members = vec![member(5, "Al"), member(3, "al")];
    assert_eq!(ids(&mention_candidates(&members, "a")), vec![5, 3]);
}

#[test]
fn composer_height_is_capped() {
    assert_eq!(composer_height(100, 50, 48), (102, false));
    assert_eq!(composer_height(300, 0, 0), (192, true));
    assert_eq!(composer_height(192, 0, 0), (192, false));
}

#[test]
fn send_button_needs_text_and_transport() {
    assert!(can_send("hi", true));
    assert!(!can_send("  \n", true));
    assert!(!can_send("hi", false));
}

#[test]
fn edit_permission() {
    assert!(edit_allowed(Some(7), None, 7));
    assert!(!edit_allowed(Some(8), None, 7));
    assert!(!edit_allowed(Some(8), Some(false), 7));
    assert!(edit_allowed(Some(8), Some(true), 7));
    assert!(!edit_allowed(None, None, 7));
}

#[test]
fn send_plans_for_creates() {
    assert_eq!(plan_send("   ", WriteSession::Write(7), None), SendPlan::Nothing);
    assert_eq!(plan_send(" hi ", WriteSession::Write(7), None), SendPlan::Create { author: 7, text: "hi".to_string() });
    assert_eq!(plan_send("hi", WriteSession::DemandAuth, None), SendPlan::NoSession);
    assert_eq!(plan_send("hi", WriteSession::Refuse, None), SendPlan::NoSession);
}

#[test]
fn send_plans_for_edits() {
    let foreign = EditTarget { author: Some(8), collaborative: None, entry_decoded: "old".to_string() };
    assert_eq!(plan_send("new", WriteSession::Write(7), Some(&foreign)), SendPlan::AbandonEdit);
    let open = EditTarget { author: Some(8), collaborative: Some(true), entry_decoded: "old".to_string() };
    assert_eq!(
        plan_send(" new ", WriteSession::Write(7), Some(&open)),
        SendPlan::Edit { author: 7, text: "new".to_string() }
    );
    let mine = EditTarget { author: Some(7), collaborative: None, entry_decoded: "same".to_string() };
    assert_eq!(plan_send(" same\n", WriteSession::Write(7), Some(&mine)), SendPlan::Unchanged);
}

#[test]
fn failed_send_puts_the_text_back_above_new_typing() {
    assert_eq!(restore_draft("hello", "  "), "hello");
    assert_eq!(restore_draft("hello", "new"), "hello\nnew");
    assert!(rearm_reply_after_failure(false, false));
    assert!(!rearm_reply_after_failure(true, false));
    assert!(!rearm_reply_after_failure(false, true));
}

fn timeline() -> Vec<NavMessage> {
    vec![
        NavMessage { id: 1, author: Some(7), deleted: None },
        NavMessage { id: 2, author: Some(8), deleted: None },
        NavMessage { id: 3, author: Some(7), deleted: Some(true) },
        NavMessage { id: 4, author: Some(7), deleted: Some(false) },
    ]
}

#[test]
fn edit_navigation_backward() {
    let msgs = timeline();
    assert_eq!(navigate_own(&msgs, Some(7), None, true), EditNav::Edit(3));
    assert_eq!(navigate_own(&msgs, Some(7), Some(4), true), EditNav::Edit(0));
    assert_eq!(navigate_own(&msgs, Some(7), Some(1), true), EditNav::Stay);
    assert_eq!(navigate_own(&msgs, Some(7), Some(99), true), EditNav::Edit(3));
}

#[test]
fn edit_navigation_forward() {
    let msgs = timeline();
    assert_eq!(navigate_own(&msgs, Some(7), None, false), EditNav::Stay);
    assert_eq!(navigate_own(&msgs, Some(7), Some(1), false), EditNav::Edit(3));
    assert_eq!(navigate_own(&msgs, Some(7), Some(4), false), EditNav::Exit);
}

#[test]
fn edit_navigation_needs_a_reader_and_messages() {
    assert_eq!(navigate_own(&timeline(), None, None, true), EditNav::Stay);
    assert_eq!(navigate_own(&[], Some(7), None, true), EditNav::Stay);
}

#[test]
fn ranking_over_lowered_names() {
    let members = vec![member(1, "Bob"), member(2, "alice"), member(3, "Alfred"), member(4, "Sal"), member(5, "")];
    let lowers: Vec<String> = vec!["bob", "alice", "alfred", "sal", ""].into_iter().map(String::from).collect();
    let ranked = ankurah_chat_leptos::composer::rank_mentions(&members, &lowers, "al");
    assert_eq!(ids(&ranked), vec![3, 2, 4]);
    assert_eq!(ids(&ankurah_chat_leptos::composer::rank_mentions(&members, &lowers, "")), vec![3, 2, 1, 4]);
}
