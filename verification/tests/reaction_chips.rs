use ankurah_chat_leptos::reactions::{
    chip_class, chip_label, picker_index, reaction_chips, reaction_chips_for, toggle_plan, ReactionChip, ReactionRow,
    ReactionToggle,
    REACTION_EMOJIS,
};

fn row(message: u128, user: u128, emoji: &str, active: bool) -> ReactionRow {
    ReactionRow { active: Some(active), message: Some(message), user: Some(user), emoji: Some(emoji.to_string()) }
}

fn chip(emoji: &str, count: usize, mine: bool) -> ReactionChip {
    ReactionChip { emoji: emoji.to_string(), count, mine }
}

#[test]
fn picker_order() {
    assert_eq!(picker_index("\u{1F44D}"), 0);
    assert_eq!(picker_index("\u{1F440}"), 5);
    assert_eq!(picker_index("\u{1F600}"), REACTION_EMOJIS.len());
}

#[test]
fn chips_count_distinct_users_in_picker_order() {
    let thumbs = REACTION_EMOJIS[0];
    let heart = REACTION_EMOJIS[1];
    let rows = vec![
        row(1, 7, heart, true),
        row(1, 8, thumbs, true),
        row(1, 8, thumbs, true),
        row(1, 9, thumbs, true),
        row(1, 10, "\u{1F600}", true),
        row(1, 11, "\u{1F4A9}", false),
        row(2, 7, thumbs, true),
    ];
    let chips = reaction_chips_for(&rows, 1, Some(7));
    assert_eq!(chips, vec![chip(thumbs, 2, false), chip(heart, 1, true), chip("\u{1F600}", 1, false)]);
    assert_eq!(reaction_chips_for(&rows, 3, Some(7)), Vec::<ReactionChip>::new());
    assert_eq!(reaction_chips_for(&rows, 2, None), vec![chip(thumbs, 1, false)]);
}

#[test]
fn chips_grouped_per_message() {
    let rows = vec![row(1, 7, "a", true), row(2, 7, "b", true), row(1, 8, "a", true), row(3, 9, "c", false)];
    let out = reaction_chips(&rows, Some(8));
    assert_eq!(out.len(), 2);
    let one = out.iter().find(|m| m.message == 1).unwrap();
    assert_eq!(one.chips, vec![chip("a", 2, true)]);
    let two = out.iter().find(|m| m.message == 2).unwrap();
    assert_eq!(two.chips, vec![chip("b", 1, false)]);
}

#[test]
fn toggle_flips_all_rows_against_any_active() {
    assert_eq!(toggle_plan(&[]), ReactionToggle::Create);
    assert_eq!(toggle_plan(&[Some(false), None]), ReactionToggle::SetAll(true));
    assert_eq!(toggle_plan(&[Some(false), Some(true)]), ReactionToggle::SetAll(false));
}

#[test]
fn toggling_twice_restores_the_reaction() {
    // First toggle: create an active row; a second flips it off.
    assert_eq!(toggle_plan(&[]), ReactionToggle::Create);
    assert_eq!(toggle_plan(&[Some(true)]), ReactionToggle::SetAll(false));
    // Race duplicates, one active: off for all, then on for all.
    assert_eq!(toggle_plan(&[Some(true), Some(false)]), ReactionToggle::SetAll(false));
    assert_eq!(toggle_plan(&[Some(false), Some(false)]), ReactionToggle::SetAll(true));
    assert_eq!(toggle_plan(&[Some(true), Some(true)]), ReactionToggle::SetAll(false));
}

#[test]
fn chip_label_reads_count_emoji_and_hint() {
    assert_eq!(chip_label(&chip("\u{1F44D}", 1, true)), "1 \u{1F44D} reaction. Click to remove yours.");
    assert_eq!(chip_label(&chip("\u{1F44D}", 2, false)), "2 \u{1F44D} reactions. Click to react.");
    assert_eq!(chip_label(&chip("a", 12, false)), "12 a reactions. Click to react.");
}

#[test]
fn chip_class_marks_own_reactions() {
    assert_eq!(chip_class(true), "reactionChip mine");
    assert_eq!(chip_class(false), "reactionChip");
}
