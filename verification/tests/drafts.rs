use ankurah_chat_leptos::composer::{
    completed_shortcode, current_emoji_draft, current_mention_draft, draft_anchor, is_shortcode_char, mention_text,
    splice_units, utf16_units, EmojiDraft, MentionDraft,
};
use ankurah_chat_leptos::text::from_utf16_lossy;

fn units(s: &str) -> Vec<u16> {
    s.encode_utf16().collect()
}

fn mention(start: usize, query: &str) -> Option<MentionDraft> {
    Some(MentionDraft { start_utf16: start, query: query.to_string() })
}

fn emoji(start: usize, query: &str) -> Option<EmojiDraft> {
    Some(EmojiDraft { start_utf16: start, query: query.to_string() })
}

#[test]
fn mention_draft_at_word_start() {
    assert_eq!(current_mention_draft(&units("hi @al"), 6), mention(3, "al"));
    assert_eq!(current_mention_draft(&units("@"), 1), mention(0, ""));
}

#[test]
fn mention_draft_ignores_email_at() {
    assert_eq!(current_mention_draft(&units("mail a@b"), 8), None);
}

#[test]
fn mention_draft_stops_at_whitespace() {
    assert_eq!(current_mention_draft(&units("hi @al bo"), 9), None);
    assert_eq!(current_mention_draft(&units("hi"), 2), None);
}

#[test]
fn mention_draft_clamps_the_caret() {
    assert_eq!(current_mention_draft(&units("@al"), 99), mention(0, "al"));
    assert_eq!(current_mention_draft(&units("@al"), 2), mention(0, "a"));
}

#[test]
fn mention_draft_scan_window() {
    let inside = format!("@{}", "a".repeat(47));
    let outside = format!("@{}", "a".repeat(48));
    assert_eq!(current_mention_draft(&units(&inside), 48), mention(0, &"a".repeat(47)));
    assert_eq!(current_mention_draft(&units(&outside), 49), None);
}

#[test]
fn mention_draft_offsets_are_utf16_units() {
    // The emoji before the anchor is two code units.
    assert_eq!(current_mention_draft(&units("\u{1F600} @bo"), 6), mention(3, "bo"));
    // A lone surrogate in the query decodes as U+FFFD.
    assert_eq!(current_mention_draft(&[0x40, 0xD800], 2), mention(0, "\u{FFFD}"));
}

#[test]
fn shortcode_characters() {
    for c in ['a', 'Z', '0', '_', '+', '-'] {
        assert!(is_shortcode_char(c));
    }
    for c in [':', ' ', '.', '\u{e9}', '@'] {
        assert!(!is_shortcode_char(c));
    }
}

#[test]
fn emoji_draft_needs_two_characters() {
    assert_eq!(current_emoji_draft(&units(":sm"), 3), emoji(0, "sm"));
    assert_eq!(current_emoji_draft(&units(":s"), 2), None);
    assert_eq!(current_emoji_draft(&units("hi :+1"), 6), emoji(3, "+1"));
}

#[test]
fn emoji_draft_stays_quiet_for_times_smileys_and_astral_text() {
    assert_eq!(current_emoji_draft(&units("12:30"), 5), None);
    assert_eq!(current_emoji_draft(&units(":)"), 2), None);
    assert_eq!(current_emoji_draft(&units(":a\u{1F600}"), 4), None);
    assert_eq!(current_emoji_draft(&units("smile"), 5), None);
}

#[test]
fn completed_shortcode_found() {
    assert_eq!(completed_shortcode(&units("hi :smile:"), 10), Some((3, "smile".to_string())));
    assert_eq!(completed_shortcode(&units(":+1:"), 4), Some((0, "+1".to_string())));
}

#[test]
fn completed_shortcode_rejections() {
    // Too short, an empty name, not at a word start, past the text, no closing colon.
    assert_eq!(completed_shortcode(&units("::"), 2), None);
    assert_eq!(completed_shortcode(&units(":::"), 3), None);
    assert_eq!(completed_shortcode(&units("a:b:"), 4), None);
    assert_eq!(completed_shortcode(&units(":ab:"), 5), None);
    assert_eq!(completed_shortcode(&units(":abc"), 4), None);
}

#[test]
fn utf16_encoding_of_astral_text() {
    assert_eq!(utf16_units("a\u{1F600}"), vec![0x61, 0xD83D, 0xDE00]);
    assert_eq!(utf16_units(""), Vec::<u16>::new());
    assert_eq!(utf16_units("\u{e9}"), vec![0xE9]);
}

#[test]
fn lossy_decoding() {
    let u = units("a\u{1F600}b");
    assert_eq!(from_utf16_lossy(&u, 0, u.len()), "a\u{1F600}b");
    assert_eq!(from_utf16_lossy(&u, 1, 2), "\u{FFFD}");
    assert_eq!(from_utf16_lossy(&[0xDE00, 0x41], 0, 2), "\u{FFFD}A");
}

#[test]
fn splice_replaces_the_draft() {
    let (text, caret) = splice_units(&units("hi @al"), 3, 6, &units("@Alice "));
    assert_eq!(text, "hi @Alice ");
    assert_eq!(caret, 10);
    // The end is clamped to the text; the tail after it is kept.
    let (text, caret) = splice_units(&units(":sm x"), 0, 3, &units("\u{1F600}"));
    assert_eq!(text, "\u{1F600} x");
    assert_eq!(caret, 2);
    let (text, _) = splice_units(&units("ab"), 1, 99, &units("Z"));
    assert_eq!(text, "aZ");
}

#[test]
fn anchor_still_stands() {
    let u = units("hi @al");
    assert_eq!(draft_anchor(&u, Some(6), 3, 0x40), Some(6));
    assert_eq!(draft_anchor(&u, None, 3, 0x40), Some(6));
    assert_eq!(draft_anchor(&u, Some(99), 3, 0x40), Some(6));
    assert_eq!(draft_anchor(&u, Some(6), 2, 0x40), None);
    assert_eq!(draft_anchor(&u, Some(3), 3, 0x40), None);
}

#[test]
fn mention_insertion_text() {
    assert_eq!(mention_text("Alice"), Some("@Alice ".to_string()));
    assert_eq!(mention_text(""), None);
}

#[test]
fn the_two_popups_never_open_together() {
    let u = units("@ab:cd");
    assert_eq!(current_mention_draft(&u, 6), mention(0, "ab:cd"));
    assert_eq!(current_emoji_draft(&u, 6), None);
    let u = units(":ab@cd");
    assert_eq!(current_emoji_draft(&u, 6), None);
    assert_eq!(current_mention_draft(&u, 6), None);
    let u = units("@x :smi");
    assert_eq!(current_emoji_draft(&u, 7), emoji(3, "smi"));
    assert_eq!(current_mention_draft(&u, 7), None);
}

#[test]
fn encoded_text_decodes_back() {
    for s in ["", "plain", "\u{1F600}\u{1F44D} caf\u{e9}", "\u{10FFFF}\u{FFFF}"] {
        let u = utf16_units(s);
        assert_eq!(from_utf16_lossy(&u, 0, u.len()), s);
    }
}
