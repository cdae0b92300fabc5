use ankurah_chat_leptos::composer::mention_candidates;
use ankurah_chat_leptos::dm::Member;
use ankurah_chat_leptos::keys::would_write_draft;
use ankurah_chat_leptos::rooms::TimelineDebugHeader;
use ankurah_chat_leptos::text::{compare_str, decimal_string, from_utf16_lossy, is_blank, is_whitespace, str_eq, trim};

#[test]
fn trimming_uses_unicode_whitespace() {
    assert_eq!(trim("  hi there \n"), "hi there");
    assert_eq!(trim("\u{3000}x\u{A0}"), "x");
    assert_eq!(trim("   "), "");
    assert!(is_blank(" \t\u{2003}"));
    assert!(!is_blank(" a "));
    assert!(is_blank(""));
    assert!(is_whitespace('\u{85}'));
    assert!(!is_whitespace('\u{200B}'));
}

#[test]
fn decimal_rendering() {
    assert_eq!(decimal_string(0), "0");
    assert_eq!(decimal_string(7), "7");
    assert_eq!(decimal_string(1200), "1200");
    assert_eq!(decimal_string(usize::MAX), usize::MAX.to_string());
}

#[test]
fn string_order() {
    assert_eq!(compare_str("alfred", "alice"), -1);
    assert_eq!(compare_str("al", "alice"), -1);
    assert_eq!(compare_str("bob", "alice"), 1);
    assert_eq!(compare_str("same", "same"), 0);
    assert_eq!(compare_str("\u{e9}", "z"), 1);
}

#[test]
fn lowercasing_reaches_class_names_and_ranking() {
    assert_eq!(TimelineDebugHeader("\u{C0}LICE", false, false, false, 0).mode_class, "debugValue mode-\u{E0}lice");
    assert_eq!(TimelineDebugHeader("\u{3A3}\u{391}\u{3A3}", false, false, false, 0).mode_class, "debugValue mode-\u{3C3}\u{3B1}\u{3C2}");
    let members = vec![Member { id: 1, name: "\u{C9}LODIE".to_string() }];
    assert_eq!(mention_candidates(&members, "\u{E9}l").len(), 1);
}

#[test]
fn key_names_compare_exactly() {
    assert!(would_write_draft("Enter", false, false, false));
    assert!(!would_write_draft("enter", false, false, false));
    assert!(!would_write_draft("Ent", false, false, false));
}

#[test]
fn scalar_decoding() {
    assert_eq!(from_utf16_lossy(&[0x41, 0xE9], 0, 2), "A\u{e9}");
    assert_eq!(from_utf16_lossy(&[0xD83D, 0xDE00], 0, 2), "\u{1F600}");
}

#[test]
fn str_eq_compares_characters() {
    assert!(str_eq("Enter", "Enter"));
    assert!(!str_eq("Enter", "enter"));
    assert!(!str_eq("Ente", "Enter"));
    assert!(str_eq("", ""));
    assert!(str_eq("\u{1F44D}", "\u{1F44D}"));
}
