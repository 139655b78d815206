use funnel::cards::CardType;
use funnel::changelog::get_change_log;
use funnel::text::{decimal_text, is_white_space, replace_char, same_text, unsigned_text, word_count};

#[test]
fn decimal_text_writes_signed_numbers() {
    assert_eq!(decimal_text(0), "0");
    assert_eq!(decimal_text(12345), "12345");
    assert_eq!(decimal_text(-907), "-907");
    assert_eq!(decimal_text(i64::MIN), i64::MIN.to_string());
    assert_eq!(unsigned_text(u64::MAX), u64::MAX.to_string());
}

#[test]
fn replace_char_replaces_every_occurrence() {
    assert_eq!(replace_char("* a * b", '*', "•"), "• a • b");
    assert_eq!(replace_char("none", '*', "•"), "none");
}

#[test]
fn word_count_matches_split_whitespace() {
    for s in ["", "one", "  two words ", "tab\tand\nnewline", "a\u{3000}b"] {
        assert_eq!(word_count(s), s.split_whitespace().count());
    }
    assert!(is_white_space('\u{a0}'));
    assert!(!is_white_space('x'));
}

#[test]
fn same_text_compares_characters() {
    assert!(same_text("abc", "abc"));
    assert!(!same_text("abc", "abd"));
    assert!(!same_text("ab", "abc"));
}

#[test]
fn change_log_splits_entries_at_headers() {
    let text = "# Title\n\n## 01.2025\n\n* First\n* Second\n\n## 12.2024\n* Third\n";
    let logs = get_change_log(text);
    assert_eq!(logs.len(), 2);
    assert_eq!(logs[0].header, "01.2025");
    assert_eq!(logs[0].normal_text, "• First\n• Second\n");
    assert_eq!(logs[1].header, "12.2024");
    assert_eq!(logs[1].normal_text, "• Third\n");
}

#[test]
fn change_log_without_header_keeps_one_entry() {
    let logs = get_change_log("title\nplain line");
    assert_eq!(logs.len(), 1);
    assert_eq!(logs[0].header, "");
    assert_eq!(logs[0].normal_text, "plain line\n");
}

#[test]
fn card_texts() {
    assert_eq!(CardType::MemberJoin.header(), "Member Joins");
    assert_eq!(
        CardType::TotalMessage.hover_text(42, None),
        "Total message gotten within the selected date: 42"
    );
    assert_eq!(
        CardType::UniqueUser.hover_text(5, Some(7)),
        "Total unique users gotten within the selected date: 5\nUnique members within the compare date: 7"
    );
}
