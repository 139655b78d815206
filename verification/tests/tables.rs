use funnel::channel_table::{self, add_id, extend_ids, ChannelRowData, ChannelTable};
use funnel::event_bus::EventBus;
use funnel::guild_channel::Channel;
use funnel::message_user::{Message, MessageWithUser, User};
use funnel::state::{AppEvent, ChannelColumn, UserColumn, WordColumn};
use funnel::table_order::{order_ints, order_texts, RowOrder};
use funnel::user_table::{self, UserRowData, UserTable};
use funnel::word_table::{self, get_stripped_windows, split_words, WordRowData, WordTable};

const DAY: i32 = 19723; // 2024-01-01
const T0: i64 = 19723 * 86_400;

fn msg(channel: i64, user_id: i64, time: i64, text: &str, deleted: bool) -> MessageWithUser {
    MessageWithUser {
        message: Message {
            guild_id: 1,
            channel_id: channel,
            message_id: 0,
            message_timestamp: time,
            sender_id: user_id,
            message_content: Some(text.to_string()),
            stripped_content: Some(text.to_string()),
            delete_timestamp: if deleted { Some(time) } else { None },
        },
        sender: User { user_id, global_name: None, username: format!("user{}", user_id) },
    }
}

fn channels() -> Vec<Channel> {
    vec![
        Channel { channel_id: 7, guild_id: 1, channel_name: "general".to_string() },
        Channel { channel_id: 8, guild_id: 1, channel_name: "random".to_string() },
    ]
}

#[test]
fn order_of_numbers_and_texts() {
    assert_eq!(order_ints(1, 2), RowOrder::Less);
    assert_eq!(order_ints(2, 2), RowOrder::Equal);
    assert_eq!(order_ints(3, 2), RowOrder::Greater);
    assert_eq!(order_texts(&"abc".to_string(), &"abd".to_string()), RowOrder::Less);
    assert_eq!(order_texts(&"ab".to_string(), &"abc".to_string()), RowOrder::Less);
    assert_eq!(order_texts(&"b".to_string(), &"abc".to_string()), RowOrder::Greater);
    assert_eq!(order_texts(&"same".to_string(), &"same".to_string()), RowOrder::Equal);
}

#[test]
fn add_id_keeps_ids_distinct() {
    let mut ids = vec![1, 2];
    add_id(&mut ids, 2);
    add_id(&mut ids, 3);
    assert_eq!(ids, vec![1, 2, 3]);
    extend_ids(&mut ids, &vec![3, 4, 1, 5]);
    assert_eq!(ids, vec![1, 2, 3, 4, 5]);
}

#[test]
fn channel_rows_compare_by_column() {
    let mut a = ChannelRowData::new("alpha", 1, 100);
    let b = ChannelRowData::new("beta", 2, 50);
    a.increment_total_message();
    assert_eq!(channel_table::order_by(ChannelColumn::Name, &a, &b), RowOrder::Less);
    assert_eq!(channel_table::order_by(ChannelColumn::TotalMessage, &a, &b), RowOrder::Greater);
    assert_eq!(channel_table::order_by(ChannelColumn::FirstMessage, &a, &b), RowOrder::Greater);
    assert_eq!(channel_table::order_by(ChannelColumn::ID, &b, &a), RowOrder::Greater);
    assert_eq!(channel_table::order_by(ChannelColumn::UniqueUsers, &a, &b), RowOrder::Equal);
}

#[test]
fn channel_table_counts_per_channel_and_joins_days() {
    let mut bus = EventBus::default();
    let mut t = ChannelTable::default();
    t.set_channel_id_map(channels());
    t.handle_message(&msg(7, 11, 0, "hi", false), T0 + 10, &mut bus);
    t.handle_message(&msg(7, 12, 0, "hi", true), T0 + 20, &mut bus);
    t.handle_message(&msg(8, 11, 0, "hi", false), T0 + 30, &mut bus);
    t.handle_message(&msg(7, 11, 0, "hi", false), T0 + 86_400 + 5, &mut bus);
    assert_eq!(t.channel_data.len(), 3);
    assert_eq!(t.date_handler.from, DAY);
    assert_eq!(t.date_handler.to, DAY + 1);
    // The span grew twice: the first day, then the next one.
    assert_eq!(bus.events.len(), 2);
    t.create_rows();
    assert_eq!(t.rows.len(), 2);
    let general = &t.rows[0];
    assert_eq!(general.name, "general");
    assert_eq!(general.total_message, 2);
    assert_eq!(general.deleted_message, 1);
    assert_eq!(general.first_message, T0 + 10);
    assert_eq!(general.last_message, T0 + 86_400 + 5);
    assert_eq!(general.unique_users, vec![11, 12]);
    let random = &t.rows[1];
    assert_eq!(random.name, "random");
    assert_eq!(random.total_message, 1);
    assert_eq!(t.reload_count, 0);
}

#[test]
fn channel_table_rows_follow_the_selected_dates() {
    let mut bus = EventBus::default();
    let mut t = ChannelTable::default();
    t.set_channel_id_map(channels());
    t.handle_message(&msg(7, 11, 0, "hi", false), T0 + 10, &mut bus);
    t.handle_message(&msg(7, 11, 0, "hi", false), T0 + 86_400 + 5, &mut bus);
    let mut h = t.date_handler;
    h.from = DAY + 1;
    t.set_date_handler(h);
    t.create_rows();
    assert_eq!(t.rows.len(), 1);
    assert_eq!(t.rows[0].total_message, 1);
    assert_eq!(t.rows[0].first_message, T0 + 86_400 + 5);
}

#[test]
fn channel_map_learns_only_new_channels() {
    let mut t = ChannelTable::default();
    t.set_channel_id_map(channels());
    t.set_channel_id_map(vec![
        Channel { channel_id: 7, guild_id: 1, channel_name: "renamed".to_string() },
        Channel { channel_id: 9, guild_id: 1, channel_name: "news".to_string() },
    ]);
    let names: Vec<(i64, &str)> = t.channel_map.iter().map(|(i, n)| (*i, n.as_str())).collect();
    assert_eq!(names, vec![(7, "general"), (8, "random"), (9, "news")]);
}

#[test]
fn user_rows_compare_by_column() {
    let a = UserRowData::new("Ann", "ann", 1, 10);
    let mut b = UserRowData::new("Bob", "bob", 2, 5);
    b.increment_total_message();
    b.increment_total_word(4);
    assert_eq!(user_table::order_by(UserColumn::Name, &a, &b), RowOrder::Less);
    assert_eq!(user_table::order_by(UserColumn::TotalMessage, &a, &b), RowOrder::Less);
    assert_eq!(user_table::order_by(UserColumn::TotalWord, &b, &a), RowOrder::Greater);
    assert_eq!(user_table::order_by(UserColumn::FirstMessageSeen, &a, &b), RowOrder::Greater);
}

#[test]
fn user_table_counts_words_characters_and_averages() {
    let mut bus = EventBus::default();
    let mut t = UserTable::default();
    assert!(t.try_handle_message(msg(7, 11, T0 + 10, "hello big world", false), &mut bus));
    assert!(t.try_handle_message(msg(7, 11, T0 + 20, "hi", false), &mut bus));
    assert!(t.try_handle_message(msg(7, 12, T0 + 86_400, "é", false), &mut bus));
    assert_eq!(t.user_data.len(), 2);
    assert_eq!(bus.events, vec![AppEvent::UpdateDate(DAY, 1), AppEvent::UpdateDate(DAY + 1, 1)]);
    assert!(t.try_create_rows());
    assert_eq!(t.rows.len(), 2);
    let ann = &t.rows[0];
    assert_eq!(ann.username, "user11");
    assert_eq!(ann.total_message, 2);
    assert_eq!(ann.total_word, 4);
    assert_eq!(ann.total_char, 17);
    assert_eq!(ann.first_seen, T0 + 10);
    assert_eq!(ann.last_seen, T0 + 20);
    let other = &t.rows[1];
    // Characters are counted in bytes.
    assert_eq!(other.total_char, 2);
    assert_eq!(t.total_message, 3);
}

#[test]
fn user_table_joins_a_users_days() {
    let mut bus = EventBus::default();
    let mut t = UserTable::default();
    assert!(t.try_handle_message(msg(7, 11, T0 + 10, "one two", false), &mut bus));
    assert!(t.try_handle_message(msg(7, 11, T0 + 86_400 + 10, "three", false), &mut bus));
    assert!(t.try_create_rows());
    assert_eq!(t.rows.len(), 1);
    let r = &t.rows[0];
    assert_eq!(r.total_message, 2);
    assert_eq!(r.total_word, 3);
    assert_eq!(r.average_word, 1);
    assert_eq!(r.first_seen, T0 + 10);
    assert_eq!(r.last_seen, T0 + 86_400 + 10);
}

#[test]
fn user_table_refuses_a_time_out_of_range() {
    let mut bus = EventBus::default();
    let mut t = UserTable::default();
    assert!(!t.try_handle_message(msg(7, 11, i64::MAX, "x", false), &mut bus));
    assert_eq!(t.user_data.len(), 0);
    assert!(bus.events.is_empty());
}

#[test]
fn stripped_windows_trim_punctuation_and_skip_empty_words() {
    let w = get_stripped_windows(vec!["Hello,", "big", "world!"], 2);
    assert_eq!(w, vec!["Hello big".to_string(), "big world".to_string()]);
    let w = get_stripped_windows(vec!["a", "?!", "b"], 1);
    assert_eq!(w, vec!["a".to_string(), "b".to_string()]);
    let w = get_stripped_windows(vec!["a", "b"], 3);
    assert!(w.is_empty());
}

#[test]
fn split_words_leaves_out_empty_pieces() {
    assert_eq!(split_words("a b  c"), vec!["a", "b", "c"]);
    assert_eq!(split_words(" lead trail "), vec!["lead", "trail"]);
    assert!(split_words("").is_empty());
}

#[test]
fn word_rows_compare_by_column() {
    let mut a = WordRowData::new("apple".to_string());
    let b = WordRowData::new("banana".to_string());
    a.increase_hits();
    assert_eq!(word_table::order_by(WordColumn::Phrase, &a, &b), RowOrder::Less);
    assert_eq!(word_table::order_by(WordColumn::Hits, &a, &b), RowOrder::Greater);
}

#[test]
fn word_table_counts_phrases_of_the_selected_channels() {
    let mut bus = EventBus::default();
    let mut t = WordTable::default();
    t.set_channels(channels());
    t.set_selected_channels(vec![0, 1]);
    let mut h = t.date_handler;
    h.from = DAY;
    h.to = DAY;
    t.set_date_handler(h);
    t.handle_message(&msg(7, 11, 0, "good morning all", false), T0 + 10, &mut bus);
    t.handle_message(&msg(8, 12, 0, "good morning", false), T0 + 20, &mut bus);
    t.handle_message(&msg(8, 12, 0, "deleted words", true), T0 + 30, &mut bus);
    assert_eq!(t.stripped_contents.len(), 2);
    t.window_size = 2;
    assert!(t.try_create_rows());
    let rows: Vec<(&str, u32)> = t.rows.iter().map(|r| (r.phrase.as_str(), r.hits)).collect();
    assert_eq!(rows, vec![("good morning", 2), ("morning all", 1)]);
    // Only the second channel selected (index 0 stands for all channels).
    t.set_selected_channels(vec![2]);
    assert!(t.try_create_rows());
    let rows: Vec<(&str, u32)> = t.rows.iter().map(|r| (r.phrase.as_str(), r.hits)).collect();
    assert_eq!(rows, vec![("good morning", 1)]);
}
