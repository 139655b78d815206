use funnel::event_bus::EventBus;
use funnel::guild_channel::Channel;
use funnel::member_data::{MemberActivity, MemberCount};
use funnel::message_user::{Message, MessageWithUser, User};
use funnel::overview::Overview;
use funnel::state::ChartType;

const DAY: i32 = 19723; // 2024-01-01
const T0: i64 = 19723 * 86_400;

fn msg(channel: i64, name: &str, deleted: bool) -> MessageWithUser {
    MessageWithUser {
        message: Message {
            guild_id: 1,
            channel_id: channel,
            message_id: 0,
            message_timestamp: 0,
            sender_id: 0,
            message_content: Some("x".to_string()),
            stripped_content: None,
            delete_timestamp: if deleted { Some(1) } else { None },
        },
        sender: User { user_id: 0, global_name: None, username: name.to_string() },
    }
}

fn count(total: i64) -> MemberCount {
    MemberCount { count_timestamp: 0, guild_id: 1, total_members: total }
}

fn overview_with_messages() -> Overview {
    let mut bus = EventBus::default();
    let mut o = Overview::default();
    o.set_channel_id_map(vec![
        Channel { channel_id: 7, guild_id: 1, channel_name: "general".to_string() },
        Channel { channel_id: 8, guild_id: 1, channel_name: "random".to_string() },
    ]);
    o.handle_message(&msg(7, "ann", false), T0 + 10, &mut bus);
    o.handle_message(&msg(7, "ann", false), T0 + 20, &mut bus);
    o.handle_message(&msg(8, "bob", true), T0 + 30, &mut bus);
    o.handle_message(&msg(8, "bob", false), T0 + 86_400 + 30, &mut bus);
    assert_eq!(o.reload_count, 4);
    assert!(bus.events.is_empty());
    o
}

#[test]
fn overview_summarises_the_selected_dates() {
    let mut o = overview_with_messages();
    let mut h = o.date_handler;
    h.from = DAY;
    h.to = DAY + 1;
    o.set_date_handler(h);
    assert!(o.try_reload_overview());
    assert_eq!(o.data.total_message, 3);
    assert_eq!(o.data.deleted_message, 1);
    assert_eq!(o.data.unique_user, 2);
    assert_eq!(o.data.most_active_member, "ann");
    assert_eq!(o.data.most_active_channel, "general");
    assert_eq!(o.data.member_count, 0);
    assert_eq!(o.reload_count, 0);
}

#[test]
fn overview_counts_only_days_in_range() {
    let mut o = overview_with_messages();
    let mut h = o.date_handler;
    h.from = DAY + 1;
    h.to = DAY + 1;
    o.set_date_handler(h);
    assert!(o.try_reload_overview());
    assert_eq!(o.data.total_message, 1);
    assert_eq!(o.data.deleted_message, 0);
    assert_eq!(o.data.unique_user, 1);
    assert_eq!(o.data.most_active_member, "bob");
    assert_eq!(o.data.most_active_channel, "random");
}

#[test]
fn overview_compare_data_uses_the_compare_range() {
    let mut o = overview_with_messages();
    let mut h = o.date_handler;
    h.from = DAY;
    h.to = DAY;
    o.set_date_handler(h);
    // The compare range starts and ends on the To date.
    assert_eq!(o.compare_nav.handler.from, DAY);
    assert_eq!(o.compare_nav.handler.to, DAY);
    assert!(o.try_create_compare_data());
    let c = o.compare_data.as_ref().unwrap();
    assert_eq!(c.total_message, 2);
    assert_eq!(c.deleted_message, 0);
    assert_eq!(c.unique_user, 1);
    o.stop_compare();
    assert!(o.compare_data.is_none());
}

#[test]
fn overview_empty_range_falls_back() {
    let mut o = Overview::default();
    assert!(o.try_create_compare_data());
    let c = o.compare_data.as_ref().unwrap();
    assert_eq!(c.total_message, 0);
    assert_eq!(c.most_active_member, "Not Found");
    assert!(o.try_reload_overview());
    assert_eq!(o.data.most_active_member, "");
}

#[test]
fn member_count_at_the_end_of_a_day() {
    let mut o = Overview::default();
    o.handle_member_data(count(100), T0 + 10 * 3_600);
    o.handle_member_data(count(110), T0 + 2 * 86_400 + 12 * 3_600);
    assert_eq!(o.find_member_count(DAY - 1), 0);
    assert_eq!(o.find_member_count(DAY), 100);
    assert_eq!(o.find_member_count(DAY + 1), 100);
    assert_eq!(o.find_member_count(DAY + 2), 110);
    assert_eq!(o.find_member_count(DAY + 30), 110);
    // Hourly buckets between the two counts are filled with the older count.
    let hourly = o.count.select(ChartType::Hourly);
    assert_eq!(hourly.len(), 2 * 24 + 3);
    assert_eq!(hourly.get(&(T0 + 11 * 3_600)), Some(&100));
}

#[test]
fn member_joins_and_leaves_are_counted_per_bucket() {
    let mut o = Overview::default();
    let join = MemberActivity { activity_timestamp: 0, guild_id: 1, join_activity: true };
    let leave = MemberActivity { activity_timestamp: 0, guild_id: 1, join_activity: false };
    o.handle_member_activity(join, T0 + 60);
    o.handle_member_activity(join, T0 + 120);
    o.handle_member_activity(leave, T0 + 180);
    assert_eq!(o.joins.select(ChartType::Daily).get(&T0), Some(&2));
    assert_eq!(o.leaves.select(ChartType::Daily).get(&T0), Some(&1));
    assert_eq!(o.joins.select(ChartType::Hourly).get(&T0), Some(&2));
}

#[test]
fn overview_select_chart_type_clears_labels() {
    let mut o = Overview::default();
    o.select_chart_type(ChartType::Weekly);
    assert!(o.chart_type == ChartType::Weekly);
    assert!(o.chart_labels.is_empty());
    assert_eq!(o.reload_count, 0);
}
