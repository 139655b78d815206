use funnel::event_bus::EventBus;
use funnel::guild_channel::Channel;
use funnel::message_chart::{floor_day, MessageChart};
use funnel::message_user::{Message, MessageWithUser, User};
use funnel::date_handler::DateHandler;
use funnel::state::{AppEvent, ChartType};
use funnel::user_chart::UserChart;

const DAY: i64 = 19723 * 86_400; // 2024-01-01 00:00

fn msg(channel: i64, user_id: i64, name: &str, deleted: bool) -> MessageWithUser {
    MessageWithUser {
        message: Message {
            guild_id: 1,
            channel_id: channel,
            message_id: 0,
            message_timestamp: 0,
            sender_id: user_id,
            message_content: Some("hello there".to_string()),
            stripped_content: None,
            delete_timestamp: if deleted { Some(1) } else { None },
        },
        sender: User { user_id, global_name: None, username: name.to_string() },
    }
}

fn channels() -> Vec<Channel> {
    vec![
        Channel { channel_id: 7, guild_id: 1, channel_name: "general".to_string() },
        Channel { channel_id: 8, guild_id: 1, channel_name: "random".to_string() },
    ]
}

fn series(c: &MessageChart, name: &str) -> Vec<(i64, i64)> {
    let (_, m) = c.chart_data.iter().find(|(n, _)| n == name).unwrap();
    m.iter().map(|(k, v)| (*k, *v)).collect()
}

#[test]
fn message_chart_counts_messages_per_day() {
    let mut bus = EventBus::default();
    let mut c = MessageChart::default();
    c.set_channels(channels());
    c.handle_message(&msg(7, 11, "ann", false), DAY + 3_600, &mut bus);
    c.handle_message(&msg(7, 11, "ann", false), DAY + 7_200, &mut bus);
    c.handle_message(&msg(8, 12, "bob", true), DAY + 86_400 + 10, &mut bus);
    assert_eq!(c.reload_count, 3);
    assert!(c.try_reload());
    assert_eq!(c.reload_count, 0);
    assert_eq!(series(&c, "All Messages"), vec![(DAY, 2), (DAY + 86_400, 0)]);
    assert_eq!(series(&c, "Deleted Messages"), vec![(DAY, 0), (DAY + 86_400, 1)]);
    // Every sender becomes a series that can be chosen, not chosen yet.
    let names: Vec<&str> = c.chart_values.iter().map(|(n, _)| n.as_str()).collect();
    assert_eq!(names, vec!["All Messages", "Deleted Messages", "ann", "bob"]);
    assert!(!c.chart_values[2].1);
}

#[test]
fn message_chart_fills_the_gap_between_days() {
    let mut bus = EventBus::default();
    let mut c = MessageChart::default();
    c.set_channels(channels());
    c.handle_message(&msg(7, 11, "ann", false), DAY + 60, &mut bus);
    c.handle_message(&msg(7, 11, "ann", false), DAY + 3 * 86_400 + 60, &mut bus);
    c.reload_chart();
    assert_eq!(
        series(&c, "All Messages"),
        vec![(DAY, 1), (DAY + 86_400, 0), (DAY + 2 * 86_400, 0), (DAY + 3 * 86_400, 1)]
    );
    let keys: Vec<i64> = c.buckets.hourly.iter().map(|(k, _)| *k).collect();
    assert_eq!(keys.len(), 3 * 24 + 1);
    assert_eq!(c.buckets.weekly.len(), 1);
    assert_eq!(c.buckets.monthly.len(), 1);
}

#[test]
fn message_chart_counts_only_selected_channels() {
    let mut bus = EventBus::default();
    let mut c = MessageChart::default();
    c.set_channels(channels());
    c.handle_message(&msg(7, 11, "ann", false), DAY + 60, &mut bus);
    c.handle_message(&msg(8, 12, "bob", false), DAY + 120, &mut bus);
    c.set_selected_channels(vec![2]);
    c.reload_chart();
    assert_eq!(series(&c, "All Messages"), vec![(DAY, 1)]);
    c.set_selected_channels(vec![0, 2]);
    c.reload_chart();
    assert_eq!(series(&c, "All Messages"), vec![(DAY, 2)]);
}

#[test]
fn message_chart_user_series_after_choosing_a_user() {
    let mut bus = EventBus::default();
    let mut c = MessageChart::default();
    c.set_channels(channels());
    c.handle_message(&msg(7, 11, "ann", false), DAY + 60, &mut bus);
    c.handle_message(&msg(7, 11, "ann", true), DAY + 120, &mut bus);
    c.handle_message(&msg(7, 12, "bob", false), DAY + 180, &mut bus);
    c.open_customize();
    assert!(c.open_modal);
    c.set_chart_value(&"ann".to_string(), true);
    c.set_chart_value(&"Deleted Messages".to_string(), false);
    c.close_customize();
    assert!(!c.open_modal);
    let names: Vec<&str> = c.chart_data.iter().map(|(n, _)| n.as_str()).collect();
    assert_eq!(names, vec!["All Messages", "ann"]);
    // A user's series counts the user's deleted messages too.
    assert_eq!(series(&c, "ann"), vec![(DAY, 2)]);
    assert_eq!(series(&c, "All Messages"), vec![(DAY, 2)]);
}

#[test]
fn message_chart_refuses_a_user_named_like_a_total() {
    let mut bus = EventBus::default();
    let mut c = MessageChart::default();
    c.set_channels(channels());
    c.handle_message(&msg(7, 11, "All Messages", false), DAY + 60, &mut bus);
    assert!(!c.reload_allowed());
    assert!(!c.try_reload());
    c.set_selected_channels(vec![5]);
    assert!(!c.reload_allowed());
}

#[test]
fn message_chart_lines_and_labels() {
    let mut bus = EventBus::default();
    let mut c = MessageChart::default();
    c.set_channels(channels());
    c.handle_message(&msg(7, 11, "ann", false), DAY + 60, &mut bus);
    c.handle_message(&msg(7, 11, "ann", true), DAY + 86_400 + 60, &mut bus);
    c.reload_chart();
    c.set_date_handler(DateHandler { from: 19723, to: 19724, last_from: None, last_to: None, start: None, end: None });
    let lines = c.chart_lines();
    assert_eq!(lines.len(), 2);
    assert_eq!(lines[0].0, "All Messages");
    assert_eq!(lines[0].1, vec![1, 0]);
    assert_eq!(lines[1].1, vec![0, 1]);
    assert_eq!(c.chart_labels.len(), 2);
    assert_eq!(c.chart_labels[1].time, DAY + 86_400);
    assert_eq!(c.chart_labels[1].values[1], Some(("Deleted Messages".to_string(), 1)));
    // Only the first day.
    c.chart_labels.clear();
    c.set_date_handler(DateHandler { from: 19723, to: 19723, last_from: None, last_to: None, start: None, end: None });
    let lines = c.chart_lines();
    assert_eq!(lines[0].1, vec![1]);
}

#[test]
fn message_chart_type_change_asks_for_a_rebuild() {
    let mut bus = EventBus::default();
    let mut c = MessageChart::default();
    assert!(c.select_chart_type(ChartType::Hourly, 1, &mut bus));
    assert!(!c.select_chart_type(ChartType::Hourly, 1, &mut bus));
    assert!(bus.get() == Some(AppEvent::MessageChartTypeChanged(1)));
    assert!(bus.get() == None);
}

#[test]
fn message_chart_asks_for_a_reload_after_many_messages() {
    let mut bus = EventBus::default();
    let mut c = MessageChart::default();
    c.reload_count = 24_999;
    c.handle_message(&msg(7, 11, "ann", false), DAY, &mut bus);
    assert!(bus.get() == Some(AppEvent::MessageChartNeedsReload(1)));
}

#[test]
fn floor_day_rounds_down() {
    assert_eq!(floor_day(86_399), 0);
    assert_eq!(floor_day(86_400), 1);
    assert_eq!(floor_day(-1), -1);
    assert_eq!(floor_day(-86_400), -1);
    assert_eq!(floor_day(-86_401), -2);
}

#[test]
fn user_chart_counts_distinct_active_users() {
    let mut bus = EventBus::default();
    let mut c = UserChart::default();
    c.handle_message(&msg(7, 11, "ann", false), DAY + 60, &mut bus);
    c.handle_message(&msg(7, 11, "ann", false), DAY + 120, &mut bus);
    c.handle_message(&msg(8, 11, "ann", false), DAY + 180, &mut bus);
    c.handle_message(&msg(7, 12, "bob", false), DAY + 2 * 86_400, &mut bus);
    assert_eq!(c.daily_data.len(), 3);
    c.reload_chart();
    let (name, m) = &c.chart_data[0];
    assert_eq!(name, "Active Users");
    let got: Vec<(i64, i64)> = m.iter().map(|(k, v)| (*k, *v)).collect();
    assert_eq!(got, vec![(DAY, 2), (DAY + 86_400, 0), (DAY + 2 * 86_400, 1)]);
}

#[test]
fn user_chart_series_of_a_user_id() {
    let mut bus = EventBus::default();
    let mut c = UserChart::default();
    c.handle_message(&msg(7, 11, "ann", false), DAY + 60, &mut bus);
    c.handle_message(&msg(7, 12, "bob", false), DAY + 2 * 86_400, &mut bus);
    c.chart_data.push(("11".to_string(), indexmap::IndexMap::new()));
    c.chart_data.push(("99".to_string(), indexmap::IndexMap::new()));
    c.reload_chart();
    let names: Vec<&str> = c.chart_data.iter().map(|(n, _)| n.as_str()).collect();
    assert_eq!(names, vec!["Active Users", "11"]);
    let got: Vec<(i64, i64)> = c.chart_data[1].1.iter().map(|(k, v)| (*k, *v)).collect();
    assert_eq!(got, vec![(DAY, 1)]);
}

#[test]
fn user_chart_with_no_data_shows_nothing_after_reload() {
    let mut c = UserChart::default();
    c.reload_chart();
    assert!(c.chart_data.is_empty());
}
