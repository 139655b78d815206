use funnel::event_bus::EventBus;
use funnel::state::{AppEvent, AppStatus, ChartType, TabState};
use funnel::tab_handler::TabHandler;
use funnel::calendar::is_local_convertible;

#[test]
fn events_come_out_in_order() {
    let mut bus = EventBus::default();
    bus.publish(AppEvent::DateChanged);
    bus.publish(AppEvent::CellsCopied);
    assert!(bus.get() == Some(AppEvent::DateChanged));
    assert!(bus.get() == Some(AppEvent::CellsCopied));
    assert!(bus.get() == None);
}

#[test]
fn publish_if_needed_never_queues_twice() {
    let mut bus = EventBus::default();
    bus.publish_if_needed(AppEvent::OverviewNeedsReload(1));
    bus.publish_if_needed(AppEvent::OverviewNeedsReload(1));
    bus.publish_if_needed(AppEvent::OverviewNeedsReload(2));
    assert!(bus.contains(AppEvent::OverviewNeedsReload(1)));
    assert!(bus.get() == Some(AppEvent::OverviewNeedsReload(1)));
    assert!(bus.get() == Some(AppEvent::OverviewNeedsReload(2)));
    assert!(bus.get() == None);
}

#[test]
fn status_texts_and_spinner() {
    assert_eq!(AppStatus::Idle.text(), "Idle");
    assert!(!AppStatus::Idle.show_spinner());
    assert!(AppStatus::Fetching.show_spinner());
    assert_eq!(
        AppStatus::FailedWs("gone".to_string()).text(),
        "Failed to connect to the websocket server. Reason: gone"
    );
}

#[test]
fn tab_and_chart_labels() {
    assert_eq!(TabState::first_value().label(), "Overview");
    assert_eq!(TabState::last_value().label(), "Common Words");
    assert_eq!(TabState::all().len(), 6);
    assert!(ChartType::default() == ChartType::Daily);
    assert_eq!(ChartType::Monthly.label(), "Monthly");
}

#[test]
fn clear_key_data_resets_only_that_guild() {
    let mut handler = TabHandler::default();
    handler.set_data(5);
    handler.set_data(6);
    handler.guilds[0].1.overview.reload_count = 7;
    handler.guilds[0].1.overview.show_count = false;
    handler.guilds[0].1.user_table.total_message = 3;
    handler.guilds[0].1.word_table.window_size = 4;
    handler.guilds[1].1.overview.reload_count = 2;
    handler.clear_key_data(5);
    assert_eq!(handler.guilds.len(), 2);
    assert_eq!(handler.guilds[0].0, 5);
    assert_eq!(handler.guilds[0].1.overview.reload_count, 0);
    assert!(handler.guilds[0].1.overview.show_count);
    assert_eq!(handler.guilds[0].1.user_table.total_message, 0);
    assert_eq!(handler.guilds[0].1.word_table.window_size, 1);
    assert_eq!(handler.guilds[1].0, 6);
    assert_eq!(handler.guilds[1].1.overview.reload_count, 2);
}

#[test]
fn local_conversion_keeps_a_day_from_either_end() {
    assert!(is_local_convertible(0));
    assert!(is_local_convertible((-96465293i64 + 1) * 86400));
    assert!(!is_local_convertible((-96465293i64 + 1) * 86400 - 1));
    assert!(is_local_convertible(95026236i64 * 86400 - 1));
    assert!(!is_local_convertible(95026236i64 * 86400));
}
