use funnel::member_data::{MemberActivity, MemberCount};
use funnel::guild_channel::{Channel, Guild, GuildWithChannels};
use funnel::message_user::{Message, MessageWithUser, User};
use funnel::panels::{guild_image, toggle_channel, PanelStatus};
use funnel::request::Request;
use funnel::response::{ErrorType, WsResponse};
use funnel::state::{AppEvent, AppStatus, TabState};
use funnel::tab_handler::{ReloadTab, TabHandler};
use funnel::user_details::UserDetails;
use funnel::window::{login_url_of, MainWindow, WindowAction, LOGIN_URL};
use funnel::event_bus::EventBus;

const T0: i64 = 19723 * 86_400;

fn guild(id: i64) -> GuildWithChannels {
    GuildWithChannels {
        guild: Guild { guild_id: id, guild_name: "My Guild".to_string(), guild_icon: None },
        channels: vec![Channel { channel_id: 7, guild_id: id, channel_name: "general".to_string() }],
    }
}

fn message(guild_id: i64, user_id: i64, time: i64) -> MessageWithUser {
    MessageWithUser {
        message: Message {
            guild_id,
            channel_id: 7,
            message_id: 1,
            message_timestamp: time,
            sender_id: user_id,
            message_content: Some("hello world".to_string()),
            stripped_content: Some("hello world".to_string()),
            delete_timestamp: None,
        },
        sender: User { user_id, global_name: None, username: "ann".to_string() },
    }
}

fn connected_window() -> MainWindow {
    let mut w = MainWindow::new();
    w.event_bus.publish(AppEvent::StartWebsocket);
    assert!(matches!(w.check_event(), Some(WindowAction::Connect)));
    assert!(matches!(w.panels.app_status, AppStatus::ConnectingToWs));
    w.set_channels();
    w.ws_opened();
    let sent = w.take_outbox();
    assert_eq!(sent.len(), 1);
    assert!(matches!(sent[0], Request::StartConnection));
    w
}

#[test]
fn connection_success_opens_the_login_link() {
    let mut w = connected_window();
    let action = w.ws_text_received(Some(WsResponse::connection_success(42)));
    match action {
        Some(WindowAction::OpenUrl(url)) => assert_eq!(url, format!("{}&state=42", LOGIN_URL)),
        _ => panic!("expected a link to open"),
    }
    assert!(matches!(w.panels.app_status, AppStatus::LoggingIn));
    assert_eq!(w.panels.dot_count, 1);
    assert_eq!(login_url_of(7), format!("{}&state=7", LOGIN_URL));
}

#[test]
fn guild_list_creates_tabs_and_fetches_the_selected_guild() {
    let mut w = connected_window();
    assert!(w.handle_ws_message(WsResponse::guilds(vec![guild(1), guild(2)])).is_none());
    assert!(w.connection.connected());
    assert!(matches!(w.panels.app_status, AppStatus::Fetching));
    assert_eq!(w.tabs.guilds.len(), 2);
    assert!(w.is_ready());
    assert!(w.check_event().is_none());
    let sent = w.take_outbox();
    assert_eq!(sent.len(), 2);
    assert!(matches!(sent[0], Request::GetMessages { guild_id: 1, page: 1 }));
    assert!(matches!(sent[1], Request::GetGuildMemberCount { guild_id: 1, page: 1 }));
}

#[test]
fn a_last_page_of_messages_fills_the_tabs_and_asks_for_reloads() {
    let mut w = connected_window();
    w.handle_ws_message(WsResponse::guilds(vec![guild(1)]));
    w.check_event();
    w.take_outbox();
    let reply = WsResponse::messages(1, vec![message(1, 11, T0 + 10), message(1, 12, T0 + 20)], 1);
    assert!(w.handle_ws_message(reply).is_none());
    // Fewer than a full page: nothing more is asked for.
    assert!(w.take_outbox().is_empty());
    assert!(w.panels.fetch_status[0].1.messages());
    assert!(w.check_event().is_none());
    // Every tab of the guild waits for one reload.
    assert_eq!(w.tabs.pending_reloads.len(), 6);
    let tabs = &w.tabs.guilds[0].1;
    assert_eq!(tabs.user_table.user_data.len(), 2);
    assert_eq!(tabs.channel_table.channel_data.len(), 1);
    assert_eq!(tabs.word_table.stripped_contents.len(), 2);
    // The user table is shown: its reload runs, the others keep waiting.
    w.tabs.process_pending_reloads(TabState::UserTable);
    assert_eq!(w.tabs.pending_reloads.len(), 5);
    assert_eq!(w.tabs.guilds[0].1.user_table.rows.len(), 2);
}

#[test]
fn empty_member_counts_finish_the_counts() {
    let mut w = connected_window();
    w.handle_ws_message(WsResponse::guilds(vec![guild(1)]));
    w.check_event();
    w.take_outbox();
    w.handle_ws_message(WsResponse::member_counts(1, vec![], 1));
    assert!(w.panels.fetch_status[0].1.counts());
    assert!(!w.panels.fetch_status[0].1.activities());
}

#[test]
fn server_errors_end_the_connection() {
    let mut w = connected_window();
    w.handle_ws_message(WsResponse::failed_authentication());
    assert!(matches!(w.panels.app_status, AppStatus::FailedAuth));
    assert!(!w.has_channels());
    let mut w = connected_window();
    w.handle_errors(ErrorType::FailedLogOut("busy".to_string()));
    assert!(matches!(w.panels.app_status, AppStatus::FailedLogOut(_)));
    assert!(w.has_channels());
    let mut w = connected_window();
    w.ws_closed();
    assert!(!w.has_channels());
    match &w.panels.app_status {
        AppStatus::FailedWs(m) => assert_eq!(m, "The websocket connection was closed"),
        _ => panic!("expected a failed websocket status"),
    }
}

#[test]
fn a_reply_whose_status_disagrees_is_ignored() {
    let mut w = connected_window();
    let mut reply = WsResponse::guilds(vec![guild(1)]);
    reply.status = funnel::response::Status::error();
    assert!(w.ws_text_received(Some(reply)).is_none());
    assert!(w.tabs.guilds.is_empty());
}

#[test]
fn log_out_resets_everything() {
    let mut w = connected_window();
    w.handle_ws_message(WsResponse::user_details(UserDetails::default()));
    assert!(w.panels.has_user_details());
    w.handle_ws_message(WsResponse::guilds(vec![guild(1)]));
    w.handle_ws_message(WsResponse::logged_out());
    assert!(matches!(w.panels.app_status, AppStatus::LoggedOut));
    assert!(w.tabs.guilds.is_empty());
    assert!(!w.has_channels());
}

#[test]
fn reloads_are_queued_once() {
    let mut t = TabHandler::default();
    t.set_data(1);
    t.add_reload(1, ReloadTab::Overview(1));
    t.add_reload(1, ReloadTab::Overview(1));
    t.add_reload(1, ReloadTab::UserTable(1));
    assert_eq!(t.pending_reloads.len(), 2);
}

#[test]
fn channel_clicks_toggle_the_selection() {
    let mut sel = vec![];
    toggle_channel(&mut sel, 2);
    toggle_channel(&mut sel, 3);
    sel.sort();
    assert_eq!(sel, vec![2, 3]);
    // "All channels" stands alone.
    toggle_channel(&mut sel, 0);
    assert_eq!(sel, vec![0]);
    toggle_channel(&mut sel, 0);
    assert!(sel.is_empty());

    let mut p = PanelStatus::default();
    p.set_guild_channels(vec![guild(1)]);
    let mut bus = EventBus::default();
    p.click_channel(1, &mut bus);
    assert_eq!(p.selected_channel[0], vec![1]);
    assert_eq!(bus.events, vec![AppEvent::SelectedChannelsChanged]);
    assert_eq!(p.channel_names(), vec!["All Channels".to_string(), "general".to_string()]);
}

#[test]
fn status_text_shows_progress_dots() {
    let mut p = PanelStatus::default();
    p.set_app_status(AppStatus::Fetching);
    p.next_dot();
    p.next_dot();
    assert_eq!(p.status_text(), "Status: Fetching data from the server..");
    p.set_app_status(AppStatus::Idle);
    assert_eq!(p.status_text(), "Status: Idle");
}

#[test]
fn guild_image_falls_back_to_initials() {
    let g = guild(1);
    assert_eq!(guild_image(&g), "https://api.dicebear.com/9.x/initials/png?seed=My%20Guild");
    let mut with_icon = guild(1);
    with_icon.guild.guild_icon = Some("https://cdn/icon.png".to_string());
    assert_eq!(guild_image(&with_icon), "https://cdn/icon.png");
}

#[test]
fn last_pages_of_every_kind_finish_fetching() {
    let mut w = connected_window();
    w.handle_ws_message(WsResponse::guilds(vec![guild(1)]));
    w.check_event();
    w.take_outbox();
    w.handle_ws_message(WsResponse::messages(1, vec![message(1, 11, T0 + 10)], 1));
    assert!(matches!(w.panels.app_status, AppStatus::Fetching));
    let count = MemberCount { count_timestamp: T0, guild_id: 1, total_members: 10 };
    w.handle_ws_message(WsResponse::member_counts(1, vec![count], 1));
    // The counts are in: the member activities are asked for.
    let sent = w.take_outbox();
    assert_eq!(sent.len(), 1);
    assert!(matches!(sent[0], Request::GetGuildMemberActivity { guild_id: 1, page: 1 }));
    let join = MemberActivity { activity_timestamp: T0 + 60, guild_id: 1, join_activity: true };
    w.handle_ws_message(WsResponse::member_activities(1, vec![join], 1));
    let st = w.panels.fetch_status[0].1;
    assert!(st.messages() && st.counts() && st.activities());
    assert!(matches!(w.panels.app_status, AppStatus::Idle));
}

#[test]
fn a_full_page_of_messages_asks_for_the_next_page() {
    let mut w = connected_window();
    w.handle_ws_message(WsResponse::guilds(vec![guild(1)]));
    w.check_event();
    w.take_outbox();
    let page: Vec<MessageWithUser> = (0..5000).map(|i| message(1, 11, T0 + i)).collect();
    w.handle_ws_message(WsResponse::messages(1, page, 3));
    let sent = w.take_outbox();
    assert_eq!(sent.len(), 1);
    assert!(matches!(sent[0], Request::GetMessages { guild_id: 1, page: 4 }));
    assert!(!w.panels.fetch_status[0].1.messages());
    assert_eq!(w.panels.fetch_status[0].1.messages_page, 3);
}

#[test]
fn new_dates_reach_every_tab_of_the_guild() {
    let mut w = connected_window();
    w.handle_ws_message(WsResponse::guilds(vec![guild(1)]));
    w.check_event();
    w.take_outbox();
    w.handle_ws_message(WsResponse::messages(1, vec![message(1, 11, T0 + 10), message(1, 11, T0 + 86_400 * 3)], 1));
    assert!(w.check_event().is_none());
    // The data span reached the panels' navigator of the guild.
    let h = w.panels.date_nav[0].handler;
    assert!(h.from < h.to);
    w.panels.date_nav[0].handler.from = h.from + 1;
    w.event_bus.publish(AppEvent::DateChanged);
    assert!(w.check_event().is_none());
    let tabs = &w.tabs.guilds[0].1;
    assert_eq!(tabs.user_table.date_handler.from, h.from + 1);
    assert_eq!(tabs.channel_table.date_handler.from, h.from + 1);
    assert_eq!(tabs.word_table.date_handler.from, h.from + 1);
    assert_eq!(tabs.overview.date_handler.from, h.from + 1);
    assert_eq!(tabs.user_table.date_handler.to, h.to);
}

#[test]
fn each_message_goes_to_its_own_guild() {
    let mut w = connected_window();
    w.handle_ws_message(WsResponse::guilds(vec![guild(1), guild(2)]));
    w.check_event();
    w.take_outbox();
    let reply = WsResponse::messages(1, vec![message(1, 11, T0 + 10), message(2, 12, T0 + 20)], 1);
    w.handle_ws_message(reply);
    assert_eq!(w.tabs.guilds[0].1.user_table.user_data.len(), 1);
    assert_eq!(w.tabs.guilds[1].1.user_table.user_data.len(), 1);
}

#[test]
fn reloads_after_an_empty_and_a_last_page_come_in_their_order() {
    let mut w = connected_window();
    w.handle_ws_message(WsResponse::guilds(vec![guild(1)]));
    w.check_event();
    w.take_outbox();
    w.handle_ws_message(WsResponse::messages(1, vec![], 1));
    let expected = [
        AppEvent::UserTableNeedsReload(1),
        AppEvent::ChannelTableNeedsReload(1),
        AppEvent::OverviewNeedsReload(1),
        AppEvent::MessageChartNeedsReload(1),
        AppEvent::UserChartNeedsReload(1),
        AppEvent::WordTableNeedsReload(1),
    ];
    for e in expected {
        assert!(w.event_bus.get() == Some(e));
    }
    assert!(w.event_bus.get() == None);
    w.handle_ws_message(WsResponse::messages(1, vec![message(1, 11, T0 + 10)], 1));
    let expected = [
        AppEvent::OverviewNeedsReload(1),
        AppEvent::UserTableNeedsReload(1),
        AppEvent::ChannelTableNeedsReload(1),
        AppEvent::MessageChartNeedsReload(1),
        AppEvent::UserChartNeedsReload(1),
        AppEvent::WordTableNeedsReload(1),
    ];
    // The tabs may have queued other events (new dates) before the reloads.
    let mut reloads = Vec::new();
    while let Some(e) = w.event_bus.get() {
        if matches!(
            e,
            AppEvent::OverviewNeedsReload(_)
                | AppEvent::UserTableNeedsReload(_)
                | AppEvent::ChannelTableNeedsReload(_)
                | AppEvent::MessageChartNeedsReload(_)
                | AppEvent::UserChartNeedsReload(_)
                | AppEvent::WordTableNeedsReload(_)
        ) {
            reloads.push(e);
        }
    }
    assert!(reloads == expected.to_vec());
}
