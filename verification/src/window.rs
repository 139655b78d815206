//! The application's state machine: events from the event bus and replies from
//! the server update the panels and the tabs; what has to be sent, opened or
//! connected is handed to the caller.
use vstd::prelude::*;
use crate::connection::Connection;
use crate::event_bus::EventBus;
use crate::fetch_status::FetchStatus;
use crate::guild_channel::{copy_channels, Channel, GuildWithChannels};
use crate::keyed::{find_key, key_index, lemma_key_index, lemma_key_index_push, lemma_key_index_update};
use crate::member_data::{MemberActivity, MemberCount};
use crate::message_user::MessageWithUser;
use crate::date_navigator::DateNavigator;
use crate::overview::Overview;
use crate::panels::{guild_position, PanelStatus};
use crate::request::Request;
use crate::response::{ErrorType, Response, Status, WsResponse, PAGE_VALUE};
use crate::state::{AppEvent, AppStatus};
use crate::date_handler::DateHandler;
use crate::tab_handler::{
    channel_table_took, guild_index, message_chart_took, overview_took, overview_took_activity,
    overview_took_count, user_chart_took, user_table_took, word_table_took, GuildTabs, ReloadTab, TabHandler,
};
use crate::text::append_string;

verus! {

/// Outside work the window asks its caller to do.
pub enum WindowAction {
    /// Connect to the websocket server, then report with
    /// [`MainWindow::set_channels`] or [`MainWindow::connect_failed`].
    Connect,
    /// Open a link in a new browser tab.
    OpenUrl(String),
}

/// The application state.
pub struct MainWindow {
    pub connection: Connection,
    pub panels: PanelStatus,
    pub tabs: TabHandler,
    pub event_bus: EventBus,
    /// Whether a websocket connection is open.
    pub ws_open: bool,
    /// Requests waiting to be sent over the websocket, oldest first.
    pub outbox: Vec<Request>,
    pub conn_id: u64,
}

/// The requests that fetch what guild `g` still misses: its messages, its
/// member counts, and its member activities once the counts are in.
pub open spec fn fetch_requests(st: FetchStatus, g: i64) -> Seq<Request> {
    seq![Request::GetMessages { guild_id: g, page: 1 }].take(if st.messages { 0int } else { 1int })
        + seq![Request::GetGuildMemberCount { guild_id: g, page: 1 }].take(if st.counts { 0int } else { 1int })
        + seq![Request::GetGuildMemberActivity { guild_id: g, page: 1 }].take(
        if st.counts && !st.activities { 1int } else { 0int },
    )
}

/// The id of the selected guild.
pub open spec fn selected_id(p: PanelStatus) -> i64 {
    p.guild_channels@[p.selected_guild as int].guild.guild_id
}

/// Every tab of a guild shows the dates of `h`.
pub open spec fn tabs_dated(t: GuildTabs, h: DateHandler) -> bool {
    &&& t.overview.date_handler == h
    &&& t.user_table.date_handler == h
    &&& t.channel_table.date_handler == h
    &&& t.message_chart.date_handler == h
    &&& t.user_chart.date_handler == h
    &&& t.word_table.date_handler == h
}

impl MainWindow {
    pub open spec fn wf(&self) -> bool {
        &&& self.tabs.wf()
        &&& self.panels.wf()
        &&& self.panels.dot_count <= 3
    }

    /// A guild is selected and has its panel state and its tabs.
    pub open spec fn ready(&self) -> bool {
        &&& self.panels.guild_ready()
        &&& self.tabs.has_guild(self.panels.guild_channels@[self.panels.selected_guild as int].guild.guild_id)
    }

    /// Whether a guild is selected and has its panel state and its tabs.
    pub fn is_ready(&self) -> (r: bool)
        requires
            self.wf(),
        ensures
            r == self.ready(),
    {
        let p = &self.panels;
        if p.selected_guild >= p.guild_channels.len() || p.selected_guild >= p.date_nav.len() {
            return false;
        }
        let id = p.guild_channels[p.selected_guild].guild.guild_id;
        proof {
            lemma_key_index(p.fetch_status@, id);
            lemma_key_index(self.tabs.guilds@, id);
        }
        find_key(&p.fetch_status, id).is_some() && find_key(&self.tabs.guilds, id).is_some()
    }

    /// A new window: nothing connected, no guild.
    pub fn new() -> (r: MainWindow)
        ensures
            r.wf(),
            !r.ws_open,
            r.outbox@.len() == 0,
            r.event_bus@.len() == 0,
            r.conn_id == 0,
            r.panels.guild_channels@.len() == 0,
            r.tabs.guilds@.len() == 0,
            !r.connection.connected,
    {
        MainWindow {
            connection: Connection::default(),
            panels: PanelStatus::default(),
            tabs: TabHandler::default(),
            event_bus: EventBus::default(),
            ws_open: false,
            outbox: Vec::new(),
            conn_id: 0,
        }
    }

    /// The websocket connection is open.
    pub fn set_channels(&mut self)
        ensures
            *final(self) == (MainWindow { ws_open: true, ..*old(self) }),
    {
        self.ws_open = true;
    }

    /// The websocket connection is gone.
    pub fn remove_channels(&mut self)
        ensures
            *final(self) == (MainWindow { ws_open: false, ..*old(self) }),
    {
        self.ws_open = false;
    }

    /// Whether a websocket connection is open.
    pub fn has_channels(&self) -> (r: bool)
        ensures
            r == self.ws_open,
    {
        self.ws_open
    }

    /// Queues a request for the server; without a connection it is dropped.
    pub fn send_ws(&mut self, message: Request)
        ensures
            final(self).outbox@ == if old(self).ws_open {
                old(self).outbox@.push(message)
            } else {
                old(self).outbox@
            },
            *final(self) == (MainWindow { outbox: final(self).outbox, ..*old(self) }),
    {
        if self.ws_open {
            self.outbox.push(message);
        }
    }

    /// Hands the queued requests to the caller, oldest first.
    pub fn take_outbox(&mut self) -> (r: Vec<Request>)
        ensures
            r@ == old(self).outbox@,
            final(self).outbox@.len() == 0,
            *final(self) == (MainWindow { outbox: final(self).outbox, ..*old(self) }),
    {
        let mut out: Vec<Request> = Vec::new();
        std::mem::swap(&mut out, &mut self.outbox);
        out
    }

    /// The connection attempt failed.
    pub fn connect_failed(&mut self, reason: String)
        ensures
            final(self).connection == (Connection { connected: false, connecting: false, ..old(self).connection }),
            final(self).panels == (PanelStatus { app_status: AppStatus::FailedWs(reason), ..old(self).panels }),
            final(self).tabs == old(self).tabs,
            final(self).event_bus == old(self).event_bus,
            final(self).ws_open == old(self).ws_open,
            final(self).outbox@ == old(self).outbox@,
    {
        self.connection.failed_connection();
        self.panels.set_app_status(AppStatus::FailedWs(reason));
    }

    /// Sets the status to idle once everything of the selected guild is fetched.
    pub fn to_set_idle(&mut self)
        requires
            old(self).panels.guild_ready(),
        ensures
            ({
                let s = old(self).panels.fetch_status@;
                let id = old(self).panels.guild_channels@[old(self).panels.selected_guild as int].guild.guild_id;
                let st = s[key_index(s, id)].1;
                final(self).panels.app_status == if st.messages && st.counts && st.activities {
                    AppStatus::Idle
                } else {
                    old(self).panels.app_status
                }
            }),
            final(self).panels == (PanelStatus { app_status: final(self).panels.app_status, ..old(self).panels }),
            *final(self) == (MainWindow { panels: final(self).panels, ..*old(self) }),
    {
        let status = self.panels.current_guild_status();
        if status.all_done() {
            self.panels.set_app_status(AppStatus::Idle);
        }
    }

    /// Asks for what the selected guild still misses: messages, member counts,
    /// and member activities once the counts are in; with nothing missing the
    /// status is idle.
    #[verifier::spinoff_prover]
    #[verifier::rlimit(30)]
    pub fn fetch_guild_data(&mut self)
        requires
            old(self).panels.guild_ready(),
        ensures
            ({
                let s = old(self).panels.fetch_status@;
                let g = old(self).panels.guild_channels@[old(self).panels.selected_guild as int].guild.guild_id;
                let st = s[key_index(s, g)].1;
                let sent = fetch_requests(st, g);
                &&& final(self).outbox@ == if old(self).ws_open { old(self).outbox@ + sent } else { old(self).outbox@ }
                &&& final(self).panels.app_status == if st.messages && st.counts && st.activities {
                    AppStatus::Idle
                } else {
                    old(self).panels.app_status
                }
            }),
            final(self).panels == (PanelStatus { app_status: final(self).panels.app_status, ..old(self).panels }),
            final(self).tabs == old(self).tabs,
            final(self).event_bus == old(self).event_bus,
            final(self).connection == old(self).connection,
            final(self).ws_open == old(self).ws_open,
    {
        let guild_id = self.panels.selected_guild();
        let status = self.panels.current_guild_status();
        let messages_done = status.messages();
        let counts_done = status.counts();
        let activities_done = status.activities();
        let ghost base = self.outbox@;
        let mut nothing_fetched = true;
        if !messages_done {
            nothing_fetched = false;
            self.send_ws(Request::get_messages(guild_id, 1));
        }
        if !counts_done {
            nothing_fetched = false;
            self.send_ws(Request::get_member_counts(guild_id, 1));
        }
        if counts_done && !activities_done {
            nothing_fetched = false;
            self.send_ws(Request::get_member_activity(guild_id, 1));
        }
        if nothing_fetched {
            self.panels.set_app_status(AppStatus::Idle);
        }
        proof {
            let sent = seq![Request::GetMessages { guild_id: guild_id, page: 1 }].take(if messages_done { 0int } else { 1int })
                + seq![Request::GetGuildMemberCount { guild_id: guild_id, page: 1 }].take(if counts_done { 0int } else { 1int })
                + seq![Request::GetGuildMemberActivity { guild_id: guild_id, page: 1 }].take(
                if counts_done && !activities_done { 1int } else { 0int },
            );
            if self.ws_open {
                assert(self.outbox@ =~= base + sent);
            }
        }
    }

    /// Forgets everything: a fresh window.
    pub fn reset_all(&mut self)
        ensures
            final(self).wf(),
            !final(self).ws_open,
            final(self).outbox@.len() == 0,
            final(self).event_bus@.len() == 0,
            final(self).conn_id == 0,
            final(self).panels.guild_channels@.len() == 0,
            final(self).tabs.guilds@.len() == 0,
            !final(self).connection.connected,
    {
        *self = MainWindow::new();
    }

    /// What a server error did (see [`MainWindow::handle_errors`]).
    pub open spec fn error_handled(before: MainWindow, after: MainWindow, error: ErrorType) -> bool {
        &&& after.panels == (PanelStatus { app_status: after.panels.app_status, ..before.panels })
        &&& after.tabs == before.tabs
        &&& after.event_bus == before.event_bus
        &&& after.outbox@ =~= before.outbox@
        &&& match error {
            ErrorType::FailedLogOut(reason) => {
                &&& after.panels.app_status == AppStatus::FailedLogOut(reason)
                &&& after.connection == before.connection
                &&& after.ws_open == before.ws_open
            },
            _ => {
                &&& after.connection == (Connection { connected: false, connecting: false, ..before.connection })
                &&& !after.ws_open
                &&& match error {
                    ErrorType::ClientNotConnected => (after.panels.app_status matches AppStatus::FailedWs(m)
                        && m@ == "Client did not connect properly to the server"@),
                    ErrorType::FailedAuthentication => after.panels.app_status == AppStatus::FailedAuth,
                    ErrorType::InvalidSession => after.panels.app_status == AppStatus::FailedAuth,
                    ErrorType::NoValidGuild => after.panels.app_status == AppStatus::NoValidGuild,
                    ErrorType::UnknowError(reason) => after.panels.app_status == AppStatus::UnexpectedError(reason),
                    ErrorType::FailedSaveSession(reason) => after.panels.app_status == AppStatus::UnexpectedError(reason),
                    ErrorType::FailedLogOut(reason) => after.panels.app_status == AppStatus::FailedLogOut(reason),
                }
            },
        }
    }

    /// What a server error does: the connection ends (except for a failed
    /// log out) and the status tells why.
    pub fn handle_errors(&mut self, error: ErrorType)
        ensures
            MainWindow::error_handled(*old(self), *final(self), error),
    {
        match error {
            ErrorType::ClientNotConnected => {
                self.connection.failed_connection();
                self.remove_channels();
                self.panels.set_app_status(
                    AppStatus::FailedWs(String::from_str("Client did not connect properly to the server")),
                );
            },
            ErrorType::FailedAuthentication | ErrorType::InvalidSession => {
                self.connection.failed_connection();
                self.remove_channels();
                self.panels.set_app_status(AppStatus::FailedAuth);
            },
            ErrorType::NoValidGuild => {
                self.connection.failed_connection();
                self.remove_channels();
                self.panels.set_app_status(AppStatus::NoValidGuild);
            },
            ErrorType::UnknowError(reason) | ErrorType::FailedSaveSession(reason) => {
                self.connection.failed_connection();
                self.remove_channels();
                self.panels.set_app_status(AppStatus::UnexpectedError(reason));
            },
            ErrorType::FailedLogOut(reason) => {
                self.panels.set_app_status(AppStatus::FailedLogOut(reason));
            },
        }
    }
}

} // verus!

verus! {

/// The waiting reload an event asks for, if it asks for one.
pub open spec fn reload_asked(e: AppEvent) -> Option<ReloadTab> {
    match e {
        AppEvent::OverviewNeedsReload(g) => Some(ReloadTab::Overview(g)),
        AppEvent::UserTableNeedsReload(g) => Some(ReloadTab::UserTable(g)),
        AppEvent::ChannelTableNeedsReload(g) => Some(ReloadTab::ChannelTable(g)),
        AppEvent::WordTableNeedsReload(g) => Some(ReloadTab::WordTable(g)),
        AppEvent::MessageChartNeedsReload(g) => Some(ReloadTab::MessageChart(g)),
        AppEvent::UserChartNeedsReload(g) => Some(ReloadTab::UserChart(g)),
        _ => None,
    }
}

/// The guild id carried by a reload.
pub open spec fn reload_guild(t: ReloadTab) -> i64 {
    match t {
        ReloadTab::Overview(g) => g,
        ReloadTab::UserTable(g) => g,
        ReloadTab::ChannelTable(g) => g,
        ReloadTab::WordTable(g) => g,
        ReloadTab::MessageChart(g) => g,
        ReloadTab::UserChart(g) => g,
    }
}

/// How much handling an event can cause: an event that asks for the reloads
/// of a guild's tabs counts for them too.
pub open spec fn event_weight(e: AppEvent) -> nat {
    match e {
        AppEvent::DateChanged => 7,
        AppEvent::SelectedChannelsChanged => 6,
        _ => 1,
    }
}

/// The weight of the queued events.
pub open spec fn queue_weight(s: Seq<AppEvent>) -> nat
    decreases s.len(),
{
    if s.len() == 0 {
        0
    } else {
        queue_weight(s.drop_last()) + event_weight(s.last())
    }
}

proof fn lemma_weight_front(s: Seq<AppEvent>)
    requires
        s.len() > 0,
    ensures
        queue_weight(s) == event_weight(s[0]) + queue_weight(s.drop_first()),
    decreases s.len(),
{
    assert(queue_weight(s) == queue_weight(s.drop_last()) + event_weight(s.last()));
    if s.len() > 1 {
        lemma_weight_front(s.drop_last());
        assert(s.drop_last().drop_first() =~= s.drop_first().drop_last());
        assert(s.drop_first().last() == s.last());
        assert(s.drop_last()[0] == s[0]);
        assert(queue_weight(s.drop_first()) == queue_weight(s.drop_first().drop_last()) + event_weight(
            s.drop_first().last(),
        ));
    } else {
        assert(s.drop_first().len() == 0);
        assert(s.drop_last().len() == 0);
        assert(s.last() == s[0]);
    }
}

/// The queue after asking for `e`: unchanged when `e` is already queued.
pub open spec fn with_reload(bus: Seq<AppEvent>, e: AppEvent) -> Seq<AppEvent> {
    if bus.contains(e) {
        bus
    } else {
        bus.push(e)
    }
}

/// The queue after asking, in order, for each event of `es`.
pub open spec fn with_reloads(bus: Seq<AppEvent>, es: Seq<AppEvent>) -> Seq<AppEvent>
    decreases es.len(),
{
    if es.len() == 0 {
        bus
    } else {
        with_reload(with_reloads(bus, es.drop_last()), es.last())
    }
}

/// The occasions on which every tab of a guild is asked to reload.
#[derive(Clone, Copy, Debug, PartialEq, Eq, Structural)]
pub enum ReloadBatch {
    DatesChanged,
    ChannelsChanged,
    EmptyPage,
    LastPage,
}

/// The reloads asked for guild `g` on each occasion, in the order they are
/// asked (the channel table is left out when the channels change).
pub open spec fn reload_events(g: i64, batch: ReloadBatch) -> Seq<AppEvent> {
    let o = AppEvent::OverviewNeedsReload(g);
    let u = AppEvent::UserTableNeedsReload(g);
    let c = AppEvent::ChannelTableNeedsReload(g);
    let w = AppEvent::WordTableNeedsReload(g);
    let mc = AppEvent::MessageChartNeedsReload(g);
    let uc = AppEvent::UserChartNeedsReload(g);
    match batch {
        ReloadBatch::DatesChanged => seq![o, u, c, w, mc, uc],
        ReloadBatch::ChannelsChanged => seq![o, u, mc, uc, w],
        ReloadBatch::EmptyPage => seq![u, c, o, mc, uc, w],
        ReloadBatch::LastPage => seq![o, u, c, mc, uc, w],
    }
}

/// Queues a reload request once.
fn publish_reload(bus: &mut EventBus, e: AppEvent)
    requires
        event_weight(e) == 1,
    ensures
        final(bus)@ == with_reload(old(bus)@, e),
        queue_weight(final(bus)@) <= queue_weight(old(bus)@) + 1,
        final(bus)@.contains(e),
        forall|x: AppEvent| old(bus)@.contains(x) ==> final(bus)@.contains(x),
{
    let ghost before = bus@;
    bus.publish_if_needed(e);
    proof {
        if !before.contains(e) {
            assert(before.push(e).drop_last() =~= before);
            assert(bus@[before.len() as int] == e);
            assert forall|x: AppEvent| before.contains(x) implies bus@.contains(x) by {
                let i = choose|i: int| 0 <= i < before.len() && before[i] == x;
                assert(bus@[i] == x);
            }
        }
    }
}

impl MainWindow {
    /// Asks every tab of guild `g` to be reloaded (each only once), in the
    /// order of the occasion `batch`.
    fn ask_all_reloads(&mut self, g: i64, batch: ReloadBatch)
        ensures
            *final(self) == (MainWindow { event_bus: final(self).event_bus, ..*old(self) }),
            final(self).event_bus@ == with_reloads(old(self).event_bus@, reload_events(g, batch)),
            queue_weight(final(self).event_bus@) <= queue_weight(old(self).event_bus@) + 6,
            batch == ReloadBatch::ChannelsChanged ==> queue_weight(final(self).event_bus@) <= queue_weight(old(self).event_bus@) + 5,
            reloads_asked(final(self).event_bus@, g, batch != ReloadBatch::ChannelsChanged),
            forall|x: AppEvent| old(self).event_bus@.contains(x) ==> final(self).event_bus@.contains(x),
    {
        let o = AppEvent::OverviewNeedsReload(g);
        let u = AppEvent::UserTableNeedsReload(g);
        let c = AppEvent::ChannelTableNeedsReload(g);
        let w = AppEvent::WordTableNeedsReload(g);
        let mc = AppEvent::MessageChartNeedsReload(g);
        let uc = AppEvent::UserChartNeedsReload(g);
        let es: Vec<AppEvent> = match batch {
            ReloadBatch::DatesChanged => vec![o, u, c, w, mc, uc],
            ReloadBatch::ChannelsChanged => vec![o, u, mc, uc, w],
            ReloadBatch::EmptyPage => vec![u, c, o, mc, uc, w],
            ReloadBatch::LastPage => vec![o, u, c, mc, uc, w],
        };
        proof {
            assert(es@ =~= reload_events(g, batch));
        }
        let ghost b0 = self.event_bus@;
        let mut k: usize = 0;
        while k < es.len()
            invariant
                k <= es.len(),
                es@ == reload_events(g, batch),
                *self == (MainWindow { event_bus: self.event_bus, ..*old(self) }),
                b0 == old(self).event_bus@,
                self.event_bus@ == with_reloads(b0, es@.take(k as int)),
                queue_weight(self.event_bus@) <= queue_weight(b0) + k,
                forall|j: int| 0 <= j < k ==> self.event_bus@.contains(#[trigger] es@[j]),
                forall|x: AppEvent| b0.contains(x) ==> self.event_bus@.contains(x),
            decreases es.len() - k,
        {
            let e = es[k];
            let ghost before = self.event_bus@;
            publish_reload(&mut self.event_bus, e);
            proof {
                assert(es@.take(k + 1).drop_last() =~= es@.take(k as int));
                assert(es@.take(k + 1).last() == e);
                assert forall|j: int| 0 <= j < k + 1 implies self.event_bus@.contains(#[trigger] es@[j]) by {
                    if j < k {
                        assert(before.contains(es@[j]));
                    }
                }
            }
            k = k + 1;
        }
        proof {
            assert(es@.take(es@.len() as int) =~= es@);
            assert(self.event_bus@.contains(es@[0]));
            assert(self.event_bus@.contains(es@[1]));
            assert(self.event_bus@.contains(es@[2]));
            assert(self.event_bus@.contains(es@[3]));
            assert(self.event_bus@.contains(es@[4]));
            if es@.len() > 5 {
                assert(self.event_bus@.contains(es@[5]));
            }
        }
    }

    /// What the `DateChanged` event did: while a guild is ready, every tab of
    /// the selected guild takes the guild's selected dates and waits for a
    /// reload; otherwise nothing changes.
    pub open spec fn dates_applied(o: MainWindow, n: MainWindow) -> bool {
        if o.ready() {
            let g = selected_id(o.panels);
            &&& n.tabs.has_guild(g)
            &&& tabs_dated(n.tabs.tabs_of(g), o.panels.date_nav@[o.panels.selected_guild as int].handler)
            &&& reloads_asked(n.event_bus@, g, true)
            &&& n.event_bus@ == with_reloads(o.event_bus@, reload_events(g, ReloadBatch::DatesChanged))
            &&& other_tabs_kept(o.tabs, n.tabs, g)
            &&& n.panels == o.panels
            &&& n.outbox@ == o.outbox@
        } else {
            n == o
        }
    }

    fn date_changed(&mut self)
        requires
            old(self).wf(),
        ensures
            final(self).wf(),
            MainWindow::dates_applied(*old(self), *final(self)),
            queue_weight(final(self).event_bus@) <= queue_weight(old(self).event_bus@) + 6,
    {
        if self.is_ready() {
            let g = self.panels.selected_guild();
            let h = self.panels.current_date_handler();
            let ghost t0 = self.tabs;
            self.tabs.set_date_handler(g, h);
            proof {
                lemma_replaced_keeps_others(t0, self.tabs, g);
                crate::tab_handler::lemma_replaced_index(t0.guilds@, self.tabs.guilds@, g, g);
            }
            self.ask_all_reloads(g, ReloadBatch::DatesChanged);
        }
    }

    /// What `UpdateDate(date, g)` did: when `g` is a listed guild with tabs,
    /// its date span widens to `date` and all its tabs take the new dates;
    /// otherwise nothing changes.
    pub open spec fn date_recorded(o: MainWindow, n: MainWindow, date: i32, g: i64) -> bool {
        let i = guild_position(o.panels.guild_channels@, g);
        if 0 <= i < o.panels.date_nav@.len() && o.tabs.has_guild(g) {
            let h = o.panels.date_nav@[i].handler.spec_update_dates(date).0;
            &&& n.panels.date_nav@ == o.panels.date_nav@.update(i, DateNavigator { handler: h, ..o.panels.date_nav@[i] })
            &&& n.panels == (PanelStatus { date_nav: n.panels.date_nav, ..o.panels })
            &&& n.tabs.has_guild(g)
            &&& tabs_dated(n.tabs.tabs_of(g), h)
            &&& other_tabs_kept(o.tabs, n.tabs, g)
            &&& n.event_bus == o.event_bus
            &&& n.outbox@ == o.outbox@
        } else {
            n == o
        }
    }

    fn date_updated(&mut self, date: i32, g: i64)
        requires
            old(self).wf(),
        ensures
            final(self).wf(),
            MainWindow::date_recorded(*old(self), *final(self), date, g),
    {
        proof {
            crate::panels::lemma_guild_position(self.panels.guild_channels@, g);
            lemma_key_index(self.tabs.guilds@, g);
        }
        let known = match crate::panels::find_guild_index(&self.panels.guild_channels, g) {
            Some(i) => i < self.panels.date_nav.len() && find_key(&self.tabs.guilds, g).is_some(),
            None => false,
        };
        if known {
            let h = self.panels.date_update(date, g);
            let ghost t0 = self.tabs;
            self.tabs.set_date_handler(g, h);
            proof {
                lemma_replaced_keeps_others(t0, self.tabs, g);
                crate::tab_handler::lemma_replaced_index(t0.guilds@, self.tabs.guilds@, g, g);
            }
        }
    }

    /// What `GuildChanged` did: while a guild is ready, it becomes the current
    /// guild of the tabs, its message chart and word table take its channels
    /// and channel selection, and what it still misses is asked for;
    /// otherwise nothing changes.
    pub open spec fn guild_switched(o: MainWindow, n: MainWindow) -> bool {
        if o.ready() {
            let g = selected_id(o.panels);
            let sel = o.panels.selected_guild as int;
            let t = n.tabs.tabs_of(g);
            &&& n.tabs.current_guild == g
            &&& n.tabs.has_guild(g)
            &&& t.message_chart.channels@ == o.panels.guild_channels@[sel].channels@
            &&& t.word_table.channels@ == o.panels.guild_channels@[sel].channels@
            &&& t.message_chart.selected_channels@ == o.panels.selected_channel@[sel]@
            &&& t.word_table.selected_channels@ == o.panels.selected_channel@[sel]@
            &&& n.outbox@ == if o.ws_open {
                o.outbox@ + fetch_requests(selected_status(o.panels), g)
            } else {
                o.outbox@
            }
            &&& other_tabs_kept(o.tabs, n.tabs, g)
            &&& n.event_bus == o.event_bus
        } else {
            n == o
        }
    }

    fn guild_changed(&mut self)
        requires
            old(self).wf(),
        ensures
            final(self).wf(),
            MainWindow::guild_switched(*old(self), *final(self)),
    {
        if self.is_ready() {
            let g = self.panels.selected_guild();
            self.tabs.set_current_guild(g);
            let channels = self.panels.current_guild_channels();
            let ghost t0 = self.tabs;
            self.tabs.set_channels(channels);
            proof {
                lemma_replaced_keeps_others(t0, self.tabs, g);
                crate::tab_handler::lemma_replaced_index(t0.guilds@, self.tabs.guilds@, g, g);
            }
            let selected = self.panels.current_selected_channels();
            let ghost t1 = self.tabs;
            self.tabs.set_selected_channels(selected);
            proof {
                lemma_replaced_keeps_others(t1, self.tabs, g);
                lemma_kept_trans(t0, t1, self.tabs, g);
                assert(other_tabs_kept(old(self).tabs, t0, g));
                lemma_kept_trans(old(self).tabs, t0, self.tabs, g);
                crate::tab_handler::lemma_replaced_index(t1.guilds@, self.tabs.guilds@, g, g);
                let gi = guild_index(t0.guilds@, g);
                assert(guild_index(self.tabs.guilds@, g) == gi);
                assert(self.tabs.tabs_of(g) == self.tabs.guilds@[gi].1);
                assert(t1.tabs_of(g) == t1.guilds@[gi].1);
            }
            self.fetch_guild_data();
        }
    }

    /// What `SelectedChannelsChanged` did: while a guild is ready, the tabs of
    /// the current guild take the selected guild's channel selection, and every
    /// tab of the selected guild but the channel table waits for a reload;
    /// otherwise nothing changes.
    pub open spec fn channels_applied(o: MainWindow, n: MainWindow) -> bool {
        if o.ready() {
            let g = selected_id(o.panels);
            let cur = o.tabs.current_guild;
            let chosen = o.panels.selected_channel@[o.panels.selected_guild as int]@;
            &&& reloads_asked(n.event_bus@, g, false)
            &&& n.event_bus@ == with_reloads(o.event_bus@, reload_events(g, ReloadBatch::ChannelsChanged))
            &&& o.tabs.has_guild(cur) ==> {
                &&& n.tabs.has_guild(cur)
                &&& n.tabs.tabs_of(cur).message_chart.selected_channels@ == chosen
                &&& n.tabs.tabs_of(cur).word_table.selected_channels@ == chosen
            }
            &&& other_tabs_kept(o.tabs, n.tabs, cur)
            &&& n.panels == o.panels
            &&& n.outbox@ == o.outbox@
        } else {
            n == o
        }
    }

    fn channels_changed(&mut self)
        requires
            old(self).wf(),
        ensures
            final(self).wf(),
            MainWindow::channels_applied(*old(self), *final(self)),
            queue_weight(final(self).event_bus@) <= queue_weight(old(self).event_bus@) + 5,
    {
        if self.is_ready() {
            let g = self.panels.selected_guild();
            proof {
                lemma_key_index(self.tabs.guilds@, self.tabs.current_guild);
            }
            if find_key(&self.tabs.guilds, self.tabs.current_guild).is_some() {
                let selected = self.panels.current_selected_channels();
                let ghost t0 = self.tabs;
                self.tabs.set_selected_channels(selected);
                proof {
                    lemma_replaced_keeps_others(t0, self.tabs, t0.current_guild);
                    crate::tab_handler::lemma_replaced_index(t0.guilds@, self.tabs.guilds@, t0.current_guild, t0.current_guild);
                }
            }
            self.ask_all_reloads(g, ReloadBatch::ChannelsChanged);
        }
    }

    /// What handling one event did (see [`MainWindow::handle_event`]).
    pub open spec fn event_handled(before: MainWindow, after: MainWindow, event: AppEvent, r: Option<WindowAction>) -> bool {
        &&& queue_weight(after.event_bus@) < queue_weight(before.event_bus@) + event_weight(event)
        &&& r is Some <==> (event == AppEvent::StartWebsocket && !before.ws_open)
        &&& r matches Some(a) ==> a is Connect
        &&& event == AppEvent::StartWebsocket ==> after.outbox@ == if before.ws_open {
            before.outbox@.push(
                if before.connection.no_login { Request::StartConnectionNoLogin } else { Request::StartConnection },
            )
        } else {
            before.outbox@
        }
        &&& event == AppEvent::StartWebsocket && !before.ws_open ==> after.panels.app_status
            == AppStatus::ConnectingToWs && !after.ws_open
        &&& event == AppEvent::CellsCopied ==> after.panels.app_status == AppStatus::CellsCopied
            && after.tabs == before.tabs
        &&& event == AppEvent::LogOut ==> after.panels.app_status == AppStatus::AttemptLogOut
            && after.outbox@ == if before.ws_open {
            before.outbox@.push(Request::LogOut)
        } else {
            before.outbox@
        }
        &&& reload_asked(event) matches Some(t) ==> {
            &&& after.tabs.pending_reloads@ =~= if exists|i: int|
                0 <= i < before.tabs.pending_reloads@.len() && (#[trigger] before.tabs.pending_reloads@[i]).reload_type
                    == t {
                before.tabs.pending_reloads@
            } else {
                before.tabs.pending_reloads@.push(
                    crate::tab_handler::PendingReload { guild_id: reload_guild(t), reload_type: t },
                )
            }
            &&& after.tabs.guilds@ =~= before.tabs.guilds@
            &&& after.panels == before.panels
        }
        &&& event == AppEvent::DateChanged ==> MainWindow::dates_applied(before, after)
        &&& event matches AppEvent::UpdateDate(date, g) ==> MainWindow::date_recorded(before, after, date, g)
        &&& event == AppEvent::GuildChanged ==> MainWindow::guild_switched(before, after)
        &&& event == AppEvent::SelectedChannelsChanged ==> MainWindow::channels_applied(before, after)
        &&& event == AppEvent::CompareDate ==> if before.ready() {
            let g = selected_id(before.panels);
            &&& after.tabs.has_guild(g)
            &&& crate::tab_handler::overview_compared(before.tabs.tabs_of(g).overview, after.tabs.tabs_of(g).overview)
            &&& other_tabs_kept(before.tabs, after.tabs, g)
        } else {
            after == before
        }
        &&& event == AppEvent::StopCompareOverview ==> if before.ready() {
            let g = selected_id(before.panels);
            &&& after.tabs.has_guild(g)
            &&& after.tabs.tabs_of(g).overview == Overview { compare_data: None, ..before.tabs.tabs_of(g).overview }
            &&& other_tabs_kept(before.tabs, after.tabs, g)
        } else {
            after == before
        }
        &&& event matches AppEvent::MessageChartTypeChanged(g) ==> (before.tabs.has_guild(g) ==> after.tabs.has_guild(g)
            && crate::tab_handler::message_chart_reloaded(
            before.tabs.tabs_of(g).message_chart,
            after.tabs.tabs_of(g).message_chart,
        ) && other_tabs_kept(before.tabs, after.tabs, g))
        &&& event matches AppEvent::UserChartTypeChanged(g) ==> (before.tabs.has_guild(g) ==> after.tabs.has_guild(g)
            && crate::tab_handler::user_chart_reloaded(before.tabs.tabs_of(g).user_chart, after.tabs.tabs_of(g).user_chart)
            && other_tabs_kept(before.tabs, after.tabs, g))
    }

    /// Handles one event. An event about the selected guild is skipped while no
    /// guild is ready (see [`MainWindow::ready`]); one about a guild without
    /// tabs is skipped too. Returns [`WindowAction::Connect`] when a websocket
    /// connection has to be made.
    pub fn handle_event(&mut self, event: AppEvent) -> (r: Option<WindowAction>)
        requires
            old(self).wf(),
        ensures
            final(self).wf(),
            MainWindow::event_handled(*old(self), *final(self), event, r),
    {
        match event {
            AppEvent::DateChanged => {
                self.date_changed();
                None
            },
            AppEvent::CompareDate => {
                if self.is_ready() {
                    let g = self.panels.selected_guild();
                    let ghost t0 = self.tabs;
                    self.tabs.compare_overview(g);
                    proof {
                        lemma_replaced_keeps_others(t0, self.tabs, g);
                        crate::tab_handler::lemma_replaced_index(t0.guilds@, self.tabs.guilds@, g, g);
                    }
                }
                None
            },
            AppEvent::StartWebsocket => {
                if !self.has_channels() {
                    self.panels.set_app_status(AppStatus::ConnectingToWs);
                    Some(WindowAction::Connect)
                } else {
                    if self.connection.no_login() {
                        self.send_ws(Request::start_no_login());
                    } else {
                        self.send_ws(Request::start());
                    }
                    None
                }
            },
            AppEvent::UpdateDate(date, g) => {
                self.date_updated(date, g);
                None
            },
            AppEvent::CellsCopied => {
                self.panels.set_app_status(AppStatus::CellsCopied);
                None
            },
            AppEvent::GuildChanged => {
                self.guild_changed();
                None
            },
            AppEvent::StopCompareOverview => {
                if self.is_ready() {
                    let g = self.panels.selected_guild();
                    let ghost t0 = self.tabs;
                    self.tabs.stop_compare_overview(g);
                    proof {
                        lemma_replaced_keeps_others(t0, self.tabs, g);
                        crate::tab_handler::lemma_replaced_index(t0.guilds@, self.tabs.guilds@, g, g);
                    }
                }
                None
            },
            AppEvent::OverviewNeedsReload(g) => {
                self.tabs.add_reload(g, ReloadTab::Overview(g));
                None
            },
            AppEvent::UserTableNeedsReload(g) => {
                self.tabs.add_reload(g, ReloadTab::UserTable(g));
                None
            },
            AppEvent::ChannelTableNeedsReload(g) => {
                self.tabs.add_reload(g, ReloadTab::ChannelTable(g));
                None
            },
            AppEvent::WordTableNeedsReload(g) => {
                self.tabs.add_reload(g, ReloadTab::WordTable(g));
                None
            },
            AppEvent::MessageChartNeedsReload(g) => {
                self.tabs.add_reload(g, ReloadTab::MessageChart(g));
                None
            },
            AppEvent::UserChartNeedsReload(g) => {
                self.tabs.add_reload(g, ReloadTab::UserChart(g));
                None
            },
            AppEvent::MessageChartTypeChanged(g) => {
                proof {
                    lemma_key_index(self.tabs.guilds@, g);
                }
                if find_key(&self.tabs.guilds, g).is_some() {
                    let ghost t0 = self.tabs;
                    self.tabs.reload_message_chart(g);
                    proof {
                        lemma_replaced_keeps_others(t0, self.tabs, g);
                        crate::tab_handler::lemma_replaced_index(t0.guilds@, self.tabs.guilds@, g, g);
                    }
                }
                None
            },
            AppEvent::UserChartTypeChanged(g) => {
                proof {
                    lemma_key_index(self.tabs.guilds@, g);
                }
                if find_key(&self.tabs.guilds, g).is_some() {
                    let ghost t0 = self.tabs;
                    self.tabs.reload_user_chart(g);
                    proof {
                        lemma_replaced_keeps_others(t0, self.tabs, g);
                        crate::tab_handler::lemma_replaced_index(t0.guilds@, self.tabs.guilds@, g, g);
                    }
                }
                None
            },
            AppEvent::SelectedChannelsChanged => {
                self.channels_changed();
                None
            },
            AppEvent::LogOut => {
                self.panels.set_app_status(AppStatus::AttemptLogOut);
                self.send_ws(Request::LogOut);
                None
            },
        }
    }

    /// One turn of the event loop: `e` was taken from the front of the queue
    /// of `prev`, which left `mid`, and handling it (see
    /// [`MainWindow::event_handled`]) turned `mid` into `next` with result `r`.
    #[verifier::opaque]
    pub open spec fn event_step(prev: MainWindow, mid: MainWindow, e: AppEvent, r: Option<WindowAction>, next: MainWindow) -> bool {
        &&& prev.event_bus@.len() > 0
        &&& e == prev.event_bus@[0]
        &&& mid.event_bus@ == prev.event_bus@.drop_first()
        &&& mid == MainWindow { event_bus: mid.event_bus, ..prev }
        &&& MainWindow::event_handled(mid, next, e, r)
    }

    /// A run of the event loop from `o` to `n`: its turns in order, each
    /// (window after taking the event, event, result, window after handling
    /// it); every turn but the last gave nothing, and the last gave `r`.
    pub open spec fn events_run(
        o: MainWindow,
        n: MainWindow,
        steps: Seq<(MainWindow, AppEvent, Option<WindowAction>, MainWindow)>,
        r: Option<WindowAction>,
    ) -> bool {
        &&& forall|i: int|
            #![trigger steps[i]]
            0 <= i < steps.len() ==> MainWindow::event_step(
                if i == 0 { o } else { steps[i - 1].3 },
                steps[i].0,
                steps[i].1,
                steps[i].2,
                steps[i].3,
            )
        &&& forall|i: int|
            #![trigger steps[i]]
            0 <= i < steps.len() ==> steps[i].2 == if i == steps.len() - 1 { r } else { None::<WindowAction> }
        &&& r is Some ==> steps.len() > 0
        &&& n == if steps.len() == 0 { o } else { steps.last().3 }
    }

    #[verifier::spinoff_prover]
    #[verifier::rlimit(60)]
    proof fn lemma_run_extended(
        o: MainWindow,
        prev: MainWindow,
        steps: Seq<(MainWindow, AppEvent, Option<WindowAction>, MainWindow)>,
        mid: MainWindow,
        e: AppEvent,
        r: Option<WindowAction>,
        next: MainWindow,
    )
        requires
            MainWindow::events_run(o, prev, steps, None),
            MainWindow::event_step(prev, mid, e, r, next),
        ensures
            MainWindow::events_run(o, next, steps.push((mid, e, r, next)), r),
    {
        let n = steps.push((mid, e, r, next));
        assert forall|i: int| #![trigger n[i]] 0 <= i < n.len() implies MainWindow::event_step(
            if i == 0 { o } else { n[i - 1].3 },
            n[i].0,
            n[i].1,
            n[i].2,
            n[i].3,
        ) by {
            if i < steps.len() {
                assert(n[i] == steps[i]);
                if i > 0 {
                    assert(n[i - 1] == steps[i - 1]);
                }
            }
        }
        assert forall|i: int| #![trigger n[i]] 0 <= i < n.len() implies n[i].2 == if i == n.len() - 1 {
            r
        } else {
            None::<WindowAction>
        } by {
            if i < steps.len() {
                assert(n[i] == steps[i]);
            }
        }
    }

    /// Handles the queued events in order until the queue is empty or a
    /// websocket connection has to be made ([`WindowAction::Connect`]; the
    /// remaining events stay queued).
    pub fn check_event(&mut self) -> (r: Option<WindowAction>)
        requires
            old(self).wf(),
        ensures
            final(self).wf(),
            r is None ==> final(self).event_bus@.len() == 0,
            r matches Some(a) ==> a is Connect,
            r is Some ==> !final(self).ws_open && final(self).panels.app_status == AppStatus::ConnectingToWs,
            exists|steps: Seq<(MainWindow, AppEvent, Option<WindowAction>, MainWindow)>|
                MainWindow::events_run(*old(self), *final(self), steps, r),
    {
        let ghost mut steps: Seq<(MainWindow, AppEvent, Option<WindowAction>, MainWindow)> = Seq::empty();
        loop
            invariant
                self.wf(),
                MainWindow::events_run(*old(self), *self, steps, None),
            decreases queue_weight(self.event_bus@),
        {
            proof {
                if self.event_bus@.len() > 0 {
                    lemma_weight_front(self.event_bus@);
                }
            }
            let ghost prev = *self;
            match self.event_bus.get() {
                None => {
                    return None;
                },
                Some(event) => {
                    let ghost mid = *self;
                    let res = self.handle_event(event);
                    let ghost next = steps.push((mid, event, res, *self));
                    proof {
                        assert(MainWindow::event_step(prev, mid, event, res, *self)) by {
                            reveal(MainWindow::event_step);
                        }
                        MainWindow::lemma_run_extended(*old(self), prev, steps, mid, event, res, *self);
                    }
                    if let Some(action) = res {
                        return Some(action);
                    }
                    proof {
                        steps = next;
                    }
                },
            }
        }
    }
}

} // verus!

verus! {

/// The Discord login link the client opens, without its state.
pub const LOGIN_URL: &'static str = "https://discord.com/oauth2/authorize?client_id=1324028221066576017&response_type=code&redirect_uri=http%3A%2F%2Flocalhost%3A8000%2Fauth%2Fredirect%2F&scope=guilds+identify";

/// The login link for a connection: the login link with the connection id as
/// its state.
pub open spec fn login_url(conn_id: u64) -> Seq<char> {
    LOGIN_URL@ + "&state="@ + crate::text::digits_of(conn_id as nat)
}

/// Builds the login link for a connection.
pub fn login_url_of(conn_id: u64) -> (r: String)
    ensures
        r@ == login_url(conn_id),
{
    let mut s = String::from_str(LOGIN_URL);
    append_string(&mut s, &String::from_str("&state="));
    let id = crate::text::unsigned_text(conn_id);
    append_string(&mut s, &id);
    s
}

/// The window after the status dots advanced one step.
pub open spec fn dotted(w: MainWindow) -> MainWindow {
    MainWindow {
        panels: PanelStatus {
            dot_count: if w.panels.dot_count == 3 { 0 } else { (w.panels.dot_count + 1) as usize },
            ..w.panels
        },
        ..w
    }
}

/// A reply whose status and content agree: an error status comes with an
/// error, a success status with data.
pub open spec fn reply_consistent(response: WsResponse) -> bool {
    (response.status is Error) == (response.response is Error)
}

/// The fetch status of the selected guild.
pub open spec fn selected_status(p: PanelStatus) -> FetchStatus {
    let s = p.fetch_status@;
    s[key_index(s, p.guild_channels@[p.selected_guild as int].guild.guild_id)].1
}

/// A kind of paged data (0: messages, 1: member counts, 2: member
/// activities) marked as fully fetched.
pub open spec fn kind_done(st: FetchStatus, kind: u8) -> FetchStatus {
    if kind == 0 {
        FetchStatus { messages: true, ..st }
    } else if kind == 1 {
        FetchStatus { counts: true, ..st }
    } else {
        FetchStatus { activities: true, ..st }
    }
}

/// The status after a page of a kind of data arrived: the page is noted, and
/// the last page marks the kind fully fetched.
pub open spec fn page_noted(st: FetchStatus, kind: u8, page: u64, last: bool) -> FetchStatus {
    let noted = if kind == 0 {
        FetchStatus { messages_page: page, ..st }
    } else if kind == 1 {
        FetchStatus { counts_page: page, ..st }
    } else {
        FetchStatus { activities_page: page, ..st }
    };
    if last {
        kind_done(noted, kind)
    } else {
        noted
    }
}

/// Every tab of guild `g` waits for a reload (the channel table only when
/// `with_channel_table`).
pub open spec fn reloads_asked(bus: Seq<AppEvent>, g: i64, with_channel_table: bool) -> bool {
    &&& bus.contains(AppEvent::OverviewNeedsReload(g))
    &&& bus.contains(AppEvent::UserTableNeedsReload(g))
    &&& (with_channel_table ==> bus.contains(AppEvent::ChannelTableNeedsReload(g)))
    &&& bus.contains(AppEvent::WordTableNeedsReload(g))
    &&& bus.contains(AppEvent::MessageChartNeedsReload(g))
    &&& bus.contains(AppEvent::UserChartNeedsReload(g))
}

/// The tabs of every guild other than `g` are kept.
pub open spec fn other_tabs_kept(o: TabHandler, n: TabHandler, g: i64) -> bool {
    forall|id: i64| id != g && #[trigger] o.has_guild(id) ==> n.has_guild(id) && n.tabs_of(id) == o.tabs_of(id)
}

/// What the tabs of a guild did with a message handed to each in turn (user
/// table, channel table, overview, message chart, user chart, word table),
/// the events going from `b0` through the five of `b` to `b6`.
pub open spec fn tabs_took(
    t0: GuildTabs,
    t6: GuildTabs,
    m: MessageWithUser,
    b0: Seq<AppEvent>,
    b: (Seq<AppEvent>, Seq<AppEvent>, Seq<AppEvent>, Seq<AppEvent>, Seq<AppEvent>),
    b6: Seq<AppEvent>,
) -> bool {
    &&& user_table_took(t0.user_table, t6.user_table, m, b0, b.0)
    &&& channel_table_took(t0.channel_table, t6.channel_table, m, b.0, b.1)
    &&& overview_took(t0.overview, t6.overview, m, b.1, b.2)
    &&& message_chart_took(t0.message_chart, t6.message_chart, m, b.2, b.3)
    &&& user_chart_took(t0.user_chart, t6.user_chart, m, b.3, b.4)
    &&& word_table_took(t0.word_table, t6.word_table, m, b.4, b6)
}

/// What handing message `m` to the tabs of its guild did: those tabs took it
/// (see [`tabs_took`]), the events going from `b0` to `b6`, and the tabs of
/// every other guild are kept.
pub open spec fn message_dispatched(o: TabHandler, n: TabHandler, m: MessageWithUser, b0: Seq<AppEvent>, b6: Seq<AppEvent>) -> bool {
    let g = m.message.guild_id;
    &&& n.has_guild(g)
    &&& other_tabs_kept(o, n, g)
    &&& exists|b: (Seq<AppEvent>, Seq<AppEvent>, Seq<AppEvent>, Seq<AppEvent>, Seq<AppEvent>)|
        #[trigger] tabs_took(o.tabs_of(g), n.tabs_of(g), m, b0, b, b6)
}

/// The tabs and events after handing each message of `ms`, in order, to the
/// tabs of its own guild (a message of a guild without tabs is passed over),
/// starting from `t0` and `b0`: `trace[i]` is the state before the `i`th
/// message.
pub open spec fn messages_taken(
    t0: TabHandler,
    b0: Seq<AppEvent>,
    g: i64,
    ms: Seq<MessageWithUser>,
    trace: Seq<(TabHandler, Seq<AppEvent>)>,
) -> bool {
    &&& trace.len() == ms.len() + 1
    &&& trace[0] == (t0, b0)
    &&& forall|i: int|
        #![trigger ms[i]]
        0 <= i < ms.len() ==> if trace[i].0.has_guild(ms[i].message.guild_id) {
            message_dispatched(trace[i].0, trace[i + 1].0, ms[i], trace[i].1, trace[i + 1].1)
        } else {
            trace[i + 1] == trace[i]
        }
}

/// What a page of messages of guild `g` did to the tabs and the events: each
/// message went through the tabs of its own guild (see [`messages_taken`]);
/// after a full page the events are what the tabs left, after an empty or a
/// last page the reloads of `g` were added to them, each in its own order
/// (see [`reload_events`]).
pub open spec fn messages_outcome(
    o: MainWindow,
    n: MainWindow,
    g: i64,
    ms: Seq<MessageWithUser>,
    trace: Seq<(TabHandler, Seq<AppEvent>)>,
) -> bool {
    &&& messages_taken(o.tabs, o.event_bus@, g, ms, trace)
    &&& n.tabs == trace.last().0
    &&& ms.len() == PAGE_VALUE ==> n.event_bus@ == trace.last().1
    &&& ms.len() == 0 ==> n.event_bus@ == with_reloads(trace.last().1, reload_events(g, ReloadBatch::EmptyPage))
    &&& 0 < ms.len() && ms.len() != PAGE_VALUE ==> n.event_bus@ == with_reloads(trace.last().1, reload_events(g, ReloadBatch::LastPage))
    &&& ms.len() != PAGE_VALUE ==> forall|x: AppEvent| trace.last().1.contains(x) ==> n.event_bus@.contains(x)
}

proof fn lemma_taken_extended(
    t0: TabHandler,
    b0: Seq<AppEvent>,
    g: i64,
    ms: Seq<MessageWithUser>,
    k: int,
    trace: Seq<(TabHandler, Seq<AppEvent>)>,
    next: (TabHandler, Seq<AppEvent>),
)
    requires
        0 <= k < ms.len(),
        messages_taken(t0, b0, g, ms.take(k), trace),
        if trace.last().0.has_guild(ms[k].message.guild_id) {
            message_dispatched(trace.last().0, next.0, ms[k], trace.last().1, next.1)
        } else {
            next == trace.last()
        },
    ensures
        messages_taken(t0, b0, g, ms.take(k + 1), trace.push(next)),
{
    let t = trace.push(next);
    let m1 = ms.take(k + 1);
    assert forall|i: int| #![trigger m1[i]] 0 <= i < m1.len() implies if t[i].0.has_guild(m1[i].message.guild_id) {
        message_dispatched(t[i].0, t[i + 1].0, m1[i], t[i].1, t[i + 1].1)
    } else {
        t[i + 1] == t[i]
    } by {
        if i < k {
            assert(m1[i] == ms.take(k)[i]);
            assert(t[i] == trace[i]);
            assert(t[i + 1] == trace[i + 1]);
        } else {
            assert(m1[i] == ms[k]);
            assert(t[i] == trace.last());
            assert(t[i + 1] == next);
        }
    }
}

/// The overview `n` is `o` with its chart labels cleared.
pub open spec fn labels_cleared(o: Overview, n: Overview) -> bool {
    n.chart_labels@.len() == 0 && n == Overview { chart_labels: n.chart_labels, ..o }
}

/// One member count handed to the overview of guild `g`: only that
/// overview changed, as [`overview_took_count`] says.
pub open spec fn count_step(a: TabHandler, b: TabHandler, g: i64, c: MemberCount) -> bool {
    &&& b.has_guild(g)
    &&& other_tabs_kept(a, b, g)
    &&& crate::tab_handler::same_but_overview(a.tabs_of(g), b.tabs_of(g))
    &&& overview_took_count(a.tabs_of(g).overview, b.tabs_of(g).overview, c)
}

/// One member activity handed to the overview of guild `g` (see
/// [`count_step`]).
pub open spec fn activity_step(a: TabHandler, b: TabHandler, g: i64, x: MemberActivity) -> bool {
    &&& b.has_guild(g)
    &&& other_tabs_kept(a, b, g)
    &&& crate::tab_handler::same_but_overview(a.tabs_of(g), b.tabs_of(g))
    &&& overview_took_activity(a.tabs_of(g).overview, b.tabs_of(g).overview, x)
}

/// The tabs after handing the member counts `cs`, in order, to the overview
/// of guild `g` (when it has tabs), starting from `t0`: `trace[i]` is the
/// state before the `i`th count.
pub open spec fn counts_taken(t0: TabHandler, g: i64, cs: Seq<MemberCount>, trace: Seq<TabHandler>) -> bool {
    &&& trace.len() == cs.len() + 1
    &&& trace[0] == t0
    &&& forall|i: int|
        #![trigger cs[i]]
        0 <= i < cs.len() ==> if t0.has_guild(g) {
            count_step(trace[i], trace[i + 1], g, cs[i])
        } else {
            trace[i + 1] == trace[i]
        }
}

/// The tabs after handing the member activities `acts` to the overview of
/// guild `g` (see [`counts_taken`]).
pub open spec fn activities_taken(t0: TabHandler, g: i64, acts: Seq<MemberActivity>, trace: Seq<TabHandler>) -> bool {
    &&& trace.len() == acts.len() + 1
    &&& trace[0] == t0
    &&& forall|i: int|
        #![trigger acts[i]]
        0 <= i < acts.len() ==> if t0.has_guild(g) {
            activity_step(trace[i], trace[i + 1], g, acts[i])
        } else {
            trace[i + 1] == trace[i]
        }
}

/// What a page of member counts did to the tabs: the counts went through
/// the overview of guild `g` in order (see [`counts_taken`]); then, for a
/// page with counts, its chart labels were cleared, and after the last page
/// the join and leave series got their zeros.
pub open spec fn counts_outcome(o: MainWindow, n: MainWindow, g: i64, cs: Seq<MemberCount>, trace: Seq<TabHandler>) -> bool {
    &&& counts_taken(o.tabs, g, cs, trace)
    &&& if cs.len() == 0 || !o.tabs.has_guild(g) {
        n.tabs == trace.last()
    } else {
        let last = trace.last().tabs_of(g);
        let t = n.tabs.tabs_of(g);
        &&& n.tabs.has_guild(g)
        &&& other_tabs_kept(trace.last(), n.tabs, g)
        &&& t == GuildTabs { overview: t.overview, ..last }
        &&& exists|mid: Overview| #[trigger] labels_cleared(last.overview, mid) && if cs.len() == PAGE_VALUE {
            t.overview == mid
        } else {
            Overview::activity_filled(mid, t.overview)
        }
    }
}

/// What a page of member activities did to the tabs: they went through the
/// overview of guild `g` in order (see [`activities_taken`]); then, for a
/// page with activities, its chart labels were cleared.
pub open spec fn activities_outcome(o: MainWindow, n: MainWindow, g: i64, acts: Seq<MemberActivity>, trace: Seq<TabHandler>) -> bool {
    &&& activities_taken(o.tabs, g, acts, trace)
    &&& if acts.len() == 0 || !o.tabs.has_guild(g) {
        n.tabs == trace.last()
    } else {
        let last = trace.last().tabs_of(g);
        let t = n.tabs.tabs_of(g);
        &&& n.tabs.has_guild(g)
        &&& other_tabs_kept(trace.last(), n.tabs, g)
        &&& t == GuildTabs { overview: t.overview, ..last }
        &&& labels_cleared(last.overview, t.overview)
    }
}

proof fn lemma_counts_extended(t0: TabHandler, g: i64, cs: Seq<MemberCount>, k: int, trace: Seq<TabHandler>, next: TabHandler)
    requires
        0 <= k < cs.len(),
        counts_taken(t0, g, cs.take(k), trace),
        t0.has_guild(g),
        count_step(trace.last(), next, g, cs[k]),
    ensures
        counts_taken(t0, g, cs.take(k + 1), trace.push(next)),
{
    let t = trace.push(next);
    let c1 = cs.take(k + 1);
    assert(c1.len() == k + 1);
    assert(t.len() == c1.len() + 1);
    assert(t[0] == trace[0]);
    assert forall|i: int| #![trigger c1[i]] 0 <= i < c1.len() implies if t0.has_guild(g) {
        count_step(t[i], t[i + 1], g, c1[i])
    } else {
        t[i + 1] == t[i]
    } by {
        if i < k {
            assert(c1[i] == cs.take(k)[i]);
            assert(t[i] == trace[i]);
            assert(t[i + 1] == trace[i + 1]);
        } else {
            assert(c1[i] == cs[k]);
            assert(t[i] == trace.last());
            assert(t[i + 1] == next);
        }
    }
}

proof fn lemma_activities_extended(
    t0: TabHandler,
    g: i64,
    acts: Seq<MemberActivity>,
    k: int,
    trace: Seq<TabHandler>,
    next: TabHandler,
)
    requires
        0 <= k < acts.len(),
        activities_taken(t0, g, acts.take(k), trace),
        t0.has_guild(g),
        activity_step(trace.last(), next, g, acts[k]),
    ensures
        activities_taken(t0, g, acts.take(k + 1), trace.push(next)),
{
    let t = trace.push(next);
    let a1 = acts.take(k + 1);
    assert(a1.len() == k + 1);
    assert(t.len() == a1.len() + 1);
    assert(t[0] == trace[0]);
    assert forall|i: int| #![trigger a1[i]] 0 <= i < a1.len() implies if t0.has_guild(g) {
        activity_step(t[i], t[i + 1], g, a1[i])
    } else {
        t[i + 1] == t[i]
    } by {
        if i < k {
            assert(a1[i] == acts.take(k)[i]);
            assert(t[i] == trace[i]);
            assert(t[i + 1] == trace[i + 1]);
        } else {
            assert(a1[i] == acts[k]);
            assert(t[i] == trace.last());
            assert(t[i + 1] == next);
        }
    }
}

/// Guild `g` has tabs whose channel table and overview know the name of
/// channel `c`.
pub open spec fn channel_known(t: TabHandler, g: i64, c: i64) -> bool {
    &&& t.has_guild(g)
    &&& key_index(crate::channel_table::map_view(t.tabs_of(g).channel_table.channel_map@), c) >= 0
    &&& key_index(t.tabs_of(g).overview.channel_map@, c) >= 0
}

proof fn lemma_set_data_keeps(o: TabHandler, n: TabHandler, id: i64)
    requires
        n.guilds@ == if o.has_guild(id) {
            o.guilds@
        } else {
            o.guilds@.push((id, n.guilds@.last().1))
        },
    ensures
        forall|g: i64, c: i64| #[trigger] channel_known(o, g, c) ==> channel_known(n, g, c),
        forall|g: i64| #[trigger] o.has_guild(g) ==> n.has_guild(g),
{
    assert forall|g: i64, c: i64| #[trigger] channel_known(o, g, c) implies channel_known(n, g, c) by {
        if !o.has_guild(id) {
            lemma_key_index_push(o.guilds@, (id, n.guilds@.last().1), g);
            lemma_key_index(o.guilds@, g);
        }
    }
    assert forall|g: i64| #[trigger] o.has_guild(g) implies n.has_guild(g) by {
        if !o.has_guild(id) {
            lemma_key_index_push(o.guilds@, (id, n.guilds@.last().1), g);
        }
    }
}

proof fn lemma_known_after_learning(t1: TabHandler, t2: TabHandler, t3: TabHandler, id: i64, chs: Seq<Channel>)
    requires
        t1.has_guild(id),
        crate::tab_handler::guild_replaced(t1.guilds@, t2.guilds@, id),
        crate::tab_handler::same_but_overview(t1.tabs_of(id), TabHandler::new_tabs(t1, t2, id)),
        TabHandler::new_tabs(t1, t2, id).overview.channel_map@ == crate::overview::names_learned(
            t1.tabs_of(id).overview.channel_map@,
            chs,
        ),
        crate::tab_handler::guild_replaced(t2.guilds@, t3.guilds@, id),
        crate::tab_handler::same_but_channel_table(t2.tabs_of(id), TabHandler::new_tabs(t2, t3, id)),
        crate::channel_table::map_view(TabHandler::new_tabs(t2, t3, id).channel_table.channel_map@)
            == crate::channel_table::map_learned(crate::channel_table::map_view(t2.tabs_of(id).channel_table.channel_map@), chs),
    ensures
        forall|g: i64, c: i64| #[trigger] channel_known(t1, g, c) ==> channel_known(t3, g, c),
        forall|k: int| 0 <= k < chs.len() ==> channel_known(t3, id, #[trigger] chs[k].channel_id),
{
    lemma_replaced_keeps_others(t1, t2, id);
    crate::tab_handler::lemma_replaced_index(t1.guilds@, t2.guilds@, id, id);
    lemma_replaced_keeps_others(t2, t3, id);
    crate::tab_handler::lemma_replaced_index(t2.guilds@, t3.guilds@, id, id);
    crate::overview::lemma_names_learned(t1.tabs_of(id).overview.channel_map@, chs);
    crate::channel_table::lemma_map_learned(crate::channel_table::map_view(t2.tabs_of(id).channel_table.channel_map@), chs);
    assert(t2.tabs_of(id) == TabHandler::new_tabs(t1, t2, id));
    assert(t3.tabs_of(id) == TabHandler::new_tabs(t2, t3, id));
    assert forall|g: i64, c: i64| #[trigger] channel_known(t1, g, c) implies channel_known(t3, g, c) by {
        if g != id {
            assert(t1.has_guild(g));
        }
    }
}

proof fn lemma_replaced_keeps_others(o: TabHandler, n: TabHandler, g: i64)
    requires
        o.has_guild(g),
        crate::tab_handler::guild_replaced(o.guilds@, n.guilds@, g),
    ensures
        n.has_guild(g),
        other_tabs_kept(o, n, g),
{
    crate::tab_handler::lemma_replaced_index(o.guilds@, n.guilds@, g, g);
    assert forall|id: i64| id != g && #[trigger] o.has_guild(id) implies n.has_guild(id) && n.tabs_of(id) == o.tabs_of(id) by {
        crate::tab_handler::lemma_replaced_index(o.guilds@, n.guilds@, g, id);
        lemma_key_index(o.guilds@, id);
        lemma_key_index(o.guilds@, g);
    }
}

proof fn lemma_kept_trans(a: TabHandler, b: TabHandler, c: TabHandler, g: i64)
    requires
        other_tabs_kept(a, b, g),
        other_tabs_kept(b, c, g),
    ensures
        other_tabs_kept(a, c, g),
{
}

impl MainWindow {
    /// Notes a page of a kind of data (`Some(page)`) or marks the kind fetched
    /// (`None`) in the selected guild's fetch status.
    fn update_status(&mut self, kind: u8, page: Option<u64>)
        requires
            old(self).wf(),
            old(self).panels.guild_ready(),
        ensures
            final(self).wf(),
            final(self).panels.guild_ready(),
            final(self).tabs == old(self).tabs,
            final(self).event_bus == old(self).event_bus,
            final(self).outbox@ == old(self).outbox@,
            final(self).ws_open == old(self).ws_open,
            final(self).connection == old(self).connection,
            final(self).panels.guild_channels@ == old(self).panels.guild_channels@,
            final(self).panels.selected_guild == old(self).panels.selected_guild,
            final(self).panels.app_status == old(self).panels.app_status,
            final(self).panels.date_nav@ == old(self).panels.date_nav@,
            selected_status(final(self).panels) == match page {
                Some(p) => page_noted(selected_status(old(self).panels), kind, p, false),
                None => kind_done(selected_status(old(self).panels), kind),
            },
    {
        let mut status = self.panels.current_guild_status();
        let ghost st0 = status;
        match page {
            Some(p) => {
                if kind == 0 {
                    status.set_messages_page(p);
                } else if kind == 1 {
                    status.set_counts_page(p);
                } else {
                    status.set_activities_page(p);
                }
            },
            None => {
                if kind == 0 {
                    status.messages_done();
                } else if kind == 1 {
                    status.counts_done();
                } else {
                    status.activities_done();
                }
            },
        }
        proof {
            assert(st0 == selected_status(old(self).panels));
            assert(status == match page {
                Some(p) => page_noted(st0, kind, p, false),
                None => kind_done(st0, kind),
            });
        }
        self.panels.set_current_guild_status(status);
        proof {
            let f = old(self).panels.fetch_status@;
            let id = old(self).panels.guild_channels@[old(self).panels.selected_guild as int].guild.guild_id;
            lemma_key_index_update(f, id, status);
            assert(self.panels.fetch_status@ == f.update(key_index(f, id), (id, status)));
            assert(self.panels.guild_channels@[self.panels.selected_guild as int].guild.guild_id == id);
            lemma_key_index(f, id);
            assert(key_index(self.panels.fetch_status@, id) == key_index(f, id));
            assert(self.panels.fetch_status@[key_index(f, id)].1 == status);
            assert(selected_status(self.panels) == status);
        }
    }

    /// What handling a reply of the server did (see
    /// [`MainWindow::handle_ws_message`]).
    pub open spec fn reply_handled(before: MainWindow, after: MainWindow, response: WsResponse, r: Option<WindowAction>) -> bool {
        &&& r matches Some(a) ==> (response.response matches Response::ConnectionSuccess(id) && a matches WindowAction::OpenUrl(u)
            && u@ == login_url(id))
        &&& response.response is ConnectionSuccess ==> r is Some && after.panels.app_status == AppStatus::LoggingIn
        &&& response.response matches Response::Guilds(list) ==> MainWindow::guilds_taken(before, after, list@)
        &&& response.response matches Response::UserDetails(d) ==> after.panels.user_details == Some(d)
        &&& response.response is LoggedOut ==> after.panels.app_status == AppStatus::LoggedOut
            && after.tabs.guilds@.len() == 0 && !after.ws_open && after.outbox@.len() == 0
        &&& response.response matches Response::Error(e) ==> MainWindow::error_handled(before, after, e)
        &&& response.response is SessionID ==> after == before
        &&& response.status matches Status::Success { current_page: p } ==> (response.response matches Response::Messages {
            guild_id: g,
            messages: ms,
        } ==> MainWindow::messages_page_handled(before, after, g, ms@, p))
        &&& response.status matches Status::Success { current_page: p } ==> (response.response matches Response::MemberCounts {
            guild_id: g,
            counts: cs,
        } ==> MainWindow::counts_page_handled(before, after, g, cs@, p))
        &&& response.status matches Status::Success { current_page: p } ==> (response.response matches Response::MemberActivities {
            guild_id: g,
            activities: acts,
        } ==> MainWindow::activities_page_handled(before, after, g, acts@, p))
    }

    /// Handles a reply of the server. An error ends the connection (see
    /// [`MainWindow::handle_errors`]); a connection success opens the login
    /// link ([`WindowAction::OpenUrl`]); the guild list creates the guilds'
    /// tabs; pages of messages, member counts and member activities are handed
    /// to the tabs of their guild (while a guild is selected), the next page is
    /// asked for when a page is full, and the last page marks the data fetched
    /// and asks for the reloads; user details are kept; a log out resets
    /// everything.
    pub fn handle_ws_message(&mut self, response: WsResponse) -> (r: Option<WindowAction>)
        requires
            old(self).wf(),
            reply_consistent(response),
        ensures
            final(self).wf(),
            MainWindow::reply_handled(*old(self), *final(self), response, r),
    {
        if response.status.is_error() {
            let e = response.get_error();
            self.handle_errors(e);
            return None;
        }
        let page = response.status.page();
        match response.response {
            Response::ConnectionSuccess(conn_id) => {
                let url = login_url_of(conn_id);
                self.panels.set_app_status(AppStatus::LoggingIn);
                Some(WindowAction::OpenUrl(url))
            },
            Response::Guilds(guilds) => {
                self.guilds_listed(guilds);
                None
            },
            Response::Messages { guild_id, messages } => {
                self.messages_page(guild_id, messages, page);
                None
            },
            Response::MemberCounts { guild_id, counts } => {
                self.counts_page(guild_id, counts, page);
                None
            },
            Response::MemberActivities { guild_id, activities } => {
                self.activities_page(guild_id, activities, page);
                None
            },
            Response::UserDetails(details) => {
                self.panels.set_user_details(details);
                None
            },
            Response::SessionID(_) => None,
            Response::LoggedOut => {
                self.reset_all();
                self.panels.set_app_status(AppStatus::LoggedOut);
                None
            },
            Response::Error(_) => None,
        }
    }

    /// What the guild list did: the connection counts as made, every listed
    /// guild has tabs whose channel table and overview know the names of its
    /// channels, the panels show the list, and the change of guild is
    /// announced.
    pub open spec fn guilds_taken(o: MainWindow, n: MainWindow, list: Seq<GuildWithChannels>) -> bool {
        &&& n.connection.connected
        &&& n.panels.app_status == AppStatus::Fetching
        &&& n.panels.guild_channels@ =~= list
        &&& n.event_bus@ =~= o.event_bus@.push(AppEvent::GuildChanged)
        &&& forall|i: int| 0 <= i < list.len() ==> n.tabs.has_guild(#[trigger] list[i].guild.guild_id)
        &&& forall|j: int, c: int|
            #![trigger list[j].channels@[c]]
            0 <= j < list.len() && 0 <= c < list[j].channels@.len() ==> channel_known(
                n.tabs,
                list[j].guild.guild_id,
                list[j].channels@[c].channel_id,
            )
    }

    fn guilds_listed(&mut self, guilds: Vec<GuildWithChannels>)
        requires
            old(self).wf(),
        ensures
            final(self).wf(),
            MainWindow::guilds_taken(*old(self), *final(self), guilds@),
    {
        self.connection.set_connected();
        self.panels.set_app_status(AppStatus::Fetching);
        let mut i: usize = 0;
        while i < guilds.len()
            invariant
                i <= guilds.len(),
                self.tabs.wf(),
                self.panels == (PanelStatus { app_status: AppStatus::Fetching, ..old(self).panels }),
                self.panels.wf(),
                self.panels.dot_count <= 3,
                self.connection.connected,
                self.event_bus == old(self).event_bus,
                forall|j: int| 0 <= j < i ==> self.tabs.has_guild(#[trigger] guilds@[j].guild.guild_id),
                forall|j: int, c: int|
                    #![trigger guilds@[j].channels@[c]]
                    0 <= j < i && 0 <= c < guilds@[j].channels@.len() ==> channel_known(
                        self.tabs,
                        guilds@[j].guild.guild_id,
                        guilds@[j].channels@[c].channel_id,
                    ),
            decreases guilds.len() - i,
        {
            let id = guilds[i].guild.guild_id;
            let ghost t0 = self.tabs;
            self.tabs.set_data(id);
            let ghost t1 = self.tabs;
            proof {
                lemma_set_data_keeps(t0, t1, id);
            }
            self.tabs.set_channel_map(id, copy_channels(&guilds[i].channels));
            let ghost t2 = self.tabs;
            proof {
                crate::tab_handler::lemma_replaced_index(t1.guilds@, t2.guilds@, id, id);
            }
            self.tabs.set_channel_table_channel_map(id, copy_channels(&guilds[i].channels));
            proof {
                lemma_known_after_learning(t1, t2, self.tabs, id, guilds@[i as int].channels@);
                crate::tab_handler::lemma_replaced_index(t2.guilds@, self.tabs.guilds@, id, id);
                assert forall|j: int| 0 <= j <= i implies self.tabs.has_guild(#[trigger] guilds@[j].guild.guild_id) by {
                    if j < i {
                        assert(t0.has_guild(guilds@[j].guild.guild_id));
                        assert(t1.has_guild(guilds@[j].guild.guild_id));
                        crate::tab_handler::lemma_replaced_index(t1.guilds@, t2.guilds@, id, guilds@[j].guild.guild_id);
                        crate::tab_handler::lemma_replaced_index(t2.guilds@, self.tabs.guilds@, id, guilds@[j].guild.guild_id);
                    }
                }
                assert forall|j: int, c: int|
                    #![trigger guilds@[j].channels@[c]]
                    0 <= j <= i && 0 <= c < guilds@[j].channels@.len() implies channel_known(
                        self.tabs,
                        guilds@[j].guild.guild_id,
                        guilds@[j].channels@[c].channel_id,
                    ) by {
                    if j < i {
                        assert(channel_known(t0, guilds@[j].guild.guild_id, guilds@[j].channels@[c].channel_id));
                    }
                }
            }
            i = i + 1;
        }
        self.panels.set_guild_channels(guilds);
        self.event_bus.publish(AppEvent::GuildChanged);
    }

    /// What a page `ms` of messages of guild `g` (page number `p`) did: the
    /// selected guild's fetch status notes the page (the last, not full, page
    /// marks the messages fetched, sets the status to idle when everything
    /// is fetched, and asks for the reload of every tab of `g`), a full page
    /// asks for the next one, and each message was handed to the tabs of its
    /// own guild, in order (see [`messages_outcome`]). While no guild is
    /// ready, nothing changes.
    pub open spec fn messages_page_handled(o: MainWindow, n: MainWindow, g: i64, ms: Seq<MessageWithUser>, p: u64) -> bool {
        let full = ms.len() == PAGE_VALUE;
        let st = page_noted(selected_status(o.panels), 0, p, !full);
        if !o.ready() {
            n == o
        } else {
            &&& selected_status(n.panels) == st
            &&& n.panels.guild_channels@ == o.panels.guild_channels@
            &&& n.panels.selected_guild == o.panels.selected_guild
            &&& n.outbox@ == if full && o.ws_open {
                o.outbox@.push(Request::GetMessages { guild_id: g, page: vstd::wrapping::u64_specs::wrapping_add(p, 1) })
            } else {
                o.outbox@
            }
            &&& !full ==> reloads_asked(n.event_bus@, g, true)
            &&& !full ==> n.panels.app_status == if st.messages && st.counts && st.activities {
                AppStatus::Idle
            } else {
                o.panels.app_status
            }
            &&& exists|trace: Seq<(TabHandler, Seq<AppEvent>)>| #[trigger] messages_outcome(o, n, g, ms, trace)
        }
    }

    /// What a page `cs` of member counts of guild `g` did: the page is noted;
    /// an empty page marks the counts fetched; a full page asks for the next
    /// one; a last page with counts marks them fetched and asks for the member
    /// activities when they are not fetched yet. The status turns idle when
    /// everything is fetched; the counts went to the guild's overview (see
    /// [`counts_outcome`]).
    pub open spec fn counts_page_handled(o: MainWindow, n: MainWindow, g: i64, cs: Seq<MemberCount>, p: u64) -> bool {
        let full = cs.len() == PAGE_VALUE;
        let len = cs.len();
        let st = page_noted(selected_status(o.panels), 1, p, !full);
        if !o.ready() {
            n == o
        } else {
            &&& selected_status(n.panels) == st
            &&& n.panels.guild_channels@ == o.panels.guild_channels@
            &&& n.panels.selected_guild == o.panels.selected_guild
            &&& n.outbox@ == if !o.ws_open || len == 0 {
                o.outbox@
            } else if full {
                o.outbox@.push(Request::GetGuildMemberCount { guild_id: g, page: vstd::wrapping::u64_specs::wrapping_add(p, 1) })
            } else if !st.activities {
                o.outbox@.push(Request::GetGuildMemberActivity { guild_id: g, page: 1 })
            } else {
                o.outbox@
            }
            &&& !full ==> n.panels.app_status == if st.messages && st.counts && st.activities {
                AppStatus::Idle
            } else {
                o.panels.app_status
            }
            &&& other_tabs_kept(o.tabs, n.tabs, g)
            &&& exists|trace: Seq<TabHandler>| #[trigger] counts_outcome(o, n, g, cs, trace)
        }
    }

    /// What a page `acts` of member activities of guild `g` did: the page is
    /// noted, a last page marks them fetched (and the status idle when
    /// everything is fetched), a full page asks for the next page with a
    /// member count request, and the activities went to the guild's overview
    /// (see [`activities_outcome`]).
    pub open spec fn activities_page_handled(o: MainWindow, n: MainWindow, g: i64, acts: Seq<MemberActivity>, p: u64) -> bool {
        let full = acts.len() == PAGE_VALUE;
        let st = page_noted(selected_status(o.panels), 2, p, !full);
        if !o.ready() {
            n == o
        } else {
            &&& selected_status(n.panels) == st
            &&& n.panels.guild_channels@ == o.panels.guild_channels@
            &&& n.panels.selected_guild == o.panels.selected_guild
            &&& n.outbox@ == if full && o.ws_open {
                o.outbox@.push(Request::GetGuildMemberCount { guild_id: g, page: vstd::wrapping::u64_specs::wrapping_add(p, 1) })
            } else {
                o.outbox@
            }
            &&& !full ==> n.panels.app_status == if st.messages && st.counts && st.activities {
                AppStatus::Idle
            } else {
                o.panels.app_status
            }
            &&& other_tabs_kept(o.tabs, n.tabs, g)
            &&& exists|trace: Seq<TabHandler>| #[trigger] activities_outcome(o, n, g, acts, trace)
        }
    }

    #[verifier::spinoff_prover]
    #[verifier::rlimit(80)]
    fn messages_page(&mut self, guild_id: i64, messages: Vec<MessageWithUser>, page: u64)
        requires
            old(self).wf(),
        ensures
            final(self).wf(),
            MainWindow::messages_page_handled(*old(self), *final(self), guild_id, messages@, page),
    {
        if !self.is_ready() {
            return;
        }
        let ghost w0 = *self;
        self.update_status(0, Some(page));
        if messages.len() == 0 {
            self.update_status(0, None);
            self.to_set_idle();
            let ghost b_before = self.event_bus@;
            self.ask_all_reloads(guild_id, ReloadBatch::EmptyPage);
            proof {
                let trace = seq![(w0.tabs, w0.event_bus@)];
                assert(messages_taken(w0.tabs, w0.event_bus@, guild_id, messages@, trace));
                assert(messages_outcome(w0, *self, guild_id, messages@, trace));
            }
            return;
        }
        let do_new_page = messages.len() as u64 == PAGE_VALUE;
        if do_new_page {
            self.send_ws(Request::get_messages(guild_id, page.wrapping_add(1)));
        }
        let ghost p0 = self.panels;
        let ghost ob = self.outbox@;
        let ghost t0 = self.tabs;
        let ghost b0 = self.event_bus@;
        let ghost mut trace: Seq<(TabHandler, Seq<AppEvent>)> = seq![(t0, b0)];
        let mut k: usize = 0;
        proof {
            assert(messages_taken(t0, b0, guild_id, messages@.take(0), trace));
        }
        while k < messages.len()
            invariant
                k <= messages.len(),
                self.wf(),
                self.panels == p0,
                self.panels.guild_ready(),
                self.outbox@ == ob,
                self.ws_open == old(self).ws_open,
                messages_taken(t0, b0, guild_id, messages@.take(k as int), trace),
                trace.last() == (self.tabs, self.event_bus@),
            decreases messages.len() - k,
        {
            let m = &messages[k];
            proof {
                lemma_key_index(self.tabs.guilds@, m.message.guild_id);
            }
            if find_key(&self.tabs.guilds, m.message.guild_id).is_some() {
                self.dispatch_message(m);
            }
            proof {
                lemma_taken_extended(t0, b0, guild_id, messages@, k as int, trace, (self.tabs, self.event_bus@));
                trace = trace.push((self.tabs, self.event_bus@));
            }
            k = k + 1;
        }
        proof {
            assert(messages@.take(messages@.len() as int) =~= messages@);
        }
        let ghost b_loop = self.event_bus@;
        if !do_new_page {
            self.update_status(0, None);
            self.to_set_idle();
            self.ask_all_reloads(guild_id, ReloadBatch::LastPage);
        }
        proof {
            assert(trace.last() == (self.tabs, b_loop));
            assert(messages_outcome(w0, *self, guild_id, messages@, trace));
        }
    }

    #[verifier::spinoff_prover]
    #[verifier::rlimit(80)]
    fn counts_page(&mut self, guild_id: i64, counts: Vec<MemberCount>, page: u64)
        requires
            old(self).wf(),
        ensures
            final(self).wf(),
            MainWindow::counts_page_handled(*old(self), *final(self), guild_id, counts@, page),
    {
        if !self.is_ready() {
            return;
        }
        let ghost w0 = *self;
        self.update_status(1, Some(page));
        if counts.len() == 0 {
            self.update_status(1, None);
            self.to_set_idle();
            proof {
                let trace = seq![w0.tabs];
                assert(counts_taken(w0.tabs, guild_id, counts@, trace));
                assert(counts_outcome(w0, *self, guild_id, counts@, trace));
            }
            return;
        }
        let do_new_page = counts.len() as u64 == PAGE_VALUE;
        if do_new_page {
            self.send_ws(Request::get_member_counts(guild_id, page.wrapping_add(1)));
        }
        proof {
            lemma_key_index(self.tabs.guilds@, guild_id);
        }
        let ghost p0 = self.panels;
        let ghost ob = self.outbox@;
        let ghost t0 = self.tabs;
        let ghost mut trace: Seq<TabHandler> = seq![t0];
        if find_key(&self.tabs.guilds, guild_id).is_some() {
            let mut k: usize = 0;
            proof {
                assert(counts_taken(t0, guild_id, counts@.take(0), trace));
            }
            while k < counts.len()
                invariant
                    k <= counts.len(),
                    self.wf(),
                    self.tabs.has_guild(guild_id),
                    t0.has_guild(guild_id),
                    self.panels == p0,
                    self.panels.guild_ready(),
                    self.outbox@ == ob,
                    self.ws_open == old(self).ws_open,
                    other_tabs_kept(t0, self.tabs, guild_id),
                    counts_taken(t0, guild_id, counts@.take(k as int), trace),
                    trace.last() == self.tabs,
                decreases counts.len() - k,
            {
                let ghost tk = self.tabs;
                self.tabs.handle_member_count(guild_id, counts[k]);
                proof {
                    lemma_replaced_keeps_others(tk, self.tabs, guild_id);
                    lemma_kept_trans(t0, tk, self.tabs, guild_id);
                    crate::tab_handler::lemma_replaced_index(tk.guilds@, self.tabs.guilds@, guild_id, guild_id);
                    lemma_counts_extended(t0, guild_id, counts@, k as int, trace, self.tabs);
                    trace = trace.push(self.tabs);
                }
                k = k + 1;
            }
            proof {
                assert(counts@.take(counts@.len() as int) =~= counts@);
            }
            let ghost tk = self.tabs;
            self.tabs.clear_chart_labels(guild_id);
            let ghost tc = self.tabs;
            proof {
                lemma_replaced_keeps_others(tk, self.tabs, guild_id);
                lemma_kept_trans(t0, tk, self.tabs, guild_id);
                crate::tab_handler::lemma_replaced_index(tk.guilds@, self.tabs.guilds@, guild_id, guild_id);
                assert(labels_cleared(tk.tabs_of(guild_id).overview, tc.tabs_of(guild_id).overview));
            }
            if !do_new_page {
                self.tabs.fill_member_activity(guild_id);
                proof {
                    lemma_replaced_keeps_others(tc, self.tabs, guild_id);
                    lemma_kept_trans(t0, tc, self.tabs, guild_id);
                    lemma_kept_trans(tk, tc, self.tabs, guild_id);
                    crate::tab_handler::lemma_replaced_index(tc.guilds@, self.tabs.guilds@, guild_id, guild_id);
                }
            }
            proof {
                let mid = tc.tabs_of(guild_id).overview;
                assert(labels_cleared(trace.last().tabs_of(guild_id).overview, mid));
                assert(counts_outcome(w0, *self, guild_id, counts@, trace));
            }
        } else {
            proof {
                trace = Seq::new((counts@.len() + 1) as nat, |i: int| t0);
                assert(counts_taken(t0, guild_id, counts@, trace));
            }
        }
        let ghost tabs_done = self.tabs;
        if !do_new_page {
            self.update_status(1, None);
            self.to_set_idle();
            let status = self.panels.current_guild_status();
            if !status.activities() {
                self.send_ws(Request::get_member_activity(guild_id, 1));
            }
        }
        proof {
            assert(self.tabs == tabs_done);
            assert(counts_outcome(w0, *self, guild_id, counts@, trace));
        }
    }

    #[verifier::spinoff_prover]
    #[verifier::rlimit(80)]
    fn activities_page(&mut self, guild_id: i64, activities: Vec<MemberActivity>, page: u64)
        requires
            old(self).wf(),
        ensures
            final(self).wf(),
            MainWindow::activities_page_handled(*old(self), *final(self), guild_id, activities@, page),
    {
        if !self.is_ready() {
            return;
        }
        let ghost w0 = *self;
        self.update_status(2, Some(page));
        if activities.len() == 0 {
            self.update_status(2, None);
            self.to_set_idle();
            proof {
                let trace = seq![w0.tabs];
                assert(activities_taken(w0.tabs, guild_id, activities@, trace));
                assert(activities_outcome(w0, *self, guild_id, activities@, trace));
            }
            return;
        }
        let do_new_page = activities.len() as u64 == PAGE_VALUE;
        if do_new_page {
            self.send_ws(Request::get_member_counts(guild_id, page.wrapping_add(1)));
        }
        proof {
            lemma_key_index(self.tabs.guilds@, guild_id);
        }
        let ghost p0 = self.panels;
        let ghost ob = self.outbox@;
        let ghost t0 = self.tabs;
        let ghost mut trace: Seq<TabHandler> = seq![t0];
        if find_key(&self.tabs.guilds, guild_id).is_some() {
            let mut k: usize = 0;
            proof {
                assert(activities_taken(t0, guild_id, activities@.take(0), trace));
            }
            while k < activities.len()
                invariant
                    k <= activities.len(),
                    self.wf(),
                    self.tabs.has_guild(guild_id),
                    t0.has_guild(guild_id),
                    self.panels == p0,
                    self.panels.guild_ready(),
                    self.outbox@ == ob,
                    self.ws_open == old(self).ws_open,
                    other_tabs_kept(t0, self.tabs, guild_id),
                    activities_taken(t0, guild_id, activities@.take(k as int), trace),
                    trace.last() == self.tabs,
                decreases activities.len() - k,
            {
                let ghost tk = self.tabs;
                self.tabs.handle_member_activity(guild_id, activities[k]);
                proof {
                    lemma_replaced_keeps_others(tk, self.tabs, guild_id);
                    lemma_kept_trans(t0, tk, self.tabs, guild_id);
                    crate::tab_handler::lemma_replaced_index(tk.guilds@, self.tabs.guilds@, guild_id, guild_id);
                    lemma_activities_extended(t0, guild_id, activities@, k as int, trace, self.tabs);
                    trace = trace.push(self.tabs);
                }
                k = k + 1;
            }
            proof {
                assert(activities@.take(activities@.len() as int) =~= activities@);
            }
            let ghost tk = self.tabs;
            self.tabs.clear_chart_labels(guild_id);
            proof {
                lemma_replaced_keeps_others(tk, self.tabs, guild_id);
                lemma_kept_trans(t0, tk, self.tabs, guild_id);
                crate::tab_handler::lemma_replaced_index(tk.guilds@, self.tabs.guilds@, guild_id, guild_id);
                assert(activities_outcome(w0, *self, guild_id, activities@, trace));
            }
        } else {
            proof {
                trace = Seq::new((activities@.len() + 1) as nat, |i: int| t0);
                assert(activities_taken(t0, guild_id, activities@, trace));
            }
        }
        let ghost tabs_done = self.tabs;
        if !do_new_page {
            self.update_status(2, None);
            self.to_set_idle();
        }
        proof {
            assert(self.tabs == tabs_done);
            assert(activities_outcome(w0, *self, guild_id, activities@, trace));
        }
    }

    /// Hands one message to the tabs of its guild, in the order the tabs
    /// count: user table, channel table, overview, message chart, user chart,
    /// word table.
    fn dispatch_message(&mut self, m: &MessageWithUser)
        requires
            old(self).wf(),
            old(self).tabs.has_guild(m.message.guild_id),
        ensures
            final(self).wf(),
            final(self).panels == old(self).panels,
            final(self).connection == old(self).connection,
            final(self).outbox@ == old(self).outbox@,
            final(self).ws_open == old(self).ws_open,
            forall|id: i64| old(self).tabs.has_guild(id) ==> final(self).tabs.has_guild(id),
            message_dispatched(old(self).tabs, final(self).tabs, *m, old(self).event_bus@, final(self).event_bus@),
    {
        let g = m.message.guild_id;
        let ghost h0 = self.tabs;
        let ghost b0 = self.event_bus@;
        self.tabs.handle_message(m, &mut self.event_bus);
        let ghost h1 = self.tabs;
        let ghost b1 = self.event_bus@;
        proof {
            lemma_replaced_keeps_others(h0, h1, g);
            crate::tab_handler::lemma_replaced_index(h0.guilds@, h1.guilds@, g, g);
        }
        self.tabs.handle_message_channel_table(m, &mut self.event_bus);
        let ghost h2 = self.tabs;
        let ghost b2 = self.event_bus@;
        proof {
            lemma_replaced_keeps_others(h1, h2, g);
            crate::tab_handler::lemma_replaced_index(h1.guilds@, h2.guilds@, g, g);
        }
        self.tabs.handle_message_overview(m, &mut self.event_bus);
        let ghost h3 = self.tabs;
        let ghost b3 = self.event_bus@;
        proof {
            lemma_replaced_keeps_others(h2, h3, g);
            crate::tab_handler::lemma_replaced_index(h2.guilds@, h3.guilds@, g, g);
        }
        self.tabs.handle_message_message_chart(m, &mut self.event_bus);
        let ghost h4 = self.tabs;
        let ghost b4 = self.event_bus@;
        proof {
            lemma_replaced_keeps_others(h3, h4, g);
            crate::tab_handler::lemma_replaced_index(h3.guilds@, h4.guilds@, g, g);
        }
        self.tabs.handle_message_user_chart(m, &mut self.event_bus);
        let ghost h5 = self.tabs;
        let ghost b5 = self.event_bus@;
        proof {
            lemma_replaced_keeps_others(h4, h5, g);
            crate::tab_handler::lemma_replaced_index(h4.guilds@, h5.guilds@, g, g);
        }
        self.tabs.handle_message_word_table(m, &mut self.event_bus);
        let ghost h6 = self.tabs;
        proof {
            lemma_replaced_keeps_others(h5, h6, g);
            crate::tab_handler::lemma_replaced_index(h5.guilds@, h6.guilds@, g, g);
            lemma_kept_trans(h0, h1, h2, g);
            lemma_kept_trans(h0, h2, h3, g);
            lemma_kept_trans(h0, h3, h4, g);
            lemma_kept_trans(h0, h4, h5, g);
            lemma_kept_trans(h0, h5, h6, g);
            assert forall|id: i64| h0.has_guild(id) implies h6.has_guild(id) by {
                if id != g {
                    assert(h0.has_guild(id));
                }
            }
            let t0 = h0.tabs_of(g);
            let t6 = h6.tabs_of(g);
            assert(h1.tabs_of(g) == TabHandler::new_tabs(h0, h1, g));
            assert(h2.tabs_of(g) == TabHandler::new_tabs(h1, h2, g));
            assert(h3.tabs_of(g) == TabHandler::new_tabs(h2, h3, g));
            assert(h4.tabs_of(g) == TabHandler::new_tabs(h3, h4, g));
            assert(h5.tabs_of(g) == TabHandler::new_tabs(h4, h5, g));
            assert(h6.tabs_of(g) == TabHandler::new_tabs(h5, h6, g));
            assert(t6.user_table == h1.tabs_of(g).user_table);
            assert(t6.channel_table == h2.tabs_of(g).channel_table);
            assert(t6.overview == h3.tabs_of(g).overview);
            assert(t6.message_chart == h4.tabs_of(g).message_chart);
            assert(t6.user_chart == h5.tabs_of(g).user_chart);
            assert(h1.tabs_of(g).channel_table == t0.channel_table);
            assert(h2.tabs_of(g).overview == t0.overview);
            assert(h3.tabs_of(g).message_chart == t0.message_chart);
            assert(h4.tabs_of(g).user_chart == t0.user_chart);
            assert(h5.tabs_of(g).word_table == t0.word_table);
            assert(tabs_took(t0, t6, *m, b0, (b1, b2, b3, b4, b5), self.event_bus@));
        }
    }
}

} // verus!

verus! {

impl MainWindow {
    /// The websocket connection was closed.
    pub fn ws_closed(&mut self)
        ensures
            !final(self).ws_open,
            final(self).connection == (Connection { connected: false, connecting: false, ..old(self).connection }),
            final(self).panels.app_status matches AppStatus::FailedWs(m) && m@ == "The websocket connection was closed"@,
            final(self).panels == (PanelStatus { app_status: final(self).panels.app_status, ..old(self).panels }),
            final(self).tabs == old(self).tabs,
            final(self).outbox@ == old(self).outbox@,
    {
        self.remove_channels();
        self.connection.failed_connection();
        self.panels.set_app_status(AppStatus::FailedWs(String::from_str("The websocket connection was closed")));
    }

    /// The websocket connection failed with `reason`.
    pub fn ws_error(&mut self, reason: String)
        ensures
            !final(self).ws_open,
            final(self).connection == (Connection { connected: false, connecting: false, ..old(self).connection }),
            final(self).panels == (PanelStatus { app_status: AppStatus::FailedWs(reason), ..old(self).panels }),
            final(self).tabs == old(self).tabs,
            final(self).outbox@ == old(self).outbox@,
    {
        self.panels.set_app_status(AppStatus::FailedWs(reason));
        self.remove_channels();
        self.connection.failed_connection();
    }

    /// The websocket connection opened: asks the server to start.
    pub fn ws_opened(&mut self)
        ensures
            final(self).outbox@ == if old(self).ws_open {
                old(self).outbox@.push(
                    if old(self).connection.no_login { Request::StartConnectionNoLogin } else { Request::StartConnection },
                )
            } else {
                old(self).outbox@
            },
            *final(self) == (MainWindow { outbox: final(self).outbox, ..*old(self) }),
    {
        if self.connection.no_login() {
            self.send_ws(Request::start_no_login());
        } else {
            self.send_ws(Request::start());
        }
    }

    /// A text message arrived: the status dots advance, and a reply that could
    /// be read (and whose status and content agree) is handled.
    pub fn ws_text_received(&mut self, reply: Option<WsResponse>) -> (r: Option<WindowAction>)
        requires
            old(self).wf(),
        ensures
            final(self).wf(),
            r is Some ==> (reply matches Some(x) && x.response is ConnectionSuccess),
            match reply {
                Some(x) => if reply_consistent(x) {
                    MainWindow::reply_handled(dotted(*old(self)), *final(self), x, r)
                } else {
                    *final(self) == dotted(*old(self)) && r is None
                },
                None => *final(self) == dotted(*old(self)) && r is None,
            },
    {
        self.panels.next_dot();
        match reply {
            Some(response) => {
                if response.status.is_error() == (match &response.response {
                    Response::Error(_) => true,
                    _ => false,
                }) {
                    self.handle_ws_message(response)
                } else {
                    None
                }
            },
            None => None,
        }
    }
}

} // verus!
