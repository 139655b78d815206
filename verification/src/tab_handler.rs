//! The tabs of every guild, the reloads waiting for their tab to be shown, and
//! the routing of incoming data to the tabs.
use vstd::prelude::*;
use crate::aggregate::sums_by_name;
use crate::calendar::{day_of_time, is_local_convertible, local_convertible, local_near, local_time_of, monday_of, valid_time, MAX_DAY, MIN_DAY};
use crate::channel_table::{channel_rows, entries_view, rows_view, ChannelTable};
use crate::chart_buckets::{counted_channels, selection_valid};
use crate::date_handler::DateHandler;
use crate::event_bus::EventBus;
use crate::guild_channel::{copy_channels, Channel};
use crate::keyed::{find_key, key_index, lemma_key_index};
use crate::member_data::{MemberActivity, MemberCount};
use crate::message_chart::{data_view, reloaded_data, MessageChart};
use crate::message_user::MessageWithUser;
use crate::overview::{acts_view, deleted_in_range, items_in_range, member_count_defined, member_count_on, summary_of, usable_time, ChartLabel, Overview};
use crate::state::{AppEvent, TabState};
use crate::user_chart::{user_reloaded, UserChart};
use crate::user_table::{messages_within, user_entries_view, user_rows, user_rows_view, UserTable};
use crate::word_table::{phrase_hits, texts_view, word_rows_view, WordTable};

verus! {

/// A tab of a guild that waits to be reloaded.
#[derive(Clone, Copy, Debug, PartialEq, Eq, Structural)]
pub enum ReloadTab {
    Overview(i64),
    UserTable(i64),
    ChannelTable(i64),
    WordTable(i64),
    MessageChart(i64),
    UserChart(i64),
}

/// A reload waiting for its tab to be shown.
#[derive(Clone, Copy, Debug, PartialEq, Eq, Structural)]
pub struct PendingReload {
    pub guild_id: i64,
    pub reload_type: ReloadTab,
}

/// The tabs of one guild.
pub struct GuildTabs {
    pub overview: Overview,
    pub user_table: UserTable,
    pub channel_table: ChannelTable,
    pub message_chart: MessageChart,
    pub user_chart: UserChart,
    pub word_table: WordTable,
}

impl GuildTabs {
    pub open spec fn wf(&self) -> bool {
        &&& self.overview.wf()
        &&& self.user_table.wf()
        &&& self.message_chart.wf()
        &&& self.user_chart.wf()
        &&& self.word_table.wf()
    }

    /// Every tab is as it is before the guild has any data.
    pub open spec fn is_fresh(&self) -> bool {
        &&& self.overview.is_fresh()
        &&& self.user_table.is_fresh()
        &&& self.channel_table.is_fresh()
        &&& self.message_chart.is_fresh()
        &&& self.user_chart.is_fresh()
        &&& self.word_table.is_fresh()
    }
}

impl Default for GuildTabs {
    fn default() -> (r: GuildTabs)
        ensures
            r.wf(),
            r.is_fresh(),
    {
        GuildTabs {
            overview: Overview::default(),
            user_table: UserTable::default(),
            channel_table: ChannelTable::default(),
            message_chart: MessageChart::default(),
            user_chart: UserChart::default(),
            word_table: WordTable::default(),
        }
    }
}

/// No two waiting reloads are of the same tab.
pub open spec fn distinct_reloads(s: Seq<PendingReload>) -> bool {
    forall|i: int, j: int| 0 <= i < j < s.len() ==> s[i].reload_type != s[j].reload_type
}

/// The tabs of every guild, keyed by guild id.
pub struct TabHandler {
    pub current_guild: i64,
    pub guilds: Vec<(i64, GuildTabs)>,
    pub pending_reloads: Vec<PendingReload>,
}

impl Default for TabHandler {
    fn default() -> (r: TabHandler)
        ensures
            r.wf(),
            r.current_guild == 0,
            r.guilds@.len() == 0,
            r.pending_reloads@.len() == 0,
    {
        TabHandler { current_guild: 0, guilds: Vec::new(), pending_reloads: Vec::new() }
    }
}

/// The position of the tabs of guild `id`, or -1.
pub open spec fn guild_index(s: Seq<(i64, GuildTabs)>, id: i64) -> int {
    key_index(s, id)
}

impl TabHandler {
    pub open spec fn wf(&self) -> bool {
        &&& forall|i: int| 0 <= i < self.guilds@.len() ==> (#[trigger] self.guilds@[i]).1.wf()
        &&& distinct_reloads(self.pending_reloads@)
    }

    /// Whether guild `id` has tabs.
    pub open spec fn has_guild(&self, id: i64) -> bool {
        guild_index(self.guilds@, id) >= 0
    }

    /// The tabs of guild `id`.
    pub open spec fn tabs_of(&self, id: i64) -> GuildTabs {
        self.guilds@[guild_index(self.guilds@, id)].1
    }

    /// Queues a reload unless one of the same tab is already waiting.
    pub fn add_reload(&mut self, guild_id: i64, reload_type: ReloadTab)
        requires
            old(self).wf(),
        ensures
            final(self).wf(),
            final(self).pending_reloads@ == if exists|i: int|
                0 <= i < old(self).pending_reloads@.len() && (#[trigger] old(self).pending_reloads@[i]).reload_type
                    == reload_type {
                old(self).pending_reloads@
            } else {
                old(self).pending_reloads@.push(PendingReload { guild_id, reload_type })
            },
            final(self).guilds@ == old(self).guilds@,
            final(self).current_guild == old(self).current_guild,
    {
        let mut i: usize = 0;
        while i < self.pending_reloads.len()
            invariant
                i <= self.pending_reloads.len(),
                self.pending_reloads@ == old(self).pending_reloads@,
                self.guilds@ == old(self).guilds@,
                self.current_guild == old(self).current_guild,
                old(self).wf(),
                forall|j: int| 0 <= j < i ==> (#[trigger] self.pending_reloads@[j]).reload_type != reload_type,
            decreases self.pending_reloads.len() - i,
        {
            if self.pending_reloads[i].reload_type == reload_type {
                return;
            }
            i = i + 1;
        }
        self.pending_reloads.push(PendingReload { guild_id, reload_type });
    }

    /// Makes sure guild `id` has tabs (new ones start empty).
    pub fn set_data(&mut self, id: i64)
        requires
            old(self).wf(),
        ensures
            final(self).wf(),
            final(self).guilds@ == if old(self).has_guild(id) {
                old(self).guilds@
            } else {
                old(self).guilds@.push((id, final(self).guilds@.last().1))
            },
            !old(self).has_guild(id) ==> final(self).tabs_of(id).wf() && final(self).tabs_of(id).is_fresh(),
            final(self).has_guild(id),
            final(self).pending_reloads@ == old(self).pending_reloads@,
            final(self).current_guild == old(self).current_guild,
    {
        proof {
            lemma_key_index(self.guilds@, id);
        }
        if find_key(&self.guilds, id).is_none() {
            let ghost before = self.guilds@;
            self.guilds.push((id, GuildTabs::default()));
            proof {
                lemma_key_index(self.guilds@, id);
                assert forall|j: int| 0 <= j < before.len() implies self.guilds@[j] == before[j] by {}
                assert(self.guilds@[before.len() as int].0 == id);
                if key_index(self.guilds@, id) < before.len() {
                    assert(self.guilds@[key_index(self.guilds@, id)] == before[key_index(self.guilds@, id)]);
                }
            }
        }
    }

    pub fn set_current_guild(&mut self, id: i64)
        ensures
            *final(self) == (TabHandler { current_guild: id, ..*old(self) }),
    {
        self.current_guild = id;
    }

    /// Resets the tabs of guild `key`, if it has any, to those of a guild
    /// without data; every other guild keeps its tabs.
    pub fn clear_key_data(&mut self, key: i64)
        requires
            old(self).wf(),
        ensures
            final(self).wf(),
            final(self).guilds@.len() == old(self).guilds@.len(),
            forall|i: int| 0 <= i < old(self).guilds@.len() && old(self).guilds@[i].0 != key ==> final(self).guilds@[i]
                == old(self).guilds@[i],
            forall|i: int| 0 <= i < old(self).guilds@.len() && old(self).guilds@[i].0 == key ==> final(self).guilds@[i].0
                == key && final(self).guilds@[i].1.wf() && final(self).guilds@[i].1.is_fresh(),
            final(self).pending_reloads@ == old(self).pending_reloads@,
            final(self).current_guild == old(self).current_guild,
    {
        let mut i: usize = 0;
        while i < self.guilds.len()
            invariant
                i <= self.guilds.len(),
                self.guilds@.len() == old(self).guilds@.len(),
                self.pending_reloads@ == old(self).pending_reloads@,
                self.current_guild == old(self).current_guild,
                distinct_reloads(self.pending_reloads@),
                forall|j: int| 0 <= j < self.guilds@.len() ==> (#[trigger] self.guilds@[j]).1.wf(),
                forall|j: int| i <= j < old(self).guilds@.len() ==> self.guilds@[j] == old(self).guilds@[j],
                forall|j: int| 0 <= j < i && old(self).guilds@[j].0 != key ==> self.guilds@[j] == old(self).guilds@[j],
                forall|j: int| 0 <= j < i && old(self).guilds@[j].0 == key ==> self.guilds@[j].0 == key
                    && self.guilds@[j].1.is_fresh(),
            decreases self.guilds.len() - i,
        {
            if self.guilds[i].0 == key {
                self.guilds.set(i, (key, GuildTabs::default()));
            }
            i = i + 1;
        }
    }
}

} // verus!

verus! {

/// Whether a waiting reload runs now: it is for the current guild and its tab
/// is the one shown.
pub open spec fn runs_now(p: PendingReload, cur: i64, state: TabState) -> bool {
    p.guild_id == cur && match p.reload_type {
        ReloadTab::Overview(g) => g == cur && state == TabState::Overview,
        ReloadTab::UserTable(g) => g == cur && state == TabState::UserTable,
        ReloadTab::ChannelTable(g) => g == cur && state == TabState::ChannelTable,
        ReloadTab::WordTable(g) => g == cur && state == TabState::CommonWords,
        ReloadTab::MessageChart(g) => g == cur && state == TabState::MessageChart,
        ReloadTab::UserChart(g) => g == cur && state == TabState::UserChart,
    }
}

/// The reloads that keep waiting, in order.
pub open spec fn still_waiting(s: Seq<PendingReload>, cur: i64, state: TabState) -> Seq<PendingReload>
    decreases s.len(),
{
    if s.len() == 0 {
        Seq::empty()
    } else {
        let r = still_waiting(s.drop_last(), cur, state);
        if runs_now(s.last(), cur, state) {
            r
        } else {
            r.push(s.last())
        }
    }
}

/// Whether a reload of the tab `kind` of guild `cur` runs now.
pub open spec fn reload_runs(s: Seq<PendingReload>, cur: i64, state: TabState, kind: ReloadTab) -> bool {
    exists|i: int| 0 <= i < s.len() && (#[trigger] s[i]).reload_type == kind && runs_now(s[i], cur, state)
}

/// The overview after a reload (when the member count at the To date can be
/// found; else unchanged).
pub open spec fn overview_reloaded(o: Overview, n: Overview) -> bool {
    if member_count_defined(o.count.daily_e(), o.date_handler.to) {
        &&& summary_of(
            n.data,
            items_in_range(acts_view(o.activity_data@), o.date_handler),
            deleted_in_range(acts_view(o.activity_data@), o.date_handler),
            member_count_on(o.count.daily_e(), o.date_handler.to),
            o.channel_map@,
            ""@,
        )
        &&& n.chart_labels@ == Seq::<ChartLabel>::empty()
        &&& n.reload_count == 0
        &&& n.activity_data == o.activity_data
        &&& n.count == o.count
        &&& n.date_handler == o.date_handler
        &&& n.wf()
    } else {
        n == o
    }
}

/// The user table after a reload (when its message total fits; else unchanged).
pub open spec fn user_table_reloaded(o: UserTable, n: UserTable) -> bool {
    if messages_within(user_entries_view(o.user_data@), o.date_handler) <= u32::MAX {
        &&& user_rows_view(n.rows@) == user_rows(user_entries_view(o.user_data@), o.date_handler)
        &&& n.total_message == messages_within(user_entries_view(o.user_data@), o.date_handler)
        &&& n.reload_count == 0
        &&& n.user_data@ == o.user_data@
        &&& n.date_handler == o.date_handler
        &&& n.wf()
    } else {
        n == o
    }
}

/// The channel table after a reload.
pub open spec fn channel_table_reloaded(o: ChannelTable, n: ChannelTable) -> bool {
    &&& rows_view(n.rows@) == channel_rows(entries_view(o.channel_data@), o.date_handler)
    &&& n.reload_count == 0
    &&& n.channel_data@ == o.channel_data@
    &&& n.date_handler == o.date_handler
    &&& n.channel_map@ == o.channel_map@
}

/// The word table after a reload (when its channel selection is valid; else unchanged).
pub open spec fn word_table_reloaded(o: WordTable, n: WordTable) -> bool {
    if selection_valid(o.channels@, o.selected_channels@) {
        &&& word_rows_view(n.rows@) == sums_by_name(
            phrase_hits(
                texts_view(o.stripped_contents@),
                o.date_handler,
                counted_channels(o.channels@, o.selected_channels@),
                o.window_size as nat,
            ),
        )
        &&& n.reload_count == 0
        &&& n.stripped_contents@ == o.stripped_contents@
        &&& n.date_handler == o.date_handler
        &&& n.wf()
    } else {
        n == o
    }
}

/// The message chart after a reload (when it can run; else unchanged).
pub open spec fn message_chart_reloaded(o: MessageChart, n: MessageChart) -> bool {
    if o.can_reload() {
        &&& data_view(n.chart_data@) == reloaded_data(
            data_view(o.chart_data@),
            o.points_for(o.chart_type),
            o.buckets.keys_for(o.chart_type),
            counted_channels(o.channels@, o.selected_channels@),
        )
        &&& n.reload_count == 0
        &&& n.chart_labels@.len() == 0
        &&& n.chart_type == o.chart_type
        &&& n.buckets == o.buckets
        &&& n.wf()
    } else {
        n == o
    }
}

/// The user chart after a reload.
pub open spec fn user_chart_reloaded(o: UserChart, n: UserChart) -> bool {
    &&& data_view(n.chart_data@) == user_reloaded(
        data_view(o.chart_data@),
        o.data_for(o.chart_type),
        o.buckets.keys_for(o.chart_type),
    )
    &&& n.reload_count == 0
    &&& n.chart_labels@.len() == 0
    &&& n.chart_type == o.chart_type
    &&& n.buckets == o.buckets
    &&& n.wf()
}

/// Tabs after the reloads that run: each tab reloaded when its reload runs,
/// else unchanged.
pub open spec fn tabs_reloaded(o: GuildTabs, n: GuildTabs, s: Seq<PendingReload>, cur: i64, state: TabState) -> bool {
    &&& if reload_runs(s, cur, state, ReloadTab::Overview(cur)) {
        overview_reloaded(o.overview, n.overview)
    } else {
        n.overview == o.overview
    }
    &&& if reload_runs(s, cur, state, ReloadTab::UserTable(cur)) {
        user_table_reloaded(o.user_table, n.user_table)
    } else {
        n.user_table == o.user_table
    }
    &&& if reload_runs(s, cur, state, ReloadTab::ChannelTable(cur)) {
        channel_table_reloaded(o.channel_table, n.channel_table)
    } else {
        n.channel_table == o.channel_table
    }
    &&& if reload_runs(s, cur, state, ReloadTab::WordTable(cur)) {
        word_table_reloaded(o.word_table, n.word_table)
    } else {
        n.word_table == o.word_table
    }
    &&& if reload_runs(s, cur, state, ReloadTab::MessageChart(cur)) {
        message_chart_reloaded(o.message_chart, n.message_chart)
    } else {
        n.message_chart == o.message_chart
    }
    &&& if reload_runs(s, cur, state, ReloadTab::UserChart(cur)) {
        user_chart_reloaded(o.user_chart, n.user_chart)
    } else {
        n.user_chart == o.user_chart
    }
}

/// Runs one reload on a guild's tabs.
fn run_reload(tabs: &mut GuildTabs, kind: ReloadTab)
    requires
        old(tabs).wf(),
    ensures
        final(tabs).wf(),
        match kind {
            ReloadTab::Overview(_) => overview_reloaded(old(tabs).overview, final(tabs).overview)
                && *final(tabs) == (GuildTabs { overview: final(tabs).overview, ..*old(tabs) }),
            ReloadTab::UserTable(_) => user_table_reloaded(old(tabs).user_table, final(tabs).user_table)
                && *final(tabs) == (GuildTabs { user_table: final(tabs).user_table, ..*old(tabs) }),
            ReloadTab::ChannelTable(_) => channel_table_reloaded(old(tabs).channel_table, final(tabs).channel_table)
                && *final(tabs) == (GuildTabs { channel_table: final(tabs).channel_table, ..*old(tabs) }),
            ReloadTab::WordTable(_) => word_table_reloaded(old(tabs).word_table, final(tabs).word_table)
                && *final(tabs) == (GuildTabs { word_table: final(tabs).word_table, ..*old(tabs) }),
            ReloadTab::MessageChart(_) => message_chart_reloaded(old(tabs).message_chart, final(tabs).message_chart)
                && *final(tabs) == (GuildTabs { message_chart: final(tabs).message_chart, ..*old(tabs) }),
            ReloadTab::UserChart(_) => user_chart_reloaded(old(tabs).user_chart, final(tabs).user_chart)
                && *final(tabs) == (GuildTabs { user_chart: final(tabs).user_chart, ..*old(tabs) }),
        },
{
    match kind {
        ReloadTab::Overview(_) => {
            tabs.overview.try_reload_overview();
        },
        ReloadTab::UserTable(_) => {
            tabs.user_table.try_create_rows();
        },
        ReloadTab::ChannelTable(_) => {
            tabs.channel_table.create_rows();
        },
        ReloadTab::WordTable(_) => {
            tabs.word_table.try_create_rows();
        },
        ReloadTab::MessageChart(_) => {
            tabs.message_chart.try_reload();
        },
        ReloadTab::UserChart(_) => {
            tabs.user_chart.reload_chart();
        },
    }
}

} // verus!

verus! {

proof fn lemma_runs_step(s: Seq<PendingReload>, i: int, cur: i64, state: TabState, kind: ReloadTab)
    requires
        distinct_reloads(s),
        0 <= i < s.len(),
    ensures
        reload_runs(s.take(i + 1), cur, state, kind) == (reload_runs(s.take(i), cur, state, kind) || (
        s[i].reload_type == kind && runs_now(s[i], cur, state))),
        s[i].reload_type == kind ==> !reload_runs(s.take(i), cur, state, kind),
{
    let a = s.take(i);
    let b = s.take(i + 1);
    if reload_runs(a, cur, state, kind) {
        let j = choose|j: int| 0 <= j < a.len() && (#[trigger] a[j]).reload_type == kind && runs_now(a[j], cur, state);
        assert(b[j] == a[j]);
    }
    if reload_runs(b, cur, state, kind) {
        let j = choose|j: int| 0 <= j < b.len() && (#[trigger] b[j]).reload_type == kind && runs_now(b[j], cur, state);
        if j < i {
            assert(a[j] == b[j]);
        }
    }
    if s[i].reload_type == kind && runs_now(s[i], cur, state) {
        assert(b[i] == s[i]);
    }
    if s[i].reload_type == kind && reload_runs(a, cur, state, kind) {
        let j = choose|j: int| 0 <= j < a.len() && (#[trigger] a[j]).reload_type == kind && runs_now(a[j], cur, state);
        assert(a[j] == s[j]);
    }
}

proof fn lemma_waiting_distinct(s: Seq<PendingReload>, cur: i64, state: TabState)
    requires
        distinct_reloads(s),
    ensures
        distinct_reloads(still_waiting(s, cur, state)),
        forall|a: int| 0 <= a < still_waiting(s, cur, state).len() ==> exists|x: int|
            0 <= x < s.len() && s[x] == #[trigger] still_waiting(s, cur, state)[a],
    decreases s.len(),
{
    if s.len() > 0 {
        let t = s.drop_last();
        assert(distinct_reloads(t)) by {
            assert forall|i: int, j: int| 0 <= i < j < t.len() implies t[i].reload_type != t[j].reload_type by {
                assert(t[i] == s[i] && t[j] == s[j]);
            }
        }
        lemma_waiting_distinct(t, cur, state);
        let r = still_waiting(t, cur, state);
        if !runs_now(s.last(), cur, state) {
            let w = r.push(s.last());
            assert forall|a: int| 0 <= a < w.len() implies exists|x: int| 0 <= x < s.len() && s[x] == #[trigger] w[a] by {
                if a < r.len() {
                    let x = choose|x: int| 0 <= x < t.len() && t[x] == r[a];
                    assert(s[x] == t[x]);
                } else {
                    assert(s[s.len() - 1] == w[a]);
                }
            }
            assert forall|i: int, j: int| 0 <= i < j < w.len() implies w[i].reload_type != w[j].reload_type by {
                if j == r.len() {
                    let x = choose|x: int| 0 <= x < t.len() && t[x] == r[i];
                    assert(s[x] == t[x]);
                    assert(x < s.len() - 1);
                } else {
                    assert(w[i] == r[i] && w[j] == r[j]);
                }
            }
        } else {
            assert forall|a: int| 0 <= a < r.len() implies exists|x: int| 0 <= x < s.len() && s[x] == #[trigger] r[a] by {
                let x = choose|x: int| 0 <= x < t.len() && t[x] == r[a];
                assert(s[x] == t[x]);
            }
        }
    }
}

proof fn lemma_nothing_runs(s: Seq<PendingReload>, cur: i64, state: TabState)
    requires
        forall|i: int| 0 <= i < s.len() ==> !runs_now(#[trigger] s[i], cur, state),
    ensures
        still_waiting(s, cur, state) == s,
    decreases s.len(),
{
    if s.len() > 0 {
        lemma_nothing_runs(s.drop_last(), cur, state);
        assert(s.drop_last().push(s.last()) =~= s);
    }
}

/// Whether a waiting reload runs now (see [`runs_now`]).
fn reload_due(p: PendingReload, cur: i64, state: TabState) -> (r: bool)
    ensures
        r == runs_now(p, cur, state),
{
    if p.guild_id != cur {
        return false;
    }
    match p.reload_type {
        ReloadTab::Overview(g) => g == cur && state == TabState::Overview,
        ReloadTab::UserTable(g) => g == cur && state == TabState::UserTable,
        ReloadTab::ChannelTable(g) => g == cur && state == TabState::ChannelTable,
        ReloadTab::WordTable(g) => g == cur && state == TabState::CommonWords,
        ReloadTab::MessageChart(g) => g == cur && state == TabState::MessageChart,
        ReloadTab::UserChart(g) => g == cur && state == TabState::UserChart,
    }
}

impl TabHandler {
    /// Runs the waiting reloads of the current guild whose tab is shown, in
    /// order; the others keep waiting.
    pub fn process_pending_reloads(&mut self, state: TabState)
        requires
            old(self).wf(),
            (exists|i: int|
                0 <= i < old(self).pending_reloads@.len() && runs_now(
                    #[trigger] old(self).pending_reloads@[i],
                    old(self).current_guild,
                    state,
                )) ==> old(self).has_guild(old(self).current_guild),
        ensures
            final(self).wf(),
            final(self).pending_reloads@ == still_waiting(old(self).pending_reloads@, old(self).current_guild, state),
            final(self).current_guild == old(self).current_guild,
            final(self).guilds@.len() == old(self).guilds@.len(),
            forall|j: int|
                0 <= j < old(self).guilds@.len() && j != guild_index(old(self).guilds@, old(self).current_guild)
                    ==> final(self).guilds@[j] == old(self).guilds@[j],
            old(self).has_guild(old(self).current_guild) ==> ({
                let gi = guild_index(old(self).guilds@, old(self).current_guild);
                &&& final(self).guilds@[gi].0 == old(self).current_guild
                &&& tabs_reloaded(
                    old(self).guilds@[gi].1,
                    final(self).guilds@[gi].1,
                    old(self).pending_reloads@,
                    old(self).current_guild,
                    state,
                )
            }),
    {
        let cur = self.current_guild;
        let ghost s = self.pending_reloads@;
        proof {
            lemma_key_index(self.guilds@, cur);
        }
        let found = find_key(&self.guilds, cur);
        if found.is_none() {
            proof {
                assert forall|i: int| 0 <= i < s.len() implies !runs_now(#[trigger] s[i], cur, state) by {}
                lemma_nothing_runs(s, cur, state);
            }
            return;
        }
        let gi = found.unwrap();
        let ghost before = self.guilds@;
        let (gid, mut tabs) = self.guilds.remove(gi);
        let ghost t0 = tabs;
        proof {
            assert(before[gi as int].1.wf());
            assert(tabs_reloaded(t0, tabs, s.take(0), cur, state)) by {
                let e = s.take(0);
                assert(e.len() == 0);
                assert(!reload_runs(e, cur, state, ReloadTab::Overview(cur)));
                assert(!reload_runs(e, cur, state, ReloadTab::UserTable(cur)));
                assert(!reload_runs(e, cur, state, ReloadTab::ChannelTable(cur)));
                assert(!reload_runs(e, cur, state, ReloadTab::WordTable(cur)));
                assert(!reload_runs(e, cur, state, ReloadTab::MessageChart(cur)));
                assert(!reload_runs(e, cur, state, ReloadTab::UserChart(cur)));
            }
            assert(still_waiting(s.take(0), cur, state) =~= Seq::<PendingReload>::empty());
        }
        let mut remaining: Vec<PendingReload> = Vec::new();
        let mut i: usize = 0;
        while i < self.pending_reloads.len()
            invariant
                s == self.pending_reloads@,
                distinct_reloads(s),
                i <= s.len(),
                tabs.wf(),
                remaining@ == still_waiting(s.take(i as int), cur, state),
                tabs_reloaded(t0, tabs, s.take(i as int), cur, state),
            decreases self.pending_reloads.len() - i,
        {
            let p = self.pending_reloads[i];
            proof {
                assert(s.take(i + 1).drop_last() =~= s.take(i as int));
                assert(s.take(i + 1).last() == s[i as int]);
                lemma_runs_step(s, i as int, cur, state, ReloadTab::Overview(cur));
                lemma_runs_step(s, i as int, cur, state, ReloadTab::UserTable(cur));
                lemma_runs_step(s, i as int, cur, state, ReloadTab::ChannelTable(cur));
                lemma_runs_step(s, i as int, cur, state, ReloadTab::WordTable(cur));
                lemma_runs_step(s, i as int, cur, state, ReloadTab::MessageChart(cur));
                lemma_runs_step(s, i as int, cur, state, ReloadTab::UserChart(cur));
            }
            if reload_due(p, cur, state) {
                run_reload(&mut tabs, p.reload_type);
            } else {
                remaining.push(p);
            }
            i = i + 1;
        }
        proof {
            assert(s.take(s.len() as int) =~= s);
        }
        self.guilds.insert(gi, (gid, tabs));
        self.pending_reloads = remaining;
        proof {
            assert(self.guilds@ =~= before.update(gi as int, (gid, tabs)));
            assert forall|j: int| 0 <= j < self.guilds@.len() implies (#[trigger] self.guilds@[j]).1.wf() by {
                if j != gi as int {
                    assert(self.guilds@[j] == before[j]);
                }
            }
            lemma_waiting_distinct(s, cur, state);
        }
    }
}

} // verus!

verus! {

/// Only the tabs of guild `id` may differ.
pub open spec fn guild_replaced(o: Seq<(i64, GuildTabs)>, n: Seq<(i64, GuildTabs)>, id: i64) -> bool {
    &&& n.len() == o.len()
    &&& forall|j: int| 0 <= j < o.len() && j != guild_index(o, id) ==> n[j] == o[j]
    &&& n[guild_index(o, id)].0 == id
}

/// Replacing the tabs of a guild keeps where every guild is found.
pub proof fn lemma_replaced_index(o: Seq<(i64, GuildTabs)>, n: Seq<(i64, GuildTabs)>, id: i64, other: i64)
    requires
        guild_index(o, id) >= 0,
        guild_replaced(o, n, id),
    ensures
        guild_index(n, other) == guild_index(o, other),
{
    lemma_key_index(o, other);
    lemma_key_index(n, other);
    lemma_key_index(o, id);
    let gi = guild_index(o, id);
    let a = key_index(o, other);
    if a >= 0 {
        assert forall|j: int| 0 <= j < a implies (#[trigger] n[j]).0 != other by {
            if j == gi {
                assert(o[j].0 == id);
            } else {
                assert(n[j] == o[j]);
            }
        }
        if a == gi {
            assert(n[a].0 == other);
        } else {
            assert(n[a] == o[a]);
        }
        crate::keyed::lemma_first_key(n, other, a);
    } else {
        assert forall|j: int| 0 <= j < n.len() implies (#[trigger] n[j]).0 != other by {
            if j == gi {
                assert(o[j].0 == id);
            } else {
                assert(n[j] == o[j]);
            }
        }
    }
}

impl TabHandler {
    /// Takes the tabs of guild `id` out of the list.
    fn take_guild(&mut self, id: i64) -> (r: (usize, GuildTabs))
        requires
            old(self).has_guild(id),
            old(self).wf(),
        ensures
            r.0 == guild_index(old(self).guilds@, id),
            r.0 < old(self).guilds@.len(),
            r.1 == old(self).guilds@[r.0 as int].1,
            forall|j: int| 0 <= j < final(self).guilds@.len() ==> (#[trigger] final(self).guilds@[j]).1.wf(),
            distinct_reloads(final(self).pending_reloads@),
            r.1.wf(),
            final(self).guilds@ == old(self).guilds@.remove(r.0 as int),
            final(self).pending_reloads@ == old(self).pending_reloads@,
            final(self).current_guild == old(self).current_guild,
    {
        proof {
            lemma_key_index(self.guilds@, id);
        }
        let i = find_key(&self.guilds, id).unwrap();
        let ghost before = self.guilds@;
        let (_, tabs) = self.guilds.remove(i);
        proof {
            assert(before[i as int].1.wf());
            assert forall|j: int| 0 <= j < self.guilds@.len() implies (#[trigger] self.guilds@[j]).1.wf() by {
                if j < i {
                    assert(self.guilds@[j] == before[j]);
                } else {
                    assert(self.guilds@[j] == before[j + 1]);
                }
            }
        }
        (i, tabs)
    }

    /// Puts the tabs of guild `id` back where they were taken.
    fn put_guild(&mut self, i: usize, id: i64, tabs: GuildTabs)
        requires
            i <= old(self).guilds@.len(),
            tabs.wf(),
            forall|j: int| 0 <= j < old(self).guilds@.len() ==> (#[trigger] old(self).guilds@[j]).1.wf(),
            distinct_reloads(old(self).pending_reloads@),
        ensures
            final(self).guilds@ == old(self).guilds@.insert(i as int, (id, tabs)),
            final(self).wf(),
            final(self).pending_reloads@ == old(self).pending_reloads@,
            final(self).current_guild == old(self).current_guild,
    {
        self.guilds.insert(i, (id, tabs));
        proof {
            assert forall|j: int| 0 <= j < self.guilds@.len() implies (#[trigger] self.guilds@[j]).1.wf() by {
                if j < i {
                    assert(self.guilds@[j] == old(self).guilds@[j]);
                } else if j > i {
                    assert(self.guilds@[j] == old(self).guilds@[j - 1]);
                }
            }
        }
    }

    /// The list after putting new tabs of guild `id` back: only they changed.
    proof fn lemma_put_back(o: Seq<(i64, GuildTabs)>, i: int, id: i64, t: GuildTabs)
        requires
            i == guild_index(o, id),
            0 <= i < o.len(),
        ensures
            guild_replaced(o, o.remove(i).insert(i, (id, t)), id),
            o.remove(i).insert(i, (id, t))[i] == (id, t),
    {
        let n = o.remove(i).insert(i, (id, t));
        assert(n =~= o.update(i, (id, t)));
    }

    /// Gives every tab of guild `guild_id` the selected dates.
    pub fn set_date_handler(&mut self, guild_id: i64, handler: DateHandler)
        requires
            old(self).wf(),
            old(self).has_guild(guild_id),
        ensures
            final(self).wf(),
            guild_replaced(old(self).guilds@, final(self).guilds@, guild_id),
            ({
                let o = old(self).tabs_of(guild_id);
                let n = final(self).guilds@[guild_index(old(self).guilds@, guild_id)].1;
                &&& n.overview.date_handler == handler
                &&& n.overview.compare_nav.handler == (DateHandler { from: handler.to, to: handler.to, ..o.overview.compare_nav.handler })
                &&& Overview::same_but_dates(o.overview, n.overview)
                &&& n.user_table == (UserTable { date_handler: handler, ..o.user_table })
                &&& n.channel_table == (ChannelTable { date_handler: handler, ..o.channel_table })
                &&& n.message_chart == (MessageChart { date_handler: handler, ..o.message_chart })
                &&& n.user_chart == (UserChart { date_handler: handler, ..o.user_chart })
                &&& n.word_table == (WordTable { date_handler: handler, ..o.word_table })
            }),
            final(self).pending_reloads@ == old(self).pending_reloads@,
            final(self).current_guild == old(self).current_guild,
    {
        let (i, mut tabs) = self.take_guild(guild_id);
        tabs.overview.set_date_handler(handler);
        tabs.user_table.set_date_handler(handler);
        tabs.channel_table.set_date_handler(handler);
        tabs.message_chart.set_date_handler(handler);
        tabs.user_chart.set_date_handler(handler);
        tabs.word_table.set_date_handler(handler);
        proof {
            assert(tabs.overview.wf());
        }
        self.put_guild(i, guild_id, tabs);
        proof {
            Self::lemma_put_back(old(self).guilds@, i as int, guild_id, tabs);
        }
    }

    /// Gives the message chart and the word table of the current guild its channel list.
    pub fn set_channels(&mut self, channels: Vec<Channel>)
        requires
            old(self).wf(),
            old(self).has_guild(old(self).current_guild),
        ensures
            final(self).wf(),
            guild_replaced(old(self).guilds@, final(self).guilds@, old(self).current_guild),
            ({
                let o = old(self).tabs_of(old(self).current_guild);
                let n = final(self).guilds@[guild_index(old(self).guilds@, old(self).current_guild)].1;
                &&& n.message_chart.channels@ == channels@
                &&& n.message_chart == (MessageChart { channels: n.message_chart.channels, ..o.message_chart })
                &&& n.word_table.channels@ == channels@
                &&& n.word_table == (WordTable { channels: n.word_table.channels, ..o.word_table })
                &&& n.overview == o.overview && n.user_table == o.user_table
                &&& n.channel_table == o.channel_table && n.user_chart == o.user_chart
            }),
            final(self).pending_reloads@ == old(self).pending_reloads@,
            final(self).current_guild == old(self).current_guild,
    {
        let cur = self.current_guild;
        let (i, mut tabs) = self.take_guild(cur);
        tabs.message_chart.set_channels(copy_channels(&channels));
        tabs.word_table.set_channels(channels);
        self.put_guild(i, cur, tabs);
        proof {
            Self::lemma_put_back(old(self).guilds@, i as int, cur, tabs);
        }
    }

    /// Gives the message chart and the word table of the current guild the
    /// selected channel entries.
    pub fn set_selected_channels(&mut self, selected: Vec<usize>)
        requires
            old(self).wf(),
            old(self).has_guild(old(self).current_guild),
        ensures
            final(self).wf(),
            guild_replaced(old(self).guilds@, final(self).guilds@, old(self).current_guild),
            ({
                let o = old(self).tabs_of(old(self).current_guild);
                let n = final(self).guilds@[guild_index(old(self).guilds@, old(self).current_guild)].1;
                &&& n.message_chart.selected_channels@ == selected@
                &&& n.message_chart == (MessageChart { selected_channels: n.message_chart.selected_channels, ..o.message_chart })
                &&& n.word_table.selected_channels@ == selected@
                &&& n.word_table == (WordTable { selected_channels: n.word_table.selected_channels, ..o.word_table })
                &&& n.overview == o.overview && n.user_table == o.user_table
                &&& n.channel_table == o.channel_table && n.user_chart == o.user_chart
            }),
            final(self).pending_reloads@ == old(self).pending_reloads@,
            final(self).current_guild == old(self).current_guild,
    {
        let cur = self.current_guild;
        let (i, mut tabs) = self.take_guild(cur);
        let copy = selected.clone();
        proof {
            assert(copy@ =~= selected@);
        }
        tabs.message_chart.set_selected_channels(copy);
        tabs.word_table.set_selected_channels(selected);
        self.put_guild(i, cur, tabs);
        proof {
            Self::lemma_put_back(old(self).guilds@, i as int, cur, tabs);
        }
    }
}

} // verus!

verus! {

/// A local time whose week's Monday can be represented, checked.
fn usable(local: i64) -> (r: bool)
    ensures
        r == usable_time(local as int),
{
    let r = local >= (-96465293i64 + 5) * 86400 && local < 95026237i64 * 86400;
    proof {
        if valid_time(local as int) {
            let d = day_of_time(local as int);
            assert(MIN_DAY <= d <= MAX_DAY);
            if d < MIN_DAY + 5 {
                assert(monday_of(d) == MIN_DAY - 2);
            } else {
                assert(monday_of(d) >= MIN_DAY + 5);
            }
        }
    }
    r
}

/// What the overview did with a message handed to it, its events going from
/// `b0` to `b1`: when its event timestamp can be shown in local time, it
/// counted the message at a local time less than a day from that timestamp
/// (the machine's time zone decides which); else it stayed as it was.
pub open spec fn overview_took(o: Overview, n: Overview, m: MessageWithUser, b0: Seq<AppEvent>, b1: Seq<AppEvent>) -> bool {
    let ts = m.spec_event_timestamp();
    if local_convertible(ts as int) {
        exists|l: i64| #[trigger] local_near(ts, l) && Overview::message_counted(o, n, m, l, b0, b1)
    } else {
        n == o && b1 == b0
    }
}

/// What the message chart did with a message: when its event timestamp can be
/// shown in local time, there is a local time less than a day from it at
/// which the message was counted, or, when the week of that time cannot be
/// represented, nothing changed; else it stayed as it was.
pub open spec fn message_chart_took(o: MessageChart, n: MessageChart, m: MessageWithUser, b0: Seq<AppEvent>, b1: Seq<AppEvent>) -> bool {
    let ts = m.spec_event_timestamp();
    if local_convertible(ts as int) {
        exists|l: i64| #[trigger] local_near(ts, l) && if usable_time(l as int) {
            MessageChart::message_counted(o, n, m, l, b0, b1)
        } else {
            n == o && b1 == b0
        }
    } else {
        n == o && b1 == b0
    }
}

/// The same for the user chart (see [`message_chart_took`]).
pub open spec fn user_chart_took(o: UserChart, n: UserChart, m: MessageWithUser, b0: Seq<AppEvent>, b1: Seq<AppEvent>) -> bool {
    let ts = m.spec_event_timestamp();
    if local_convertible(ts as int) {
        exists|l: i64| #[trigger] local_near(ts, l) && if usable_time(l as int) {
            UserChart::message_counted(o, n, m, l, b0, b1)
        } else {
            n == o && b1 == b0
        }
    } else {
        n == o && b1 == b0
    }
}

/// What the channel table did with a message: when its event timestamp can be
/// shown in local time and its channel is known, it counted the message at a
/// local time less than a day from that timestamp; else it stayed as it was.
pub open spec fn channel_table_took(o: ChannelTable, n: ChannelTable, m: MessageWithUser, b0: Seq<AppEvent>, b1: Seq<AppEvent>) -> bool {
    let ts = m.spec_event_timestamp();
    if local_convertible(ts as int) && o.knows_channel(m.message.channel_id) {
        exists|l: i64| #[trigger] local_near(ts, l) && ChannelTable::message_counted(o, n, m, l, b0, b1)
    } else {
        n == o && b1 == b0
    }
}

/// What the word table did with a message: when it was not deleted and the
/// time it was sent can be shown in local time, it stored the message at a
/// local time less than a day from that time; else it stayed as it was.
pub open spec fn word_table_took(o: WordTable, n: WordTable, m: MessageWithUser, b0: Seq<AppEvent>, b1: Seq<AppEvent>) -> bool {
    let ts = m.message.message_timestamp;
    if m.message.delete_timestamp is None && local_convertible(ts as int) {
        exists|l: i64| #[trigger] local_near(ts, l) && WordTable::message_stored(o, n, m, l, b0, b1)
    } else {
        n == o && b1 == b0
    }
}

/// What the user table did with a message handed to it: it counted the
/// message when it could (see [`UserTable::can_handle`]), else it stayed as
/// it was.
pub open spec fn user_table_took(o: UserTable, n: UserTable, m: MessageWithUser, b0: Seq<AppEvent>, b1: Seq<AppEvent>) -> bool {
    if o.can_handle(m) {
        UserTable::message_handled(o, n, m, b0, b1)
    } else {
        n == o && b1 == b0
    }
}

/// What the overview did with a member count: when its timestamp can be shown
/// in local time, there is a local time less than a day from it at which the
/// count was recorded, or, when the week of that time cannot be represented,
/// nothing changed; else it stayed as it was.
pub open spec fn overview_took_count(o: Overview, n: Overview, c: MemberCount) -> bool {
    let ts = c.count_timestamp;
    if local_convertible(ts as int) {
        exists|l: i64| #[trigger] local_near(ts, l) && if usable_time(l as int) {
            Overview::member_count_recorded(o, n, c, l)
        } else {
            n == o
        }
    } else {
        n == o
    }
}

/// The same for a member join or leave (see [`overview_took_count`]).
pub open spec fn overview_took_activity(o: Overview, n: Overview, a: MemberActivity) -> bool {
    let ts = a.activity_timestamp;
    if local_convertible(ts as int) {
        exists|l: i64| #[trigger] local_near(ts, l) && if usable_time(l as int) {
            Overview::member_activity_recorded(o, n, a, l)
        } else {
            n == o
        }
    } else {
        n == o
    }
}

/// Only one tab of the guild's tabs may differ.
pub open spec fn same_but_overview(o: GuildTabs, n: GuildTabs) -> bool {
    n == (GuildTabs { overview: n.overview, ..o })
}

pub open spec fn same_but_user_table(o: GuildTabs, n: GuildTabs) -> bool {
    n == (GuildTabs { user_table: n.user_table, ..o })
}

pub open spec fn same_but_channel_table(o: GuildTabs, n: GuildTabs) -> bool {
    n == (GuildTabs { channel_table: n.channel_table, ..o })
}

pub open spec fn same_but_message_chart(o: GuildTabs, n: GuildTabs) -> bool {
    n == (GuildTabs { message_chart: n.message_chart, ..o })
}

pub open spec fn same_but_user_chart(o: GuildTabs, n: GuildTabs) -> bool {
    n == (GuildTabs { user_chart: n.user_chart, ..o })
}

pub open spec fn same_but_word_table(o: GuildTabs, n: GuildTabs) -> bool {
    n == (GuildTabs { word_table: n.word_table, ..o })
}

impl TabHandler {
    /// The tabs of guild `id` after an operation.
    pub open spec fn new_tabs(old_self: TabHandler, new_self: TabHandler, id: i64) -> GuildTabs {
        new_self.guilds@[guild_index(old_self.guilds@, id)].1
    }

    /// Counts a message in the overview of its guild, at the local time of its
    /// event timestamp (a timestamp chrono cannot show changes nothing).
    pub fn handle_message_overview(&mut self, message: &MessageWithUser, event_bus: &mut EventBus)
        requires
            old(self).wf(),
            old(self).has_guild(message.message.guild_id),
        ensures
            overview_took(
                old(self).tabs_of(message.message.guild_id).overview,
                TabHandler::new_tabs(*old(self), *final(self), message.message.guild_id).overview,
                *message,
                old(event_bus)@,
                final(event_bus)@,
            ),
            final(self).wf(),
            guild_replaced(old(self).guilds@, final(self).guilds@, message.message.guild_id),
            same_but_overview(old(self).tabs_of(message.message.guild_id), TabHandler::new_tabs(*old(self), *final(self), message.message.guild_id)),
            final(self).pending_reloads@ == old(self).pending_reloads@,
            final(self).current_guild == old(self).current_guild,
    {
        let g = message.message.guild_id;
        let (i, mut tabs) = self.take_guild(g);
        if is_local_convertible(message.event_timestamp()) {
            if let Some(l) = local_time_of(message.event_timestamp()) {
                tabs.overview.handle_message(message, l, event_bus);
            }
        }
        self.put_guild(i, g, tabs);
        proof {
            Self::lemma_put_back(old(self).guilds@, i as int, g, tabs);
        }
    }

    /// Counts a message in the message chart of its guild.
    pub fn handle_message_message_chart(&mut self, message: &MessageWithUser, event_bus: &mut EventBus)
        requires
            old(self).wf(),
            old(self).has_guild(message.message.guild_id),
        ensures
            message_chart_took(
                old(self).tabs_of(message.message.guild_id).message_chart,
                TabHandler::new_tabs(*old(self), *final(self), message.message.guild_id).message_chart,
                *message,
                old(event_bus)@,
                final(event_bus)@,
            ),
            final(self).wf(),
            guild_replaced(old(self).guilds@, final(self).guilds@, message.message.guild_id),
            same_but_message_chart(old(self).tabs_of(message.message.guild_id), TabHandler::new_tabs(*old(self), *final(self), message.message.guild_id)),
            final(self).pending_reloads@ == old(self).pending_reloads@,
            final(self).current_guild == old(self).current_guild,
    {
        let g = message.message.guild_id;
        let (i, mut tabs) = self.take_guild(g);
        if is_local_convertible(message.event_timestamp()) {
            if let Some(l) = local_time_of(message.event_timestamp()) {
                if usable(l) {
                    tabs.message_chart.handle_message(message, l, event_bus);
                }
            }
        }
        self.put_guild(i, g, tabs);
        proof {
            Self::lemma_put_back(old(self).guilds@, i as int, g, tabs);
        }
    }

    /// Counts a message in the user chart of its guild.
    pub fn handle_message_user_chart(&mut self, message: &MessageWithUser, event_bus: &mut EventBus)
        requires
            old(self).wf(),
            old(self).has_guild(message.message.guild_id),
        ensures
            user_chart_took(
                old(self).tabs_of(message.message.guild_id).user_chart,
                TabHandler::new_tabs(*old(self), *final(self), message.message.guild_id).user_chart,
                *message,
                old(event_bus)@,
                final(event_bus)@,
            ),
            final(self).wf(),
            guild_replaced(old(self).guilds@, final(self).guilds@, message.message.guild_id),
            same_but_user_chart(old(self).tabs_of(message.message.guild_id), TabHandler::new_tabs(*old(self), *final(self), message.message.guild_id)),
            final(self).pending_reloads@ == old(self).pending_reloads@,
            final(self).current_guild == old(self).current_guild,
    {
        let g = message.message.guild_id;
        let (i, mut tabs) = self.take_guild(g);
        if is_local_convertible(message.event_timestamp()) {
            if let Some(l) = local_time_of(message.event_timestamp()) {
                if usable(l) {
                    tabs.user_chart.handle_message(message, l, event_bus);
                }
            }
        }
        self.put_guild(i, g, tabs);
        proof {
            Self::lemma_put_back(old(self).guilds@, i as int, g, tabs);
        }
    }

    /// Counts a message in the channel table of its guild (a message of a
    /// channel whose name is not known changes nothing).
    pub fn handle_message_channel_table(&mut self, message: &MessageWithUser, event_bus: &mut EventBus)
        requires
            old(self).wf(),
            old(self).has_guild(message.message.guild_id),
        ensures
            channel_table_took(
                old(self).tabs_of(message.message.guild_id).channel_table,
                TabHandler::new_tabs(*old(self), *final(self), message.message.guild_id).channel_table,
                *message,
                old(event_bus)@,
                final(event_bus)@,
            ),
            final(self).wf(),
            guild_replaced(old(self).guilds@, final(self).guilds@, message.message.guild_id),
            same_but_channel_table(old(self).tabs_of(message.message.guild_id), TabHandler::new_tabs(*old(self), *final(self), message.message.guild_id)),
            final(self).pending_reloads@ == old(self).pending_reloads@,
            final(self).current_guild == old(self).current_guild,
    {
        let g = message.message.guild_id;
        let (i, mut tabs) = self.take_guild(g);
        if is_local_convertible(message.event_timestamp()) {
            if let Some(l) = local_time_of(message.event_timestamp()) {
                proof {
                    lemma_key_index(tabs.channel_table.channel_map@, message.message.channel_id);
                }
                if find_key(&tabs.channel_table.channel_map, message.message.channel_id).is_some() {
                    tabs.channel_table.handle_message(message, l, event_bus);
                }
            }
        }
        self.put_guild(i, g, tabs);
        proof {
            Self::lemma_put_back(old(self).guilds@, i as int, g, tabs);
        }
    }

    /// Stores a message's text in the word table of its guild, at the local
    /// time it was sent.
    pub fn handle_message_word_table(&mut self, message: &MessageWithUser, event_bus: &mut EventBus)
        requires
            old(self).wf(),
            old(self).has_guild(message.message.guild_id),
        ensures
            word_table_took(
                old(self).tabs_of(message.message.guild_id).word_table,
                TabHandler::new_tabs(*old(self), *final(self), message.message.guild_id).word_table,
                *message,
                old(event_bus)@,
                final(event_bus)@,
            ),
            final(self).wf(),
            guild_replaced(old(self).guilds@, final(self).guilds@, message.message.guild_id),
            same_but_word_table(old(self).tabs_of(message.message.guild_id), TabHandler::new_tabs(*old(self), *final(self), message.message.guild_id)),
            final(self).pending_reloads@ == old(self).pending_reloads@,
            final(self).current_guild == old(self).current_guild,
    {
        let g = message.message.guild_id;
        let (i, mut tabs) = self.take_guild(g);
        if message.message.delete_timestamp.is_none() {
            if is_local_convertible(message.message.message_timestamp) {
                if let Some(l) = local_time_of(message.message.message_timestamp) {
                    tabs.word_table.handle_message(message, l, event_bus);
                }
            }
        }
        self.put_guild(i, g, tabs);
        proof {
            Self::lemma_put_back(old(self).guilds@, i as int, g, tabs);
        }
    }

    /// Counts a message in the user table of its guild, when it can be counted
    /// (see [`UserTable::can_handle`]).
    pub fn handle_message(&mut self, message: &MessageWithUser, event_bus: &mut EventBus)
        requires
            old(self).wf(),
            old(self).has_guild(message.message.guild_id),
        ensures
            user_table_took(
                old(self).tabs_of(message.message.guild_id).user_table,
                TabHandler::new_tabs(*old(self), *final(self), message.message.guild_id).user_table,
                *message,
                old(event_bus)@,
                final(event_bus)@,
            ),
            final(self).wf(),
            guild_replaced(old(self).guilds@, final(self).guilds@, message.message.guild_id),
            same_but_user_table(old(self).tabs_of(message.message.guild_id), TabHandler::new_tabs(*old(self), *final(self), message.message.guild_id)),
            final(self).pending_reloads@ == old(self).pending_reloads@,
            final(self).current_guild == old(self).current_guild,
    {
        let g = message.message.guild_id;
        let (i, mut tabs) = self.take_guild(g);
        tabs.user_table.try_handle_message(message.duplicate(), event_bus);
        self.put_guild(i, g, tabs);
        proof {
            Self::lemma_put_back(old(self).guilds@, i as int, g, tabs);
        }
    }

    /// Records a member count snapshot of guild `guild_id`.
    pub fn handle_member_count(&mut self, guild_id: i64, count: MemberCount)
        requires
            old(self).wf(),
            old(self).has_guild(guild_id),
        ensures
            overview_took_count(
                old(self).tabs_of(guild_id).overview,
                TabHandler::new_tabs(*old(self), *final(self), guild_id).overview,
                count,
            ),
            final(self).wf(),
            guild_replaced(old(self).guilds@, final(self).guilds@, guild_id),
            same_but_overview(old(self).tabs_of(guild_id), TabHandler::new_tabs(*old(self), *final(self), guild_id)),
            final(self).pending_reloads@ == old(self).pending_reloads@,
            final(self).current_guild == old(self).current_guild,
    {
        let (i, mut tabs) = self.take_guild(guild_id);
        if is_local_convertible(count.count_timestamp) {
            if let Some(l) = local_time_of(count.count_timestamp) {
                if usable(l) {
                    tabs.overview.handle_member_data(count, l);
                }
            }
        }
        self.put_guild(i, guild_id, tabs);
        proof {
            Self::lemma_put_back(old(self).guilds@, i as int, guild_id, tabs);
        }
    }

    /// Records a member join or leave of guild `guild_id`.
    pub fn handle_member_activity(&mut self, guild_id: i64, activity: MemberActivity)
        requires
            old(self).wf(),
            old(self).has_guild(guild_id),
        ensures
            overview_took_activity(
                old(self).tabs_of(guild_id).overview,
                TabHandler::new_tabs(*old(self), *final(self), guild_id).overview,
                activity,
            ),
            final(self).wf(),
            guild_replaced(old(self).guilds@, final(self).guilds@, guild_id),
            same_but_overview(old(self).tabs_of(guild_id), TabHandler::new_tabs(*old(self), *final(self), guild_id)),
            final(self).pending_reloads@ == old(self).pending_reloads@,
            final(self).current_guild == old(self).current_guild,
    {
        let (i, mut tabs) = self.take_guild(guild_id);
        if is_local_convertible(activity.activity_timestamp) {
            if let Some(l) = local_time_of(activity.activity_timestamp) {
                if usable(l) {
                    tabs.overview.handle_member_activity(activity, l);
                }
            }
        }
        self.put_guild(i, guild_id, tabs);
        proof {
            Self::lemma_put_back(old(self).guilds@, i as int, guild_id, tabs);
        }
    }
}

} // verus!

verus! {

/// The overview after computing its comparison summary: the summary of the
/// compare range when the member count at its To date can be found, else
/// unchanged.
pub open spec fn overview_compared(o: Overview, n: Overview) -> bool {
    if member_count_defined(o.count.daily_e(), o.compare_nav.handler.to) {
        n.compare_data matches Some(d) && summary_of(
            d,
            items_in_range(acts_view(o.activity_data@), o.compare_nav.handler),
            0,
            member_count_on(o.count.daily_e(), o.compare_nav.handler.to),
            o.channel_map@,
            "Not Found"@,
        )
    } else {
        n == o
    }
}

impl TabHandler {
    /// Reloads the overview of guild `guild_id` (see [`overview_reloaded`]).
    pub fn reload_overview(&mut self, guild_id: i64)
        requires
            old(self).wf(),
            old(self).has_guild(guild_id),
        ensures
            final(self).wf(),
            guild_replaced(old(self).guilds@, final(self).guilds@, guild_id),
            same_but_overview(old(self).tabs_of(guild_id), TabHandler::new_tabs(*old(self), *final(self), guild_id)),
            overview_reloaded(old(self).tabs_of(guild_id).overview, TabHandler::new_tabs(*old(self), *final(self), guild_id).overview),
            final(self).pending_reloads@ == old(self).pending_reloads@,
            final(self).current_guild == old(self).current_guild,
    {
        let (i, mut tabs) = self.take_guild(guild_id);
        run_reload(&mut tabs, ReloadTab::Overview(guild_id));
        self.put_guild(i, guild_id, tabs);
        proof {
            Self::lemma_put_back(old(self).guilds@, i as int, guild_id, tabs);
        }
    }

    /// Rebuilds the user table rows of guild `guild_id` (see [`user_table_reloaded`]).
    pub fn recreate_rows(&mut self, guild_id: i64)
        requires
            old(self).wf(),
            old(self).has_guild(guild_id),
        ensures
            final(self).wf(),
            guild_replaced(old(self).guilds@, final(self).guilds@, guild_id),
            same_but_user_table(old(self).tabs_of(guild_id), TabHandler::new_tabs(*old(self), *final(self), guild_id)),
            user_table_reloaded(old(self).tabs_of(guild_id).user_table, TabHandler::new_tabs(*old(self), *final(self), guild_id).user_table),
            final(self).pending_reloads@ == old(self).pending_reloads@,
            final(self).current_guild == old(self).current_guild,
    {
        let (i, mut tabs) = self.take_guild(guild_id);
        run_reload(&mut tabs, ReloadTab::UserTable(guild_id));
        self.put_guild(i, guild_id, tabs);
        proof {
            Self::lemma_put_back(old(self).guilds@, i as int, guild_id, tabs);
        }
    }

    /// Rebuilds the channel table rows of guild `guild_id` (see [`channel_table_reloaded`]).
    pub fn channel_table_recreate_rows(&mut self, guild_id: i64)
        requires
            old(self).wf(),
            old(self).has_guild(guild_id),
        ensures
            final(self).wf(),
            guild_replaced(old(self).guilds@, final(self).guilds@, guild_id),
            same_but_channel_table(old(self).tabs_of(guild_id), TabHandler::new_tabs(*old(self), *final(self), guild_id)),
            channel_table_reloaded(old(self).tabs_of(guild_id).channel_table, TabHandler::new_tabs(*old(self), *final(self), guild_id).channel_table),
            final(self).pending_reloads@ == old(self).pending_reloads@,
            final(self).current_guild == old(self).current_guild,
    {
        let (i, mut tabs) = self.take_guild(guild_id);
        run_reload(&mut tabs, ReloadTab::ChannelTable(guild_id));
        self.put_guild(i, guild_id, tabs);
        proof {
            Self::lemma_put_back(old(self).guilds@, i as int, guild_id, tabs);
        }
    }

    /// Rebuilds the word table rows of guild `guild_id` (see [`word_table_reloaded`]).
    pub fn word_table_recreate_rows(&mut self, guild_id: i64)
        requires
            old(self).wf(),
            old(self).has_guild(guild_id),
        ensures
            final(self).wf(),
            guild_replaced(old(self).guilds@, final(self).guilds@, guild_id),
            same_but_word_table(old(self).tabs_of(guild_id), TabHandler::new_tabs(*old(self), *final(self), guild_id)),
            word_table_reloaded(old(self).tabs_of(guild_id).word_table, TabHandler::new_tabs(*old(self), *final(self), guild_id).word_table),
            final(self).pending_reloads@ == old(self).pending_reloads@,
            final(self).current_guild == old(self).current_guild,
    {
        let (i, mut tabs) = self.take_guild(guild_id);
        run_reload(&mut tabs, ReloadTab::WordTable(guild_id));
        self.put_guild(i, guild_id, tabs);
        proof {
            Self::lemma_put_back(old(self).guilds@, i as int, guild_id, tabs);
        }
    }

    /// Reloads the message chart of guild `guild_id` (see [`message_chart_reloaded`]).
    pub fn reload_message_chart(&mut self, guild_id: i64)
        requires
            old(self).wf(),
            old(self).has_guild(guild_id),
        ensures
            final(self).wf(),
            guild_replaced(old(self).guilds@, final(self).guilds@, guild_id),
            same_but_message_chart(old(self).tabs_of(guild_id), TabHandler::new_tabs(*old(self), *final(self), guild_id)),
            message_chart_reloaded(old(self).tabs_of(guild_id).message_chart, TabHandler::new_tabs(*old(self), *final(self), guild_id).message_chart),
            final(self).pending_reloads@ == old(self).pending_reloads@,
            final(self).current_guild == old(self).current_guild,
    {
        let (i, mut tabs) = self.take_guild(guild_id);
        run_reload(&mut tabs, ReloadTab::MessageChart(guild_id));
        self.put_guild(i, guild_id, tabs);
        proof {
            Self::lemma_put_back(old(self).guilds@, i as int, guild_id, tabs);
        }
    }

    /// Reloads the user chart of guild `guild_id` (see [`user_chart_reloaded`]).
    pub fn reload_user_chart(&mut self, guild_id: i64)
        requires
            old(self).wf(),
            old(self).has_guild(guild_id),
        ensures
            final(self).wf(),
            guild_replaced(old(self).guilds@, final(self).guilds@, guild_id),
            same_but_user_chart(old(self).tabs_of(guild_id), TabHandler::new_tabs(*old(self), *final(self), guild_id)),
            user_chart_reloaded(old(self).tabs_of(guild_id).user_chart, TabHandler::new_tabs(*old(self), *final(self), guild_id).user_chart),
            final(self).pending_reloads@ == old(self).pending_reloads@,
            final(self).current_guild == old(self).current_guild,
    {
        let (i, mut tabs) = self.take_guild(guild_id);
        run_reload(&mut tabs, ReloadTab::UserChart(guild_id));
        self.put_guild(i, guild_id, tabs);
        proof {
            Self::lemma_put_back(old(self).guilds@, i as int, guild_id, tabs);
        }
    }

    /// Computes the overview's comparison summary of guild `guild_id`, when the
    /// member count at the compare To date can be found.
    pub fn compare_overview(&mut self, guild_id: i64)
        requires
            old(self).wf(),
            old(self).has_guild(guild_id),
        ensures
            final(self).wf(),
            guild_replaced(old(self).guilds@, final(self).guilds@, guild_id),
            same_but_overview(old(self).tabs_of(guild_id), TabHandler::new_tabs(*old(self), *final(self), guild_id)),
            overview_compared(old(self).tabs_of(guild_id).overview, TabHandler::new_tabs(*old(self), *final(self), guild_id).overview),
            final(self).pending_reloads@ == old(self).pending_reloads@,
            final(self).current_guild == old(self).current_guild,
    {
        let (i, mut tabs) = self.take_guild(guild_id);
        tabs.overview.try_create_compare_data();
        self.put_guild(i, guild_id, tabs);
        proof {
            Self::lemma_put_back(old(self).guilds@, i as int, guild_id, tabs);
        }
    }

    /// Stops the overview comparison of guild `guild_id`.
    pub fn stop_compare_overview(&mut self, guild_id: i64)
        requires
            old(self).wf(),
            old(self).has_guild(guild_id),
        ensures
            final(self).wf(),
            guild_replaced(old(self).guilds@, final(self).guilds@, guild_id),
            TabHandler::new_tabs(*old(self), *final(self), guild_id) == (GuildTabs {
                overview: Overview { compare_data: None, ..old(self).tabs_of(guild_id).overview },
                ..old(self).tabs_of(guild_id)
            }),
            final(self).pending_reloads@ == old(self).pending_reloads@,
            final(self).current_guild == old(self).current_guild,
    {
        let (i, mut tabs) = self.take_guild(guild_id);
        tabs.overview.compare_data = None;
        self.put_guild(i, guild_id, tabs);
        proof {
            Self::lemma_put_back(old(self).guilds@, i as int, guild_id, tabs);
        }
    }

    /// Clears the overview chart labels of guild `guild_id`.
    pub fn clear_chart_labels(&mut self, guild_id: i64)
        requires
            old(self).wf(),
            old(self).has_guild(guild_id),
        ensures
            final(self).wf(),
            guild_replaced(old(self).guilds@, final(self).guilds@, guild_id),
            same_but_overview(old(self).tabs_of(guild_id), TabHandler::new_tabs(*old(self), *final(self), guild_id)),
            TabHandler::new_tabs(*old(self), *final(self), guild_id).overview.chart_labels@.len() == 0,
            TabHandler::new_tabs(*old(self), *final(self), guild_id).overview == (Overview {
                chart_labels: TabHandler::new_tabs(*old(self), *final(self), guild_id).overview.chart_labels,
                ..old(self).tabs_of(guild_id).overview
            }),
            final(self).pending_reloads@ == old(self).pending_reloads@,
            final(self).current_guild == old(self).current_guild,
    {
        let (i, mut tabs) = self.take_guild(guild_id);
        tabs.overview.chart_labels = Vec::new();
        self.put_guild(i, guild_id, tabs);
        proof {
            Self::lemma_put_back(old(self).guilds@, i as int, guild_id, tabs);
        }
    }

    /// Gives the overview's join and leave series of guild `guild_id` a zero
    /// at every bucket holding a member count (see [`Overview::fill_member_activity`]).
    pub fn fill_member_activity(&mut self, guild_id: i64)
        requires
            old(self).wf(),
            old(self).has_guild(guild_id),
        ensures
            final(self).wf(),
            guild_replaced(old(self).guilds@, final(self).guilds@, guild_id),
            same_but_overview(old(self).tabs_of(guild_id), TabHandler::new_tabs(*old(self), *final(self), guild_id)),
            Overview::activity_filled(
                old(self).tabs_of(guild_id).overview,
                TabHandler::new_tabs(*old(self), *final(self), guild_id).overview,
            ),
            final(self).pending_reloads@ == old(self).pending_reloads@,
            final(self).current_guild == old(self).current_guild,
    {
        let (i, mut tabs) = self.take_guild(guild_id);
        tabs.overview.fill_member_activity();
        self.put_guild(i, guild_id, tabs);
        proof {
            Self::lemma_put_back(old(self).guilds@, i as int, guild_id, tabs);
        }
    }

    /// Teaches the overview of guild `guild_id` the names of its channels.
    pub fn set_channel_map(&mut self, guild_id: i64, channels: Vec<Channel>)
        requires
            old(self).wf(),
            old(self).has_guild(guild_id),
        ensures
            final(self).wf(),
            guild_replaced(old(self).guilds@, final(self).guilds@, guild_id),
            same_but_overview(old(self).tabs_of(guild_id), TabHandler::new_tabs(*old(self), *final(self), guild_id)),
            TabHandler::new_tabs(*old(self), *final(self), guild_id).overview.channel_map@ == crate::overview::names_learned(
                old(self).tabs_of(guild_id).overview.channel_map@,
                channels@,
            ),
            final(self).pending_reloads@ == old(self).pending_reloads@,
            final(self).current_guild == old(self).current_guild,
    {
        let (i, mut tabs) = self.take_guild(guild_id);
        tabs.overview.set_channel_id_map(channels);
        self.put_guild(i, guild_id, tabs);
        proof {
            Self::lemma_put_back(old(self).guilds@, i as int, guild_id, tabs);
        }
    }

    /// Teaches the channel table of guild `guild_id` the names of its channels.
    pub fn set_channel_table_channel_map(&mut self, guild_id: i64, channels: Vec<Channel>)
        requires
            old(self).wf(),
            old(self).has_guild(guild_id),
        ensures
            final(self).wf(),
            guild_replaced(old(self).guilds@, final(self).guilds@, guild_id),
            same_but_channel_table(old(self).tabs_of(guild_id), TabHandler::new_tabs(*old(self), *final(self), guild_id)),
            crate::channel_table::map_view(TabHandler::new_tabs(*old(self), *final(self), guild_id).channel_table.channel_map@)
                == crate::channel_table::map_learned(
                crate::channel_table::map_view(old(self).tabs_of(guild_id).channel_table.channel_map@),
                channels@,
            ),
            final(self).pending_reloads@ == old(self).pending_reloads@,
            final(self).current_guild == old(self).current_guild,
    {
        let (i, mut tabs) = self.take_guild(guild_id);
        tabs.channel_table.set_channel_id_map(channels);
        self.put_guild(i, guild_id, tabs);
        proof {
            Self::lemma_put_back(old(self).guilds@, i as int, guild_id, tabs);
        }
    }
}

} // verus!
