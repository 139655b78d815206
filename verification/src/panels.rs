//! The state behind the side, top and bottom panels: guilds and their
//! channels, the selected guild and channels, the date navigators, the fetch
//! status of each guild and the status line.
use vstd::prelude::*;
use crate::date_handler::DateHandler;
use crate::date_navigator::DateNavigator;
use crate::event_bus::EventBus;
use crate::fetch_status::FetchStatus;
use crate::guild_channel::{copy_channels, Channel, GuildWithChannels};
use crate::keyed::{find_key, key_index, lemma_key_index};
use crate::state::{AppEvent, AppStatus, TabState};
use crate::text::{append_string, push_char};
use crate::user_details::UserDetails;

verus! {

broadcast use {vstd::seq_lib::group_seq_properties, vstd::seq::Seq::lemma_push_to_set_commute};

/// The selected channel entries after clicking entry `index` (0 is "All
/// Channels"): "All Channels" and single channels exclude each other, and the
/// clicked entry is toggled.
pub open spec fn channel_toggled(s: Set<usize>, index: usize) -> Set<usize> {
    let base = if index != 0 {
        s.remove(0)
    } else if s.contains(0) {
        Set::empty().insert(0usize)
    } else {
        Set::empty()
    };
    if base.contains(index) {
        base.remove(index)
    } else {
        base.insert(index)
    }
}

/// Removes every `x` from a list.
fn remove_value(v: &mut Vec<usize>, x: usize)
    ensures
        final(v)@.to_set() == old(v)@.to_set().remove(x),
        old(v)@.no_duplicates() ==> final(v)@.no_duplicates(),
{
    let mut out: Vec<usize> = Vec::new();
    let mut i: usize = 0;
    while i < v.len()
        invariant
            i <= v.len(),
            forall|y: usize| out@.contains(y) <==> (v@.take(i as int).contains(y) && y != x),
            v@.no_duplicates() ==> out@.no_duplicates(),
            v@.no_duplicates() ==> forall|y: usize| out@.contains(y) ==> v@.take(i as int).contains(y),
        decreases v.len() - i,
    {
        proof {
            assert(v@.take(i + 1) =~= v@.take(i as int).push(v@[i as int]));
        }
        if v[i] != x {
            proof {
                if v@.no_duplicates() {
                    assert(!v@.take(i as int).contains(v@[i as int])) by {
                        if v@.take(i as int).contains(v@[i as int]) {
                            let q = choose|q: int| 0 <= q < i && v@.take(i as int)[q] == v@[i as int];
                            assert(v@[q] == v@[i as int]);
                        }
                    }
                }
            }
            let ghost before = out@;
            out.push(v[i]);
            proof {
                if v@.no_duplicates() {
                    assert(!before.contains(v@[i as int]));
                    assert forall|a: int, b: int| 0 <= a < b < out@.len() implies out@[a] != out@[b] by {
                        if b == before.len() {
                            assert(out@[a] == before[a]);
                            assert(before.contains(before[a]));
                        } else {
                            assert(out@[a] == before[a] && out@[b] == before[b]);
                        }
                    }
                }
            }
        }
        i = i + 1;
    }
    proof {
        assert(v@.take(v.len() as int) =~= v@);
        assert(out@.to_set() =~= v@.to_set().remove(x));
    }
    *v = out;
}

/// Whether `x` is in the list.
fn has_value(v: &Vec<usize>, x: usize) -> (r: bool)
    ensures
        r == v@.contains(x),
{
    let mut i: usize = 0;
    while i < v.len()
        invariant
            i <= v.len(),
            forall|j: int| 0 <= j < i ==> v@[j] != x,
        decreases v.len() - i,
    {
        if v[i] == x {
            return true;
        }
        i = i + 1;
    }
    false
}

/// Toggles entry `index` of a selection (see [`channel_toggled`]).
pub fn toggle_channel(sel: &mut Vec<usize>, index: usize)
    requires
        old(sel)@.no_duplicates(),
    ensures
        final(sel)@.no_duplicates(),
        final(sel)@.to_set() == channel_toggled(old(sel)@.to_set(), index),
{
    if index != 0 {
        remove_value(sel, 0);
    } else {
        let zero = has_value(sel, 0);
        let mut fresh: Vec<usize> = Vec::new();
        if zero {
            fresh.push(0);
        }
        *sel = fresh;
        proof {
            if zero {
                assert(sel@.to_set() =~= Set::empty().insert(0usize));
            } else {
                assert(sel@.to_set() =~= Set::<usize>::empty());
            }
        }
    }
    let ghost base = sel@.to_set();
    if has_value(sel, index) {
        remove_value(sel, index);
    } else {
        sel.push(index);
        proof {
            assert(sel@.to_set() =~= base.insert(index));
        }
    }
}

/// The picture of a guild: its icon, else a generated picture of its initials.
pub open spec fn guild_image_of(g: GuildWithChannels) -> Seq<char> {
    match g.guild.guild_icon {
        Some(icon) => icon@,
        None => crate::user_details::initials_link(g.guild.guild_name@),
    }
}

/// The picture link of a guild (see [`guild_image_of`]).
pub fn guild_image(g: &GuildWithChannels) -> (r: String)
    ensures
        r@ == guild_image_of(*g),
{
    match &g.guild.guild_icon {
        Some(icon) => icon.clone(),
        None => crate::user_details::initials_link_of(g.guild.guild_name.as_str()),
    }
}

/// The state of the panels.
pub struct PanelStatus {
    pub tab_state: TabState,
    pub show_guild: bool,
    pub show_channel: bool,
    pub dot_count: usize,
    pub date_nav: Vec<DateNavigator>,
    pub app_status: AppStatus,
    pub guild_channels: Vec<GuildWithChannels>,
    pub selected_guild: usize,
    /// Per guild, the selected channel entries (0 for all channels, `i` for
    /// channel `i - 1`).
    pub selected_channel: Vec<Vec<usize>>,
    pub hovered_guild: Option<usize>,
    pub guild_changed: bool,
    pub reset_guild_anim: bool,
    pub fetch_status: Vec<(i64, FetchStatus)>,
    pub user_details: Option<UserDetails>,
}

impl Default for PanelStatus {
    fn default() -> (r: PanelStatus)
        ensures
            r.wf(),
            r.tab_state == TabState::Overview,
            r.show_guild && r.show_channel,
            r.dot_count == 0,
            r.date_nav@.len() == 1,
            r.app_status == AppStatus::Idle,
            r.guild_channels@.len() == 0,
            r.selected_guild == 0,
            r.selected_channel@.len() == 0,
            r.hovered_guild is None,
            !r.guild_changed && !r.reset_guild_anim,
            r.fetch_status@.len() == 0,
            r.user_details is None,
    {
        let mut date_nav: Vec<DateNavigator> = Vec::new();
        date_nav.push(DateNavigator::default());
        PanelStatus {
            tab_state: TabState::Overview,
            show_guild: true,
            show_channel: true,
            dot_count: 0,
            date_nav,
            app_status: AppStatus::Idle,
            guild_channels: Vec::new(),
            selected_guild: 0,
            selected_channel: Vec::new(),
            hovered_guild: None,
            guild_changed: false,
            reset_guild_anim: false,
            fetch_status: Vec::new(),
            user_details: None,
        }
    }
}

/// The position of the guild `id` in the guild list, or -1.
pub open spec fn guild_position(s: Seq<GuildWithChannels>, id: i64) -> int
    decreases s.len(),
{
    if s.len() == 0 {
        -1
    } else if guild_position(s.drop_last(), id) >= 0 {
        guild_position(s.drop_last(), id)
    } else if s.last().guild.guild_id == id {
        s.len() - 1
    } else {
        -1
    }
}

pub proof fn lemma_guild_position(s: Seq<GuildWithChannels>, id: i64)
    ensures
        -1 <= guild_position(s, id) < s.len(),
        guild_position(s, id) >= 0 ==> s[guild_position(s, id)].guild.guild_id == id,
        guild_position(s, id) < 0 ==> forall|j: int| 0 <= j < s.len() ==> (#[trigger] s[j]).guild.guild_id != id,
    decreases s.len(),
{
    if s.len() > 0 {
        let t = s.drop_last();
        lemma_guild_position(t, id);
        assert forall|j: int| 0 <= j < t.len() implies t[j] == s[j] by {}
    }
}

/// Finds the position of guild `id` in the guild list.
pub fn find_guild_index(s: &Vec<GuildWithChannels>, id: i64) -> (r: Option<usize>)
    ensures
        r is None <==> guild_position(s@, id) < 0,
        r matches Some(i) ==> i == guild_position(s@, id),
{
    proof {
        lemma_guild_position(s@, id);
    }
    let mut i: usize = 0;
    while i < s.len()
        invariant
            i <= s.len(),
            forall|j: int| 0 <= j < i ==> (#[trigger] s@[j]).guild.guild_id != id,
            -1 <= guild_position(s@, id) < s@.len(),
            guild_position(s@, id) >= 0 ==> s@[guild_position(s@, id)].guild.guild_id == id,
            guild_position(s@, id) < 0 ==> forall|j: int| 0 <= j < s@.len() ==> (#[trigger] s@[j]).guild.guild_id != id,
        decreases s.len() - i,
    {
        if s[i].guild.guild_id == id {
            proof {
                lemma_first_guild(s@, id, i as int);
            }
            return Some(i);
        }
        i = i + 1;
    }
    None
}

proof fn lemma_first_guild(s: Seq<GuildWithChannels>, id: i64, i: int)
    requires
        0 <= i < s.len(),
        s[i].guild.guild_id == id,
        forall|j: int| 0 <= j < i ==> (#[trigger] s[j]).guild.guild_id != id,
    ensures
        guild_position(s, id) == i,
    decreases s.len(),
{
    if i < s.len() - 1 {
        lemma_first_guild(s.drop_last(), id, i);
    } else {
        lemma_guild_position(s.drop_last(), id);
        if guild_position(s.drop_last(), id) >= 0 {
            let q = guild_position(s.drop_last(), id);
            assert(s.drop_last()[q] == s[q]);
        }
    }
}

/// The fetch statuses after adding a fresh one for each listed guild that has none.
pub open spec fn statuses_added(s: Seq<(i64, FetchStatus)>, list: Seq<GuildWithChannels>) -> Seq<(i64, FetchStatus)>
    decreases list.len(),
{
    if list.len() == 0 {
        s
    } else {
        let r = statuses_added(s, list.drop_last());
        let id = list.last().guild.guild_id;
        if key_index(r, id) >= 0 {
            r
        } else {
            r.push((id, FetchStatus::spec_initial()))
        }
    }
}

impl PanelStatus {
    /// Every guild has a channel selection without repeats.
    pub open spec fn wf(&self) -> bool {
        &&& self.selected_channel@.len() == self.guild_channels@.len()
        &&& forall|i: int| 0 <= i < self.selected_channel@.len() ==> (#[trigger] self.selected_channel@[i])@.no_duplicates()
    }

    /// A guild is selected, with its navigator, channel selection and fetch status.
    pub open spec fn guild_ready(&self) -> bool {
        &&& self.wf()
        &&& self.selected_guild < self.guild_channels@.len()
        &&& self.selected_guild < self.date_nav@.len()
        &&& key_index(self.fetch_status@, self.guild_channels@[self.selected_guild as int].guild.guild_id) >= 0
    }

    pub fn set_app_status(&mut self, status: AppStatus)
        ensures
            *final(self) == (PanelStatus { app_status: status, ..*old(self) }),
    {
        self.app_status = status;
    }

    /// Advances the dots of the status line: 0, 1, 2, 3, then 0 again.
    pub fn next_dot(&mut self)
        requires
            old(self).dot_count <= 3,
        ensures
            *final(self) == (PanelStatus {
                dot_count: if old(self).dot_count == 3 { 0 } else { (old(self).dot_count + 1) as usize },
                ..*old(self)
            }),
    {
        if self.dot_count == 3 {
            self.dot_count = 0;
        } else {
            self.dot_count = self.dot_count + 1;
        }
    }
}

} // verus!

verus! {

impl PanelStatus {
    /// Takes a new guild list: each guild gets an empty channel selection and a
    /// fresh date navigator, a guild without a fetch status gets a fresh one,
    /// and the guild and channel animations restart.
    pub fn set_guild_channels(&mut self, list: Vec<GuildWithChannels>)
        ensures
            final(self).wf(),
            final(self).guild_channels@ == list@,
            final(self).selected_channel@.len() == list@.len(),
            forall|i: int| 0 <= i < list@.len() ==> (#[trigger] final(self).selected_channel@[i])@.len() == 0,
            final(self).date_nav@.len() == list@.len(),
            forall|i: int| 0 <= i < list@.len() ==> #[trigger] final(self).date_nav@[i] == (DateNavigator {
                nav_type: crate::state::NavigationType::Day,
                handler: DateHandler::spec_default(),
            }),
            final(self).fetch_status@ == statuses_added(old(self).fetch_status@, list@),
            final(self).guild_changed,
            final(self).reset_guild_anim,
            final(self).selected_guild == old(self).selected_guild,
            final(self).app_status == old(self).app_status,
            final(self).tab_state == old(self).tab_state,
            final(self).user_details == old(self).user_details,
            final(self).dot_count == old(self).dot_count,
    {
        let mut selected: Vec<Vec<usize>> = Vec::new();
        let mut dates: Vec<DateNavigator> = Vec::new();
        let mut statuses: Vec<(i64, FetchStatus)> = Vec::new();
        std::mem::swap(&mut statuses, &mut self.fetch_status);
        let ghost s0 = statuses@;
        let mut i: usize = 0;
        while i < list.len()
            invariant
                i <= list.len(),
                selected@.len() == i,
                dates@.len() == i,
                forall|j: int| 0 <= j < i ==> (#[trigger] selected@[j])@.len() == 0,
                forall|j: int| 0 <= j < i ==> #[trigger] dates@[j] == (DateNavigator {
                    nav_type: crate::state::NavigationType::Day,
                    handler: DateHandler::spec_default(),
                }),
                statuses@ == statuses_added(s0, list@.take(i as int)),
            decreases list.len() - i,
        {
            proof {
                assert(list@.take(i + 1).drop_last() =~= list@.take(i as int));
                assert(list@.take(i + 1).last() == list@[i as int]);
                lemma_key_index(statuses@, list@[i as int].guild.guild_id);
            }
            dates.push(DateNavigator::default());
            if find_key(&statuses, list[i].guild.guild_id).is_none() {
                statuses.push((list[i].guild.guild_id, FetchStatus::new()));
            }
            selected.push(Vec::new());
            i = i + 1;
        }
        proof {
            assert(list@.take(list.len() as int) =~= list@);
            assert forall|j: int| 0 <= j < selected@.len() implies (#[trigger] selected@[j])@.no_duplicates() by {
                assert(selected@[j]@.len() == 0);
            }
        }
        self.fetch_status = statuses;
        self.selected_channel = selected;
        self.guild_channels = list;
        self.guild_changed = true;
        self.reset_guild_anim = true;
        self.date_nav = dates;
    }

    /// Widens the data span of guild `guild_id`'s navigator to hold `date` and
    /// returns the navigator's dates.
    pub fn date_update(&mut self, date: i32, guild_id: i64) -> (r: DateHandler)
        requires
            guild_position(old(self).guild_channels@, guild_id) >= 0,
            guild_position(old(self).guild_channels@, guild_id) < old(self).date_nav@.len(),
        ensures
            ({
                let i = guild_position(old(self).guild_channels@, guild_id);
                let n = old(self).date_nav@[i];
                &&& r == n.handler.spec_update_dates(date).0
                &&& final(self).date_nav@ == old(self).date_nav@.update(i, (DateNavigator { handler: r, ..n }))
            }),
            *final(self) == (PanelStatus { date_nav: final(self).date_nav, ..*old(self) }),
    {
        let i = find_guild_index(&self.guild_channels, guild_id).unwrap();
        let mut nav = self.date_nav[i];
        nav.handler().update_dates(date);
        let r = nav.handler_i();
        self.date_nav.set(i, nav);
        r
    }

    /// The id of the selected guild.
    pub fn selected_guild(&self) -> (r: i64)
        requires
            self.selected_guild < self.guild_channels@.len(),
        ensures
            r == self.guild_channels@[self.selected_guild as int].guild.guild_id,
    {
        self.guild_channels[self.selected_guild].guild.guild_id
    }

    /// The dates of the selected guild's navigator.
    pub fn current_date_handler(&self) -> (r: DateHandler)
        requires
            self.selected_guild < self.date_nav@.len(),
        ensures
            r == self.date_nav@[self.selected_guild as int].handler,
    {
        self.date_nav[self.selected_guild].handler_i()
    }

    /// The dates of guild `guild_id`'s navigator.
    pub fn date_handler(&self, guild_id: i64) -> (r: DateHandler)
        requires
            guild_position(self.guild_channels@, guild_id) >= 0,
            guild_position(self.guild_channels@, guild_id) < self.date_nav@.len(),
        ensures
            r == self.date_nav@[guild_position(self.guild_channels@, guild_id)].handler,
    {
        let i = find_guild_index(&self.guild_channels, guild_id).unwrap();
        self.date_nav[i].handler_i()
    }

    /// The selected channel entries of the selected guild.
    pub fn current_selected_channels(&self) -> (r: Vec<usize>)
        requires
            self.selected_guild < self.selected_channel@.len(),
        ensures
            r@ == self.selected_channel@[self.selected_guild as int]@,
    {
        let r = self.selected_channel[self.selected_guild].clone();
        assert(r@ =~= self.selected_channel@[self.selected_guild as int]@);
        r
    }

    /// The channels of the selected guild.
    pub fn current_guild_channels(&self) -> (r: Vec<Channel>)
        requires
            self.selected_guild < self.guild_channels@.len(),
        ensures
            r@ == self.guild_channels@[self.selected_guild as int].channels@,
    {
        copy_channels(&self.guild_channels[self.selected_guild].channels)
    }

    /// The fetch status of the selected guild.
    pub fn current_guild_status(&self) -> (r: FetchStatus)
        requires
            self.guild_ready(),
        ensures
            ({
                let s = self.fetch_status@;
                let id = self.guild_channels@[self.selected_guild as int].guild.guild_id;
                r == s[key_index(s, id)].1
            }),
    {
        let id = self.selected_guild();
        proof {
            lemma_key_index(self.fetch_status@, id);
        }
        let k = find_key(&self.fetch_status, id).unwrap();
        self.fetch_status[k].1
    }

    /// Replaces the fetch status of the selected guild.
    pub fn set_current_guild_status(&mut self, status: FetchStatus)
        requires
            old(self).guild_ready(),
        ensures
            final(self).guild_ready(),
            ({
                let s = old(self).fetch_status@;
                let id = old(self).guild_channels@[old(self).selected_guild as int].guild.guild_id;
                final(self).fetch_status@ == s.update(key_index(s, id), (id, status))
            }),
            *final(self) == (PanelStatus { fetch_status: final(self).fetch_status, ..*old(self) }),
    {
        let id = self.selected_guild();
        proof {
            lemma_key_index(self.fetch_status@, id);
        }
        let k = find_key(&self.fetch_status, id).unwrap();
        self.fetch_status.set(k, (id, status));
        proof {
            lemma_key_index(self.fetch_status@, id);
            assert(self.fetch_status@[k as int].0 == id);
        }
    }

    pub fn set_user_details(&mut self, user_details: UserDetails)
        ensures
            *final(self) == (PanelStatus { user_details: Some(user_details), ..*old(self) }),
    {
        self.user_details = Some(user_details);
    }

    pub fn has_user_details(&self) -> (r: bool)
        ensures
            r == self.user_details is Some,
    {
        self.user_details.is_some()
    }

    /// A click on guild `index` of the guild list: selects it and announces the change.
    pub fn click_guild(&mut self, index: usize, event_bus: &mut EventBus)
        ensures
            *final(self) == (PanelStatus { selected_guild: index, guild_changed: true, ..*old(self) }),
            final(event_bus)@ == old(event_bus)@.push(AppEvent::GuildChanged),
    {
        self.selected_guild = index;
        self.guild_changed = true;
        event_bus.publish(AppEvent::GuildChanged);
    }

    /// A click on entry `index` of the channel list (0 is "All Channels"):
    /// toggles it (see [`channel_toggled`]) and announces the change.
    pub fn click_channel(&mut self, index: usize, event_bus: &mut EventBus)
        requires
            old(self).wf(),
            old(self).selected_guild < old(self).selected_channel@.len(),
        ensures
            final(self).wf(),
            final(self).selected_channel@.len() == old(self).selected_channel@.len(),
            forall|j: int| 0 <= j < old(self).selected_channel@.len() && j != old(self).selected_guild ==> (
                #[trigger] final(self).selected_channel@[j]) == old(self).selected_channel@[j],
            final(self).selected_channel@[old(self).selected_guild as int]@.to_set() == channel_toggled(
                old(self).selected_channel@[old(self).selected_guild as int]@.to_set(),
                index,
            ),
            *final(self) == (PanelStatus { selected_channel: final(self).selected_channel, ..*old(self) }),
            final(event_bus)@ == old(event_bus)@.push(AppEvent::SelectedChannelsChanged),
    {
        let g = self.selected_guild;
        let mut sel = self.selected_channel[g].clone();
        assert(sel@ =~= self.selected_channel@[g as int]@);
        toggle_channel(&mut sel, index);
        self.selected_channel.set(g, sel);
        event_bus.publish(AppEvent::SelectedChannelsChanged);
    }

    /// The entries of the channel list of the selected guild: "All Channels",
    /// then the channel names.
    pub fn channel_names(&self) -> (r: Vec<String>)
        requires
            self.selected_guild < self.guild_channels@.len(),
        ensures
            r@.len() == self.guild_channels@[self.selected_guild as int].channels@.len() + 1,
            r@[0]@ == "All Channels"@,
            forall|i: int| 1 <= i < r@.len() ==> (#[trigger] r@[i])@
                == self.guild_channels@[self.selected_guild as int].channels@[i - 1].channel_name@,
    {
        let channels = &self.guild_channels[self.selected_guild].channels;
        let mut out: Vec<String> = Vec::new();
        out.push(String::from_str("All Channels"));
        let mut i: usize = 0;
        while i < channels.len()
            invariant
                i <= channels.len(),
                out@.len() == i + 1,
                out@[0]@ == "All Channels"@,
                forall|j: int| 1 <= j < out@.len() ==> (#[trigger] out@[j])@ == channels@[j - 1].channel_name@,
            decreases channels.len() - i,
        {
            out.push(channels[i].channel_name.clone());
            i = i + 1;
        }
        out
    }

    /// Shows or hides the guild list.
    pub fn toggle_guild_list(&mut self)
        ensures
            *final(self) == (PanelStatus { show_guild: !old(self).show_guild, ..*old(self) }),
    {
        self.show_guild = !self.show_guild;
    }

    /// Shows or hides the channel list.
    pub fn toggle_channel_list(&mut self)
        ensures
            *final(self) == (PanelStatus { show_channel: !old(self).show_channel, ..*old(self) }),
    {
        self.show_channel = !self.show_channel;
    }

    /// Shows the tab `tab`.
    pub fn select_tab(&mut self, tab: TabState)
        ensures
            *final(self) == (PanelStatus { tab_state: tab, ..*old(self) }),
    {
        self.tab_state = tab;
    }

    /// The bottom bar's status text: the status, followed by the progress dots
    /// while work is going on.
    pub fn status_text(&self) -> (r: String)
        ensures
            r@ == "Status: "@ + self.app_status.spec_text() + if self.app_status.spec_show_spinner() {
                Seq::new(self.dot_count as nat, |i: int| '.')
            } else {
                Seq::empty()
            },
    {
        let mut s = String::from_str("Status: ");
        let text = self.app_status.text();
        append_string(&mut s, &text);
        if self.app_status.show_spinner() {
            let ghost base = s@;
            let mut k: usize = 0;
            while k < self.dot_count
                invariant
                    k <= self.dot_count,
                    s@ == base + Seq::new(k as nat, |i: int| '.'),
                decreases self.dot_count - k,
            {
                push_char(&mut s, '.');
                assert(base + Seq::new((k + 1) as nat, |i: int| '.') =~= (base + Seq::new(k as nat, |i: int| '.')).push('.'));
                k = k + 1;
            }
        } else {
            assert(s@ =~= s@ + Seq::<char>::empty());
        }
        s
    }
}

} // verus!
