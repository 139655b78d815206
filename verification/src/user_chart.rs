//! The user chart tab: distinct active users per time bucket.
use vstd::prelude::*;
use indexmap::IndexMap;

use crate::calendar::{SECONDS_PER_DAY, SECONDS_PER_HOUR, SECONDS_PER_WEEK};
use crate::chart_buckets::{bucket_recorded, month_recorded, BucketSets};
use crate::date_handler::DateHandler;
use crate::event_bus::EventBus;
use crate::keyed::sorted_keys;
use crate::message_chart::{built_labels, chart_lines_for, chart_lines_of, data_view, labels_view, lines_view, series_from, LabelRow};
use crate::message_user::MessageWithUser;
use crate::named::{ensure_name, name_lt, named_insert_absent, names_view, sorted_names};
use crate::overview::{bucket_times, bucket_times_of, published_once, reload_threshold, usable_time};
use crate::response::PAGE_VALUE;
use crate::series::{series_entries, series_insert, series_new};
use crate::state::{AppEvent, ChartType};
use crate::text::{decimal_of, decimal_text, same_text};

verus! {

/// A user seen in a channel during a bucket: (bucket, channel, user id).
pub type Sighting = (i64, i64, i64);

/// The sightings after seeing `user` in `channel` during `bucket` (a set: a
/// repeated sighting adds nothing).
pub open spec fn sighting_recorded(s: Seq<Sighting>, bucket: i64, channel: i64, user: i64) -> Seq<Sighting> {
    if s.contains((bucket, channel, user)) {
        s
    } else {
        s.push((bucket, channel, user))
    }
}

/// Adds a sighting unless it is already there.
pub fn record_sighting(s: &mut Vec<Sighting>, bucket: i64, channel: i64, user: i64)
    ensures
        final(s)@ == sighting_recorded(old(s)@, bucket, channel, user),
{
    let mut i: usize = 0;
    while i < s.len()
        invariant
            i <= s.len(),
            s@ == old(s)@,
            forall|j: int| 0 <= j < i ==> s@[j] != (bucket, channel, user),
        decreases s.len() - i,
    {
        let e = s[i];
        if e.0 == bucket && e.1 == channel && e.2 == user {
            assert(s@[i as int] == (bucket, channel, user));
            return;
        }
        i = i + 1;
    }
    s.push((bucket, channel, user));
}

/// The user chart of one guild.
pub struct UserChart {
    pub chart_type: ChartType,
    /// The shown series by name: "Active Users" and user ids.
    pub chart_data: Vec<(String, IndexMap<i64, i64>)>,
    /// The names of the senders seen, and whether each is chosen.
    pub chart_values: Vec<(String, bool)>,
    pub chart_labels: Vec<LabelRow>,
    pub buckets: BucketSets,
    pub hourly_data: Vec<Sighting>,
    pub daily_data: Vec<Sighting>,
    pub weekly_data: Vec<Sighting>,
    pub monthly_data: Vec<Sighting>,
    pub date_handler: DateHandler,
    pub reload_count: u64,
}

impl UserChart {
    pub open spec fn wf(&self) -> bool {
        &&& self.buckets.wf()
        &&& sorted_names(data_view(self.chart_data@))
        &&& sorted_names(names_view(self.chart_values@))
    }

    /// The sightings of one chart type.
    pub open spec fn data_for(&self, chart: ChartType) -> Seq<Sighting> {
        match chart {
            ChartType::Hourly => self.hourly_data@,
            ChartType::Daily => self.daily_data@,
            ChartType::Weekly => self.weekly_data@,
            ChartType::Monthly => self.monthly_data@,
        }
    }

    /// The sightings of one chart type.
    pub fn get_target_data(&self, chart: ChartType) -> (r: &Vec<Sighting>)
        ensures
            r@ == self.data_for(chart),
    {
        match chart {
            ChartType::Hourly => &self.hourly_data,
            ChartType::Daily => &self.daily_data,
            ChartType::Weekly => &self.weekly_data,
            ChartType::Monthly => &self.monthly_data,
        }
    }
}

impl UserChart {
    /// A daily chart with one empty "Active Users" series, no senders, labels,
    /// buckets or sightings, the date range at its start and no reload counted.
    pub open spec fn is_fresh(&self) -> bool {
        &&& self.chart_type == ChartType::Daily
        &&& data_view(self.chart_data@) == seq![("Active Users"@, Seq::<(i64, i64)>::empty())]
        &&& self.chart_values@.len() == 0
        &&& self.chart_labels@.len() == 0
        &&& self.buckets.is_fresh()
        &&& self.hourly_data@.len() == 0 && self.daily_data@.len() == 0
        &&& self.weekly_data@.len() == 0 && self.monthly_data@.len() == 0
        &&& self.date_handler == DateHandler::spec_default()
        &&& self.reload_count == 0
    }
}

impl Default for UserChart {
    /// A daily chart showing the active users, with no data.
    fn default() -> (r: UserChart)
        ensures
            r.wf(),
            r.is_fresh(),
    {
        let mut chart_data: Vec<(String, IndexMap<i64, i64>)> = Vec::new();
        chart_data.push((String::from_str("Active Users"), series_new()));
        let r = UserChart {
            chart_type: ChartType::Daily,
            chart_data,
            chart_values: Vec::new(),
            chart_labels: Vec::new(),
            buckets: BucketSets::new(),
            hourly_data: Vec::new(),
            daily_data: Vec::new(),
            weekly_data: Vec::new(),
            monthly_data: Vec::new(),
            date_handler: DateHandler::default(),
            reload_count: 0,
        };
        assert(data_view(r.chart_data@) =~= seq![("Active Users"@, Seq::<(i64, i64)>::empty())]);
        r
    }
}

impl UserChart {
    /// What counting a message at the local time `local` did (see
    /// [`UserChart::handle_message`]).
    pub open spec fn message_counted(before: UserChart, after: UserChart, message: MessageWithUser, local: i64, bus0: Seq<AppEvent>, bus1: Seq<AppEvent>) -> bool {
        &&& ({
            let t = bucket_times(local as int);
            let c = message.message.channel_id;
            let u = message.sender.user_id;
            &&& after.buckets.hourly@ =~= bucket_recorded(before.buckets.hourly@, before.buckets.last_hour, t.0, SECONDS_PER_HOUR as int)
            &&& after.buckets.daily@ =~= bucket_recorded(before.buckets.daily@, before.buckets.last_day, t.1, SECONDS_PER_DAY as int)
            &&& after.buckets.weekly@ =~= bucket_recorded(before.buckets.weekly@, before.buckets.last_week, t.2, SECONDS_PER_WEEK as int)
            &&& after.buckets.monthly@ =~= month_recorded(before.buckets.monthly@, before.buckets.last_month, t.3)
            &&& after.buckets.last_hour == Some(t.0)
            &&& after.buckets.last_day == Some(t.1)
            &&& after.buckets.last_week == Some(t.2)
            &&& after.buckets.last_month == Some(t.3)
            &&& after.hourly_data@ =~= sighting_recorded(before.hourly_data@, t.0, c, u)
            &&& after.daily_data@ =~= sighting_recorded(before.daily_data@, t.1, c, u)
            &&& after.weekly_data@ =~= sighting_recorded(before.weekly_data@, t.2, c, u)
            &&& after.monthly_data@ =~= sighting_recorded(before.monthly_data@, t.3, c, u)
            &&& names_view(after.chart_values@) =~= named_insert_absent(
                names_view(before.chart_values@),
                message.sender.username@,
                false,
            )
        })
        &&& after.reload_count == vstd::wrapping::u64_specs::wrapping_add(before.reload_count, 1)
        &&& bus1 =~= if after.reload_count == reload_threshold() {
            published_once(bus0, AppEvent::MessageChartNeedsReload(message.message.guild_id))
        } else {
            bus0
        }
        &&& after.chart_type == before.chart_type
        &&& after.chart_data@ =~= before.chart_data@
        &&& after.chart_labels@ =~= before.chart_labels@
        &&& after.date_handler == before.date_handler
    }

    /// Records that the sender of a message (`local` is the local time of its
    /// event timestamp) was active in its channel during the hour, day, week
    /// and month of that time, and makes the sender's name a known value. Every
    /// [`reload_threshold`] messages a reload of the message chart is asked for.
    pub fn handle_message(&mut self, message: &MessageWithUser, local: i64, event_bus: &mut EventBus)
        requires
            old(self).wf(),
            usable_time(local as int),
        ensures
            final(self).wf(),
            UserChart::message_counted(*old(self), *final(self), *message, local, old(event_bus)@, final(event_bus)@),
    {
        let times = bucket_times_of(local);
        self.buckets.record(times);
        let channel = message.message.channel_id;
        let user = message.sender.user_id;
        record_sighting(&mut self.hourly_data, times.0, channel, user);
        record_sighting(&mut self.daily_data, times.1, channel, user);
        record_sighting(&mut self.weekly_data, times.2, channel, user);
        record_sighting(&mut self.monthly_data, times.3, channel, user);
        ensure_name(&mut self.chart_values, &message.sender.username, false);
        self.reload_count = self.reload_count.wrapping_add(1);
        if self.reload_count == PAGE_VALUE * 5 {
            event_bus.publish_if_needed(AppEvent::MessageChartNeedsReload(message.message.guild_id));
        }
    }
}

} // verus!

verus! {

/// The number of sightings during `bucket` (users summed over channels).
pub open spec fn count_at(s: Seq<Sighting>, bucket: i64) -> nat
    decreases s.len(),
{
    if s.len() == 0 {
        0
    } else {
        count_at(s.drop_last(), bucket) + if s.last().0 == bucket {
            1nat
        } else {
            0nat
        }
    }
}

/// A user whose id reads as `name` was seen during `bucket`.
pub open spec fn user_active(s: Seq<Sighting>, bucket: i64, name: Seq<char>) -> bool {
    exists|i: int| 0 <= i < s.len() && s[i].0 == bucket && decimal_of(s[i].2 as int) == name
}

/// The series of the user named `name`: value 1 at each bucket where the user
/// was seen, no entry elsewhere.
pub open spec fn active_entries(keys: Seq<(i64, ())>, s: Seq<Sighting>, name: Seq<char>) -> Seq<(i64, i64)>
    decreases keys.len(),
{
    if keys.len() == 0 {
        Seq::empty()
    } else {
        let r = active_entries(keys.drop_last(), s, name);
        if user_active(s, keys.last().0, name) {
            r.push((keys.last().0, 1i64))
        } else {
            r
        }
    }
}

/// The "Active Users" series: the number of sightings per bucket.
pub open spec fn active_totals(keys: Seq<(i64, ())>, s: Seq<Sighting>) -> Seq<(i64, i64)> {
    keys.map_values(|k: (i64, ())| (k.0, count_at(s, k.0) as i64))
}

/// The shown series after a reload: "Active Users" over every bucket, each
/// other shown name as a user series, dropped when that user was never seen;
/// with no bucket at all, no series is left.
pub open spec fn user_reloaded(
    shown: Seq<(Seq<char>, Seq<(i64, i64)>)>,
    s: Seq<Sighting>,
    keys: Seq<(i64, ())>,
) -> Seq<(Seq<char>, Seq<(i64, i64)>)>
    decreases shown.len(),
{
    if keys.len() == 0 || shown.len() == 0 {
        Seq::empty()
    } else {
        let r = user_reloaded(shown.drop_last(), s, keys);
        let n = shown.last().0;
        if n == "Active Users"@ {
            r.push((n, active_totals(keys, s)))
        } else if active_entries(keys, s, n).len() > 0 {
            r.push((n, active_entries(keys, s, n)))
        } else {
            r
        }
    }
}

/// Per bucket, the number of sightings.
fn bucket_counts(s: &Vec<Sighting>, keys: &Vec<(i64, ())>) -> (r: Vec<i64>)
    requires
        sorted_keys(keys@),
    ensures
        r@.len() == keys@.len(),
        forall|k: int| 0 <= k < keys@.len() ==> #[trigger] r@[k] == count_at(s@, keys@[k].0) as i64,
{
    let mut acc: Vec<usize> = Vec::new();
    let mut k: usize = 0;
    while k < keys.len()
        invariant
            k <= keys.len(),
            acc@.len() == k,
            forall|j: int| 0 <= j < k ==> acc@[j] == 0,
        decreases keys.len() - k,
    {
        acc.push(0);
        k = k + 1;
    }
    proof {
        assert(s@.take(0) =~= Seq::<Sighting>::empty());
    }
    let mut i: usize = 0;
    while i < s.len()
        invariant
            sorted_keys(keys@),
            i <= s.len(),
            acc@.len() == keys@.len(),
            forall|j: int| 0 <= j < keys@.len() ==> #[trigger] acc@[j] == count_at(s@.take(i as int), keys@[j].0),
            forall|j: int| 0 <= j < keys@.len() ==> #[trigger] acc@[j] <= i,
        decreases s.len() - i,
    {
        proof {
            assert(s@.take(i + 1).drop_last() =~= s@.take(i as int));
            assert(s@.take(i + 1).last() == s@[i as int]);
        }
        match crate::message_chart::find_bucket(keys, s[i].0) {
            Some(k) => {
                let v = acc[k] + 1;
                acc.set(k, v);
            },
            None => {},
        }
        i = i + 1;
    }
    proof {
        assert(s@.take(s.len() as int) =~= s@);
    }
    let mut out: Vec<i64> = Vec::new();
    let mut k: usize = 0;
    while k < acc.len()
        invariant
            k <= acc.len(),
            acc@.len() == keys@.len(),
            out@.len() == k,
            forall|j: int| 0 <= j < keys@.len() ==> #[trigger] acc@[j] == count_at(s@, keys@[j].0),
            forall|j: int| 0 <= j < k ==> #[trigger] out@[j] == count_at(s@, keys@[j].0) as i64,
        decreases acc.len() - k,
    {
        out.push(acc[k] as i64);
        k = k + 1;
    }
    out
}

/// Per bucket, whether a user whose id reads as `name` was seen.
fn bucket_flags(s: &Vec<Sighting>, keys: &Vec<(i64, ())>, name: &String) -> (r: Vec<bool>)
    requires
        sorted_keys(keys@),
    ensures
        r@.len() == keys@.len(),
        forall|k: int| 0 <= k < keys@.len() ==> #[trigger] r@[k] == user_active(s@, keys@[k].0, name@),
{
    let mut acc: Vec<bool> = Vec::new();
    let mut k: usize = 0;
    while k < keys.len()
        invariant
            k <= keys.len(),
            acc@.len() == k,
            forall|j: int| 0 <= j < k ==> !acc@[j],
        decreases keys.len() - k,
    {
        acc.push(false);
        k = k + 1;
    }
    let mut i: usize = 0;
    while i < s.len()
        invariant
            sorted_keys(keys@),
            i <= s.len(),
            acc@.len() == keys@.len(),
            forall|j: int| 0 <= j < keys@.len() ==> #[trigger] acc@[j] == (exists|q: int|
                0 <= q < i && s@[q].0 == keys@[j].0 && decimal_of(s@[q].2 as int) == name@),
        decreases s.len() - i,
    {
        let text = decimal_text(s[i].2);
        if same_text(text.as_str(), name.as_str()) {
            match crate::message_chart::find_bucket(keys, s[i].0) {
                Some(k) => {
                    acc.set(k, true);
                },
                None => {},
            }
        }
        proof {
            assert forall|j: int| 0 <= j < keys@.len() implies #[trigger] acc@[j] == (exists|q: int|
                0 <= q < i + 1 && s@[q].0 == keys@[j].0 && decimal_of(s@[q].2 as int) == name@) by {
                if s@[i as int].0 == keys@[j].0 && decimal_of(s@[i as int].2 as int) == name@ {
                    assert(0 <= i < i + 1 && s@[i as int].0 == keys@[j].0);
                }
            }
        }
        i = i + 1;
    }
    acc
}

/// The entries of a user series from the per-bucket flags.
fn flagged_entries(keys: &Vec<(i64, ())>, flags: &Vec<bool>, s: Ghost<Seq<Sighting>>, name: Ghost<Seq<char>>) -> (r: Vec<(i64, i64)>)
    requires
        flags@.len() == keys@.len(),
        forall|k: int| 0 <= k < keys@.len() ==> #[trigger] flags@[k] == user_active(s@, keys@[k].0, name@),
    ensures
        r@ == active_entries(keys@, s@, name@),
{
    let mut out: Vec<(i64, i64)> = Vec::new();
    let mut k: usize = 0;
    while k < keys.len()
        invariant
            k <= keys.len(),
            flags@.len() == keys@.len(),
            forall|j: int| 0 <= j < keys@.len() ==> #[trigger] flags@[j] == user_active(s@, keys@[j].0, name@),
            out@ == active_entries(keys@.take(k as int), s@, name@),
        decreases keys.len() - k,
    {
        proof {
            assert(keys@.take(k + 1).drop_last() =~= keys@.take(k as int));
            assert(keys@.take(k + 1).last() == keys@[k as int]);
        }
        if flags[k] {
            out.push((keys[k].0, 1));
        }
        k = k + 1;
    }
    proof {
        assert(keys@.take(keys.len() as int) =~= keys@);
    }
    out
}

/// A series holding the given entries in order (keys distinct).
fn series_of_entries(e: &Vec<(i64, i64)>) -> (r: IndexMap<i64, i64>)
    requires
        forall|a: int, b: int| 0 <= a < b < e@.len() ==> e@[a].0 < e@[b].0,
    ensures
        series_entries(r) == e@,
{
    let mut m = series_new();
    let mut i: usize = 0;
    while i < e.len()
        invariant
            i <= e.len(),
            forall|a: int, b: int| 0 <= a < b < e@.len() ==> e@[a].0 < e@[b].0,
            series_entries(m) == e@.take(i as int),
        decreases e.len() - i,
    {
        proof {
            let before = series_entries(m);
            crate::series::lemma_position_of(before, e@[i as int].0);
            if crate::series::position_of(before, e@[i as int].0) >= 0 {
                let q = crate::series::position_of(before, e@[i as int].0);
                assert(before[q] == e@[q]);
            }
            assert(e@.take(i + 1) =~= e@.take(i as int).push(e@[i as int]));
        }
        series_insert(&mut m, e[i].0, e[i].1);
        i = i + 1;
    }
    proof {
        assert(e@.take(e.len() as int) =~= e@);
    }
    m
}

pub proof fn lemma_active_entries_sorted(keys: Seq<(i64, ())>, s: Seq<Sighting>, name: Seq<char>)
    requires
        sorted_keys(keys),
    ensures
        forall|a: int, b: int| 0 <= a < b < active_entries(keys, s, name).len() ==> active_entries(keys, s, name)[a].0
            < active_entries(keys, s, name)[b].0,
        forall|a: int| 0 <= a < active_entries(keys, s, name).len() ==> exists|k: int|
            0 <= k < keys.len() && keys[k].0 == #[trigger] active_entries(keys, s, name)[a].0,
    decreases keys.len(),
{
    if keys.len() > 0 {
        let t = keys.drop_last();
        assert(sorted_keys(t));
        lemma_active_entries_sorted(t, s, name);
        let r = active_entries(t, s, name);
        assert forall|a: int| 0 <= a < r.len() implies r[a].0 < keys.last().0 by {
            let k = choose|k: int| 0 <= k < t.len() && t[k].0 == r[a].0;
            assert(keys[k] == t[k]);
        }
        assert forall|a: int| 0 <= a < active_entries(keys, s, name).len() implies exists|k: int|
            0 <= k < keys.len() && keys[k].0 == #[trigger] active_entries(keys, s, name)[a].0 by {
            if a < r.len() {
                let k = choose|k: int| 0 <= k < t.len() && t[k].0 == r[a].0;
                assert(keys[k] == t[k]);
            } else {
                assert(keys[keys.len() - 1].0 == keys.last().0);
            }
        }
    }
}

} // verus!

verus! {

impl UserChart {
    /// Recomputes the shown series over the buckets of the current chart type
    /// (see [`user_reloaded`]) and clears the labels and the reload counter.
    pub fn reload_chart(&mut self)
        requires
            old(self).wf(),
        ensures
            final(self).wf(),
            data_view(final(self).chart_data@) == user_reloaded(
                data_view(old(self).chart_data@),
                old(self).data_for(old(self).chart_type),
                old(self).buckets.keys_for(old(self).chart_type),
            ),
            final(self).reload_count == 0,
            final(self).chart_labels@.len() == 0,
            final(self).chart_type == old(self).chart_type,
            final(self).chart_values@ == old(self).chart_values@,
            final(self).buckets == old(self).buckets,
            final(self).hourly_data@ == old(self).hourly_data@,
            final(self).daily_data@ == old(self).daily_data@,
            final(self).weekly_data@ == old(self).weekly_data@,
            final(self).monthly_data@ == old(self).monthly_data@,
            final(self).date_handler == old(self).date_handler,
    {
        self.reload_count = 0;
        self.chart_labels = Vec::new();
        let keys = self.buckets.select(self.chart_type);
        let s = self.get_target_data(self.chart_type);
        let ghost shown = data_view(self.chart_data@);
        let mut out: Vec<(String, IndexMap<i64, i64>)> = Vec::new();
        if keys.len() > 0 {
            let mut i: usize = 0;
            while i < self.chart_data.len()
                invariant
                    i <= self.chart_data.len(),
                    keys@.len() > 0,
                    shown == data_view(self.chart_data@),
                    sorted_names(shown),
                    sorted_keys(keys@),
                    data_view(out@) == user_reloaded(shown.take(i as int), s@, keys@),
                    sorted_names(data_view(out@)),
                    forall|a: int| 0 <= a < out@.len() ==> exists|j: int|
                        0 <= j < i && (#[trigger] data_view(out@)[a]).0 == shown[j].0,
                decreases self.chart_data.len() - i,
            {
                proof {
                    assert(shown.take(i + 1).drop_last() =~= shown.take(i as int));
                    assert(shown.take(i + 1).last() == shown[i as int]);
                }
                let ghost before = data_view(out@);
                let name = &self.chart_data[i].0;
                let mut added = false;
                if same_text(name.as_str(), "Active Users") {
                    let values = bucket_counts(s, keys);
                    let m = series_from(keys, &values);
                    proof {
                        assert(series_entries(m) =~= active_totals(keys@, s@));
                    }
                    out.push((name.clone(), m));
                    added = true;
                } else {
                    let flags = bucket_flags(s, keys, name);
                    let entries = flagged_entries(keys, &flags, Ghost(s@), Ghost(name@));
                    if entries.len() > 0 {
                        proof {
                            lemma_active_entries_sorted(keys@, s@, name@);
                        }
                        let m = series_of_entries(&entries);
                        out.push((name.clone(), m));
                        added = true;
                    }
                }
                proof {
                    if added {
                        let t = data_view(out@);
                        assert(t =~= before.push(t[before.len() as int]));
                        assert(t[before.len() as int].0 == shown[i as int].0);
                        assert forall|a: int, b: int| 0 <= a < b < t.len() implies name_lt(t[a].0, t[b].0) by {
                            if b == before.len() {
                                assert(t[a] == before[a]);
                                let j = choose|j: int| 0 <= j < i && before[a].0 == shown[j].0;
                            } else {
                                assert(t[a] == before[a] && t[b] == before[b]);
                            }
                        }
                        assert forall|a: int| 0 <= a < out@.len() implies exists|j: int|
                            0 <= j < i + 1 && (#[trigger] data_view(out@)[a]).0 == shown[j].0 by {
                            if a < before.len() {
                                assert(t[a] == before[a]);
                                let j = choose|j: int| 0 <= j < i && before[a].0 == shown[j].0;
                            } else {
                                assert(0 <= i < i + 1 && t[a].0 == shown[i as int].0);
                            }
                        }
                        assert(t == user_reloaded(shown.take(i + 1), s@, keys@));
                    } else {
                        assert(data_view(out@) == user_reloaded(shown.take(i + 1), s@, keys@));
                    }
                }
                i = i + 1;
            }
            proof {
                assert(shown.take(shown.len() as int) =~= shown);
            }
        }
        self.chart_data = out;
    }

    /// The lines to draw, one per shown series; when no labels exist yet, builds
    /// them (see [`chart_lines_for`]).
    pub fn chart_lines(&mut self) -> (r: Vec<(String, Vec<i64>)>)
        ensures
            lines_view(r@) == chart_lines_of(data_view(old(self).chart_data@), old(self).date_handler),
            labels_view(final(self).chart_labels@) == if old(self).chart_labels@.len() == 0 {
                built_labels(data_view(old(self).chart_data@), old(self).date_handler)
            } else {
                labels_view(old(self).chart_labels@)
            },
            *final(self) == (UserChart { chart_labels: final(self).chart_labels, ..*old(self) }),
    {
        chart_lines_for(&self.chart_data, self.date_handler, &mut self.chart_labels)
    }

    /// Switches the chart type (the type menu); returns whether it changed, in
    /// which case the chart asks to be rebuilt.
    pub fn select_chart_type(&mut self, chart: ChartType, guild_id: i64, event_bus: &mut EventBus) -> (r: bool)
        ensures
            r == (old(self).chart_type != chart),
            *final(self) == (UserChart { chart_type: chart, ..*old(self) }),
            final(event_bus)@ == if r {
                old(event_bus)@.push(AppEvent::UserChartTypeChanged(guild_id))
            } else {
                old(event_bus)@
            },
    {
        if self.chart_type != chart {
            self.chart_type = chart;
            event_bus.publish(AppEvent::UserChartTypeChanged(guild_id));
            true
        } else {
            false
        }
    }

    pub fn set_date_handler(&mut self, handler: DateHandler)
        ensures
            *final(self) == (UserChart { date_handler: handler, ..*old(self) }),
    {
        self.date_handler = handler;
    }
}

} // verus!
