//! The message chart tab: messages counted per time bucket, in total, deleted,
//! and per chosen user, over the selected channels.
use vstd::prelude::*;
use indexmap::IndexMap;
use crate::aggregate::wadd;
use crate::calendar::{day_of_time, SECONDS_PER_DAY, SECONDS_PER_HOUR, SECONDS_PER_WEEK};
use crate::chart_buckets::{bucket_recorded, counted_channel_ids, counted_channels, list_contains, month_recorded, selection_valid, BucketSets};
use crate::date_handler::DateHandler;
use crate::event_bus::EventBus;
use crate::guild_channel::Channel;
use crate::keyed::sorted_keys;
use crate::message_user::MessageWithUser;
use crate::aggregate::{lemma_name_index, name_index};
use crate::named::{ensure_name, find_name, lemma_same_names, name_lt, name_position, named_insert_absent, named_removed, names_view, remove_name, same_names, sorted_names};
use crate::overview::{bucket_times, bucket_times_of, published_once, reload_threshold, usable_time};
use crate::response::PAGE_VALUE;
use crate::series::{lemma_position_of, position_of, series_entries, series_get_index, series_index_of, series_insert, series_len, series_new};
use crate::state::{AppEvent, ChartType};
use crate::text::same_text;

verus! {

/// Messages of one user in one channel and time bucket: the number of messages
/// still present, or one deleted message.
pub struct ChartPoint {
    pub bucket: i64,
    pub channel: i64,
    pub user: String,
    pub count: u32,
    pub deleted: bool,
}

/// A point as plain values: bucket, channel, user, count, deleted.
pub type PointView = (i64, i64, Seq<char>, u32, bool);

pub open spec fn point_view(p: ChartPoint) -> PointView {
    (p.bucket, p.channel, p.user@, p.count, p.deleted)
}

pub open spec fn points_view(s: Seq<ChartPoint>) -> Seq<PointView> {
    s.map_values(|p: ChartPoint| point_view(p))
}

/// The point counting the present messages of `user` in `channel` and `bucket`.
pub open spec fn is_open_point(p: PointView, bucket: i64, channel: i64, user: Seq<char>) -> bool {
    p.0 == bucket && p.1 == channel && p.2 == user && !p.4
}

/// The position of the first such point, or -1.
pub open spec fn open_point_index(s: Seq<PointView>, bucket: i64, channel: i64, user: Seq<char>) -> int
    decreases s.len(),
{
    if s.len() == 0 {
        -1
    } else if open_point_index(s.drop_last(), bucket, channel, user) >= 0 {
        open_point_index(s.drop_last(), bucket, channel, user)
    } else if is_open_point(s.last(), bucket, channel, user) {
        s.len() - 1
    } else {
        -1
    }
}

pub proof fn lemma_open_point_index(s: Seq<PointView>, bucket: i64, channel: i64, user: Seq<char>)
    ensures
        -1 <= open_point_index(s, bucket, channel, user) < s.len(),
        open_point_index(s, bucket, channel, user) >= 0 ==> is_open_point(
            s[open_point_index(s, bucket, channel, user)],
            bucket,
            channel,
            user,
        ),
        open_point_index(s, bucket, channel, user) >= 0 ==> forall|j: int|
            0 <= j < open_point_index(s, bucket, channel, user) ==> !is_open_point(#[trigger] s[j], bucket, channel, user),
        open_point_index(s, bucket, channel, user) < 0 ==> forall|j: int|
            0 <= j < s.len() ==> !is_open_point(#[trigger] s[j], bucket, channel, user),
    decreases s.len(),
{
    if s.len() > 0 {
        let t = s.drop_last();
        lemma_open_point_index(t, bucket, channel, user);
        assert forall|j: int| 0 <= j < t.len() implies t[j] == s[j] by {}
    }
}

/// The points after counting one message of `user` in `channel` and `bucket`: a
/// deleted message always gets a point of its own; a present one is added to
/// the user's open point, which is created when missing.
pub open spec fn point_recorded(
    s: Seq<PointView>,
    bucket: i64,
    channel: i64,
    user: Seq<char>,
    deleted: bool,
) -> Seq<PointView> {
    if deleted {
        s.push((bucket, channel, user, 1u32, true))
    } else {
        let i = open_point_index(s, bucket, channel, user);
        if i >= 0 {
            s.update(i, (bucket, channel, user, wadd(s[i].3, 1), false))
        } else {
            s.push((bucket, channel, user, 1u32, false))
        }
    }
}

/// Counts one message in a list of points (see [`point_recorded`]).
pub fn record_point(points: &mut Vec<ChartPoint>, bucket: i64, channel: i64, user: &String, deleted: bool)
    ensures
        points_view(final(points)@) == point_recorded(points_view(old(points)@), bucket, channel, user@, deleted),
{
    let ghost s = points_view(points@);
    if deleted {
        points.push(ChartPoint { bucket, channel, user: user.clone(), count: 1, deleted: true });
        assert(points_view(points@) =~= s.push((bucket, channel, user@, 1u32, true)));
        return;
    }
    proof {
        lemma_open_point_index(s, bucket, channel, user@);
    }
    let mut i: usize = 0;
    while i < points.len()
        invariant
            s == points_view(points@),
            points@ == old(points)@,
            !deleted,
            i <= points.len(),
            forall|j: int| 0 <= j < i ==> !is_open_point(#[trigger] s[j], bucket, channel, user@),
            -1 <= open_point_index(s, bucket, channel, user@) < s.len(),
            open_point_index(s, bucket, channel, user@) >= 0 ==> is_open_point(
                s[open_point_index(s, bucket, channel, user@)],
                bucket,
                channel,
                user@,
            ),
            open_point_index(s, bucket, channel, user@) >= 0 ==> forall|j: int|
                0 <= j < open_point_index(s, bucket, channel, user@) ==> !is_open_point(#[trigger] s[j], bucket, channel, user@),
            open_point_index(s, bucket, channel, user@) < 0 ==> forall|j: int|
                0 <= j < s.len() ==> !is_open_point(#[trigger] s[j], bucket, channel, user@),
        decreases points.len() - i,
    {
        if points[i].bucket == bucket && points[i].channel == channel && !points[i].deleted
            && points[i].user == *user {
            assert(is_open_point(s[i as int], bucket, channel, user@));
            assert(open_point_index(s, bucket, channel, user@) == i as int);
            let count = points[i].count.wrapping_add(1);
            points.set(i, ChartPoint { bucket, channel, user: user.clone(), count, deleted: false });
            assert(points_view(points@) =~= s.update(i as int, (bucket, channel, user@, wadd(s[i as int].3, 1), false)));
            return;
        }
        assert(!is_open_point(s[i as int], bucket, channel, user@));
        i = i + 1;
    }
    points.push(ChartPoint { bucket, channel, user: user.clone(), count: 1, deleted: false });
    assert(points_view(points@) =~= s.push((bucket, channel, user@, 1u32, false)));
}

/// The position of bucket `k` in a sorted bucket list.
pub fn find_bucket<V>(keys: &Vec<(i64, V)>, k: i64) -> (r: Option<usize>)
    requires
        sorted_keys(keys@),
    ensures
        r matches Some(i) ==> i < keys@.len() && keys@[i as int].0 == k,
        r is None ==> forall|j: int| 0 <= j < keys@.len() ==> keys@[j].0 != k,
{
    let mut lo: usize = 0;
    let mut hi: usize = keys.len();
    while lo < hi
        invariant
            lo <= hi <= keys.len(),
            sorted_keys(keys@),
            forall|j: int| 0 <= j < lo ==> keys@[j].0 < k,
            forall|j: int| hi <= j < keys@.len() ==> keys@[j].0 > k,
        decreases hi - lo,
    {
        let mid = lo + (hi - lo) / 2;
        let m = keys[mid].0;
        if m == k {
            return Some(mid);
        } else if m < k {
            lo = mid + 1;
        } else {
            hi = mid;
        }
    }
    None
}

} // verus!

verus! {

/// Wrapping addition of 64-bit totals.
pub open spec fn wadd64(a: i64, b: i64) -> i64 {
    vstd::wrapping::i64_specs::wrapping_add(a, b)
}

/// The total count of the points in `bucket`, in a channel of `counted`, that are
/// deleted (or present, for `deleted == false`).
pub open spec fn counted_total(s: Seq<PointView>, bucket: i64, counted: Set<i64>, deleted: bool) -> i64
    decreases s.len(),
{
    if s.len() == 0 {
        0
    } else {
        let acc = counted_total(s.drop_last(), bucket, counted, deleted);
        let p = s.last();
        if p.0 == bucket && counted.contains(p.1) && p.4 == deleted {
            wadd64(acc, p.3 as i64)
        } else {
            acc
        }
    }
}

/// The total count of the points of `user` in `bucket`, in a channel of
/// `counted`, deleted or not.
pub open spec fn counted_for_user(s: Seq<PointView>, bucket: i64, counted: Set<i64>, user: Seq<char>) -> u32
    decreases s.len(),
{
    if s.len() == 0 {
        0
    } else {
        let acc = counted_for_user(s.drop_last(), bucket, counted, user);
        let p = s.last();
        if p.0 == bucket && counted.contains(p.1) && p.2 == user {
            wadd(acc, p.3)
        } else {
            acc
        }
    }
}

/// Per bucket of `keys`, the total of the matching points (see [`counted_total`]).
fn bucket_totals(points: &Vec<ChartPoint>, keys: &Vec<(i64, ())>, counted: &Vec<i64>, deleted: bool) -> (r: Vec<i64>)
    requires
        sorted_keys(keys@),
    ensures
        r@.len() == keys@.len(),
        forall|k: int| 0 <= k < keys@.len() ==> #[trigger] r@[k] == counted_total(
            points_view(points@),
            keys@[k].0,
            counted@.to_set(),
            deleted,
        ),
{
    let ghost s = points_view(points@);
    let ghost sel = counted@.to_set();
    let mut acc: Vec<i64> = Vec::new();
    let mut k: usize = 0;
    while k < keys.len()
        invariant
            k <= keys.len(),
            acc@.len() == k,
            forall|j: int| 0 <= j < k ==> acc@[j] == 0,
        decreases keys.len() - k,
    {
        acc.push(0);
        k = k + 1;
    }
    proof {
        assert(s.take(0) =~= Seq::<PointView>::empty());
    }
    let mut i: usize = 0;
    while i < points.len()
        invariant
            s == points_view(points@),
            sel == counted@.to_set(),
            sorted_keys(keys@),
            i <= points.len(),
            acc@.len() == keys@.len(),
            forall|j: int| 0 <= j < keys@.len() ==> #[trigger] acc@[j] == counted_total(
                s.take(i as int),
                keys@[j].0,
                sel,
                deleted,
            ),
        decreases points.len() - i,
    {
        proof {
            assert(s.take(i + 1).drop_last() =~= s.take(i as int));
            assert(s.take(i + 1).last() == s[i as int]);
        }
        let p = &points[i];
        if p.deleted == deleted && list_contains(counted, p.channel) {
            match find_bucket(keys, p.bucket) {
                Some(k) => {
                    let v = acc[k].wrapping_add(p.count as i64);
                    acc.set(k, v);
                },
                None => {},
            }
        }
        i = i + 1;
    }
    proof {
        assert(s.take(points.len() as int) =~= s);
    }
    acc
}

/// Per bucket of `keys`, the total of `user`'s points (see [`counted_for_user`]).
fn bucket_user_totals(points: &Vec<ChartPoint>, keys: &Vec<(i64, ())>, counted: &Vec<i64>, user: &String) -> (r: Vec<u32>)
    requires
        sorted_keys(keys@),
    ensures
        r@.len() == keys@.len(),
        forall|k: int| 0 <= k < keys@.len() ==> #[trigger] r@[k] == counted_for_user(
            points_view(points@),
            keys@[k].0,
            counted@.to_set(),
            user@,
        ),
{
    let ghost s = points_view(points@);
    let ghost sel = counted@.to_set();
    let mut acc: Vec<u32> = Vec::new();
    let mut k: usize = 0;
    while k < keys.len()
        invariant
            k <= keys.len(),
            acc@.len() == k,
            forall|j: int| 0 <= j < k ==> acc@[j] == 0,
        decreases keys.len() - k,
    {
        acc.push(0);
        k = k + 1;
    }
    proof {
        assert(s.take(0) =~= Seq::<PointView>::empty());
    }
    let mut i: usize = 0;
    while i < points.len()
        invariant
            s == points_view(points@),
            sel == counted@.to_set(),
            sorted_keys(keys@),
            i <= points.len(),
            acc@.len() == keys@.len(),
            forall|j: int| 0 <= j < keys@.len() ==> #[trigger] acc@[j] == counted_for_user(
                s.take(i as int),
                keys@[j].0,
                sel,
                user@,
            ),
        decreases points.len() - i,
    {
        proof {
            assert(s.take(i + 1).drop_last() =~= s.take(i as int));
            assert(s.take(i + 1).last() == s[i as int]);
        }
        let p = &points[i];
        if p.user == *user && list_contains(counted, p.channel) {
            match find_bucket(keys, p.bucket) {
                Some(k) => {
                    let v = acc[k].wrapping_add(p.count);
                    acc.set(k, v);
                },
                None => {},
            }
        }
        i = i + 1;
    }
    proof {
        assert(s.take(points.len() as int) =~= s);
    }
    acc
}

} // verus!

verus! {

/// One row of the chart's hover labels: the bucket time, then per shown series
/// its name and count at that row (`None` where the series has no point there).
pub struct LabelRow {
    pub time: i64,
    pub values: Vec<Option<(String, i64)>>,
}

/// The chart series as plain values: name, then (bucket, count) in order.
pub open spec fn data_view(s: Seq<(String, IndexMap<i64, i64>)>) -> Seq<(Seq<char>, Seq<(i64, i64)>)> {
    s.map_values(|p: (String, IndexMap<i64, i64>)| (p.0@, series_entries(p.1)))
}

/// The message chart of one guild.
pub struct MessageChart {
    pub chart_type: ChartType,
    /// The shown series by name: "All Messages", "Deleted Messages" and users.
    pub chart_data: Vec<(String, IndexMap<i64, i64>)>,
    /// Every series that can be shown, by name, and whether it is chosen.
    pub chart_values: Vec<(String, bool)>,
    pub chart_labels: Vec<LabelRow>,
    pub buckets: BucketSets,
    pub hourly_points: Vec<ChartPoint>,
    pub daily_points: Vec<ChartPoint>,
    pub weekly_points: Vec<ChartPoint>,
    pub monthly_points: Vec<ChartPoint>,
    pub date_handler: DateHandler,
    pub reload_count: u64,
    pub open_modal: bool,
    pub channels: Vec<Channel>,
    /// Selected entries of the channel list: 0 for all channels, `i` for channel `i - 1`.
    pub selected_channels: Vec<usize>,
}

impl MessageChart {
    pub open spec fn wf(&self) -> bool {
        &&& self.buckets.wf()
        &&& sorted_names(data_view(self.chart_data@))
        &&& sorted_names(names_view(self.chart_values@))
    }

    /// The points of one chart type.
    pub open spec fn points_for(&self, chart: ChartType) -> Seq<PointView> {
        match chart {
            ChartType::Hourly => points_view(self.hourly_points@),
            ChartType::Daily => points_view(self.daily_points@),
            ChartType::Weekly => points_view(self.weekly_points@),
            ChartType::Monthly => points_view(self.monthly_points@),
        }
    }

    /// The points of one chart type.
    pub fn select_points(&self, chart: ChartType) -> (r: &Vec<ChartPoint>)
        ensures
            points_view(r@) == self.points_for(chart),
    {
        match chart {
            ChartType::Hourly => &self.hourly_points,
            ChartType::Daily => &self.daily_points,
            ChartType::Weekly => &self.weekly_points,
            ChartType::Monthly => &self.monthly_points,
        }
    }
}

impl MessageChart {
    /// A daily chart with empty "All Messages" and "Deleted Messages" series,
    /// both chosen, no labels, buckets or points, the channel dialog closed with
    /// no channels, the date range at its start and no reload counted.
    pub open spec fn is_fresh(&self) -> bool {
        &&& self.chart_type == ChartType::Daily
        &&& data_view(self.chart_data@) == seq![
            ("All Messages"@, Seq::<(i64, i64)>::empty()),
            ("Deleted Messages"@, Seq::<(i64, i64)>::empty()),
        ]
        &&& names_view(self.chart_values@) == seq![("All Messages"@, true), ("Deleted Messages"@, true)]
        &&& self.chart_labels@.len() == 0
        &&& self.buckets.is_fresh()
        &&& self.hourly_points@.len() == 0 && self.daily_points@.len() == 0
        &&& self.weekly_points@.len() == 0 && self.monthly_points@.len() == 0
        &&& self.date_handler == DateHandler::spec_default()
        &&& self.reload_count == 0
        &&& !self.open_modal
        &&& self.channels@.len() == 0
        &&& self.selected_channels@.len() == 0
    }
}

impl Default for MessageChart {
    /// A daily chart showing all and deleted messages, with no data.
    fn default() -> (r: MessageChart)
        ensures
            r.wf(),
            r.is_fresh(),
    {
        let all = String::from_str("All Messages");
        let deleted = String::from_str("Deleted Messages");
        proof {
            reveal_strlit("All Messages");
            reveal_strlit("Deleted Messages");
            assert(name_lt(all@, deleted@));
        }
        let mut chart_data: Vec<(String, IndexMap<i64, i64>)> = Vec::new();
        chart_data.push((all.clone(), series_new()));
        chart_data.push((deleted.clone(), series_new()));
        let mut chart_values: Vec<(String, bool)> = Vec::new();
        chart_values.push((all, true));
        chart_values.push((deleted, true));
        let r = MessageChart {
            chart_type: ChartType::Daily,
            chart_data,
            chart_values,
            chart_labels: Vec::new(),
            buckets: BucketSets::new(),
            hourly_points: Vec::new(),
            daily_points: Vec::new(),
            weekly_points: Vec::new(),
            monthly_points: Vec::new(),
            date_handler: DateHandler::default(),
            reload_count: 0,
            open_modal: false,
            channels: Vec::new(),
            selected_channels: Vec::new(),
        };
        assert(data_view(r.chart_data@) =~= seq![
            ("All Messages"@, Seq::<(i64, i64)>::empty()),
            ("Deleted Messages"@, Seq::<(i64, i64)>::empty()),
        ]);
        assert(names_view(r.chart_values@) =~= seq![("All Messages"@, true), ("Deleted Messages"@, true)]);
        r
    }
}

impl MessageChart {
    /// What counting a message at the local time `local` did (see
    /// [`MessageChart::handle_message`]).
    pub open spec fn message_counted(before: MessageChart, after: MessageChart, message: MessageWithUser, local: i64, bus0: Seq<AppEvent>, bus1: Seq<AppEvent>) -> bool {
        &&& ({
            let t = bucket_times(local as int);
            let c = message.message.channel_id;
            let u = message.sender.username@;
            let d = message.message.delete_timestamp is Some;
            &&& after.buckets.hourly@ =~= bucket_recorded(before.buckets.hourly@, before.buckets.last_hour, t.0, SECONDS_PER_HOUR as int)
            &&& after.buckets.daily@ =~= bucket_recorded(before.buckets.daily@, before.buckets.last_day, t.1, SECONDS_PER_DAY as int)
            &&& after.buckets.weekly@ =~= bucket_recorded(before.buckets.weekly@, before.buckets.last_week, t.2, SECONDS_PER_WEEK as int)
            &&& after.buckets.monthly@ =~= month_recorded(before.buckets.monthly@, before.buckets.last_month, t.3)
            &&& after.buckets.last_hour == Some(t.0)
            &&& after.buckets.last_day == Some(t.1)
            &&& after.buckets.last_week == Some(t.2)
            &&& after.buckets.last_month == Some(t.3)
            &&& points_view(after.hourly_points@) =~= point_recorded(points_view(before.hourly_points@), t.0, c, u, d)
            &&& points_view(after.daily_points@) =~= point_recorded(points_view(before.daily_points@), t.1, c, u, d)
            &&& points_view(after.weekly_points@) =~= point_recorded(points_view(before.weekly_points@), t.2, c, u, d)
            &&& points_view(after.monthly_points@) =~= point_recorded(points_view(before.monthly_points@), t.3, c, u, d)
            &&& names_view(after.chart_values@) =~= named_insert_absent(names_view(before.chart_values@), u, false)
        })
        &&& after.reload_count == vstd::wrapping::u64_specs::wrapping_add(before.reload_count, 1)
        &&& bus1 =~= if after.reload_count == reload_threshold() {
            published_once(bus0, AppEvent::MessageChartNeedsReload(message.message.guild_id))
        } else {
            bus0
        }
        &&& after.chart_type == before.chart_type
        &&& after.chart_data@ =~= before.chart_data@
        &&& after.chart_labels@ =~= before.chart_labels@
        &&& after.date_handler == before.date_handler
        &&& after.open_modal == before.open_modal
        &&& after.channels@ =~= before.channels@
        &&& after.selected_channels@ =~= before.selected_channels@
    }

    /// Counts a message (`local` is the local time of its event timestamp: its
    /// deletion time when it was deleted, else its sending time) in the hour,
    /// day, week and month buckets of its sender and channel, and makes its
    /// sender a series that can be chosen. Every [`reload_threshold`] messages
    /// the chart asks to be reloaded.
    pub fn handle_message(&mut self, message: &MessageWithUser, local: i64, event_bus: &mut EventBus)
        requires
            old(self).wf(),
            usable_time(local as int),
        ensures
            final(self).wf(),
            MessageChart::message_counted(*old(self), *final(self), *message, local, old(event_bus)@, final(event_bus)@),
    {
        let times = bucket_times_of(local);
        self.buckets.record(times);
        let channel = message.message.channel_id;
        let user = &message.sender.username;
        let deleted = message.message.delete_timestamp.is_some();
        record_point(&mut self.hourly_points, times.0, channel, user, deleted);
        record_point(&mut self.daily_points, times.1, channel, user, deleted);
        record_point(&mut self.weekly_points, times.2, channel, user, deleted);
        record_point(&mut self.monthly_points, times.3, channel, user, deleted);
        ensure_name(&mut self.chart_values, user, false);
        self.reload_count = self.reload_count.wrapping_add(1);
        if self.reload_count == PAGE_VALUE * 5 {
            event_bus.publish_if_needed(AppEvent::MessageChartNeedsReload(message.message.guild_id));
        }
    }
}

} // verus!

verus! {

/// The count shown by the series `name` for `bucket`: all present messages, all
/// deleted messages, or the messages of the user so named.
pub open spec fn series_value(name: Seq<char>, s: Seq<PointView>, bucket: i64, counted: Set<i64>) -> i64 {
    if name == "All Messages"@ {
        counted_total(s, bucket, counted, false)
    } else if name == "Deleted Messages"@ {
        counted_total(s, bucket, counted, true)
    } else {
        counted_for_user(s, bucket, counted, name) as i64
    }
}

/// The series `name` over the buckets `keys`, in bucket order.
pub open spec fn series_over(name: Seq<char>, s: Seq<PointView>, keys: Seq<(i64, ())>, counted: Set<i64>) -> Seq<(i64, i64)> {
    keys.map_values(|k: (i64, ())| (k.0, series_value(name, s, k.0, counted)))
}

/// The shown series after a reload: each named series recomputed over the
/// buckets; with no bucket at all, no series is left.
pub open spec fn reloaded_data(
    shown: Seq<(Seq<char>, Seq<(i64, i64)>)>,
    s: Seq<PointView>,
    keys: Seq<(i64, ())>,
    counted: Set<i64>,
) -> Seq<(Seq<char>, Seq<(i64, i64)>)> {
    if keys.len() == 0 {
        Seq::empty()
    } else {
        shown.map_values(|p: (Seq<char>, Seq<(i64, i64)>)| (p.0, series_over(p.0, s, keys, counted)))
    }
}

/// A user name that is also the name of a totals series.
pub open spec fn reserved_name(n: Seq<char>) -> bool {
    n == "All Messages"@ || n == "Deleted Messages"@
}

/// No counted point belongs to a user named like a shown totals series (whose
/// count could not be told apart from the total).
pub open spec fn reload_safe(
    shown: Seq<(Seq<char>, Seq<(i64, i64)>)>,
    s: Seq<PointView>,
    counted: Set<i64>,
) -> bool {
    forall|i: int|
        0 <= i < s.len() && counted.contains(#[trigger] s[i].1) && reserved_name(s[i].2)
            ==> forall|j: int| 0 <= j < shown.len() ==> #[trigger] shown[j].0 != s[i].2
}

/// A series holding `(keys[k], values[k])` for every `k`, in order.
pub fn series_from(keys: &Vec<(i64, ())>, values: &Vec<i64>) -> (r: IndexMap<i64, i64>)
    requires
        sorted_keys(keys@),
        values@.len() == keys@.len(),
    ensures
        series_entries(r) == keys@.map_values(|k: (i64, ())| k.0).zip_with(values@),
{
    let mut m = series_new();
    let mut i: usize = 0;
    while i < keys.len()
        invariant
            i <= keys.len(),
            sorted_keys(keys@),
            values@.len() == keys@.len(),
            series_entries(m) == keys@.map_values(|k: (i64, ())| k.0).zip_with(values@).take(i as int),
        decreases keys.len() - i,
    {
        let ghost before = series_entries(m);
        proof {
            crate::series::lemma_position_of(before, keys@[i as int].0);
            if crate::series::position_of(before, keys@[i as int].0) >= 0 {
                let q = crate::series::position_of(before, keys@[i as int].0);
                assert(before[q].0 == keys@[q].0);
            }
        }
        series_insert(&mut m, keys[i].0, values[i]);
        proof {
            let z = keys@.map_values(|k: (i64, ())| k.0).zip_with(values@);
            assert(z.take(i + 1) =~= z.take(i as int).push(z[i as int]));
        }
        i = i + 1;
    }
    proof {
        let z = keys@.map_values(|k: (i64, ())| k.0).zip_with(values@);
        assert(z.take(keys.len() as int) =~= z);
    }
    m
}

} // verus!

verus! {

/// Per bucket, the values of the series `name` (see [`series_value`]).
fn series_values(
    name: &String,
    points: &Vec<ChartPoint>,
    keys: &Vec<(i64, ())>,
    counted: &Vec<i64>,
) -> (r: Vec<i64>)
    requires
        sorted_keys(keys@),
    ensures
        r@.len() == keys@.len(),
        forall|k: int| 0 <= k < keys@.len() ==> #[trigger] r@[k] == series_value(
            name@,
            points_view(points@),
            keys@[k].0,
            counted@.to_set(),
        ),
{
    if same_text(name.as_str(), "All Messages") {
        bucket_totals(points, keys, counted, false)
    } else if same_text(name.as_str(), "Deleted Messages") {
        bucket_totals(points, keys, counted, true)
    } else {
        let u = bucket_user_totals(points, keys, counted, name);
        let mut out: Vec<i64> = Vec::new();
        let mut i: usize = 0;
        while i < u.len()
            invariant
                i <= u.len(),
                out@.len() == i,
                forall|j: int| 0 <= j < i ==> out@[j] == u@[j] as i64,
            decreases u.len() - i,
        {
            out.push(u[i] as i64);
            i = i + 1;
        }
        out
    }
}

impl MessageChart {
    /// Whether [`MessageChart::reload_chart`] can run on the current data (see [`reload_safe`]).
    pub open spec fn can_reload(&self) -> bool {
        &&& self.wf()
        &&& selection_valid(self.channels@, self.selected_channels@)
        &&& reload_safe(
            data_view(self.chart_data@),
            self.points_for(self.chart_type),
            counted_channels(self.channels@, self.selected_channels@),
        )
    }

    /// Recomputes every shown series over the buckets of the current chart type
    /// and the counted channels, and clears the labels and the reload counter.
    pub fn reload_chart(&mut self)
        requires
            old(self).can_reload(),
        ensures
            final(self).wf(),
            data_view(final(self).chart_data@) == reloaded_data(
                data_view(old(self).chart_data@),
                old(self).points_for(old(self).chart_type),
                old(self).buckets.keys_for(old(self).chart_type),
                counted_channels(old(self).channels@, old(self).selected_channels@),
            ),
            final(self).reload_count == 0,
            final(self).chart_labels@.len() == 0,
            final(self).chart_type == old(self).chart_type,
            final(self).chart_values@ == old(self).chart_values@,
            final(self).buckets == old(self).buckets,
            final(self).hourly_points@ == old(self).hourly_points@,
            final(self).daily_points@ == old(self).daily_points@,
            final(self).weekly_points@ == old(self).weekly_points@,
            final(self).monthly_points@ == old(self).monthly_points@,
            final(self).date_handler == old(self).date_handler,
            final(self).open_modal == old(self).open_modal,
            final(self).channels@ == old(self).channels@,
            final(self).selected_channels@ == old(self).selected_channels@,
    {
        self.reload_count = 0;
        self.chart_labels = Vec::new();
        let counted = counted_channel_ids(&self.channels, &self.selected_channels);
        let ghost sel = counted_channels(self.channels@, self.selected_channels@);
        proof {
            assert(counted@.to_set() =~= sel);
        }
        let keys = self.buckets.select(self.chart_type);
        let points = self.select_points(self.chart_type);
        let ghost shown = data_view(self.chart_data@);
        let ghost s = points_view(points@);
        let mut out: Vec<(String, IndexMap<i64, i64>)> = Vec::new();
        if keys.len() > 0 {
            let mut i: usize = 0;
            while i < self.chart_data.len()
                invariant
                    i <= self.chart_data.len(),
                    shown == data_view(self.chart_data@),
                    s == points_view(points@),
                    sorted_keys(keys@),
                    counted@.to_set() == sel,
                    data_view(out@) == shown.take(i as int).map_values(
                        |p: (Seq<char>, Seq<(i64, i64)>)| (p.0, series_over(p.0, s, keys@, sel)),
                    ),
                decreases self.chart_data.len() - i,
            {
                let name = &self.chart_data[i].0;
                let values = series_values(name, points, keys, &counted);
                let m = series_from(keys, &values);
                proof {
                    assert(series_entries(m) =~= series_over(name@, s, keys@, sel));
                }
                let ghost before = data_view(out@);
                let entry = (name.clone(), m);
                assert(entry.0@ == shown[i as int].0);
                out.push(entry);
                proof {
                    let f = |p: (Seq<char>, Seq<(i64, i64)>)| (p.0, series_over(p.0, s, keys@, sel));
                    assert(data_view(out@) =~= before.push((name@, series_entries(m))));
                    assert(shown.take(i + 1) =~= shown.take(i as int).push(shown[i as int]));
                    assert(data_view(out@) =~= shown.take(i + 1).map_values(f));
                }
                i = i + 1;
            }
            proof {
                assert(shown.take(shown.len() as int) =~= shown);
            }
        }
        proof {
            assert(data_view(out@) =~= reloaded_data(shown, s, keys@, sel));
        }
        self.chart_data = out;
    }
}

} // verus!

verus! {

/// The day of a bucket time (floor division by the length of a day).
pub fn floor_day(k: i64) -> (r: i64)
    ensures
        r == day_of_time(k as int),
{
    if k >= 0 {
        k / SECONDS_PER_DAY
    } else {
        let m = -(k + 1);
        let q = m / SECONDS_PER_DAY;
        proof {
            vstd::arithmetic::div_mod::lemma_fundamental_div_mod(m as int, 86400);
            vstd::arithmetic::div_mod::lemma_fundamental_div_mod(k as int, 86400);
            vstd::arithmetic::div_mod::lemma_mod_bound(m as int, 86400);
            vstd::arithmetic::div_mod::lemma_mod_bound(k as int, 86400);
            let qq = (k as int) / 86400;
            let rr = (k as int) % 86400;
            let r2 = (m as int) % 86400;
            assert(k as int == -(m as int) - 1);
            assert(k as int == 86400 * (-(q as int) - 1) + (86399 - r2));
            assert(k as int == 86400 * qq + rr);
            assert(0 <= 86399 - r2 < 86400);
            assert(qq == -(q as int) - 1) by (nonlinear_arith)
                requires
                    k as int == 86400 * (-(q as int) - 1) + (86399 - r2),
                    k as int == 86400 * qq + rr,
                    0 <= 86399 - r2 < 86400,
                    0 <= rr < 86400,
            ;
        }
        -q - 1
    }
}

/// The entries shown from the front of `e`: entries whose day lies within `h`,
/// up to the first one whose day is past the To date.
pub open spec fn visible_from(e: Seq<(i64, i64)>, h: DateHandler) -> Seq<(i64, i64)>
    decreases e.len(),
{
    if e.len() == 0 {
        Seq::empty()
    } else if day_of_time(e[0].0 as int) > h.to {
        Seq::empty()
    } else if h.spec_within_range(day_of_time(e[0].0 as int)) {
        seq![e[0]] + visible_from(e.drop_first(), h)
    } else {
        visible_from(e.drop_first(), h)
    }
}

/// Where a series is shown from: the entry at midnight of the From date, else its start.
pub open spec fn start_position(e: Seq<(i64, i64)>, h: DateHandler) -> int {
    let p = position_of(e, (h.from * SECONDS_PER_DAY) as i64);
    if p >= 0 {
        p
    } else {
        0
    }
}

/// The shown entries of a series.
pub open spec fn visible(e: Seq<(i64, i64)>, h: DateHandler) -> Seq<(i64, i64)> {
    visible_from(e.skip(start_position(e, h)), h)
}

/// Collects the shown entries of a series (see [`visible`]).
pub fn visible_points(m: &IndexMap<i64, i64>, h: DateHandler) -> (r: Vec<(i64, i64)>)
    ensures
        r@ == visible(series_entries(*m), h),
{
    let ghost s = series_entries(*m);
    proof {
        lemma_position_of(s, (h.from * SECONDS_PER_DAY) as i64);
    }
    let start_key = h.from as i64 * SECONDS_PER_DAY;
    let start = match series_index_of(m, start_key) {
        Some(p) => p,
        None => 0,
    };
    let n = series_len(m);
    let mut out: Vec<(i64, i64)> = Vec::new();
    let mut i: usize = start;
    let mut done = false;
    proof {
        assert(out@ + visible_from(s.skip(start as int), h) =~= visible_from(s.skip(start as int), h));
    }
    while i < n && !done
        invariant
            s == series_entries(*m),
            n == s.len(),
            start <= i <= n,
            start == start_position(s, h),
            out@ + (if done { Seq::empty() } else { visible_from(s.skip(i as int), h) }) == visible_from(
                s.skip(start as int),
                h,
            ),
        decreases n - i, (if done { 0int } else { 1int }),
    {
        let (k, v) = series_get_index(m, i).unwrap();
        let day = floor_day(k);
        proof {
            assert(s.skip(i as int)[0] == s[i as int]);
            assert(s.skip(i as int).drop_first() =~= s.skip(i + 1));
        }
        if day > h.to as i64 {
            done = true;
            assert(out@ + Seq::<(i64, i64)>::empty() =~= out@);
        } else {
            if day >= h.from as i64 {
                let ghost before = out@;
                out.push((k, v));
                assert(out@ + visible_from(s.skip(i + 1), h) =~= before + (seq![(k, v)] + visible_from(s.skip(i + 1), h)));
            }
            i = i + 1;
        }
    }
    proof {
        if !done {
            assert(s.skip(i as int).len() == 0);
            assert(out@ + Seq::<(i64, i64)>::empty() =~= out@);
        }
    }
    out
}

} // verus!

verus! {

/// A label row as plain values.
pub open spec fn label_view(r: LabelRow) -> (i64, Seq<Option<(Seq<char>, i64)>>) {
    (r.time, r.values@.map_values(|o: Option<(String, i64)>| match o {
        Some(x) => Some((x.0@, x.1)),
        None => None,
    }))
}

pub open spec fn labels_view(s: Seq<LabelRow>) -> Seq<(i64, Seq<Option<(Seq<char>, i64)>>)> {
    s.map_values(|r: LabelRow| label_view(r))
}

/// The label rows built from the shown series: one row per shown entry of the
/// first series, holding per series its name and count at that position.
pub open spec fn built_labels(
    shown: Seq<(Seq<char>, Seq<(i64, i64)>)>,
    h: DateHandler,
) -> Seq<(i64, Seq<Option<(Seq<char>, i64)>>)> {
    if shown.len() == 0 {
        Seq::empty()
    } else {
        let first = visible(shown[0].1, h);
        Seq::new(
            first.len(),
            |x: int|
                (
                    first[x].0,
                    Seq::new(
                        shown.len(),
                        |j: int|
                            if x < visible(shown[j].1, h).len() {
                                Some((shown[j].0, visible(shown[j].1, h)[x].1))
                            } else {
                                None
                            },
                    ),
                ),
        )
    }
}

/// The lines of the chart as plain values: per shown series its name and the
/// counts of its shown entries.
pub open spec fn lines_view(s: Seq<(String, Vec<i64>)>) -> Seq<(Seq<char>, Seq<i64>)> {
    s.map_values(|l: (String, Vec<i64>)| (l.0@, l.1@))
}

/// The lines a chart draws from its series.
pub open spec fn chart_lines_of(shown: Seq<(Seq<char>, Seq<(i64, i64)>)>, h: DateHandler) -> Seq<(Seq<char>, Seq<i64>)> {
    shown.map_values(
        |p: (Seq<char>, Seq<(i64, i64)>)| (p.0, visible(p.1, h).map_values(|q: (i64, i64)| q.1)),
    )
}

/// The lines to draw for a set of series, one per series (the x value of a
/// count is its position); when no labels exist yet, builds them (see
/// [`built_labels`]).
pub fn chart_lines_for(
    data: &Vec<(String, IndexMap<i64, i64>)>,
    h: DateHandler,
    labels: &mut Vec<LabelRow>,
) -> (r: Vec<(String, Vec<i64>)>)
    ensures
        lines_view(r@) == chart_lines_of(data_view(data@), h),
        labels_view(final(labels)@) == if old(labels)@.len() == 0 {
            built_labels(data_view(data@), h)
        } else {
            labels_view(old(labels)@)
        },
{
    let ghost shown = data_view(data@);
    let mut vis: Vec<Vec<(i64, i64)>> = Vec::new();
    let mut lines: Vec<(String, Vec<i64>)> = Vec::new();
    let mut i: usize = 0;
    while i < data.len()
        invariant
            shown == data_view(data@),
            i <= data.len(),
            vis@.len() == i,
            forall|j: int| 0 <= j < i ==> (#[trigger] vis@[j])@ == visible(shown[j].1, h),
            lines_view(lines@) == chart_lines_of(shown, h).take(i as int),
        decreases data.len() - i,
    {
        let v = visible_points(&data[i].1, h);
        let mut counts: Vec<i64> = Vec::new();
        let mut k: usize = 0;
        while k < v.len()
            invariant
                k <= v.len(),
                counts@ == v@.take(k as int).map_values(|q: (i64, i64)| q.1),
            decreases v.len() - k,
        {
            counts.push(v[k].1);
            proof {
                assert(v@.take(k + 1) =~= v@.take(k as int).push(v@[k as int]));
                assert(counts@ =~= v@.take(k + 1).map_values(|q: (i64, i64)| q.1));
            }
            k = k + 1;
        }
        proof {
            assert(v@.take(v.len() as int) =~= v@);
        }
        let ghost before = lines_view(lines@);
        let line = (data[i].0.clone(), counts);
        lines.push(line);
        proof {
            assert(lines_view(lines@) =~= before.push((shown[i as int].0, visible(shown[i as int].1, h).map_values(|q: (i64, i64)| q.1))));
            assert(chart_lines_of(shown, h).take(i + 1) =~= chart_lines_of(shown, h).take(i as int).push(chart_lines_of(shown, h)[i as int]));
        }
        vis.push(v);
        i = i + 1;
    }
    proof {
        assert(chart_lines_of(shown, h).take(shown.len() as int) =~= chart_lines_of(shown, h));
    }
    if labels.len() == 0 && vis.len() > 0 {
        let ghost target = built_labels(shown, h);
        let mut rows: Vec<LabelRow> = Vec::new();
        let mut x: usize = 0;
        while x < vis[0].len()
            invariant
                shown == data_view(data@),
                vis@.len() == shown.len(),
                vis@.len() > 0,
                forall|j: int| 0 <= j < vis@.len() ==> (#[trigger] vis@[j])@ == visible(shown[j].1, h),
                target == built_labels(shown, h),
                x <= vis@[0]@.len(),
                labels_view(rows@) == target.take(x as int),
            decreases vis@[0]@.len() - x,
        {
            let mut values: Vec<Option<(String, i64)>> = Vec::new();
            let mut j: usize = 0;
            while j < vis.len()
                invariant
                    shown == data_view(data@),
                    vis@.len() == shown.len(),
                    forall|q: int| 0 <= q < vis@.len() ==> (#[trigger] vis@[q])@ == visible(shown[q].1, h),
                    x < vis@[0]@.len(),
                    target == built_labels(shown, h),
                    j <= vis.len(),
                    label_view(LabelRow { time: 0, values }).1 == target[x as int].1.take(j as int),
                decreases vis.len() - j,
            {
                let ghost before = values@;
                if x < vis[j].len() {
                    let item = Some((data[j].0.clone(), vis[j][x].1));
                    values.push(item);
                } else {
                    values.push(None);
                }
                proof {
                    let f = |o: Option<(String, i64)>| match o {
                        Some(y) => Some((y.0@, y.1)),
                        None => None,
                    };
                    assert(values@.map_values(f) =~= before.map_values(f).push(target[x as int].1[j as int]));
                    assert(target[x as int].1.take(j + 1) =~= target[x as int].1.take(j as int).push(target[x as int].1[j as int]));
                }
                j = j + 1;
            }
            proof {
                assert(target[x as int].1.take(vis.len() as int) =~= target[x as int].1);
            }
            let row = LabelRow { time: vis[0][x].0, values };
            let ghost before = labels_view(rows@);
            rows.push(row);
            proof {
                assert(labels_view(rows@) =~= before.push(label_view(row)));
                assert(target.take(x + 1) =~= target.take(x as int).push(target[x as int]));
            }
            x = x + 1;
        }
        proof {
            assert(target.take(vis@[0]@.len() as int) =~= target);
        }
        *labels = rows;
    }
    lines
}

impl MessageChart {
    /// The lines to draw, one per shown series; when no labels exist yet, builds
    /// them (see [`chart_lines_for`]).
    pub fn chart_lines(&mut self) -> (r: Vec<(String, Vec<i64>)>)
        ensures
            lines_view(r@) == chart_lines_of(data_view(old(self).chart_data@), old(self).date_handler),
            labels_view(final(self).chart_labels@) == if old(self).chart_labels@.len() == 0 {
                built_labels(data_view(old(self).chart_data@), old(self).date_handler)
            } else {
                labels_view(old(self).chart_labels@)
            },
            *final(self) == (MessageChart { chart_labels: final(self).chart_labels, ..*old(self) }),
    {
        chart_lines_for(&self.chart_data, self.date_handler, &mut self.chart_labels)
    }
}

} // verus!

verus! {

pub proof fn lemma_data_names(s: Seq<(String, IndexMap<i64, i64>)>)
    ensures
        same_names(names_view(s), data_view(s)),
        forall|i: int| 0 <= i < s.len() ==> #[trigger] data_view(s)[i] == (
            names_view(s)[i].0,
            series_entries(names_view(s)[i].1),
        ),
{
}

/// The shown series after applying the choices in order: a chosen name is
/// shown (starting empty when new), an unchosen one is no longer shown.
pub open spec fn choices_applied(
    shown: Seq<(Seq<char>, Seq<(i64, i64)>)>,
    choices: Seq<(Seq<char>, bool)>,
) -> Seq<(Seq<char>, Seq<(i64, i64)>)>
    decreases choices.len(),
{
    if choices.len() == 0 {
        shown
    } else {
        let d = choices_applied(shown, choices.drop_last());
        let (n, on) = choices.last();
        if on {
            named_insert_absent(d, n, Seq::empty())
        } else {
            named_removed(d, n)
        }
    }
}

/// Shows the series `name`, starting empty when it is not shown yet.
fn show_series(data: &mut Vec<(String, IndexMap<i64, i64>)>, name: &String)
    requires
        sorted_names(data_view(old(data)@)),
    ensures
        sorted_names(data_view(final(data)@)),
        data_view(final(data)@) == named_insert_absent(data_view(old(data)@), name@, Seq::<(i64, i64)>::empty()),
{
    proof {
        lemma_data_names(data@);
        lemma_same_names(names_view(data@), data_view(data@), name@);
    }
    let ghost before = data@;
    let m = series_new();
    ensure_name(data, name, m);
    proof {
        lemma_data_names(data@);
        lemma_same_names(names_view(data@), data_view(data@), name@);
        let a = names_view(before);
        let d = data_view(before);
        if name_index(a, name@) < 0 {
            crate::named::lemma_name_position(a, name@);
            let p = name_position(a, name@);
            assert(data_view(data@) =~= d.insert(p, (name@, Seq::<(i64, i64)>::empty()))) by {
                assert(names_view(data@) == a.insert(p, (name@, m)));
                assert forall|i: int| 0 <= i < data@.len() implies #[trigger] data_view(data@)[i] == d.insert(
                    p,
                    (name@, Seq::<(i64, i64)>::empty()),
                )[i] by {
                    if i < p {
                        assert(names_view(data@)[i] == a[i]);
                    } else if i > p {
                        assert(names_view(data@)[i] == a[i - 1]);
                    }
                }
            }
        }
    }
}

/// Stops showing the series `name`.
fn hide_series(data: &mut Vec<(String, IndexMap<i64, i64>)>, name: &String)
    requires
        sorted_names(data_view(old(data)@)),
    ensures
        sorted_names(data_view(final(data)@)),
        data_view(final(data)@) == named_removed(data_view(old(data)@), name@),
{
    proof {
        lemma_data_names(data@);
        lemma_same_names(names_view(data@), data_view(data@), name@);
    }
    let ghost before = data@;
    remove_name(data, name);
    proof {
        lemma_data_names(data@);
        lemma_same_names(names_view(data@), data_view(data@), name@);
        let a = names_view(before);
        lemma_name_index(a, name@);
        if name_index(a, name@) >= 0 {
            assert(data_view(data@) =~= data_view(before).remove(name_index(a, name@)));
        }
    }
}

impl MessageChart {
    /// Applies the series choices: chosen series are shown, others are not.
    pub fn apply_chart_values(&mut self)
        requires
            old(self).wf(),
        ensures
            final(self).wf(),
            data_view(final(self).chart_data@) == choices_applied(
                data_view(old(self).chart_data@),
                names_view(old(self).chart_values@),
            ),
            final(self).chart_values@ == old(self).chart_values@,
            final(self).chart_labels@ == old(self).chart_labels@,
            final(self).chart_type == old(self).chart_type,
            final(self).buckets == old(self).buckets,
            final(self).hourly_points@ == old(self).hourly_points@,
            final(self).daily_points@ == old(self).daily_points@,
            final(self).weekly_points@ == old(self).weekly_points@,
            final(self).monthly_points@ == old(self).monthly_points@,
            final(self).date_handler == old(self).date_handler,
            final(self).reload_count == old(self).reload_count,
            final(self).open_modal == old(self).open_modal,
            final(self).channels@ == old(self).channels@,
            final(self).selected_channels@ == old(self).selected_channels@,
    {
        let mut data: Vec<(String, IndexMap<i64, i64>)> = Vec::new();
        std::mem::swap(&mut data, &mut self.chart_data);
        let ghost d0 = data_view(data@);
        let ghost cv = names_view(self.chart_values@);
        proof {
            assert(cv.take(0) =~= Seq::<(Seq<char>, bool)>::empty());
        }
        let mut i: usize = 0;
        while i < self.chart_values.len()
            invariant
                cv == names_view(self.chart_values@),
                i <= self.chart_values.len(),
                sorted_names(data_view(data@)),
                data_view(data@) == choices_applied(d0, cv.take(i as int)),
            decreases self.chart_values.len() - i,
        {
            proof {
                assert(cv.take(i + 1).drop_last() =~= cv.take(i as int));
                assert(cv.take(i + 1).last() == cv[i as int]);
            }
            if self.chart_values[i].1 {
                show_series(&mut data, &self.chart_values[i].0);
            } else {
                hide_series(&mut data, &self.chart_values[i].0);
            }
            i = i + 1;
        }
        proof {
            assert(cv.take(cv.len() as int) =~= cv);
        }
        self.chart_data = data;
    }

    /// Chooses whether the series `name` is shown (the chart's checkbox).
    pub fn set_chart_value(&mut self, name: &String, shown: bool)
        requires
            old(self).wf(),
        ensures
            final(self).wf(),
            names_view(final(self).chart_values@) == ({
                let s = names_view(old(self).chart_values@);
                let i = name_index(s, name@);
                if i >= 0 {
                    s.update(i, (name@, shown))
                } else {
                    s
                }
            }),
            final(self).chart_data@ == old(self).chart_data@,
            final(self).chart_labels@ == old(self).chart_labels@,
            final(self).chart_type == old(self).chart_type,
            final(self).buckets == old(self).buckets,
            final(self).hourly_points@ == old(self).hourly_points@,
            final(self).daily_points@ == old(self).daily_points@,
            final(self).weekly_points@ == old(self).weekly_points@,
            final(self).monthly_points@ == old(self).monthly_points@,
            final(self).date_handler == old(self).date_handler,
            final(self).reload_count == old(self).reload_count,
            final(self).open_modal == old(self).open_modal,
            final(self).channels@ == old(self).channels@,
            final(self).selected_channels@ == old(self).selected_channels@,
    {
        let ghost s = names_view(self.chart_values@);
        match find_name(&self.chart_values, name) {
            Some(i) => {
                proof {
                    lemma_name_index(s, name@);
                }
                self.chart_values.set(i, (name.clone(), shown));
                proof {
                    let t = names_view(self.chart_values@);
                    assert(t =~= s.update(i as int, (name@, shown)));
                    assert forall|a: int, b: int| 0 <= a < b < t.len() implies name_lt(t[a].0, t[b].0) by {
                        assert(t[a].0 == s[a].0 && t[b].0 == s[b].0);
                    }
                }
            },
            None => {},
        }
    }
}

} // verus!

verus! {

/// Whether the name is one of the totals series.
fn is_reserved(name: &String) -> (r: bool)
    ensures
        r == reserved_name(name@),
{
    same_text(name.as_str(), "All Messages") || same_text(name.as_str(), "Deleted Messages")
}

/// Whether a selection names only the "all channels" entry or channels.
pub fn selection_ok(channels: &Vec<Channel>, selected: &Vec<usize>) -> (r: bool)
    ensures
        r == selection_valid(channels@, selected@),
{
    let mut i: usize = 0;
    while i < selected.len()
        invariant
            i <= selected.len(),
            forall|j: int| 0 <= j < i ==> selected@[j] <= channels@.len(),
        decreases selected.len() - i,
    {
        if selected[i] > channels.len() {
            return false;
        }
        i = i + 1;
    }
    true
}

impl MessageChart {
    /// Whether a reload can run: the selection is valid and no counted point
    /// belongs to a user named like a shown totals series.
    pub fn reload_allowed(&self) -> (r: bool)
        ensures
            r == (selection_valid(self.channels@, self.selected_channels@) && reload_safe(
                data_view(self.chart_data@),
                self.points_for(self.chart_type),
                counted_channels(self.channels@, self.selected_channels@),
            )),
    {
        if !selection_ok(&self.channels, &self.selected_channels) {
            return false;
        }
        let counted = counted_channel_ids(&self.channels, &self.selected_channels);
        let ghost sel = counted_channels(self.channels@, self.selected_channels@);
        let ghost shown = data_view(self.chart_data@);
        let points = self.select_points(self.chart_type);
        let ghost s = points_view(points@);
        let mut i: usize = 0;
        while i < points.len()
            invariant
                i <= points.len(),
                s == points_view(points@),
                s == self.points_for(self.chart_type),
                sel == counted_channels(self.channels@, self.selected_channels@),
                shown == data_view(self.chart_data@),
                forall|c: i64| counted@.contains(c) <==> sel.contains(c),
                forall|q: int|
                    0 <= q < i && sel.contains(#[trigger] s[q].1) && reserved_name(s[q].2)
                        ==> forall|j: int| 0 <= j < shown.len() ==> #[trigger] shown[j].0 != s[q].2,
            decreases points.len() - i,
        {
            let p = &points[i];
            if list_contains(&counted, p.channel) && is_reserved(&p.user) {
                let mut j: usize = 0;
                while j < self.chart_data.len()
                    invariant
                        j <= self.chart_data.len(),
                        shown == data_view(self.chart_data@),
                        s == points_view(points@),
                        i < points.len(),
                        s == self.points_for(self.chart_type),
                        sel == counted_channels(self.channels@, self.selected_channels@),
                        sel.contains(s[i as int].1),
                        reserved_name(s[i as int].2),
                        forall|q: int| 0 <= q < j ==> #[trigger] shown[q].0 != s[i as int].2,
                    decreases self.chart_data.len() - j,
                {
                    if self.chart_data[j].0 == points[i].user {
                        assert(shown[j as int].0 == s[i as int].2);
                        assert(!reload_safe(shown, s, sel));
                        return false;
                    }
                    j = j + 1;
                }
            }
            i = i + 1;
        }
        true
    }

    /// Reloads the chart when a reload can run (see [`MessageChart::reload_allowed`]);
    /// returns whether it did. Without a reload, nothing changes.
    pub fn try_reload(&mut self) -> (r: bool)
        requires
            old(self).wf(),
        ensures
            final(self).wf(),
            r == old(self).can_reload(),
            r ==> data_view(final(self).chart_data@) == reloaded_data(
                data_view(old(self).chart_data@),
                old(self).points_for(old(self).chart_type),
                old(self).buckets.keys_for(old(self).chart_type),
                counted_channels(old(self).channels@, old(self).selected_channels@),
            ) && final(self).reload_count == 0 && final(self).chart_labels@.len() == 0,
            !r ==> *final(self) == *old(self),
            final(self).chart_values@ == old(self).chart_values@,
            final(self).chart_type == old(self).chart_type,
            final(self).buckets == old(self).buckets,
            final(self).hourly_points@ == old(self).hourly_points@,
            final(self).daily_points@ == old(self).daily_points@,
            final(self).weekly_points@ == old(self).weekly_points@,
            final(self).monthly_points@ == old(self).monthly_points@,
            final(self).date_handler == old(self).date_handler,
            final(self).open_modal == old(self).open_modal,
            final(self).channels@ == old(self).channels@,
            final(self).selected_channels@ == old(self).selected_channels@,
    {
        if self.reload_allowed() {
            self.reload_chart();
            true
        } else {
            false
        }
    }

    /// Closes the customize view: applies the series choices, then reloads
    /// (when a reload can run).
    pub fn close_customize(&mut self)
        requires
            old(self).wf(),
        ensures
            final(self).wf(),
            !final(self).open_modal,
            final(self).chart_values@ == old(self).chart_values@,
            final(self).chart_type == old(self).chart_type,
            final(self).buckets == old(self).buckets,
            final(self).date_handler == old(self).date_handler,
            final(self).channels@ == old(self).channels@,
            final(self).selected_channels@ == old(self).selected_channels@,
            ({
                let applied = choices_applied(data_view(old(self).chart_data@), names_view(old(self).chart_values@));
                let counted = counted_channels(old(self).channels@, old(self).selected_channels@);
                let pts = old(self).points_for(old(self).chart_type);
                if selection_valid(old(self).channels@, old(self).selected_channels@) && reload_safe(applied, pts, counted) {
                    data_view(final(self).chart_data@) == reloaded_data(
                        applied,
                        pts,
                        old(self).buckets.keys_for(old(self).chart_type),
                        counted,
                    ) && final(self).reload_count == 0 && final(self).chart_labels@.len() == 0
                } else {
                    data_view(final(self).chart_data@) == applied
                }
            }),
    {
        self.open_modal = false;
        self.apply_chart_values();
        self.try_reload();
    }

    /// Opens the customize view.
    pub fn open_customize(&mut self)
        ensures
            final(self).open_modal,
            final(self).chart_data@ == old(self).chart_data@,
            final(self).chart_values@ == old(self).chart_values@,
            final(self).chart_labels@ == old(self).chart_labels@,
            final(self).chart_type == old(self).chart_type,
            final(self).buckets == old(self).buckets,
            final(self).hourly_points@ == old(self).hourly_points@,
            final(self).daily_points@ == old(self).daily_points@,
            final(self).weekly_points@ == old(self).weekly_points@,
            final(self).monthly_points@ == old(self).monthly_points@,
            final(self).date_handler == old(self).date_handler,
            final(self).reload_count == old(self).reload_count,
            final(self).channels@ == old(self).channels@,
            final(self).selected_channels@ == old(self).selected_channels@,
    {
        self.open_modal = true;
    }

    /// Switches the chart type (the type menu); returns whether it changed, in
    /// which case the chart asks to be rebuilt.
    pub fn select_chart_type(&mut self, chart: ChartType, guild_id: i64, event_bus: &mut EventBus) -> (r: bool)
        ensures
            r == (old(self).chart_type != chart),
            final(self).chart_type == chart,
            final(event_bus)@ == if r {
                old(event_bus)@.push(AppEvent::MessageChartTypeChanged(guild_id))
            } else {
                old(event_bus)@
            },
            final(self).chart_data@ == old(self).chart_data@,
            final(self).chart_values@ == old(self).chart_values@,
            final(self).chart_labels@ == old(self).chart_labels@,
            final(self).buckets == old(self).buckets,
            final(self).hourly_points@ == old(self).hourly_points@,
            final(self).daily_points@ == old(self).daily_points@,
            final(self).weekly_points@ == old(self).weekly_points@,
            final(self).monthly_points@ == old(self).monthly_points@,
            final(self).date_handler == old(self).date_handler,
            final(self).reload_count == old(self).reload_count,
            final(self).open_modal == old(self).open_modal,
            final(self).channels@ == old(self).channels@,
            final(self).selected_channels@ == old(self).selected_channels@,
    {
        if self.chart_type != chart {
            self.chart_type = chart;
            event_bus.publish(AppEvent::MessageChartTypeChanged(guild_id));
            true
        } else {
            false
        }
    }

    pub fn set_date_handler(&mut self, handler: DateHandler)
        ensures
            *final(self) == (MessageChart { date_handler: handler, ..*old(self) }),
    {
        self.date_handler = handler;
    }

    pub fn set_channels(&mut self, channels: Vec<Channel>)
        ensures
            *final(self) == (MessageChart { channels, ..*old(self) }),
    {
        self.channels = channels;
    }

    pub fn set_selected_channels(&mut self, selected: Vec<usize>)
        ensures
            *final(self) == (MessageChart { selected_channels: selected, ..*old(self) }),
    {
        self.selected_channels = selected;
    }
}

} // verus!
