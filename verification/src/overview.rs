//! The overview tab: message activity per day and user, the summary cards, and
//! the member count / joins / leaves chart.
use vstd::prelude::*;
use indexmap::IndexMap;
use crate::calendar::{add_days, redate, redated, day_floor, day_of_time, day_start, first_of_month, hour_floor, hour_start, iso_week_monday, month_start, monday_of, time_to_day, valid_day, valid_time, MAX_DAY, MIN_DAY, SECONDS_PER_DAY, SECONDS_PER_HOUR, SECONDS_PER_WEEK};
use crate::date_handler::DateHandler;
use crate::date_navigator::DateNavigator;
use crate::overview_series::{fill_steps, filled, gap_filled, keys_valid, lemma_insert_absent_keys, lemma_inserted_keeps, missing_steps, months_filled, next_month_start, time_of_day};
use crate::series::{inserted, lookup, series_entries, series_get, series_insert, series_insert_absent, series_new, series_increment, series_get_index, series_len};
use crate::member_data::{MemberActivity, MemberCount};
use crate::aggregate::{add_to_key, add_to_name, argmax, is_max_at, named_view, sums_by_key, sums_by_name, total_of, wadd};
use crate::event_bus::EventBus;
use crate::guild_channel::Channel;
use crate::keyed::{find_key, key_index, lemma_key_index};
use crate::message_user::MessageWithUser;
use crate::response::PAGE_VALUE;
use crate::state::AppEvent;
use crate::state::{ChartType, NavigationType};

verus! {

/// A local time far enough from chrono's first date that the Monday of its
/// week can be represented.
pub open spec fn usable_time(s: int) -> bool {
    valid_time(s) && valid_day(monday_of(day_of_time(s)))
}

/// The four bucket times of a local time: its hour, its day, the Monday of its
/// week and the first of its month (each at 00:00 where it is a date).
pub open spec fn bucket_times(s: int) -> (i64, i64, i64, i64) {
    (
        hour_floor(s) as i64,
        day_floor(s) as i64,
        (monday_of(day_of_time(s)) * SECONDS_PER_DAY) as i64,
        (first_of_month(day_of_time(s) as i32)->0 * SECONDS_PER_DAY) as i64,
    )
}

/// Computes [`bucket_times`].
pub fn bucket_times_of(s: i64) -> (r: (i64, i64, i64, i64))
    requires
        usable_time(s as int),
    ensures
        r == bucket_times(s as int),
        valid_time(r.0 as int),
        valid_time(r.1 as int),
        valid_time(r.2 as int),
        valid_time(r.3 as int),
{
    let hourly = hour_start(s);
    let daily = day_start(s);
    let day = time_to_day(s);
    let monday = match iso_week_monday(day) {
        Some(d) => d,
        None => day,
    };
    let first = match month_start(day) {
        Some(d) => d,
        None => day,
    };
    proof {
        assert(valid_day(monday_of(day as int)));
    }
    (hourly, daily, monday as i64 * SECONDS_PER_DAY, first as i64 * SECONDS_PER_DAY)
}

/// One bucketed member series (member counts, joins or leaves) with the last
/// bucket that received data.
pub struct MemberChartData {
    pub hourly: IndexMap<i64, i64>,
    pub daily: IndexMap<i64, i64>,
    pub weekly: IndexMap<i64, i64>,
    pub monthly: IndexMap<i64, i64>,
    pub last_hour: Option<i64>,
    pub last_day: Option<i64>,
    pub last_week: Option<i64>,
    pub last_month: Option<i64>,
}

/// A last bucket is known to its series and is a valid time.
pub open spec fn last_known(e: Seq<(i64, i64)>, last: Option<i64>) -> bool {
    last matches Some(l) ==> lookup(e, l) is Some && valid_time(l as int)
}

impl MemberChartData {
    pub open spec fn hourly_e(&self) -> Seq<(i64, i64)> {
        series_entries(self.hourly)
    }

    pub open spec fn daily_e(&self) -> Seq<(i64, i64)> {
        series_entries(self.daily)
    }

    pub open spec fn weekly_e(&self) -> Seq<(i64, i64)> {
        series_entries(self.weekly)
    }

    pub open spec fn monthly_e(&self) -> Seq<(i64, i64)> {
        series_entries(self.monthly)
    }

    /// Keys are valid times and every recorded last bucket is in its series.
    pub open spec fn wf(&self) -> bool {
        &&& keys_valid(self.hourly_e())
        &&& keys_valid(self.daily_e())
        &&& keys_valid(self.weekly_e())
        &&& keys_valid(self.monthly_e())
        &&& last_known(self.hourly_e(), self.last_hour)
        &&& last_known(self.daily_e(), self.last_day)
        &&& last_known(self.weekly_e(), self.last_week)
        &&& last_known(self.monthly_e(), self.last_month)
    }

    /// No series holds a bucket and no last bucket is recorded.
    pub open spec fn is_fresh(&self) -> bool {
        &&& self.hourly_e() == Seq::<(i64, i64)>::empty()
        &&& self.daily_e() == Seq::<(i64, i64)>::empty()
        &&& self.weekly_e() == Seq::<(i64, i64)>::empty()
        &&& self.monthly_e() == Seq::<(i64, i64)>::empty()
        &&& self.last_hour is None
        &&& self.last_day is None
        &&& self.last_week is None
        &&& self.last_month is None
    }

    pub fn new() -> (r: MemberChartData)
        ensures
            r.is_fresh(),
            r.wf(),
    {
        MemberChartData {
            hourly: series_new(),
            daily: series_new(),
            weekly: series_new(),
            monthly: series_new(),
            last_hour: None,
            last_day: None,
            last_week: None,
            last_month: None,
        }
    }

    /// The series of the given bucket size.
    pub open spec fn series_of(&self, chart: ChartType) -> Seq<(i64, i64)> {
        match chart {
            ChartType::Hourly => self.hourly_e(),
            ChartType::Daily => self.daily_e(),
            ChartType::Weekly => self.weekly_e(),
            ChartType::Monthly => self.monthly_e(),
        }
    }

    pub fn select(&self, chart: ChartType) -> (r: &IndexMap<i64, i64>)
        ensures
            series_entries(*r) == self.series_of(chart),
    {
        match chart {
            ChartType::Hourly => &self.hourly,
            ChartType::Daily => &self.daily,
            ChartType::Weekly => &self.weekly,
            ChartType::Monthly => &self.monthly,
        }
    }
}

/// How one series changes when the gaps up to a new data point are filled
/// (everything but the hourly series, which the caller gives).
pub open spec fn moved_to(
    old: MemberChartData,
    new: MemberChartData,
    times: (i64, i64, i64, i64),
    hourly: Seq<(i64, i64)>,
) -> bool {
    &&& new.hourly_e() == hourly
    &&& new.last_hour == Some(times.0)
    &&& new.daily_e() == gap_filled(old.daily_e(), old.last_day, old.daily_e(), times.1, SECONDS_PER_DAY as int)
    &&& new.last_day == Some(times.1)
    &&& new.weekly_e() == gap_filled(old.weekly_e(), old.last_week, old.weekly_e(), times.2, SECONDS_PER_WEEK as int)
    &&& new.last_week == Some(times.2)
    &&& new.monthly_e() == match old.last_month {
        None => old.monthly_e(),
        Some(l) => months_filled(old.monthly_e(), l as int, times.3 as int, lookup(old.monthly_e(), l)->0),
    }
    &&& new.last_month == Some(times.3)
}

/// Adds the missing steps between `last` (if any) and `cur` to `m`, valued as
/// `from` holds `last`.
fn fill_gap(m: &mut IndexMap<i64, i64>, last: Option<i64>, member: i64, cur: i64, step: i64)
    requires
        step > 0,
        keys_valid(series_entries(*old(m))),
        last matches Some(l) ==> valid_time(l as int),
        valid_time(cur as int),
    ensures
        series_entries(*final(m)) == match last {
            None => series_entries(*old(m)),
            Some(l) => filled(series_entries(*old(m)), l as int, step as int, missing_steps(l as int, cur as int, step as int), member),
        },
        keys_valid(series_entries(*final(m))),
        forall|j: i64| lookup(series_entries(*old(m)), j) is Some ==> lookup(series_entries(*final(m)), j) is Some,
{
    if let Some(l) = last {
        let n: i64 = if cur > l { (cur - l) / step } else { 0 };
        proof {
            if cur > l {
                vstd::arithmetic::div_mod::lemma_fundamental_div_mod((cur - l) as int, step as int);
                vstd::arithmetic::mul::lemma_mul_nonnegative(n as int, step as int);
                vstd::arithmetic::div_mod::lemma_mod_bound((cur - l) as int, step as int);
                vstd::arithmetic::mul::lemma_mul_is_commutative(n as int, step as int);
                assert(n * step <= cur - l);
            }
        }
        fill_steps(m, l, step, n, member);
    }
}

/// Fills the monthly gap: every month start after `ongoing` up to `target`.
fn fill_months(m: &mut IndexMap<i64, i64>, ongoing: i64, target: i64, member: i64)
    requires
        keys_valid(series_entries(*old(m))),
        valid_time(ongoing as int),
        valid_time(target as int),
    ensures
        series_entries(*final(m)) == months_filled(series_entries(*old(m)), ongoing as int, target as int, member),
        keys_valid(series_entries(*final(m))),
        forall|j: i64| lookup(series_entries(*old(m)), j) is Some ==> lookup(series_entries(*final(m)), j) is Some,
    decreases (if target > ongoing { target - ongoing } else { 0 }),
{
    if target > ongoing {
        let day = time_to_day(ongoing);
        let later = match add_days(day, 45) {
            Some(d) => d,
            None => return,
        };
        let f = match month_start(later) {
            Some(f) => f,
            None => return,
        };
        let tod = ongoing - day_start(ongoing);
        let next = f as i64 * SECONDS_PER_DAY + tod;
        if next <= ongoing {
            return;
        }
        proof {
            assert(next_month_start(ongoing as int) == Some(next as int));
            lemma_insert_absent_keys(series_entries(*m), next, member);
        }
        series_insert_absent(m, next, member);
        fill_months(m, next, target, member);
    }
}

/// The series the gaps are filled for.
#[derive(Clone, Copy, Debug, PartialEq, Eq, Structural)]
pub enum MemberSeries {
    Count,
    Joins,
    Leaves,
}

/// Fills the daily, weekly and monthly gaps of `t` up to `times` and records
/// `times` as the last buckets.
fn move_rest(t: &mut MemberChartData, times: (i64, i64, i64, i64))
    requires
        old(t).wf(),
        valid_time(times.0 as int),
        valid_time(times.1 as int),
        valid_time(times.2 as int),
        valid_time(times.3 as int),
    ensures
        moved_to(*old(t), *final(t), times, old(t).hourly_e()),
        keys_valid(final(t).hourly_e()),
        keys_valid(final(t).daily_e()),
        keys_valid(final(t).weekly_e()),
        keys_valid(final(t).monthly_e()),
        forall|j: i64| lookup(old(t).daily_e(), j) is Some ==> lookup(final(t).daily_e(), j) is Some,
        forall|j: i64| lookup(old(t).weekly_e(), j) is Some ==> lookup(final(t).weekly_e(), j) is Some,
        forall|j: i64| lookup(old(t).monthly_e(), j) is Some ==> lookup(final(t).monthly_e(), j) is Some,
{
    t.last_hour = Some(times.0);

    let daily_member = match t.last_day {
        Some(l) => match series_get(&t.daily, l) {
            Some(v) => v,
            None => 0,
        },
        None => 0,
    };
    fill_gap(&mut t.daily, t.last_day, daily_member, times.1, SECONDS_PER_DAY);
    t.last_day = Some(times.1);

    let weekly_member = match t.last_week {
        Some(l) => match series_get(&t.weekly, l) {
            Some(v) => v,
            None => 0,
        },
        None => 0,
    };
    fill_gap(&mut t.weekly, t.last_week, weekly_member, times.2, SECONDS_PER_WEEK);
    t.last_week = Some(times.2);

    if let Some(l) = t.last_month {
        let monthly_member = match series_get(&t.monthly, l) {
            Some(v) => v,
            None => 0,
        };
        fill_months(&mut t.monthly, l, times.3, monthly_member);
    }
    t.last_month = Some(times.3);
}

} // verus!

verus! {

/// Messages of one user on one day: a count per channel and the number deleted.
pub struct ActivityData {
    pub message_count: Vec<(i64, u32)>,
    pub deleted_message: u32,
    pub name: String,
}

impl ActivityData {
    pub fn new(name: String) -> (r: ActivityData)
        ensures
            r.message_count@ == Seq::<(i64, u32)>::empty(),
            r.deleted_message == 0,
            r.name == name,
    {
        ActivityData { message_count: Vec::new(), deleted_message: 0, name }
    }

    /// (channel counts, deleted count, user name).
    pub open spec fn view_tuple(&self) -> (Seq<(i64, u32)>, u32, Seq<char>) {
        (self.message_count@, self.deleted_message, self.name@)
    }
}

/// The summary shown on the overview cards.
pub struct OverviewData {
    pub total_message: u32,
    pub deleted_message: u32,
    pub unique_user: u32,
    pub member_count: u32,
    pub member_joins: u32,
    pub member_left: u32,
    pub most_active_member: String,
    pub most_active_channel: String,
}

impl OverviewData {
    /// Every count is zero and no member or channel is named.
    pub open spec fn is_fresh(&self) -> bool {
        &&& self.total_message == 0
        &&& self.deleted_message == 0
        &&& self.unique_user == 0
        &&& self.member_count == 0
        &&& self.member_joins == 0
        &&& self.member_left == 0
        &&& self.most_active_member@ == Seq::<char>::empty()
        &&& self.most_active_channel@ == Seq::<char>::empty()
    }
}

impl Default for OverviewData {
    fn default() -> (r: OverviewData)
        ensures
            r.is_fresh(),
    {
        OverviewData {
            total_message: 0,
            deleted_message: 0,
            unique_user: 0,
            member_count: 0,
            member_joins: 0,
            member_left: 0,
            most_active_member: String::new(),
            most_active_channel: String::new(),
        }
    }
}

/// A chart label: the bucket time with the member count, joins and leaves shown there.
pub type ChartLabel = (i64, i64, i64, i64);

pub struct Overview {
    pub show_count: bool,
    pub show_joins: bool,
    pub show_leaves: bool,
    pub show_full_chart: bool,
    pub chart_type: ChartType,
    pub chart_labels: Vec<ChartLabel>,
    pub count: MemberChartData,
    pub joins: MemberChartData,
    pub leaves: MemberChartData,
    /// Per day (days from 1970-01-01) and user: that user's activity on that day.
    pub activity_data: Vec<(i64, ActivityData)>,
    pub channel_map: Vec<(i64, String)>,
    pub data: OverviewData,
    pub compare_data: Option<OverviewData>,
    pub compare_nav: DateNavigator,
    pub date_handler: DateHandler,
    pub max_content: usize,
    pub reload_count: u64,
}

impl Overview {
    /// The member series are well formed.
    pub open spec fn wf(&self) -> bool {
        self.count.wf() && self.joins.wf() && self.leaves.wf()
    }

    pub open spec fn target(&self, which: MemberSeries) -> MemberChartData {
        match which {
            MemberSeries::Count => self.count,
            MemberSeries::Joins => self.joins,
            MemberSeries::Leaves => self.leaves,
        }
    }

    /// The effect of filling the gaps up to the buckets `times` for `which`: the
    /// hourly gap goes into the member count series (with the value `which`
    /// holds at its last hour); the other gaps go into `which` itself.
    pub open spec fn dates_added(old: Overview, new: Overview, which: MemberSeries, times: (i64, i64, i64, i64)) -> bool {
        let t = old.target(which);
        let count_hourly = gap_filled(old.count.hourly_e(), t.last_hour, t.hourly_e(), times.0, SECONDS_PER_HOUR as int);
        match which {
            MemberSeries::Count => {
                &&& moved_to(old.count, new.count, times, count_hourly)
                &&& new.joins == old.joins
                &&& new.leaves == old.leaves
            },
            MemberSeries::Joins => {
                &&& moved_to(old.joins, new.joins, times, old.joins.hourly_e())
                &&& new.count.hourly_e() == count_hourly
                &&& new.count.daily == old.count.daily && new.count.weekly == old.count.weekly
                &&& new.count.monthly == old.count.monthly
                &&& new.count.last_hour == old.count.last_hour && new.count.last_day == old.count.last_day
                &&& new.count.last_week == old.count.last_week && new.count.last_month == old.count.last_month
                &&& new.leaves == old.leaves
            },
            MemberSeries::Leaves => {
                &&& moved_to(old.leaves, new.leaves, times, old.leaves.hourly_e())
                &&& new.count.hourly_e() == count_hourly
                &&& new.count.daily == old.count.daily && new.count.weekly == old.count.weekly
                &&& new.count.monthly == old.count.monthly
                &&& new.count.last_hour == old.count.last_hour && new.count.last_day == old.count.last_day
                &&& new.count.last_week == old.count.last_week && new.count.last_month == old.count.last_month
                &&& new.joins == old.joins
            },
        }
    }

    /// Everything but the member series is unchanged.
    pub open spec fn same_but_series(a: Overview, b: Overview) -> bool {
        &&& a.show_count == b.show_count && a.show_joins == b.show_joins
        &&& a.show_leaves == b.show_leaves && a.show_full_chart == b.show_full_chart
        &&& a.chart_type == b.chart_type && a.chart_labels == b.chart_labels
        &&& a.activity_data == b.activity_data && a.channel_map == b.channel_map
        &&& a.data == b.data && a.compare_data == b.compare_data
        &&& a.compare_nav == b.compare_nav && a.date_handler == b.date_handler
        &&& a.max_content == b.max_content && a.reload_count == b.reload_count
    }

    /// Fills the gaps of `which` up to the buckets of the local time `local`,
    /// and returns those buckets.
    fn add_missing_date(&mut self, local: i64, which: MemberSeries) -> (r: (i64, i64, i64, i64))
        requires
            old(self).wf(),
            usable_time(local as int),
        ensures
            r == bucket_times(local as int),
            valid_time(r.0 as int),
            valid_time(r.1 as int),
            valid_time(r.2 as int),
            valid_time(r.3 as int),
            Overview::dates_added(*old(self), *final(self), which, r),
            Overview::same_but_series(*old(self), *final(self)),
            keys_valid(final(self).count.hourly_e()),
            final(self).count.hourly_e().len() >= 0,
            forall|j: i64| lookup(old(self).count.hourly_e(), j) is Some ==> lookup(final(self).count.hourly_e(), j) is Some,
            keys_valid(final(self).target(which).daily_e()),
            keys_valid(final(self).target(which).weekly_e()),
            keys_valid(final(self).target(which).monthly_e()),
            forall|j: i64| lookup(old(self).target(which).daily_e(), j) is Some ==> lookup(final(self).target(which).daily_e(), j) is Some,
            forall|j: i64| lookup(old(self).target(which).weekly_e(), j) is Some ==> lookup(final(self).target(which).weekly_e(), j) is Some,
            forall|j: i64| lookup(old(self).target(which).monthly_e(), j) is Some ==> lookup(final(self).target(which).monthly_e(), j) is Some,
    {
        let times = bucket_times_of(local);
        let (last_hour, hourly_member) = match which {
            MemberSeries::Count => (self.count.last_hour, match self.count.last_hour {
                Some(l) => match series_get(&self.count.hourly, l) { Some(v) => v, None => 0 },
                None => 0,
            }),
            MemberSeries::Joins => (self.joins.last_hour, match self.joins.last_hour {
                Some(l) => match series_get(&self.joins.hourly, l) { Some(v) => v, None => 0 },
                None => 0,
            }),
            MemberSeries::Leaves => (self.leaves.last_hour, match self.leaves.last_hour {
                Some(l) => match series_get(&self.leaves.hourly, l) { Some(v) => v, None => 0 },
                None => 0,
            }),
        };
        fill_gap(&mut self.count.hourly, last_hour, hourly_member, times.0, SECONDS_PER_HOUR);
        match which {
            MemberSeries::Count => move_rest(&mut self.count, times),
            MemberSeries::Joins => move_rest(&mut self.joins, times),
            MemberSeries::Leaves => move_rest(&mut self.leaves, times),
        }
        times
    }
}

} // verus!

verus! {

/// `e` with `(k, 0)` inserted for every key `k` of `ks`, in order.
pub open spec fn zeros_inserted(e: Seq<(i64, i64)>, ks: Seq<(i64, i64)>) -> Seq<(i64, i64)>
    decreases ks.len(),
{
    if ks.len() == 0 {
        e
    } else {
        inserted(zeros_inserted(e, ks.drop_last()), ks.last().0, 0)
    }
}

/// The month series after filling from the previous month (if any) to `target`.
pub open spec fn months_moved(e: Seq<(i64, i64)>, last: Option<i64>, target: i64) -> Seq<(i64, i64)> {
    match last {
        None => e,
        Some(l) => months_filled(e, l as int, target as int, lookup(e, l)->0),
    }
}

/// The time of the member count nearest at or before `ongoing`, walking back
/// a day at a time down to `first`; 0 when there is none.
pub open spec fn count_at_or_before(e: Seq<(i64, i64)>, ongoing: i64, first: i64) -> u32
    decreases (if ongoing >= first { ongoing - first + 1 } else { 0 }),
{
    if ongoing < first {
        0
    } else {
        match lookup(e, ongoing) {
            Some(c) => c as u32,
            None => if ongoing - SECONDS_PER_DAY < MIN_DAY * SECONDS_PER_DAY {
                0
            } else {
                count_at_or_before(e, (ongoing - SECONDS_PER_DAY) as i64, first)
            },
        }
    }
}

/// What the walk of [`count_at_or_before`] finds, stated directly: the count
/// at the latest time `k` from `first` to `ongoing` that is a whole number of
/// days before `ongoing` and has a count.
pub proof fn lemma_count_at_latest(e: Seq<(i64, i64)>, ongoing: i64, first: i64, k: i64)
    requires
        first <= k <= ongoing,
        k >= MIN_DAY * SECONDS_PER_DAY,
        (ongoing - k) % (SECONDS_PER_DAY as int) == 0,
        lookup(e, k) is Some,
        forall|j: i64| k < j <= ongoing && (ongoing - j) % (SECONDS_PER_DAY as int) == 0 ==> #[trigger] lookup(e, j) is None,
    ensures
        count_at_or_before(e, ongoing, first) == lookup(e, k)->0 as u32,
    decreases ongoing - k,
{
    if ongoing != k {
        assert(lookup(e, ongoing) is None);
        assert(ongoing - k >= SECONDS_PER_DAY);
        let next = (ongoing - SECONDS_PER_DAY) as i64;
        assert forall|j: i64| k < j <= next && (next - j) % (SECONDS_PER_DAY as int) == 0 implies #[trigger] lookup(e, j) is None by {
            assert((ongoing - j) % (SECONDS_PER_DAY as int) == 0);
        }
        assert((next - k) % (SECONDS_PER_DAY as int) == 0);
        lemma_count_at_latest(e, next, first, k);
    }
}

/// And when no time from `first` to `ongoing` a whole number of days before
/// `ongoing` has a count, the walk finds none: 0.
pub proof fn lemma_count_at_none(e: Seq<(i64, i64)>, ongoing: i64, first: i64)
    requires
        forall|j: i64| first <= j <= ongoing && (ongoing - j) % (SECONDS_PER_DAY as int) == 0 ==> #[trigger] lookup(e, j) is None,
    ensures
        count_at_or_before(e, ongoing, first) == 0,
    decreases (if ongoing >= first { ongoing - first + 1 } else { 0 }),
{
    if ongoing >= first {
        assert(lookup(e, ongoing) is None);
        if ongoing - SECONDS_PER_DAY >= MIN_DAY * SECONDS_PER_DAY {
            let next = (ongoing - SECONDS_PER_DAY) as i64;
            assert forall|j: i64| first <= j <= next && (next - j) % (SECONDS_PER_DAY as int) == 0 implies #[trigger] lookup(e, j) is None by {
                assert((ongoing - j) % (SECONDS_PER_DAY as int) == 0);
            }
            lemma_count_at_none(e, next, first);
        }
    }
}

/// Whether chrono can move the first daily bucket to `date` (see [`redated`]).
pub open spec fn member_count_defined(e: Seq<(i64, i64)>, date: i32) -> bool {
    e.len() > 0 ==> redated(day_of_time(e[0].0 as int) as i32, date) is Some
}

/// The member count at the end of `date`: none before the first count, the last
/// count from the last count's day on, else the latest count at or before `date`.
pub open spec fn member_count_on(e: Seq<(i64, i64)>, date: i32) -> u32 {
    if e.len() == 0 {
        0
    } else {
        let first = e[0];
        let last = e[e.len() - 1];
        if date < day_of_time(first.0 as int) {
            0
        } else if day_of_time(last.0 as int) <= date {
            last.1 as u32
        } else {
            count_at_or_before(
                e,
                (date * SECONDS_PER_DAY + time_of_day(first.0 as int)) as i64,
                first.0,
            )
        }
    }
}

impl Overview {
    /// What recording a member count taken at the local time `local` did
    /// (see [`Overview::handle_member_data`]).
    pub open spec fn member_count_recorded(before: Overview, after: Overview, count: MemberCount, local: i64) -> bool {
        &&& ({
            let t = bucket_times(local as int);
            let o = before.count;
            let n = after.count;
            let total = count.total_members;
            &&& n.hourly_e() =~= inserted(
                gap_filled(o.hourly_e(), o.last_hour, o.hourly_e(), t.0, SECONDS_PER_HOUR as int), t.0, total)
            &&& n.daily_e() =~= inserted(
                gap_filled(o.daily_e(), o.last_day, o.daily_e(), t.1, SECONDS_PER_DAY as int), t.1, total)
            &&& n.weekly_e() =~= inserted(
                gap_filled(o.weekly_e(), o.last_week, o.weekly_e(), t.2, SECONDS_PER_WEEK as int), t.2, total)
            &&& n.monthly_e() =~= inserted(months_moved(o.monthly_e(), o.last_month, t.3), t.3, total)
            &&& n.last_hour == Some(t.0) && n.last_day == Some(t.1)
            &&& n.last_week == Some(t.2) && n.last_month == Some(t.3)
            &&& after.joins == before.joins && after.leaves == before.leaves
            &&& after.data == (OverviewData {
                member_count: if day_of_time(t.1 as int) <= before.date_handler.to {
                    total as u32
                } else {
                    before.data.member_count
                },
                ..before.data
            })
        })
        &&& after.chart_labels == before.chart_labels
        &&& after.activity_data == before.activity_data
        &&& after.date_handler == before.date_handler
        &&& after.compare_data == before.compare_data
        &&& after.compare_nav == before.compare_nav
        &&& after.channel_map == before.channel_map
        &&& after.reload_count == before.reload_count
        &&& after.show_count == before.show_count && after.show_joins == before.show_joins
        &&& after.show_leaves == before.show_leaves && after.show_full_chart == before.show_full_chart
        &&& after.chart_type == before.chart_type && after.max_content == before.max_content
    }

    /// Records a member count snapshot taken at the local time `local`.
    pub fn handle_member_data(&mut self, count: MemberCount, local: i64)
        requires
            old(self).wf(),
            usable_time(local as int),
        ensures
            final(self).wf(),
            Overview::member_count_recorded(*old(self), *final(self), count, local),
    {
        let total = count.total_members;
        let times = self.add_missing_date(local, MemberSeries::Count);
        proof {
            lemma_inserted_keeps(self.count.hourly_e(), times.0, total);
            lemma_inserted_keeps(self.count.daily_e(), times.1, total);
            lemma_inserted_keeps(self.count.weekly_e(), times.2, total);
            lemma_inserted_keeps(self.count.monthly_e(), times.3, total);
        }
        series_insert(&mut self.count.hourly, times.0, total);
        series_insert(&mut self.count.daily, times.1, total);
        series_insert(&mut self.count.weekly, times.2, total);
        series_insert(&mut self.count.monthly, times.3, total);
        if time_to_day(times.1) as i32 <= self.date_handler.to {
            self.data.member_count = total as u32;
        }
    }

    /// What recording a member join or leave at the local time `local` did
    /// (see [`Overview::handle_member_activity`]).
    pub open spec fn member_activity_recorded(before: Overview, after: Overview, activity: MemberActivity, local: i64) -> bool {
        &&& ({
            let t = bucket_times(local as int);
            let which = if activity.join_activity { MemberSeries::Joins } else { MemberSeries::Leaves };
            let o = before.target(which);
            let n = after.target(which);
            let bump = |e: Seq<(i64, i64)>, k: i64| inserted(e, k, vstd::wrapping::i64_specs::wrapping_add(
                match lookup(e, k) { Some(v) => v, None => 0 }, 1));
            let daily_before = gap_filled(o.daily_e(), o.last_day, o.daily_e(), t.1, SECONDS_PER_DAY as int);
            let day_value = vstd::wrapping::i64_specs::wrapping_add(
                match lookup(daily_before, t.1) { Some(v) => v, None => 0 }, 1);
            &&& n.hourly_e() =~= bump(o.hourly_e(), t.0)
            &&& n.daily_e() =~= bump(daily_before, t.1)
            &&& n.weekly_e() =~= bump(
                gap_filled(o.weekly_e(), o.last_week, o.weekly_e(), t.2, SECONDS_PER_WEEK as int), t.2)
            &&& n.monthly_e() =~= bump(months_moved(o.monthly_e(), o.last_month, t.3), t.3)
            &&& n.last_hour == Some(t.0) && n.last_day == Some(t.1)
            &&& n.last_week == Some(t.2) && n.last_month == Some(t.3)
            &&& after.count.hourly_e() =~= gap_filled(before.count.hourly_e(), o.last_hour, o.hourly_e(), t.0, SECONDS_PER_HOUR as int)
            &&& after.count.daily == before.count.daily
            &&& after.count.weekly == before.count.weekly
            &&& after.count.monthly == before.count.monthly
            &&& after.count.last_hour == before.count.last_hour
            &&& after.count.last_day == before.count.last_day
            &&& after.count.last_week == before.count.last_week
            &&& after.count.last_month == before.count.last_month
            &&& (activity.join_activity ==> after.leaves == before.leaves)
            &&& (!activity.join_activity ==> after.joins == before.joins)
            &&& after.data == if day_of_time(t.1 as int) <= before.date_handler.to {
                if activity.join_activity {
                    OverviewData { member_joins: day_value as u32, ..before.data }
                } else {
                    OverviewData { member_left: day_value as u32, ..before.data }
                }
            } else {
                before.data
            }
        })
        &&& after.chart_labels == before.chart_labels
        &&& after.activity_data == before.activity_data
        &&& after.date_handler == before.date_handler
        &&& after.compare_data == before.compare_data
        &&& after.compare_nav == before.compare_nav
        &&& after.channel_map == before.channel_map
        &&& after.reload_count == before.reload_count
        &&& after.show_count == before.show_count && after.show_joins == before.show_joins
        &&& after.show_leaves == before.show_leaves && after.show_full_chart == before.show_full_chart
        &&& after.chart_type == before.chart_type && after.max_content == before.max_content
    }

    /// Records a member joining or leaving at the local time `local`: the join
    /// (or leave) series gain one in each bucket, wrapping around on overflow.
    pub fn handle_member_activity(&mut self, activity: MemberActivity, local: i64)
        requires
            old(self).wf(),
            usable_time(local as int),
        ensures
            final(self).wf(),
            Overview::member_activity_recorded(*old(self), *final(self), activity, local),
    {
        let is_join = activity.join_activity;
        let which = if is_join { MemberSeries::Joins } else { MemberSeries::Leaves };
        let times = self.add_missing_date(local, which);
        let to = self.date_handler.to;
        if is_join {
            proof {
                lemma_inserted_keeps(self.joins.hourly_e(), times.0, 0);
            }
            let ghost e0 = self.joins.hourly_e();
            let ghost e1 = self.joins.daily_e();
            let ghost e2 = self.joins.weekly_e();
            let ghost e3 = self.joins.monthly_e();
            let v0 = series_increment(&mut self.joins.hourly, times.0);
            let v1 = series_increment(&mut self.joins.daily, times.1);
            if time_to_day(times.1) as i32 <= to {
                self.data.member_joins = v1 as u32;
            }
            let v2 = series_increment(&mut self.joins.weekly, times.2);
            let v3 = series_increment(&mut self.joins.monthly, times.3);
            proof {
                lemma_inserted_keeps(e0, times.0, v0);
                lemma_inserted_keeps(e1, times.1, v1);
                lemma_inserted_keeps(e2, times.2, v2);
                lemma_inserted_keeps(e3, times.3, v3);
            }
        } else {
            let ghost e0 = self.leaves.hourly_e();
            let ghost e1 = self.leaves.daily_e();
            let ghost e2 = self.leaves.weekly_e();
            let ghost e3 = self.leaves.monthly_e();
            let v0 = series_increment(&mut self.leaves.hourly, times.0);
            let v1 = series_increment(&mut self.leaves.daily, times.1);
            if time_to_day(times.1) as i32 <= to {
                self.data.member_left = v1 as u32;
            }
            let v2 = series_increment(&mut self.leaves.weekly, times.2);
            let v3 = series_increment(&mut self.leaves.monthly, times.3);
            proof {
                lemma_inserted_keeps(e0, times.0, v0);
                lemma_inserted_keeps(e1, times.1, v1);
                lemma_inserted_keeps(e2, times.2, v2);
                lemma_inserted_keeps(e3, times.3, v3);
            }
        }
    }
}

} // verus!

verus! {

/// Inserts `(k, 0)` into `a` and `b` for every key `k` of `src`, in order.
fn zero_fill(src: &IndexMap<i64, i64>, a: &mut IndexMap<i64, i64>, b: &mut IndexMap<i64, i64>)
    requires
        keys_valid(series_entries(*src)),
        keys_valid(series_entries(*old(a))),
        keys_valid(series_entries(*old(b))),
    ensures
        series_entries(*final(a)) == zeros_inserted(series_entries(*old(a)), series_entries(*src)),
        series_entries(*final(b)) == zeros_inserted(series_entries(*old(b)), series_entries(*src)),
        keys_valid(series_entries(*final(a))),
        keys_valid(series_entries(*final(b))),
        forall|j: i64| lookup(series_entries(*old(a)), j) is Some ==> lookup(series_entries(*final(a)), j) is Some,
        forall|j: i64| lookup(series_entries(*old(b)), j) is Some ==> lookup(series_entries(*final(b)), j) is Some,
{
    let n = series_len(src);
    let ghost s = series_entries(*src);
    let mut i: usize = 0;
    while i < n
        invariant
            n == s.len(),
            s == series_entries(*src),
            keys_valid(s),
            i <= n,
            series_entries(*a) == zeros_inserted(series_entries(*old(a)), s.subrange(0, i as int)),
            series_entries(*b) == zeros_inserted(series_entries(*old(b)), s.subrange(0, i as int)),
            keys_valid(series_entries(*a)),
            keys_valid(series_entries(*b)),
            forall|j: i64| lookup(series_entries(*old(a)), j) is Some ==> lookup(series_entries(*a), j) is Some,
            forall|j: i64| lookup(series_entries(*old(b)), j) is Some ==> lookup(series_entries(*b), j) is Some,
        decreases n - i,
    {
        let (k, _) = series_get_index(src, i).unwrap();
        proof {
            assert(valid_time(s[i as int].0 as int));
            lemma_inserted_keeps(series_entries(*a), k, 0);
            lemma_inserted_keeps(series_entries(*b), k, 0);
            assert(s.subrange(0, i + 1).drop_last() == s.subrange(0, i as int));
        }
        series_insert(a, k, 0);
        series_insert(b, k, 0);
        i = i + 1;
    }
    proof {
        assert(s.subrange(0, n as int) == s);
    }
}

impl Overview {
    /// What giving the join and leave series their zeros did (see
    /// [`Overview::fill_member_activity`]).
    pub open spec fn activity_filled(before: Overview, after: Overview) -> bool {
        &&& after.joins.hourly_e() =~= zeros_inserted(before.joins.hourly_e(), before.count.hourly_e())
        &&& after.leaves.hourly_e() =~= zeros_inserted(before.leaves.hourly_e(), before.count.hourly_e())
        &&& after.joins.daily_e() =~= zeros_inserted(before.joins.daily_e(), before.count.daily_e())
        &&& after.leaves.daily_e() =~= zeros_inserted(before.leaves.daily_e(), before.count.daily_e())
        &&& after.joins.weekly_e() =~= zeros_inserted(before.joins.weekly_e(), before.count.weekly_e())
        &&& after.leaves.weekly_e() =~= zeros_inserted(before.leaves.weekly_e(), before.count.weekly_e())
        &&& after.joins.monthly_e() =~= zeros_inserted(before.joins.monthly_e(), before.count.monthly_e())
        &&& after.leaves.monthly_e() =~= zeros_inserted(before.leaves.monthly_e(), before.count.monthly_e())
        &&& after.joins.last_hour == before.joins.last_hour
        &&& after.joins.last_day == before.joins.last_day
        &&& after.joins.last_week == before.joins.last_week
        &&& after.joins.last_month == before.joins.last_month
        &&& after.leaves.last_hour == before.leaves.last_hour
        &&& after.leaves.last_day == before.leaves.last_day
        &&& after.leaves.last_week == before.leaves.last_week
        &&& after.leaves.last_month == before.leaves.last_month
        &&& after.count == before.count
        &&& Overview::same_but_series(before, after)
    }

    /// Gives the join and leave series a zero at every bucket that holds a member count.
    pub fn fill_member_activity(&mut self)
        requires
            old(self).wf(),
        ensures
            final(self).wf(),
            Overview::activity_filled(*old(self), *final(self)),
    {
        zero_fill(&self.count.hourly, &mut self.joins.hourly, &mut self.leaves.hourly);
        zero_fill(&self.count.daily, &mut self.joins.daily, &mut self.leaves.daily);
        zero_fill(&self.count.weekly, &mut self.joins.weekly, &mut self.leaves.weekly);
        zero_fill(&self.count.monthly, &mut self.joins.monthly, &mut self.leaves.monthly);
    }

    /// The member count at the end of `date` (see [`member_count_on`]); chrono
    /// must be able to move the first daily bucket to `date`.
    pub fn find_member_count(&self, date: i32) -> (r: u32)
        requires
            self.wf(),
            member_count_defined(self.count.daily_e(), date),
        ensures
            r == member_count_on(self.count.daily_e(), date),
    {
        let e = &self.count.daily;
        let ghost s = series_entries(*e);
        let len = series_len(e);
        if len == 0 {
            return 0;
        }
        let (first_key, _) = series_get_index(e, 0).unwrap();
        proof {
            assert(valid_time(s[0].0 as int));
        }
        let first_day = time_to_day(first_key);
        let ongoing_day = match redate(first_day, date) {
            Some(d) => d,
            None => date,
        };
        let tod = first_key - day_start(first_key);
        let (last_key, last_value) = series_get_index(e, len - 1).unwrap();
        proof {
            assert(valid_time(s[len - 1].0 as int));
        }
        if date < first_day {
            return 0;
        }
        if time_to_day(last_key) as i32 <= date {
            return last_value as u32;
        }
        proof {
            assert(valid_day(date as int));
        }
        let mut ongoing: i64 = ongoing_day as i64 * SECONDS_PER_DAY + tod;
        while ongoing >= first_key
            invariant
                ongoing <= (MAX_DAY + 1) * SECONDS_PER_DAY,
                ongoing >= MIN_DAY * SECONDS_PER_DAY - SECONDS_PER_DAY,
                valid_time(first_key as int),
                s == series_entries(*e),
                s == self.count.daily_e(),
                count_at_or_before(s, ongoing, first_key) == member_count_on(s, date),
            decreases (if ongoing >= first_key { ongoing - first_key + 1 } else { 0 }),
        {
            match series_get(e, ongoing) {
                Some(c) => {
                    return c as u32;
                },
                None => {
                    if ongoing - SECONDS_PER_DAY < MIN_DAY as i64 * SECONDS_PER_DAY {
                        return 0;
                    }
                    ongoing = ongoing - SECONDS_PER_DAY;
                },
            }
        }
        0
    }
}

} // verus!

verus! {

/// (channel counts, deleted count, user name) of one user on one day.
pub type ActView = (Seq<(i64, u32)>, u32, Seq<char>);

/// The day-by-user activity list, seen through [`ActivityData::view_tuple`].
pub open spec fn acts_view(s: Seq<(i64, ActivityData)>) -> Seq<(i64, ActView)> {
    s.map_values(|p: (i64, ActivityData)| (p.0, p.1.view_tuple()))
}

/// The position of the activity of `name` on `day`, or -1.
pub open spec fn act_index(s: Seq<(i64, ActView)>, day: i64, name: Seq<char>) -> int
    decreases s.len(),
{
    if s.len() == 0 {
        -1
    } else if act_index(s.drop_last(), day, name) >= 0 {
        act_index(s.drop_last(), day, name)
    } else if s.last().0 == day && s.last().1.2 == name {
        s.len() - 1
    } else {
        -1
    }
}

pub proof fn lemma_act_index(s: Seq<(i64, ActView)>, day: i64, name: Seq<char>)
    ensures
        -1 <= act_index(s, day, name) < s.len(),
        act_index(s, day, name) >= 0 ==> s[act_index(s, day, name)].0 == day && s[act_index(s, day, name)].1.2 == name,
        act_index(s, day, name) >= 0 ==> forall|j: int| 0 <= j < act_index(s, day, name) ==> !(s[j].0 == day && s[j].1.2 == name),
        act_index(s, day, name) < 0 ==> forall|j: int| 0 <= j < s.len() ==> !(s[j].0 == day && s[j].1.2 == name),
    decreases s.len(),
{
    if s.len() > 0 {
        let t = s.drop_last();
        lemma_act_index(t, day, name);
        assert forall|j: int| 0 <= j < t.len() implies t[j] == s[j] by {}
    }
}

/// A channel's count raised by one (a new channel starts at one).
pub open spec fn channel_bumped(mc: Seq<(i64, u32)>, c: i64) -> Seq<(i64, u32)> {
    let i = key_index(mc, c);
    if i >= 0 {
        mc.update(i, (c, wadd(mc[i].1, 1)))
    } else {
        mc.push((c, 1))
    }
}

/// The activity list after one message of `name` on `day` in `channel`
/// (counted as deleted when `deleted`).
pub open spec fn activity_recorded(s: Seq<(i64, ActView)>, day: i64, name: Seq<char>, channel: i64, deleted: bool) -> Seq<(i64, ActView)> {
    let i = act_index(s, day, name);
    let base = if i >= 0 { s } else { s.push((day, (Seq::empty(), 0u32, name))) };
    let j = if i >= 0 { i } else { s.len() as int };
    let a = base[j].1;
    base.update(j, (day, if deleted { (a.0, wadd(a.1, 1), a.2) } else { (channel_bumped(a.0, channel), a.1, a.2) }))
}

/// The bus after `publish_if_needed(e)`.
pub open spec fn published_once(bus: Seq<AppEvent>, e: AppEvent) -> Seq<AppEvent> {
    if bus.contains(e) {
        bus
    } else {
        bus.push(e)
    }
}

/// Number of processed items after which a tab asks to be reloaded.
pub open spec fn reload_threshold() -> u64 {
    (PAGE_VALUE * 5) as u64
}

/// (user, channel, count) for every channel count of the days within `h`.
pub open spec fn items_in_range(s: Seq<(i64, ActView)>, h: DateHandler) -> Seq<(Seq<char>, i64, u32)>
    decreases s.len(),
{
    if s.len() == 0 {
        Seq::empty()
    } else {
        let (day, a) = s.last();
        items_in_range(s.drop_last(), h) + if h.spec_within_range(day as int) {
            a.0.map_values(|p: (i64, u32)| (a.2, p.0, p.1))
        } else {
            Seq::empty()
        }
    }
}

/// The deleted messages of the days within `h`.
pub open spec fn deleted_in_range(s: Seq<(i64, ActView)>, h: DateHandler) -> u32
    decreases s.len(),
{
    if s.len() == 0 {
        0
    } else {
        let (day, a) = s.last();
        if h.spec_within_range(day as int) {
            wadd(deleted_in_range(s.drop_last(), h), a.1)
        } else {
            deleted_in_range(s.drop_last(), h)
        }
    }
}

/// The channel name of `c`, or `fallback` when the channel is unknown.
pub open spec fn channel_name_or(map: Seq<(i64, String)>, c: i64, fallback: Seq<char>) -> Seq<char> {
    if key_index(map, c) >= 0 {
        map[key_index(map, c)].1@
    } else {
        fallback
    }
}

/// What the summary cards show for `items` (channel counts within a range).
/// The most active member and channel are the first, in the order they are
/// first seen in `items`, of those with the most messages: [`is_max_at`]
/// holds at one position only (see [`crate::aggregate::lemma_is_max_at_unique`]).
pub open spec fn summary_of(
    d: OverviewData,
    items: Seq<(Seq<char>, i64, u32)>,
    deleted: u32,
    member_count: u32,
    map: Seq<(i64, String)>,
    fallback: Seq<char>,
) -> bool {
    let cs = sums_by_key(items.map_values(|t: (Seq<char>, i64, u32)| (t.1, t.2)));
    let ms = sums_by_name(items.map_values(|t: (Seq<char>, i64, u32)| (t.0, t.2)));
    &&& d.total_message == total_of(items.map_values(|t: (Seq<char>, i64, u32)| t.2))
    &&& d.deleted_message == deleted
    &&& d.unique_user == ms.len() as u32
    &&& d.member_count == member_count
    &&& d.member_joins == 0
    &&& d.member_left == 0
    &&& (ms.len() == 0 ==> d.most_active_member@ == fallback)
    &&& (ms.len() > 0 ==> exists|i: int| #[trigger] is_max_at(ms, i) && d.most_active_member@ == ms[i].0)
    &&& (cs.len() == 0 ==> d.most_active_channel@ == channel_name_or(map, 0, fallback))
    &&& (cs.len() > 0 ==> exists|i: int| #[trigger] is_max_at(cs, i)
        && d.most_active_channel@ == channel_name_or(map, cs[i].0, fallback))
}

/// The view of a list of collected items.
pub open spec fn items_view(s: Seq<(String, i64, u32)>) -> Seq<(Seq<char>, i64, u32)> {
    s.map_values(|t: (String, i64, u32)| (t.0@, t.1, t.2))
}

/// Collects (user, channel, count) for the days within `h`.
fn collect_items(acts: &Vec<(i64, ActivityData)>, h: DateHandler) -> (r: Vec<(String, i64, u32)>)
    ensures
        items_view(r@) == items_in_range(acts_view(acts@), h),
{
    let ghost av = acts_view(acts@);
    let mut out: Vec<(String, i64, u32)> = Vec::new();
    let mut i: usize = 0;
    while i < acts.len()
        invariant
            av == acts_view(acts@),
            i <= acts.len(),
            items_view(out@) == items_in_range(av.take(i as int), h),
        decreases acts.len() - i,
    {
        let day = acts[i].0;
        let a = &acts[i].1;
        let ghost before = items_in_range(av.take(i as int), h);
        proof {
            assert(av.take(i + 1).drop_last() =~= av.take(i as int));
            assert(av[i as int] == (day, a.view_tuple()));
        }
        if day >= i32::MIN as i64 && day <= i32::MAX as i64 && h.within_range(day as i32) {
            let ghost extra = a.message_count@.map_values(|p: (i64, u32)| (a.name@, p.0, p.1));
            let mut j: usize = 0;
            while j < a.message_count.len()
                invariant
                    j <= a.message_count.len(),
                    extra == a.message_count@.map_values(|p: (i64, u32)| (a.name@, p.0, p.1)),
                    items_view(out@) == before + extra.take(j as int),
                decreases a.message_count.len() - j,
            {
                let (c, n) = a.message_count[j];
                let ghost prev = out@;
                let nm = a.name.clone();
                out.push((nm, c, n));
                proof {
                    assert(extra[j as int] == (a.name@, c, n));
                    assert(extra.take(j + 1) =~= extra.take(j as int).push((a.name@, c, n)));
                    assert(out@ == prev.push((nm, c, n)));
                    assert(items_view(out@) =~= items_view(prev).push((a.name@, c, n)));
                }
                j = j + 1;
            }
            proof {
                assert(extra.take(a.message_count.len() as int) =~= extra);
            }
        } else {
            proof {
                assert(!h.spec_within_range(day as int));
                assert(before + Seq::<(Seq<char>, i64, u32)>::empty() =~= before);
            }
        }
        i = i + 1;
    }
    proof {
        assert(av.take(acts.len() as int) =~= av);
    }
    out
}

/// Sums the deleted messages of the days within `h`.
fn deleted_within(acts: &Vec<(i64, ActivityData)>, h: DateHandler) -> (r: u32)
    ensures
        r == deleted_in_range(acts_view(acts@), h),
{
    let ghost av = acts_view(acts@);
    let mut total: u32 = 0;
    let mut i: usize = 0;
    while i < acts.len()
        invariant
            av == acts_view(acts@),
            i <= acts.len(),
            total == deleted_in_range(av.take(i as int), h),
        decreases acts.len() - i,
    {
        proof {
            assert(av.take(i + 1).drop_last() =~= av.take(i as int));
        }
        let day = acts[i].0;
        if day >= i32::MIN as i64 && day <= i32::MAX as i64 && h.within_range(day as i32) {
            total = total.wrapping_add(acts[i].1.deleted_message);
        }
        i = i + 1;
    }
    proof {
        assert(av.take(acts.len() as int) =~= av);
    }
    total
}

/// Looks up a channel's name, answering `fallback` for an unknown channel.
fn channel_name(map: &Vec<(i64, String)>, c: i64, fallback: &str) -> (r: String)
    ensures
        r@ == channel_name_or(map@, c, fallback@),
{
    proof {
        lemma_key_index(map@, c);
    }
    match find_key(map, c) {
        Some(i) => map[i].1.clone(),
        None => String::from_str(fallback),
    }
}

/// Builds the summary of `items` (see [`summary_of`]).
fn summarize(
    items: &Vec<(String, i64, u32)>,
    deleted: u32,
    member_count: u32,
    map: &Vec<(i64, String)>,
    fallback: &str,
) -> (r: OverviewData)
    ensures
        summary_of(r, items_view(items@), deleted, member_count, map@, fallback@),
{
    let ghost iv = items_view(items@);
    let ghost ck = iv.map_values(|t: (Seq<char>, i64, u32)| (t.1, t.2));
    let ghost nk = iv.map_values(|t: (Seq<char>, i64, u32)| (t.0, t.2));
    let ghost tk = iv.map_values(|t: (Seq<char>, i64, u32)| t.2);
    let mut total: u32 = 0;
    let mut channels: Vec<(i64, u32)> = Vec::new();
    let mut members: Vec<(String, u32)> = Vec::new();
    let mut i: usize = 0;
    while i < items.len()
        invariant
            iv == items_view(items@),
            ck == iv.map_values(|t: (Seq<char>, i64, u32)| (t.1, t.2)),
            nk == iv.map_values(|t: (Seq<char>, i64, u32)| (t.0, t.2)),
            tk == iv.map_values(|t: (Seq<char>, i64, u32)| t.2),
            i <= items.len(),
            total == total_of(tk.take(i as int)),
            channels@ == sums_by_key(ck.take(i as int)),
            named_view(members@) == sums_by_name(nk.take(i as int)),
        decreases items.len() - i,
    {
        proof {
            assert(ck.take(i + 1).drop_last() =~= ck.take(i as int));
            assert(nk.take(i + 1).drop_last() =~= nk.take(i as int));
            assert(tk.take(i + 1).drop_last() =~= tk.take(i as int));
        }
        let n = items[i].2;
        total = total.wrapping_add(n);
        add_to_key(&mut channels, items[i].1, n);
        add_to_name(&mut members, &items[i].0, n);
        i = i + 1;
    }
    proof {
        assert(ck.take(items.len() as int) =~= ck);
        assert(nk.take(items.len() as int) =~= nk);
        assert(tk.take(items.len() as int) =~= tk);
    }
    let unique_user = members.len() as u32;
    let most_active_member = match argmax(&members) {
        Some(j) => {
            proof {
                assert(is_max_at(named_view(members@), j as int));
            }
            members[j].0.clone()
        },
        None => String::from_str(fallback),
    };
    let most_active_channel = match argmax(&channels) {
        Some(j) => channel_name(map, channels[j].0, fallback),
        None => channel_name(map, 0, fallback),
    };
    OverviewData {
        total_message: total,
        deleted_message: deleted,
        unique_user,
        member_count,
        member_joins: 0,
        member_left: 0,
        most_active_member,
        most_active_channel,
    }
}

} // verus!

verus! {

impl Overview {
    /// What counting a message at the local time `local` did (see
    /// [`Overview::handle_message`]).
    pub open spec fn message_counted(before: Overview, after: Overview, message: MessageWithUser, local: i64, bus0: Seq<AppEvent>, bus1: Seq<AppEvent>) -> bool {
        &&& acts_view(after.activity_data@) =~= activity_recorded(
            acts_view(before.activity_data@),
            day_of_time(local as int) as i64,
            message.sender.username@,
            message.message.channel_id,
            message.message.delete_timestamp is Some,
        )
        &&& after.reload_count == vstd::wrapping::u64_specs::wrapping_add(before.reload_count, 1)
        &&& bus1 =~= if after.reload_count == reload_threshold() {
            published_once(bus0, AppEvent::OverviewNeedsReload(message.message.guild_id))
        } else {
            bus0
        }
        &&& after.count == before.count
        &&& after.joins == before.joins
        &&& after.leaves == before.leaves
        &&& after.data == before.data
        &&& after.date_handler == before.date_handler
        &&& after.chart_labels == before.chart_labels
        &&& after.channel_map == before.channel_map
        &&& after.compare_data == before.compare_data
        &&& after.compare_nav == before.compare_nav
        &&& after.show_count == before.show_count && after.show_joins == before.show_joins
        &&& after.show_leaves == before.show_leaves && after.show_full_chart == before.show_full_chart
        &&& after.chart_type == before.chart_type && after.max_content == before.max_content
    }

    /// Counts a message in the activity of its sender on the message's local day
    /// (`local` is the message's local time): as deleted when it was deleted,
    /// else in its channel. Every [`reload_threshold`] messages the overview
    /// asks to be reloaded.
    pub fn handle_message(&mut self, message: &MessageWithUser, local: i64, event_bus: &mut EventBus)
        requires
            valid_time(local as int),
        ensures
            Overview::message_counted(*old(self), *final(self), *message, local, old(event_bus)@, final(event_bus)@),
    {
        let day = time_to_day(local) as i64;
        let name = &message.sender.username;
        let channel_id = message.message.channel_id;
        let deleted = message.message.delete_timestamp.is_some();
        let ghost av = acts_view(self.activity_data@);
        proof {
            lemma_act_index(av, day, name@);
        }
        let mut idx: usize = 0;
        while idx < self.activity_data.len() && !(self.activity_data[idx].0 == day
            && self.activity_data[idx].1.name == *name)
            invariant
                av == acts_view(self.activity_data@),
                idx <= self.activity_data.len(),
                forall|j: int| 0 <= j < idx ==> !(av[j].0 == day && av[j].1.2 == name@),
            decreases self.activity_data.len() - idx,
        {
            idx = idx + 1;
        }
        let ghost found = idx < self.activity_data.len();
        proof {
            if found {
                assert(av[idx as int].0 == day && av[idx as int].1.2 == name@);
                assert(act_index(av, day, name@) == idx as int);
            } else {
                assert(act_index(av, day, name@) < 0);
            }
        }
        if idx == self.activity_data.len() {
            self.activity_data.push((day, ActivityData::new(name.clone())));
            proof {
                assert(acts_view(self.activity_data@) =~= av.push((day, (Seq::empty(), 0u32, name@))));
            }
        }
        let ghost base = acts_view(self.activity_data@);
        let (d, mut a) = self.activity_data.remove(idx);
        if deleted {
            a.deleted_message = a.deleted_message.wrapping_add(1);
        } else {
            proof {
                lemma_key_index(a.message_count@, channel_id);
            }
            match find_key(&a.message_count, channel_id) {
                Some(i) => {
                    let cur = a.message_count[i].1;
                    a.message_count.set(i, (channel_id, cur.wrapping_add(1)));
                },
                None => {
                    a.message_count.push((channel_id, 1));
                },
            }
        }
        self.activity_data.insert(idx, (d, a));
        proof {
            assert(acts_view(self.activity_data@) =~= base.update(idx as int, (day, a.view_tuple())));
        }
        self.reload_count = self.reload_count.wrapping_add(1);
        if self.reload_count == PAGE_VALUE * 5 {
            event_bus.publish_if_needed(AppEvent::OverviewNeedsReload(message.message.guild_id));
        }
    }
}

} // verus!

verus! {

/// The entries of `s` whose bucket day lies within `h`, in order.
pub open spec fn entries_in_range(s: Seq<(i64, i64)>, h: DateHandler) -> Seq<(i64, i64)>
    decreases s.len(),
{
    if s.len() == 0 {
        Seq::empty()
    } else if h.spec_within_range(day_of_time(s.last().0 as int)) {
        entries_in_range(s.drop_last(), h).push(s.last())
    } else {
        entries_in_range(s.drop_last(), h)
    }
}

/// The chart labels after the member count pass: one per shown point.
pub open spec fn labels_after_count(labels: Seq<ChartLabel>, pts: Seq<(i64, i64)>) -> Seq<ChartLabel> {
    labels + pts.map_values(|p: (i64, i64)| (p.0, p.1, 0i64, 0i64))
}

/// The chart labels after the joins pass: new labels when none were made yet,
/// else the joins written into the existing labels (clearing their leaves).
pub open spec fn labels_after_joins(labels: Seq<ChartLabel>, pts: Seq<(i64, i64)>, fresh: bool) -> Seq<ChartLabel> {
    if fresh {
        labels + pts.map_values(|p: (i64, i64)| (p.0, 0i64, p.1, 0i64))
    } else {
        Seq::new(labels.len(), |i: int| if i < pts.len() { (labels[i].0, labels[i].1, pts[i].1, 0i64) } else { labels[i] })
    }
}

/// The chart labels after the leaves pass.
pub open spec fn labels_after_leaves(labels: Seq<ChartLabel>, pts: Seq<(i64, i64)>, fresh: bool) -> Seq<ChartLabel> {
    if fresh {
        labels + pts.map_values(|p: (i64, i64)| (p.0, 0i64, 0i64, p.1))
    } else {
        Seq::new(labels.len(), |i: int| if i < pts.len() { (labels[i].0, labels[i].1, labels[i].2, pts[i].1) } else { labels[i] })
    }
}

/// Collects the entries of a series whose day lies within `h`.
fn series_in_range(m: &IndexMap<i64, i64>, h: DateHandler) -> (r: Vec<(i64, i64)>)
    requires
        keys_valid(series_entries(*m)),
    ensures
        r@ == entries_in_range(series_entries(*m), h),
{
    let ghost s = series_entries(*m);
    let n = series_len(m);
    let mut out: Vec<(i64, i64)> = Vec::new();
    let mut i: usize = 0;
    while i < n
        invariant
            s == series_entries(*m),
            keys_valid(s),
            n == s.len(),
            i <= n,
            out@ == entries_in_range(s.take(i as int), h),
        decreases n - i,
    {
        let (k, v) = series_get_index(m, i).unwrap();
        proof {
            assert(s.take(i + 1).drop_last() =~= s.take(i as int));
            assert(valid_time(s[i as int].0 as int));
        }
        let day = time_to_day(k);
        if h.within_range(day) {
            out.push((k, v));
        }
        i = i + 1;
    }
    proof {
        assert(s.take(n as int) =~= s);
    }
    out
}

/// The chart points of the member series and the updated chart labels.
pub struct MemberChartPoints {
    pub count: Option<Vec<(i64, i64)>>,
    pub joins: Option<Vec<(i64, i64)>>,
    pub leaves: Option<Vec<(i64, i64)>>,
}

impl Overview {
    /// The member count series of the current bucket size.
    pub fn get_target_data_count(&self) -> (r: &IndexMap<i64, i64>)
        ensures
            series_entries(*r) == self.count.series_of(self.chart_type),
    {
        self.count.select(self.chart_type)
    }

    /// The joins series of the current bucket size.
    pub fn get_target_data_joins(&self) -> (r: &IndexMap<i64, i64>)
        ensures
            series_entries(*r) == self.joins.series_of(self.chart_type),
    {
        self.joins.select(self.chart_type)
    }

    /// The leaves series of the current bucket size.
    pub fn get_target_data_leaves(&self) -> (r: &IndexMap<i64, i64>)
        ensures
            series_entries(*r) == self.leaves.series_of(self.chart_type),
    {
        self.leaves.select(self.chart_type)
    }

    /// Shows the member chart with buckets of `chart`; its labels are rebuilt
    /// on the next draw.
    pub fn select_chart_type(&mut self, chart: ChartType)
        ensures
            *final(self) == (Overview { chart_type: chart, chart_labels: final(self).chart_labels, ..*old(self) }),
            final(self).chart_labels@.len() == 0,
    {
        self.chart_type = chart;
        self.chart_labels = Vec::new();
    }

    /// The points the member chart draws (x is the position in each list) for
    /// the shown series, restricted to the selected dates; when the labels were
    /// empty they are rebuilt from the points.
    pub fn member_chart_points(&mut self) -> (r: MemberChartPoints)
        requires
            old(self).wf(),
        ensures
            ({
                let h = old(self).date_handler;
                let c = entries_in_range(old(self).count.series_of(old(self).chart_type), h);
                let j = entries_in_range(old(self).joins.series_of(old(self).chart_type), h);
                let l = entries_in_range(old(self).leaves.series_of(old(self).chart_type), h);
                let reload = old(self).chart_labels@.len() == 0;
                let l0 = old(self).chart_labels@;
                let l1 = if old(self).show_count && reload { labels_after_count(l0, c) } else { l0 };
                let l2 = if old(self).show_joins && reload {
                    labels_after_joins(l1, j, !old(self).show_count)
                } else {
                    l1
                };
                let l3 = if old(self).show_leaves && reload {
                    labels_after_leaves(l2, l, !old(self).show_count && !old(self).show_joins)
                } else {
                    l2
                };
                &&& (r.count matches Some(v) ==> v@ == c) && (r.count is Some <==> old(self).show_count)
                &&& (r.joins matches Some(v) ==> v@ == j) && (r.joins is Some <==> old(self).show_joins)
                &&& (r.leaves matches Some(v) ==> v@ == l) && (r.leaves is Some <==> old(self).show_leaves)
                &&& final(self).chart_labels@ == l3
            }),
            final(self).count == old(self).count,
            final(self).joins == old(self).joins,
            final(self).leaves == old(self).leaves,
            final(self).data == old(self).data,
            final(self).activity_data == old(self).activity_data,
            final(self).date_handler == old(self).date_handler,
            final(self).chart_type == old(self).chart_type,
    {
        let mut labels: Vec<ChartLabel> = Vec::new();
        std::mem::swap(&mut labels, &mut self.chart_labels);
        let reload = labels.len() == 0;
        let h = self.date_handler;
        let mut not_generated_yet = true;
        let count = if self.show_count {
            let pts = series_in_range(self.get_target_data_count(), h);
            if reload {
                let mut i: usize = 0;
                let ghost l0 = labels@;
                while i < pts.len()
                    invariant
                        i <= pts.len(),
                        labels@ == l0 + pts@.take(i as int).map_values(|p: (i64, i64)| (p.0, p.1, 0i64, 0i64)),
                    decreases pts.len() - i,
                {
                    labels.push((pts[i].0, pts[i].1, 0, 0));
                    proof {
                        assert(pts@.take(i + 1).map_values(|p: (i64, i64)| (p.0, p.1, 0i64, 0i64))
                            =~= pts@.take(i as int).map_values(|p: (i64, i64)| (p.0, p.1, 0i64, 0i64)).push((pts@[i as int].0, pts@[i as int].1, 0i64, 0i64)));
                    }
                    i = i + 1;
                }
                proof {
                    assert(pts@.take(pts.len() as int) =~= pts@);
                }
            }
            not_generated_yet = false;
            Some(pts)
        } else {
            None
        };
        let joins = if self.show_joins {
            let pts = series_in_range(self.get_target_data_joins(), h);
            if reload {
                let ghost l1 = labels@;
                let mut i: usize = 0;
                while i < pts.len()
                    invariant
                        i <= pts.len(),
                        not_generated_yet ==> labels@ == l1 + pts@.take(i as int).map_values(|p: (i64, i64)| (p.0, 0i64, p.1, 0i64)),
                        !not_generated_yet ==> labels@ == Seq::new(l1.len(), |k: int| if k < i { (l1[k].0, l1[k].1, pts@[k].1, 0i64) } else { l1[k] }),
                    decreases pts.len() - i,
                {
                    if not_generated_yet {
                        labels.push((pts[i].0, 0, pts[i].1, 0));
                        proof {
                            assert(pts@.take(i + 1).map_values(|p: (i64, i64)| (p.0, 0i64, p.1, 0i64))
                                =~= pts@.take(i as int).map_values(|p: (i64, i64)| (p.0, 0i64, p.1, 0i64)).push((pts@[i as int].0, 0i64, pts@[i as int].1, 0i64)));
                        }
                    } else if i < labels.len() {
                        let old_label = labels[i];
                        labels.set(i, (old_label.0, old_label.1, pts[i].1, 0));
                        proof {
                            assert(labels@ =~= Seq::new(l1.len(), |k: int| if k < i + 1 { (l1[k].0, l1[k].1, pts@[k].1, 0i64) } else { l1[k] }));
                        }
                    } else {
                        proof {
                            assert(Seq::new(l1.len(), |k: int| if k < i { (l1[k].0, l1[k].1, pts@[k].1, 0i64) } else { l1[k] })
                                =~= Seq::new(l1.len(), |k: int| if k < i + 1 { (l1[k].0, l1[k].1, pts@[k].1, 0i64) } else { l1[k] }));
                        }
                    }
                    i = i + 1;
                }
                proof {
                    assert(pts@.take(pts.len() as int) =~= pts@);
                    if !not_generated_yet {
                        assert(labels@ =~= Seq::new(l1.len(), |k: int| if k < pts@.len() { (l1[k].0, l1[k].1, pts@[k].1, 0i64) } else { l1[k] }));
                    }
                }
            }
            not_generated_yet = false;
            Some(pts)
        } else {
            None
        };
        let leaves = if self.show_leaves {
            let pts = series_in_range(self.get_target_data_leaves(), h);
            if reload {
                let ghost l2 = labels@;
                let mut i: usize = 0;
                while i < pts.len()
                    invariant
                        i <= pts.len(),
                        not_generated_yet ==> labels@ == l2 + pts@.take(i as int).map_values(|p: (i64, i64)| (p.0, 0i64, 0i64, p.1)),
                        !not_generated_yet ==> labels@ == Seq::new(l2.len(), |k: int| if k < i { (l2[k].0, l2[k].1, l2[k].2, pts@[k].1) } else { l2[k] }),
                    decreases pts.len() - i,
                {
                    if not_generated_yet {
                        labels.push((pts[i].0, 0, 0, pts[i].1));
                        proof {
                            assert(pts@.take(i + 1).map_values(|p: (i64, i64)| (p.0, 0i64, 0i64, p.1))
                                =~= pts@.take(i as int).map_values(|p: (i64, i64)| (p.0, 0i64, 0i64, p.1)).push((pts@[i as int].0, 0i64, 0i64, pts@[i as int].1)));
                        }
                    } else if i < labels.len() {
                        let old_label = labels[i];
                        labels.set(i, (old_label.0, old_label.1, old_label.2, pts[i].1));
                        proof {
                            assert(labels@ =~= Seq::new(l2.len(), |k: int| if k < i + 1 { (l2[k].0, l2[k].1, l2[k].2, pts@[k].1) } else { l2[k] }));
                        }
                    } else {
                        proof {
                            assert(Seq::new(l2.len(), |k: int| if k < i { (l2[k].0, l2[k].1, l2[k].2, pts@[k].1) } else { l2[k] })
                                =~= Seq::new(l2.len(), |k: int| if k < i + 1 { (l2[k].0, l2[k].1, l2[k].2, pts@[k].1) } else { l2[k] }));
                        }
                    }
                    i = i + 1;
                }
                proof {
                    assert(pts@.take(pts.len() as int) =~= pts@);
                    if !not_generated_yet {
                        assert(labels@ =~= Seq::new(l2.len(), |k: int| if k < pts@.len() { (l2[k].0, l2[k].1, l2[k].2, pts@[k].1) } else { l2[k] }));
                    }
                }
            }
            Some(pts)
        } else {
            None
        };
        self.chart_labels = labels;
        MemberChartPoints { count, joins, leaves }
    }
}

} // verus!

verus! {

impl Overview {
    /// Recomputes the summary cards for the selected dates: message totals,
    /// unique users, the most active member and channel (the first seen of the
    /// largest when several tie), and the member count at the end of the range.
    pub fn reload_overview(&mut self)
        requires
            old(self).wf(),
            member_count_defined(old(self).count.daily_e(), old(self).date_handler.to),
        ensures
            summary_of(
                final(self).data,
                items_in_range(acts_view(old(self).activity_data@), old(self).date_handler),
                deleted_in_range(acts_view(old(self).activity_data@), old(self).date_handler),
                member_count_on(old(self).count.daily_e(), old(self).date_handler.to),
                old(self).channel_map@,
                ""@,
            ),
            final(self).chart_labels@ == Seq::<ChartLabel>::empty(),
            final(self).reload_count == 0,
            final(self).count == old(self).count,
            final(self).joins == old(self).joins,
            final(self).leaves == old(self).leaves,
            final(self).activity_data == old(self).activity_data,
            final(self).channel_map == old(self).channel_map,
            final(self).date_handler == old(self).date_handler,
            final(self).compare_data == old(self).compare_data,
            final(self).compare_nav == old(self).compare_nav,
    {
        self.chart_labels = Vec::new();
        self.reload_count = 0;
        let h = self.date_handler;
        let items = collect_items(&self.activity_data, h);
        let deleted = deleted_within(&self.activity_data, h);
        let member_count = self.find_member_count(h.to);
        self.data = summarize(&items, deleted, member_count, &self.channel_map, "");
    }

    /// Computes the comparison summary for the compare navigator's dates
    /// (deleted messages are not compared).
    pub fn create_compare_data(&mut self)
        requires
            old(self).wf(),
            member_count_defined(old(self).count.daily_e(), old(self).compare_nav.handler.to),
        ensures
            final(self).compare_data matches Some(d) && summary_of(
                d,
                items_in_range(acts_view(old(self).activity_data@), old(self).compare_nav.handler),
                0,
                member_count_on(old(self).count.daily_e(), old(self).compare_nav.handler.to),
                old(self).channel_map@,
                "Not Found"@,
            ),
            final(self).max_content == 0,
            final(self).count == old(self).count,
            final(self).joins == old(self).joins,
            final(self).leaves == old(self).leaves,
            final(self).data == old(self).data,
            final(self).activity_data == old(self).activity_data,
            final(self).channel_map == old(self).channel_map,
            final(self).date_handler == old(self).date_handler,
            final(self).compare_nav == old(self).compare_nav,
            final(self).chart_labels == old(self).chart_labels,
    {
        self.max_content = 0;
        let h = self.compare_nav.handler_i();
        let items = collect_items(&self.activity_data, h);
        let member_count = self.find_member_count(h.to);
        self.compare_data = Some(summarize(&items, 0, member_count, &self.channel_map, "Not Found"));
    }

    /// Whether chrono can move the first daily member count bucket to `date`
    /// (see [`member_count_defined`]).
    pub fn member_count_ready(&self, date: i32) -> (r: bool)
        requires
            self.wf(),
        ensures
            r == member_count_defined(self.count.daily_e(), date),
    {
        let e = &self.count.daily;
        let ghost s = series_entries(*e);
        let len = series_len(e);
        if len == 0 {
            return true;
        }
        let (first_key, _) = series_get_index(e, 0).unwrap();
        proof {
            assert(valid_time(s[0].0 as int));
        }
        let first_day = time_to_day(first_key);
        redate(first_day, date).is_some()
    }

    /// Reloads the summary when the member count at the To date can be found
    /// (see [`Overview::reload_overview`]); returns whether it did. Without a
    /// reload, nothing changes.
    pub fn try_reload_overview(&mut self) -> (r: bool)
        requires
            old(self).wf(),
        ensures
            final(self).wf(),
            r == member_count_defined(old(self).count.daily_e(), old(self).date_handler.to),
            r ==> summary_of(
                final(self).data,
                items_in_range(acts_view(old(self).activity_data@), old(self).date_handler),
                deleted_in_range(acts_view(old(self).activity_data@), old(self).date_handler),
                member_count_on(old(self).count.daily_e(), old(self).date_handler.to),
                old(self).channel_map@,
                ""@,
            ) && final(self).chart_labels@ == Seq::<ChartLabel>::empty() && final(self).reload_count == 0,
            !r ==> *final(self) == *old(self),
            final(self).count == old(self).count,
            final(self).joins == old(self).joins,
            final(self).leaves == old(self).leaves,
            final(self).activity_data == old(self).activity_data,
            final(self).channel_map == old(self).channel_map,
            final(self).date_handler == old(self).date_handler,
            final(self).compare_data == old(self).compare_data,
            final(self).compare_nav == old(self).compare_nav,
    {
        if self.member_count_ready(self.date_handler.to) {
            self.reload_overview();
            true
        } else {
            false
        }
    }

    /// Computes the comparison summary when the member count at the compare
    /// To date can be found (see [`Overview::create_compare_data`]); returns
    /// whether it did. Without it, nothing changes.
    pub fn try_create_compare_data(&mut self) -> (r: bool)
        requires
            old(self).wf(),
        ensures
            final(self).wf(),
            r == member_count_defined(old(self).count.daily_e(), old(self).compare_nav.handler.to),
            r ==> (final(self).compare_data matches Some(d) && summary_of(
                d,
                items_in_range(acts_view(old(self).activity_data@), old(self).compare_nav.handler),
                0,
                member_count_on(old(self).count.daily_e(), old(self).compare_nav.handler.to),
                old(self).channel_map@,
                "Not Found"@,
            )),
            !r ==> *final(self) == *old(self),
            final(self).count == old(self).count,
            final(self).joins == old(self).joins,
            final(self).leaves == old(self).leaves,
            final(self).data == old(self).data,
            final(self).activity_data == old(self).activity_data,
            final(self).channel_map == old(self).channel_map,
            final(self).date_handler == old(self).date_handler,
            final(self).compare_nav == old(self).compare_nav,
    {
        if self.member_count_ready(self.compare_nav.handler.to) {
            self.create_compare_data();
            true
        } else {
            false
        }
    }

    /// Takes the selected dates; the compare range starts and ends on the To date.
    pub fn set_date_handler(&mut self, handler: DateHandler)
        ensures
            final(self).date_handler == handler,
            final(self).compare_nav.handler == (DateHandler {
                from: handler.to,
                to: handler.to,
                ..old(self).compare_nav.handler
            }),
            final(self).compare_nav.nav_type == old(self).compare_nav.nav_type,
            Overview::same_but_dates(*old(self), *final(self)),
    {
        self.date_handler = handler;
        self.compare_nav.handler.from = handler.to;
        self.compare_nav.handler.to = handler.to;
    }

    pub open spec fn same_but_dates(a: Overview, b: Overview) -> bool {
        &&& a.count == b.count && a.joins == b.joins && a.leaves == b.leaves
        &&& a.activity_data == b.activity_data && a.channel_map == b.channel_map
        &&& a.data == b.data && a.compare_data == b.compare_data
        &&& a.chart_labels == b.chart_labels && a.reload_count == b.reload_count
        &&& a.chart_type == b.chart_type
    }

    /// Learns the names of the given channels; a known channel keeps its name.
    pub fn set_channel_id_map(&mut self, channel_list: Vec<Channel>)
        ensures
            final(self).channel_map@ == names_learned(old(self).channel_map@, channel_list@),
            Overview::same_but_map(*old(self), *final(self)),
    {
        learn_names(&mut self.channel_map, &channel_list);
    }

    pub open spec fn same_but_map(a: Overview, b: Overview) -> bool {
        &&& a.count == b.count && a.joins == b.joins && a.leaves == b.leaves
        &&& a.activity_data == b.activity_data && a.date_handler == b.date_handler
        &&& a.data == b.data && a.compare_data == b.compare_data
        &&& a.chart_labels == b.chart_labels && a.reload_count == b.reload_count
        &&& a.compare_nav == b.compare_nav && a.chart_type == b.chart_type
    }

    /// Stops comparing.
    pub fn stop_compare(&mut self)
        ensures
            final(self).compare_data is None,
    {
        self.compare_data = None;
    }
}

/// The channel map after learning `channels` in order (`entry(id).or_insert(name)`).
pub open spec fn names_learned(map: Seq<(i64, String)>, channels: Seq<Channel>) -> Seq<(i64, String)>
    decreases channels.len(),
{
    if channels.len() == 0 {
        map
    } else {
        let m = names_learned(map, channels.drop_last());
        let c = channels.last();
        if key_index(m, c.channel_id) >= 0 {
            m
        } else {
            m.push((c.channel_id, c.channel_name))
        }
    }
}

/// Learning channel names keeps every known channel and knows every
/// learned one.
pub proof fn lemma_names_learned(map: Seq<(i64, String)>, channels: Seq<Channel>)
    ensures
        forall|k: i64| key_index(map, k) >= 0 ==> #[trigger] key_index(names_learned(map, channels), k) >= 0,
        forall|i: int| 0 <= i < channels.len() ==> key_index(names_learned(map, channels), #[trigger] channels[i].channel_id) >= 0,
    decreases channels.len(),
{
    if channels.len() > 0 {
        let d = channels.drop_last();
        let m = names_learned(map, d);
        lemma_names_learned(map, d);
        let c = channels.last();
        assert forall|k: i64| key_index(m, k) >= 0 implies #[trigger] key_index(names_learned(map, channels), k) >= 0 by {
            crate::keyed::lemma_key_index_push(m, (c.channel_id, c.channel_name), k);
        }
        assert forall|i: int| 0 <= i < channels.len() implies key_index(
            names_learned(map, channels),
            #[trigger] channels[i].channel_id,
        ) >= 0 by {
            crate::keyed::lemma_key_index_push(m, (c.channel_id, c.channel_name), channels[i].channel_id);
            if i < d.len() {
                assert(d[i] == channels[i]);
            }
        }
    }
}

/// Adds the names of unknown channels to `map`.
pub fn learn_names(map: &mut Vec<(i64, String)>, channels: &Vec<Channel>)
    ensures
        final(map)@ == names_learned(old(map)@, channels@),
{
    let mut i: usize = 0;
    while i < channels.len()
        invariant
            i <= channels.len(),
            map@ == names_learned(old(map)@, channels@.take(i as int)),
        decreases channels.len() - i,
    {
        proof {
            assert(channels@.take(i + 1).drop_last() =~= channels@.take(i as int));
        }
        let id = channels[i].channel_id;
        if find_key(map, id).is_none() {
            map.push((id, channels[i].channel_name.clone()));
        }
        i = i + 1;
    }
    proof {
        assert(channels@.take(channels.len() as int) =~= channels@);
    }
}

impl Overview {
    /// The overview of a guild before any data: the member count, joins and
    /// leaves shown on a daily chart with no buckets, no activity, channel or
    /// comparison data, zero summaries, both date ranges at their start, and no
    /// reload counted.
    pub open spec fn is_fresh(&self) -> bool {
        &&& self.show_count && self.show_joins && self.show_leaves && !self.show_full_chart
        &&& self.chart_type == ChartType::Daily
        &&& self.chart_labels@.len() == 0
        &&& self.count.is_fresh()
        &&& self.joins.is_fresh()
        &&& self.leaves.is_fresh()
        &&& self.activity_data@.len() == 0
        &&& self.channel_map@.len() == 0
        &&& self.data.is_fresh()
        &&& self.compare_data is None
        &&& self.compare_nav.nav_type == NavigationType::Day
        &&& self.compare_nav.handler == DateHandler::spec_default()
        &&& self.date_handler == DateHandler::spec_default()
        &&& self.max_content == 0
        &&& self.reload_count == 0
    }
}

impl Default for Overview {
    fn default() -> (r: Overview)
        ensures
            r.wf(),
            r.is_fresh(),
    {
        Overview {
            show_count: true,
            show_joins: true,
            show_leaves: true,
            show_full_chart: false,
            chart_type: ChartType::Daily,
            chart_labels: Vec::new(),
            count: MemberChartData::new(),
            joins: MemberChartData::new(),
            leaves: MemberChartData::new(),
            activity_data: Vec::new(),
            channel_map: Vec::new(),
            data: OverviewData::default(),
            compare_data: None,
            compare_nav: DateNavigator::default(),
            date_handler: DateHandler::default(),
            max_content: 0,
            reload_count: 0,
        }
    }
}

} // verus!
