//! Time buckets of the message and user charts: the sorted set of bucket times
//! that exist (gaps between data points are filled with empty buckets), and the
//! channels a chart counts.
use vstd::prelude::*;
use crate::calendar::{add_months, day_of_time, day_start, month_start, months_later, first_of_month, time_to_day, valid_time, SECONDS_PER_DAY, SECONDS_PER_HOUR, SECONDS_PER_WEEK};
use crate::guild_channel::Channel;
use crate::state::ChartType;
use crate::keyed::{ensure_sorted_key, key_index, lemma_key_index, sorted_insert_absent, sorted_keys};
use crate::overview_series::{missing_steps, time_of_day};

verus! {

/// Every bucket time is a time whose date chrono represents.
pub open spec fn bucket_keys_valid(s: Seq<(i64, ())>) -> bool {
    forall|i: int| 0 <= i < s.len() ==> valid_time(#[trigger] s[i].0 as int)
}

/// The buckets `last + step`, ..., `last + n step` added (when absent).
pub open spec fn buckets_filled(s: Seq<(i64, ())>, last: int, step: int, n: nat) -> Seq<(i64, ())>
    decreases n,
{
    if n == 0 {
        s
    } else {
        sorted_insert_absent(buckets_filled(s, last, step, (n - 1) as nat), (last + n * step) as i64, ())
    }
}

/// The buckets after filling the gap from the previous bucket (if any) to `cur`.
pub open spec fn buckets_gap_filled(s: Seq<(i64, ())>, last: Option<i64>, cur: i64, step: int) -> Seq<(i64, ())> {
    match last {
        None => s,
        Some(l) => buckets_filled(s, l as int, step, missing_steps(l as int, cur as int, step)),
    }
}

/// The start of the month after the one holding `ongoing` (a month later, on
/// day 1, same time of day); `None` when chrono cannot make it or it does not
/// move forward.
pub open spec fn next_calendar_month(ongoing: int) -> Option<int> {
    match months_later(day_of_time(ongoing) as i32, 1) {
        None => None,
        Some(x) => match first_of_month(x) {
            None => None,
            Some(f) => {
                let next = f * SECONDS_PER_DAY + time_of_day(ongoing);
                if next <= ongoing {
                    None
                } else {
                    Some(next)
                }
            },
        },
    }
}

/// The buckets after adding every month start after `ongoing` up to `target`.
pub open spec fn buckets_months_filled(s: Seq<(i64, ())>, ongoing: int, target: int) -> Seq<(i64, ())>
    decreases (if target > ongoing { target - ongoing } else { 0 }),
{
    if target > ongoing {
        match next_calendar_month(ongoing) {
            None => s,
            Some(next) => if next > ongoing {
                buckets_months_filled(sorted_insert_absent(s, next as i64, ()), next, target)
            } else {
                s
            },
        }
    } else {
        s
    }
}

pub proof fn lemma_insert_bucket(s: Seq<(i64, ())>, k: i64)
    requires
        sorted_keys(s),
        bucket_keys_valid(s),
        valid_time(k as int),
    ensures
        sorted_keys(sorted_insert_absent(s, k, ())),
        bucket_keys_valid(sorted_insert_absent(s, k, ())),
        key_index(sorted_insert_absent(s, k, ()), k) >= 0,
{
    lemma_key_index(s, k);
    let r = sorted_insert_absent(s, k, ());
    if key_index(s, k) < 0 {
        crate::keyed::lemma_insert_position(s, k);
        let p = crate::keyed::insert_position(s, k);
        assert forall|i: int| 0 <= i < r.len() implies valid_time(#[trigger] r[i].0 as int) by {
            if i < p {
                assert(r[i] == s[i]);
            } else if i > p {
                assert(r[i] == s[i - 1]);
            }
        }
        assert forall|i: int, j: int| 0 <= i < j < r.len() implies r[i].0 < r[j].0 by {
            if i < p && j > p {
                assert(r[j] == s[j - 1]);
            } else if i > p {
                assert(r[i] == s[i - 1]);
                assert(r[j] == s[j - 1]);
            } else if j < p {
            }
        }
        lemma_key_index(r, k);
        assert(r[p].0 == k);
    }
}

/// Adds the bucket `k` when absent.
pub fn add_bucket(keys: &mut Vec<(i64, ())>, k: i64)
    requires
        sorted_keys(old(keys)@),
        bucket_keys_valid(old(keys)@),
        valid_time(k as int),
    ensures
        final(keys)@ == sorted_insert_absent(old(keys)@, k, ()),
        sorted_keys(final(keys)@),
        bucket_keys_valid(final(keys)@),
{
    proof {
        lemma_insert_bucket(keys@, k);
    }
    ensure_sorted_key(keys, k, ());
}

/// Adds the buckets `last + step, ..., last + n step`.
pub fn fill_bucket_steps(keys: &mut Vec<(i64, ())>, last: i64, step: i64, n: i64)
    requires
        step > 0,
        n >= 0,
        sorted_keys(old(keys)@),
        bucket_keys_valid(old(keys)@),
        valid_time(last as int),
        valid_time(last + n * step),
    ensures
        final(keys)@ == buckets_filled(old(keys)@, last as int, step as int, n as nat),
        sorted_keys(final(keys)@),
        bucket_keys_valid(final(keys)@),
{
    let mut i: i64 = 0;
    let mut ongoing: i64 = last;
    while i < n
        invariant
            0 <= i <= n,
            step > 0,
            ongoing == last + i * step,
            valid_time(last as int),
            valid_time(last + n * step),
            keys@ == buckets_filled(old(keys)@, last as int, step as int, i as nat),
            sorted_keys(keys@),
            bucket_keys_valid(keys@),
        decreases n - i,
    {
        proof {
            vstd::arithmetic::mul::lemma_mul_inequality(i + 1, n as int, step as int);
            vstd::arithmetic::mul::lemma_mul_is_distributive_add_other_way(step as int, i as int, 1);
        }
        let to_add = ongoing + step;
        add_bucket(keys, to_add);
        ongoing = to_add;
        i = i + 1;
    }
}

/// Fills the bucket gap from `last` (if any) to `cur`.
pub fn fill_bucket_gap(keys: &mut Vec<(i64, ())>, last: Option<i64>, cur: i64, step: i64)
    requires
        step > 0,
        sorted_keys(old(keys)@),
        bucket_keys_valid(old(keys)@),
        last matches Some(l) ==> valid_time(l as int),
        valid_time(cur as int),
    ensures
        final(keys)@ == buckets_gap_filled(old(keys)@, last, cur, step as int),
        sorted_keys(final(keys)@),
        bucket_keys_valid(final(keys)@),
{
    if let Some(l) = last {
        let n: i64 = if cur > l { (cur - l) / step } else { 0 };
        proof {
            if cur > l {
                vstd::arithmetic::div_mod::lemma_fundamental_div_mod((cur - l) as int, step as int);
                vstd::arithmetic::mul::lemma_mul_nonnegative(n as int, step as int);
                vstd::arithmetic::div_mod::lemma_mod_bound((cur - l) as int, step as int);
                vstd::arithmetic::mul::lemma_mul_is_commutative(n as int, step as int);
            }
        }
        fill_bucket_steps(keys, l, step, n);
    }
}

/// Adds every month start after `ongoing` up to `target`.
pub fn fill_bucket_months(keys: &mut Vec<(i64, ())>, ongoing: i64, target: i64)
    requires
        sorted_keys(old(keys)@),
        bucket_keys_valid(old(keys)@),
        valid_time(ongoing as int),
        valid_time(target as int),
    ensures
        final(keys)@ == buckets_months_filled(old(keys)@, ongoing as int, target as int),
        sorted_keys(final(keys)@),
        bucket_keys_valid(final(keys)@),
    decreases (if target > ongoing { target - ongoing } else { 0 }),
{
    if target > ongoing {
        let day = time_to_day(ongoing);
        let later = match add_months(day, 1) {
            Some(x) => x,
            None => return,
        };
        let f = match month_start(later) {
            Some(f) => f,
            None => return,
        };
        let tod = ongoing - day_start(ongoing);
        let next = f as i64 * SECONDS_PER_DAY + tod;
        if next <= ongoing {
            return;
        }
        proof {
            assert(next_calendar_month(ongoing as int) == Some(next as int));
        }
        if next >= target {
            add_bucket(keys, next);
            assert(buckets_months_filled(keys@, next as int, target as int) == keys@);
            return;
        }
        add_bucket(keys, next);
        fill_bucket_months(keys, next, target);
    }
}

/// The channels a chart counts: all channels when none is selected or when the
/// "all channels" entry (index 0) is selected, else the channel before each
/// selected index.
pub open spec fn counted_channels(channels: Seq<Channel>, selected: Seq<usize>) -> Set<i64> {
    if selected.len() == 0 || selected.contains(0usize) {
        Set::new(|c: i64| exists|i: int| 0 <= i < channels.len() && channels[i].channel_id == c)
    } else {
        Set::new(|c: i64| exists|i: int| 0 <= i < selected.len() && channels[selected[i] - 1].channel_id == c)
    }
}

/// Every selected index names the "all channels" entry or a channel.
pub open spec fn selection_valid(channels: Seq<Channel>, selected: Seq<usize>) -> bool {
    forall|i: int| 0 <= i < selected.len() ==> selected[i] <= channels.len()
}

/// Lists the channels a chart counts (see [`counted_channels`]).
pub fn counted_channel_ids(channels: &Vec<Channel>, selected: &Vec<usize>) -> (r: Vec<i64>)
    requires
        selection_valid(channels@, selected@),
    ensures
        forall|c: i64| r@.contains(c) <==> counted_channels(channels@, selected@).contains(c),
{
    let mut all = selected.len() == 0;
    let mut k: usize = 0;
    while k < selected.len()
        invariant
            k <= selected.len(),
            all <==> (selected@.len() == 0 || selected@.take(k as int).contains(0usize)),
        decreases selected.len() - k,
    {
        proof {
            let t = selected@.take(k as int);
            let t1 = selected@.take(k + 1);
            assert(t1 =~= t.push(selected@[k as int]));
            if t1.contains(0usize) {
                let q = choose|q: int| 0 <= q < t1.len() && t1[q] == 0usize;
                if q < t.len() {
                    assert(t[q] == 0usize);
                }
            }
            if t.contains(0usize) {
                let q = choose|q: int| 0 <= q < t.len() && t[q] == 0usize;
                assert(t1[q] == 0usize);
            }
            if selected@[k as int] == 0 {
                assert(t1[k as int] == 0usize);
            }
        }
        if selected[k] == 0 {
            all = true;
        }
        k = k + 1;
    }
    proof {
        assert(selected@.take(selected.len() as int) =~= selected@);
    }
    let mut out: Vec<i64> = Vec::new();
    if all {
        let mut i: usize = 0;
        while i < channels.len()
            invariant
                i <= channels.len(),
                out@.len() == i,
                forall|j: int| 0 <= j < i ==> out@[j] == channels@[j].channel_id,
            decreases channels.len() - i,
        {
            out.push(channels[i].channel_id);
            i = i + 1;
        }
        proof {
            assert forall|c: i64| out@.contains(c) <==> counted_channels(channels@, selected@).contains(c) by {
                if out@.contains(c) {
                    let q = choose|q: int| 0 <= q < out@.len() && out@[q] == c;
                    assert(channels@[q].channel_id == c);
                }
                if counted_channels(channels@, selected@).contains(c) {
                    let j = choose|j: int| 0 <= j < channels@.len() && channels@[j].channel_id == c;
                    assert(out@[j] == c);
                }
            }
        }
    } else {
        let mut i: usize = 0;
        while i < selected.len()
            invariant
                i <= selected.len(),
                selection_valid(channels@, selected@),
                !selected@.contains(0usize),
                out@.len() == i,
                forall|j: int| 0 <= j < i ==> out@[j] == channels@[selected@[j] - 1].channel_id,
            decreases selected.len() - i,
        {
            assert(selected@[i as int] != 0);
            let id = channels[selected[i] - 1].channel_id;
            out.push(id);
            i = i + 1;
        }
        proof {
            assert forall|c: i64| out@.contains(c) <==> counted_channels(channels@, selected@).contains(c) by {
                if out@.contains(c) {
                    let q = choose|q: int| 0 <= q < out@.len() && out@[q] == c;
                    assert(channels@[selected@[q] - 1].channel_id == c);
                }
                if counted_channels(channels@, selected@).contains(c) {
                    let j = choose|j: int| 0 <= j < selected@.len() && channels@[selected@[j] - 1].channel_id == c;
                    assert(out@[j] == c);
                }
            }
        }
    }
    out
}

/// Whether `c` is in the list.
pub fn list_contains(list: &Vec<i64>, c: i64) -> (r: bool)
    ensures
        r == list@.contains(c),
{
    let mut i: usize = 0;
    while i < list.len()
        invariant
            i <= list.len(),
            forall|j: int| 0 <= j < i ==> list@[j] != c,
        decreases list.len() - i,
    {
        if list[i] == c {
            return true;
        }
        i = i + 1;
    }
    false
}

/// The buckets after recording a data point at `t`: the gap from `last` filled,
/// then `t` itself.
pub open spec fn bucket_recorded(s: Seq<(i64, ())>, last: Option<i64>, t: i64, step: int) -> Seq<(i64, ())> {
    sorted_insert_absent(buckets_gap_filled(s, last, t, step), t, ())
}

/// The month buckets after recording a data point at the month start `t`.
pub open spec fn month_recorded(s: Seq<(i64, ())>, last: Option<i64>, t: i64) -> Seq<(i64, ())> {
    let filled = match last {
        None => s,
        Some(l) => buckets_months_filled(s, l as int, t as int),
    };
    sorted_insert_absent(filled, t, ())
}

/// The bucket times of a chart, one sorted set per chart type, with the last
/// bucket that received data in each.
pub struct BucketSets {
    pub hourly: Vec<(i64, ())>,
    pub daily: Vec<(i64, ())>,
    pub weekly: Vec<(i64, ())>,
    pub monthly: Vec<(i64, ())>,
    pub last_hour: Option<i64>,
    pub last_day: Option<i64>,
    pub last_week: Option<i64>,
    pub last_month: Option<i64>,
}

/// A sorted set of valid bucket times.
pub open spec fn keys_wf(s: Seq<(i64, ())>) -> bool {
    sorted_keys(s) && bucket_keys_valid(s)
}

/// The last bucket, when there is one, is a valid time.
pub open spec fn last_wf(l: Option<i64>) -> bool {
    l matches Some(t) ==> valid_time(t as int)
}

impl BucketSets {
    pub open spec fn wf(&self) -> bool {
        &&& keys_wf(self.hourly@)
        &&& keys_wf(self.daily@)
        &&& keys_wf(self.weekly@)
        &&& keys_wf(self.monthly@)
        &&& last_wf(self.last_hour)
        &&& last_wf(self.last_day)
        &&& last_wf(self.last_week)
        &&& last_wf(self.last_month)
    }

    /// No bucket time is kept and no last bucket is recorded.
    pub open spec fn is_fresh(&self) -> bool {
        &&& self.hourly@.len() == 0
        &&& self.daily@.len() == 0
        &&& self.weekly@.len() == 0
        &&& self.monthly@.len() == 0
        &&& self.last_hour is None
        &&& self.last_day is None
        &&& self.last_week is None
        &&& self.last_month is None
    }

    pub fn new() -> (r: BucketSets)
        ensures
            r.wf(),
            r.is_fresh(),
    {
        BucketSets {
            hourly: Vec::new(),
            daily: Vec::new(),
            weekly: Vec::new(),
            monthly: Vec::new(),
            last_hour: None,
            last_day: None,
            last_week: None,
            last_month: None,
        }
    }

    /// The bucket times of one chart type.
    pub open spec fn keys_for(&self, chart: ChartType) -> Seq<(i64, ())> {
        match chart {
            ChartType::Hourly => self.hourly@,
            ChartType::Daily => self.daily@,
            ChartType::Weekly => self.weekly@,
            ChartType::Monthly => self.monthly@,
        }
    }

    /// The bucket times of one chart type.
    pub fn select(&self, chart: ChartType) -> (r: &Vec<(i64, ())>)
        ensures
            r@ == self.keys_for(chart),
    {
        match chart {
            ChartType::Hourly => &self.hourly,
            ChartType::Daily => &self.daily,
            ChartType::Weekly => &self.weekly,
            ChartType::Monthly => &self.monthly,
        }
    }

    /// Records a data point whose hour, day, week and month buckets are `times`:
    /// fills each series' gap from its last bucket, adds the bucket and makes it
    /// the last one.
    pub fn record(&mut self, times: (i64, i64, i64, i64))
        requires
            old(self).wf(),
            valid_time(times.0 as int),
            valid_time(times.1 as int),
            valid_time(times.2 as int),
            valid_time(times.3 as int),
        ensures
            final(self).wf(),
            final(self).hourly@ == bucket_recorded(old(self).hourly@, old(self).last_hour, times.0, SECONDS_PER_HOUR as int),
            final(self).daily@ == bucket_recorded(old(self).daily@, old(self).last_day, times.1, SECONDS_PER_DAY as int),
            final(self).weekly@ == bucket_recorded(old(self).weekly@, old(self).last_week, times.2, SECONDS_PER_WEEK as int),
            final(self).monthly@ == month_recorded(old(self).monthly@, old(self).last_month, times.3),
            final(self).last_hour == Some(times.0),
            final(self).last_day == Some(times.1),
            final(self).last_week == Some(times.2),
            final(self).last_month == Some(times.3),
    {
        fill_bucket_gap(&mut self.hourly, self.last_hour, times.0, SECONDS_PER_HOUR);
        add_bucket(&mut self.hourly, times.0);
        self.last_hour = Some(times.0);
        fill_bucket_gap(&mut self.daily, self.last_day, times.1, SECONDS_PER_DAY);
        add_bucket(&mut self.daily, times.1);
        self.last_day = Some(times.1);
        fill_bucket_gap(&mut self.weekly, self.last_week, times.2, SECONDS_PER_WEEK);
        add_bucket(&mut self.weekly, times.2);
        self.last_week = Some(times.2);
        if let Some(l) = self.last_month {
            fill_bucket_months(&mut self.monthly, l, times.3);
        }
        add_bucket(&mut self.monthly, times.3);
        self.last_month = Some(times.3);
    }
}

} // verus!
