//! Properties that hold across the library's operations.
use vstd::prelude::*;
use crate::aggregate::{name_index, lemma_name_index, sums_by_name, total_of, wadd};
use crate::overview::{deleted_in_range, items_in_range, ActView};
use crate::chart_buckets::{counted_channels, selection_valid};
use crate::guild_channel::Channel;
use crate::calendar::{day_floor, day_of_time, first_of_month, hour_floor, local_convertible, local_near, monday_of, valid_day, MAX_DAY, MIN_DAY, SECONDS_PER_DAY};
use crate::message_chart::MessageChart;
use crate::overview::{usable_time, Overview};
use crate::tab_handler::{message_chart_took, overview_took_count};
use crate::channel_table::{channel_order, channel_rows, lemma_row_index, row_index, ChannelRowView};
use crate::date_handler::DateHandler;
use crate::date_navigator::DateNavigator;
use crate::message_chart::{lemma_open_point_index, open_point_index, point_recorded, points_view, PointView};
use crate::overview::published_once;
use crate::panels::channel_toggled;
use crate::state::{AppEvent, ChannelColumn, ChartType, NavigationType, TabState, UserColumn, WordColumn};
use crate::tab_handler::{distinct_reloads, runs_now, still_waiting, PendingReload, ReloadTab};
use crate::table_order::RowOrder;
use crate::user_chart::{count_at, sighting_recorded, Sighting, UserChart};
use crate::user_table::{lemma_user_row_index, user_order, user_row_index, user_rows, UserRowView};
use crate::word_table::{joined, stripped_windows, trimmed, window_phrase, windows_upto, word_order};
use crate::member_data::{MemberActivity, MemberCount};
use crate::message_user::MessageWithUser;
use crate::request::Request;
use crate::response::PAGE_VALUE;
use crate::state::AppStatus;
use crate::window::{selected_status, MainWindow};

verus! {

/// Publishing an event only when it is not queued keeps the queue free of
/// repeats, and the event is queued afterwards.
pub proof fn law_publish_if_needed_no_repeats(bus: Seq<AppEvent>, e: AppEvent)
    requires
        bus.no_duplicates(),
    ensures
        published_once(bus, e).no_duplicates(),
        published_once(bus, e).contains(e),
{
    if !bus.contains(e) {
        let b = bus.push(e);
        assert(b[bus.len() as int] == e);
        assert forall|i: int, j: int| 0 <= i < j < b.len() implies b[i] != b[j] by {
            if j == bus.len() {
                assert(b[i] == bus[i]);
                assert(bus.contains(bus[i]));
            } else {
                assert(b[i] == bus[i] && b[j] == bus[j]);
            }
        }
    }
}

/// The event queue is first in, first out: publishing at the back leaves the
/// front event in place, and on an empty queue the published event is next.
pub proof fn law_event_queue_fifo(bus: Seq<AppEvent>, e: AppEvent)
    ensures
        bus.push(e)[0] == if bus.len() == 0 { e } else { bus[0] },
        bus.push(e).drop_first() == if bus.len() == 0 { Seq::<AppEvent>::empty() } else { bus.drop_first().push(e) },
{
    if bus.len() > 0 {
        assert(bus.push(e).drop_first() =~= bus.drop_first().push(e));
    } else {
        assert(bus.push(e).drop_first() =~= Seq::<AppEvent>::empty());
    }
}

/// The waiting reloads after adding one (see `TabHandler::add_reload`).
pub open spec fn reload_added(s: Seq<PendingReload>, guild_id: i64, t: ReloadTab) -> Seq<PendingReload> {
    if exists|i: int| 0 <= i < s.len() && (#[trigger] s[i]).reload_type == t {
        s
    } else {
        s.push(PendingReload { guild_id, reload_type: t })
    }
}

/// A tab's reload waits at most once: adding reloads keeps their tabs distinct,
/// and the tab asked for has a waiting reload afterwards.
pub proof fn law_reload_queued_once(s: Seq<PendingReload>, guild_id: i64, t: ReloadTab)
    requires
        distinct_reloads(s),
    ensures
        distinct_reloads(reload_added(s, guild_id, t)),
        exists|i: int| 0 <= i < reload_added(s, guild_id, t).len() && (#[trigger] reload_added(s, guild_id, t)[i]).reload_type == t,
{
    let r = reload_added(s, guild_id, t);
    if !(exists|i: int| 0 <= i < s.len() && (#[trigger] s[i]).reload_type == t) {
        assert(r[s.len() as int].reload_type == t);
        assert forall|i: int, j: int| 0 <= i < j < r.len() implies r[i].reload_type != r[j].reload_type by {
            if j == s.len() {
                assert(r[i] == s[i]);
            } else {
                assert(r[i] == s[i] && r[j] == s[j]);
            }
        }
    }
}

/// Reloads of tabs that are not shown keep waiting and the shown tab's reloads
/// of the current guild stop waiting, order kept.
pub proof fn law_unshown_reloads_wait(s: Seq<PendingReload>, cur: i64, state: TabState)
    ensures
        forall|p: PendingReload| #[trigger] still_waiting(s, cur, state).contains(p) <==> (s.contains(p) && !runs_now(p, cur, state)),
    decreases s.len(),
{
    if s.len() > 0 {
        let t = s.drop_last();
        law_unshown_reloads_wait(t, cur, state);
        let r = still_waiting(t, cur, state);
        assert forall|p: PendingReload| #[trigger] still_waiting(s, cur, state).contains(p) <==> (s.contains(p) && !runs_now(p, cur, state)) by {
            assert(s =~= t.push(s.last()));
            if s.contains(p) {
                let q = choose|q: int| 0 <= q < s.len() && s[q] == p;
                if q < t.len() {
                    assert(t[q] == p);
                }
            }
            if t.contains(p) {
                let q = choose|q: int| 0 <= q < t.len() && t[q] == p;
                assert(s[q] == p);
            }
            if !runs_now(s.last(), cur, state) {
                let w = r.push(s.last());
                if w.contains(p) {
                    let q = choose|q: int| 0 <= q < w.len() && w[q] == p;
                    if q < r.len() {
                        assert(r[q] == p);
                    }
                }
                if r.contains(p) {
                    let q = choose|q: int| 0 <= q < r.len() && r[q] == p;
                    assert(w[q] == p);
                }
                if p == s.last() {
                    assert(w[r.len() as int] == p);
                }
            }
        }
    }
}

/// Seeing data on a day widens the data span to hold it: afterwards the span
/// is known and runs from its oldest to its newest day, that day included.
pub proof fn law_update_dates_covers(h: DateHandler, d: i32)
    requires
        h.start is Some <==> h.end is Some,
        h.start matches Some(s) ==> s <= h.end->0,
    ensures
        ({
            let n = h.spec_update_dates(d).0;
            &&& n.start matches Some(s) && s <= d
            &&& n.end matches Some(e) && d <= e
        }),
{
}

/// Acknowledging an edit of the dates leaves From no later than To.
pub proof fn law_date_change_keeps_order(h: DateHandler)
    ensures
        h.spec_check_date_change().1 ==> h.spec_check_date_change().0.from <= h.spec_check_date_change().0.to,
{
}

/// Resetting the dates selects the whole data span.
pub proof fn law_reset_selects_span(h: DateHandler, d: i32)
    requires
        h.start matches Some(s) && s <= d,
        h.end matches Some(e) && d <= e,
    ensures
        h.spec_reset_dates().spec_within_range(d as int),
{
}

/// A day forward, then a day back, returns to the same day (when both days
/// can be represented).
pub proof fn law_day_forward_back(n: DateNavigator)
    requires
        n.nav_type == NavigationType::Day,
        n.handler.from == n.handler.to,
        valid_day(n.handler.to as int),
        n.handler.to < MAX_DAY,
    ensures
        n.spec_next() matches Some(r) && (DateNavigator {
            handler: DateHandler { from: r.0, to: r.1, ..n.handler },
            ..n
        }).spec_previous() == Some((n.handler.from, n.handler.to)),
{
}

/// A week forward, then a week back, returns to the same week (when both
/// weeks can be represented).
pub proof fn law_week_forward_back(n: DateNavigator)
    requires
        n.nav_type == NavigationType::Week,
        n.handler.from == n.handler.to - 6,
        valid_day(n.handler.from as int),
        n.handler.to + 6 <= MAX_DAY,
    ensures
        n.spec_next() matches Some(r) && (DateNavigator {
            handler: DateHandler { from: r.0, to: r.1, ..n.handler },
            ..n
        }).spec_previous() == Some((n.handler.from, n.handler.to)),
{
}

/// "All Channels" and single channels are never selected together: once a
/// click leaves "All Channels" selected, nothing else is.
pub proof fn law_all_channels_alone(s: Set<usize>, index: usize)
    ensures
        channel_toggled(s, index).contains(0) ==> channel_toggled(s, index) == Set::empty().insert(0usize),
{
    let r = channel_toggled(s, index);
    if r.contains(0) {
        assert(index == 0);
        assert(r =~= Set::empty().insert(0usize));
    }
}

/// The order of two rows swaps when the rows swap (so the tables sort
/// consistently), in every column of the channel table.
pub proof fn law_channel_order_swaps(col: ChannelColumn, a: ChannelRowView, b: ChannelRowView)
    ensures
        channel_order(col, a, b) == RowOrder::Less <==> channel_order(col, b, a) == RowOrder::Greater,
        channel_order(col, a, b) == RowOrder::Equal <==> channel_order(col, b, a) == RowOrder::Equal,
{
    crate::named::lemma_name_lt_order(a.0, b.0);
}

/// The same for the user table.
pub proof fn law_user_order_swaps(col: UserColumn, a: UserRowView, b: UserRowView)
    ensures
        user_order(col, a, b) == RowOrder::Less <==> user_order(col, b, a) == RowOrder::Greater,
        user_order(col, a, b) == RowOrder::Equal <==> user_order(col, b, a) == RowOrder::Equal,
{
    crate::named::lemma_name_lt_order(a.0.0, b.0.0);
    crate::named::lemma_name_lt_order(a.0.1, b.0.1);
}

/// The same for the common words table.
pub proof fn law_word_order_swaps(col: WordColumn, a: (Seq<char>, u32), b: (Seq<char>, u32))
    ensures
        word_order(col, a, b) == RowOrder::Less <==> word_order(col, b, a) == RowOrder::Greater,
        word_order(col, a, b) == RowOrder::Equal <==> word_order(col, b, a) == RowOrder::Equal,
{
    crate::named::lemma_name_lt_order(a.0, b.0);
}

/// A user seen again in the same channel and bucket is counted once: the
/// sightings stay free of repeats.
pub proof fn law_sightings_distinct(s: Seq<Sighting>, bucket: i64, channel: i64, user: i64)
    requires
        s.no_duplicates(),
    ensures
        sighting_recorded(s, bucket, channel, user).no_duplicates(),
        sighting_recorded(s, bucket, channel, user).contains((bucket, channel, user)),
{
    let e = (bucket, channel, user);
    if !s.contains(e) {
        let b = s.push(e);
        assert(b[s.len() as int] == e);
        assert forall|i: int, j: int| 0 <= i < j < b.len() implies b[i] != b[j] by {
            if j == s.len() {
                assert(b[i] == s[i]);
                assert(s.contains(s[i]));
            } else {
                assert(b[i] == s[i] && b[j] == s[j]);
            }
        }
    }
}

/// The messages a list of chart points counts.
pub open spec fn points_total(s: Seq<PointView>) -> int
    decreases s.len(),
{
    if s.len() == 0 {
        0
    } else {
        points_total(s.drop_last()) + s.last().3
    }
}

proof fn lemma_points_total_update(s: Seq<PointView>, i: int, p: PointView)
    requires
        0 <= i < s.len(),
    ensures
        points_total(s.update(i, p)) == points_total(s) - s[i].3 + p.3,
    decreases s.len(),
{
    if i < s.len() - 1 {
        lemma_points_total_update(s.drop_last(), i, p);
        assert(s.update(i, p).drop_last() =~= s.drop_last().update(i, p));
    } else {
        assert(s.update(i, p).drop_last() =~= s.drop_last());
    }
}

/// Every message a chart handles is counted exactly once (unless the count
/// of its point is already the largest a `u32` holds).
pub proof fn law_message_counted_once(s: Seq<PointView>, bucket: i64, channel: i64, user: Seq<char>, deleted: bool)
    requires
        !deleted && open_point_index(s, bucket, channel, user) >= 0 ==> s[open_point_index(s, bucket, channel, user)].3 < u32::MAX,
    ensures
        points_total(point_recorded(s, bucket, channel, user, deleted)) == points_total(s) + 1,
{
    lemma_open_point_index(s, bucket, channel, user);
    if deleted {
        assert(s.push((bucket, channel, user, 1u32, true)).drop_last() =~= s);
    } else {
        let i = open_point_index(s, bucket, channel, user);
        if i >= 0 {
            lemma_points_total_update(s, i, (bucket, channel, user, wadd(s[i].3, 1), false));
        } else {
            assert(s.push((bucket, channel, user, 1u32, false)).drop_last() =~= s);
        }
    }
}

proof fn lemma_windows_upto_len(words: Seq<Seq<char>>, size: nat, n: nat)
    ensures
        windows_upto(words, size, n).len() <= n,
    decreases n,
{
    if n > 0 {
        lemma_windows_upto_len(words, size, (n - 1) as nat);
    }
}

/// A message of `n` words gives at most `n - size + 1` phrases of `size` words.
pub proof fn law_phrases_per_message(words: Seq<Seq<char>>, size: nat)
    ensures
        words.len() >= size ==> stripped_windows(words, size).len() <= words.len() - size + 1,
        words.len() < size ==> stripped_windows(words, size).len() == 0,
{
    if words.len() >= size {
        lemma_windows_upto_len(words, size, (words.len() - size + 1) as nat);
    }
}

} // verus!

verus! {

/// No two rows share an id.
pub open spec fn distinct_channel_ids(s: Seq<ChannelRowView>) -> bool {
    forall|i: int, j: int| 0 <= i < j < s.len() ==> s[i].1 != s[j].1
}

/// The channel table has one row per channel.
pub proof fn law_one_row_per_channel(s: Seq<(i32, ChannelRowView)>, h: DateHandler)
    ensures
        distinct_channel_ids(channel_rows(s, h)),
    decreases s.len(),
{
    if s.len() > 0 {
        law_one_row_per_channel(s.drop_last(), h);
        let acc = channel_rows(s.drop_last(), h);
        let (d, r) = s.last();
        if h.spec_within_range(d as int) {
            lemma_row_index(acc, r.1);
            let k = row_index(acc, r.1);
            let out = channel_rows(s, h);
            if k >= 0 {
                assert forall|i: int, j: int| 0 <= i < j < out.len() implies out[i].1 != out[j].1 by {
                    assert(out[i].1 == acc[i].1 && out[j].1 == acc[j].1);
                }
            } else {
                assert forall|i: int, j: int| 0 <= i < j < out.len() implies out[i].1 != out[j].1 by {
                    if j == acc.len() {
                        assert(out[i] == acc[i]);
                    } else {
                        assert(out[i] == acc[i] && out[j] == acc[j]);
                    }
                }
            }
        }
    }
}

/// No two rows share a user id.
pub open spec fn distinct_user_ids(s: Seq<UserRowView>) -> bool {
    forall|i: int, j: int| 0 <= i < j < s.len() ==> s[i].0.2 != s[j].0.2
}

/// The user table has one row per user.
pub proof fn law_one_row_per_user(s: Seq<(i32, UserRowView)>, h: DateHandler)
    ensures
        distinct_user_ids(user_rows(s, h)),
    decreases s.len(),
{
    if s.len() > 0 {
        law_one_row_per_user(s.drop_last(), h);
        let acc = user_rows(s.drop_last(), h);
        let (d, r) = s.last();
        if h.spec_within_range(d as int) {
            lemma_user_row_index(acc, r.0.2);
            let k = user_row_index(acc, r.0.2);
            let out = user_rows(s, h);
            if k >= 0 {
                assert forall|i: int, j: int| 0 <= i < j < out.len() implies out[i].0.2 != out[j].0.2 by {
                    assert(out[i].0.2 == acc[i].0.2 && out[j].0.2 == acc[j].0.2);
                }
            } else {
                assert forall|i: int, j: int| 0 <= i < j < out.len() implies out[i].0.2 != out[j].0.2 by {
                    if j == acc.len() {
                        assert(out[i] == acc[i]);
                    } else {
                        assert(out[i] == acc[i] && out[j] == acc[j]);
                    }
                }
            }
        }
    }
}

/// The common words table lists each phrase once.
pub proof fn law_one_row_per_phrase(items: Seq<(Seq<char>, u32)>)
    ensures
        forall|i: int, j: int| 0 <= i < j < sums_by_name(items).len() ==> sums_by_name(items)[i].0 != sums_by_name(items)[j].0,
    decreases items.len(),
{
    if items.len() > 0 {
        law_one_row_per_phrase(items.drop_last());
        let acc = sums_by_name(items.drop_last());
        let (k, v) = items.last();
        lemma_name_index(acc, k);
        let out = sums_by_name(items);
        if name_index(acc, k) >= 0 {
            assert forall|i: int, j: int| 0 <= i < j < out.len() implies out[i].0 != out[j].0 by {
                assert(out[i].0 == acc[i].0 && out[j].0 == acc[j].0);
            }
        } else {
            assert forall|i: int, j: int| 0 <= i < j < out.len() implies out[i].0 != out[j].0 by {
                if j == acc.len() {
                    assert(out[i] == acc[i]);
                } else {
                    assert(out[i] == acc[i] && out[j] == acc[j]);
                }
            }
        }
    }
}

} // verus!

verus! {

/// The bucket `j` steps after `last`.
pub open spec fn step_key(last: int, j: int, step: int) -> i64 {
    (last + j * step) as i64
}

proof fn lemma_insert_keeps(s: Seq<(i64, ())>, k: i64, x: i64)
    requires
        crate::keyed::sorted_keys(s),
        crate::keyed::key_index(s, x) >= 0,
    ensures
        crate::keyed::key_index(crate::keyed::sorted_insert_absent(s, k, ()), x) >= 0,
{
    let r = crate::keyed::sorted_insert_absent(s, k, ());
    crate::keyed::lemma_key_index(s, x);
    crate::keyed::lemma_key_index(r, x);
    if crate::keyed::key_index(s, k) < 0 {
        crate::keyed::lemma_insert_position(s, k);
        let p = crate::keyed::insert_position(s, k);
        let q = crate::keyed::key_index(s, x);
        assert(r == s.insert(p, (k, ())));
        if q < p {
            assert(r[q] == s[q]);
            assert(r[q].0 == x);
        } else {
            assert(r[q + 1] == s[q]);
            assert(r[q + 1].0 == x);
        }
    }
}

proof fn lemma_filled(s: Seq<(i64, ())>, last: int, step: int, n: nat)
    requires
        crate::chart_buckets::keys_wf(s),
        step > 0,
        crate::calendar::valid_time(last),
        crate::calendar::valid_time(last + n * step),
    ensures
        crate::chart_buckets::keys_wf(crate::chart_buckets::buckets_filled(s, last, step, n)),
        forall|j: int| 1 <= j <= n ==> crate::keyed::key_index(
            crate::chart_buckets::buckets_filled(s, last, step, n),
            #[trigger] step_key(last as int, j, step),
        ) >= 0,
        forall|x: i64| crate::keyed::key_index(s, x) >= 0 ==> crate::keyed::key_index(
            crate::chart_buckets::buckets_filled(s, last, step, n),
            x,
        ) >= 0,
    decreases n,
{
    if n > 0 {
        vstd::arithmetic::mul::lemma_mul_inequality((n - 1) as int, n as int, step);
        vstd::arithmetic::mul::lemma_mul_nonnegative((n - 1) as int, step);
        lemma_filled(s, last, step, (n - 1) as nat);
        let prev = crate::chart_buckets::buckets_filled(s, last, step, (n - 1) as nat);
        let k = (last + n * step) as i64;
        crate::chart_buckets::lemma_insert_bucket(prev, k);
        assert forall|j: int| 1 <= j <= n implies crate::keyed::key_index(
            crate::chart_buckets::buckets_filled(s, last, step, n),
            #[trigger] step_key(last as int, j, step),
        ) >= 0 by {
            if j < n {
                lemma_insert_keeps(prev, k, step_key(last as int, j, step));
            }
        }
        assert forall|x: i64| crate::keyed::key_index(s, x) >= 0 implies crate::keyed::key_index(
            crate::chart_buckets::buckets_filled(s, last, step, n),
            x,
        ) >= 0 by {
            lemma_insert_keeps(prev, k, x);
        }
    }
}

/// Recording a data point leaves no gap: the buckets stay sorted and keep
/// every bucket they had, and hold the new point's bucket and every step
/// between the previous point's bucket and it.
pub proof fn law_no_gap_between_points(s: Seq<(i64, ())>, last: i64, t: i64, step: int)
    requires
        crate::chart_buckets::keys_wf(s),
        step > 0,
        crate::calendar::valid_time(last as int),
        crate::calendar::valid_time(t as int),
    ensures
        ({
            let r = crate::chart_buckets::bucket_recorded(s, Some(last), t, step);
            &&& crate::chart_buckets::keys_wf(r)
            &&& crate::keyed::key_index(r, t) >= 0
            &&& forall|j: int| 1 <= j <= crate::overview_series::missing_steps(last as int, t as int, step)
                ==> crate::keyed::key_index(r, #[trigger] step_key(last as int, j, step)) >= 0
            &&& forall|x: i64| crate::keyed::key_index(s, x) >= 0 ==> crate::keyed::key_index(r, x) >= 0
        }),
{
    let n = crate::overview_series::missing_steps(last as int, t as int, step);
    if t > last {
        vstd::arithmetic::div_mod::lemma_fundamental_div_mod((t - last) as int, step);
        vstd::arithmetic::div_mod::lemma_mod_bound((t - last) as int, step);
        vstd::arithmetic::mul::lemma_mul_is_commutative(n as int, step);
        vstd::arithmetic::mul::lemma_mul_nonnegative(n as int, step);
    }
    lemma_filled(s, last as int, step, n);
    let f = crate::chart_buckets::buckets_filled(s, last as int, step, n);
    crate::chart_buckets::lemma_insert_bucket(f, t);
    assert forall|j: int| 1 <= j <= n implies crate::keyed::key_index(
        crate::chart_buckets::bucket_recorded(s, Some(last), t, step),
        #[trigger] step_key(last as int, j, step),
    ) >= 0 by {
        lemma_insert_keeps(f, t, step_key(last as int, j, step));
    }
    assert forall|x: i64| crate::keyed::key_index(s, x) >= 0 implies crate::keyed::key_index(
        crate::chart_buckets::bucket_recorded(s, Some(last), t, step),
        x,
    ) >= 0 by {
        lemma_insert_keeps(f, t, x);
    }
}

} // verus!

verus! {

/// A guild's data is fetched exactly when its messages, member counts and
/// member activities all are.
pub proof fn law_all_fetched(s: crate::fetch_status::FetchStatus)
    ensures
        s.spec_all_done() <==> (s.messages && s.counts && s.activities),
{
}

/// The averages of a user row never exceed the totals they come from.
pub proof fn law_average_at_most_total(r: UserRowView, t: i64, words: u32, chars: u32)
    requires
        r.1.0 < u32::MAX,
    ensures
        ({
            let n = crate::user_table::message_counted(r, t, words, chars);
            &&& n.1.0 >= 1
            &&& n.1.3 <= n.1.1
            &&& n.1.4 <= n.1.2
            &&& n.2.0 <= t <= n.2.1
        }),
{
    let n = crate::user_table::message_counted(r, t, words, chars);
    let tm = n.1.0;
    assert(tm >= 1);
    vstd::arithmetic::div_mod::lemma_div_is_ordered_by_denominator(n.1.1 as int, 1, tm as int);
    vstd::arithmetic::div_mod::lemma_div_is_ordered_by_denominator(n.1.2 as int, 1, tm as int);
}

/// The words of a split text are never empty and hold no space.
pub proof fn law_split_words_clean(s: Seq<char>)
    ensures
        forall|i: int| 0 <= i < crate::word_table::space_split(s).len() ==> #[trigger] crate::word_table::space_split(s)[i].len() > 0
            && !crate::word_table::space_split(s)[i].contains(' '),
    decreases s.len(),
{
    if s.len() > 0 {
        law_split_words_clean(s.drop_last());
        let r = crate::word_table::space_split(s.drop_last());
        let c = s.last();
        let out = crate::word_table::space_split(s);
        if c != ' ' {
            if s.len() >= 2 && s[s.len() - 2] != ' ' {
                crate::word_table::lemma_space_split_last(s.drop_last());
                assert forall|i: int| 0 <= i < out.len() implies #[trigger] out[i].len() > 0 && !out[i].contains(' ') by {
                    if i == r.len() - 1 {
                        assert(out[i] == r[i].push(c));
                        if out[i].contains(' ') {
                            let q = choose|q: int| 0 <= q < out[i].len() && out[i][q] == ' ';
                            assert(q < r[i].len());
                            assert(r[i][q] == ' ');
                        }
                    } else {
                        assert(out[i] == r[i]);
                    }
                }
            } else {
                assert forall|i: int| 0 <= i < out.len() implies #[trigger] out[i].len() > 0 && !out[i].contains(' ') by {
                    if i == r.len() {
                        assert(out[i] == seq![c]);
                        assert(out[i][0] != ' ');
                    } else {
                        assert(out[i] == r[i]);
                    }
                }
            }
        }
    }
}

/// A step forward by a day or a week never moves the range back, and a step
/// backward never moves it forward.
pub proof fn law_steps_move_one_way(n: DateNavigator)
    requires
        n.nav_type == NavigationType::Day || n.nav_type == NavigationType::Week,
        n.handler.from <= n.handler.to,
    ensures
        n.spec_next() matches Some(r) ==> r.0 <= r.1 && n.handler.to <= r.1,
        n.spec_previous() matches Some(r) ==> r.0 <= r.1 && r.0 <= n.handler.from,
{
}

/// The decimal text of a number is made of digits only (after a minus sign
/// for a negative number), and never empty.
pub proof fn law_decimal_digits(n: nat)
    ensures
        crate::text::digits_of(n).len() > 0,
        forall|i: int| 0 <= i < crate::text::digits_of(n).len() ==> '0' <= #[trigger] crate::text::digits_of(n)[i] <= '9',
    decreases n,
{
    if n >= 10 {
        law_decimal_digits(n / 10);
        let r = crate::text::digits_of(n / 10);
        assert forall|i: int| 0 <= i < crate::text::digits_of(n).len() implies '0' <= #[trigger] crate::text::digits_of(n)[i] <= '9' by {
            if i < r.len() {
                assert(crate::text::digits_of(n)[i] == r[i]);
            }
        }
    }
}

} // verus!

verus! {

/// Once the last (not full) pages of messages, member counts and member
/// activities of a guild have come in while a guild stays selected, the
/// selected guild has all its data and the status is idle.
pub proof fn law_last_pages_finish_fetching(
    w0: MainWindow,
    w1: MainWindow,
    w2: MainWindow,
    w3: MainWindow,
    g: i64,
    pages: (u64, u64, u64),
    messages: Seq<MessageWithUser>,
    counts: Seq<MemberCount>,
    activities: Seq<MemberActivity>,
)
    requires
        w0.ready(),
        w1.ready(),
        w2.ready(),
        messages.len() < PAGE_VALUE,
        0 < counts.len() < PAGE_VALUE,
        activities.len() < PAGE_VALUE,
        MainWindow::messages_page_handled(w0, w1, g, messages, pages.0),
        MainWindow::counts_page_handled(w1, w2, g, counts, pages.1),
        MainWindow::activities_page_handled(w2, w3, g, activities, pages.2),
    ensures
        selected_status(w3.panels).messages,
        selected_status(w3.panels).counts,
        selected_status(w3.panels).activities,
        w3.panels.app_status == AppStatus::Idle,
{
}

/// A full page of messages asks the server for the page after it, and
/// nothing else is sent.
pub proof fn law_full_page_asks_next(w0: MainWindow, w1: MainWindow, g: i64, messages: Seq<MessageWithUser>, page: u64)
    requires
        w0.ready(),
        w0.ws_open,
        messages.len() == PAGE_VALUE,
        MainWindow::messages_page_handled(w0, w1, g, messages, page),
    ensures
        w1.outbox@ == w0.outbox@.push(
            Request::GetMessages { guild_id: g, page: vstd::wrapping::u64_specs::wrapping_add(page, 1) },
        ),
        selected_status(w1.panels).messages == selected_status(w0.panels).messages,
        selected_status(w1.panels).messages_page == page,
{
}

/// A timestamp at least a week after chrono's first date, and a day before
/// its last, shows in every time zone as a local time whose week can be
/// represented.
pub proof fn law_week_inside_is_usable(ts: i64, l: i64)
    requires
        (MIN_DAY + 6) * SECONDS_PER_DAY <= ts < MAX_DAY * SECONDS_PER_DAY,
        local_near(ts, l),
    ensures
        local_convertible(ts as int),
        usable_time(l as int),
{
    let d = day_of_time(l as int);
    assert(MIN_DAY + 5 <= d <= MAX_DAY);
    assert(monday_of(d) >= MIN_DAY + 5);
}

/// Such a message is always counted by the message chart: some local time
/// less than a day from its event timestamp is the one it was counted at.
pub proof fn law_message_chart_counts(o: MessageChart, n: MessageChart, m: MessageWithUser, b0: Seq<AppEvent>, b1: Seq<AppEvent>)
    requires
        (MIN_DAY + 6) * SECONDS_PER_DAY <= m.spec_event_timestamp() < MAX_DAY * SECONDS_PER_DAY,
        message_chart_took(o, n, m, b0, b1),
    ensures
        exists|l: i64| #[trigger] local_near(m.spec_event_timestamp(), l) && MessageChart::message_counted(o, n, m, l, b0, b1),
{
    let ts = m.spec_event_timestamp();
    assert(local_convertible(ts as int));
    let l = choose|l: i64| #[trigger] local_near(ts, l) && if usable_time(l as int) {
        MessageChart::message_counted(o, n, m, l, b0, b1)
    } else {
        n == o && b1 == b0
    };
    law_week_inside_is_usable(ts, l);
}

/// Such a member count is always recorded by the overview.
pub proof fn law_member_count_recorded(o: Overview, n: Overview, c: MemberCount)
    requires
        (MIN_DAY + 6) * SECONDS_PER_DAY <= c.count_timestamp < MAX_DAY * SECONDS_PER_DAY,
        overview_took_count(o, n, c),
    ensures
        exists|l: i64| #[trigger] local_near(c.count_timestamp, l) && Overview::member_count_recorded(o, n, c, l),
{
    let ts = c.count_timestamp;
    assert(local_convertible(ts as int));
    let l = choose|l: i64| #[trigger] local_near(ts, l) && if usable_time(l as int) {
        Overview::member_count_recorded(o, n, c, l)
    } else {
        n == o
    };
    law_week_inside_is_usable(ts, l);
}

/// Whether a stored day lies in the range of `h`, both ends included.
pub open spec fn day_in(h: DateHandler) -> spec_fn((i64, ActView)) -> bool {
    |p: (i64, ActView)| h.from <= p.0 <= h.to
}

/// The deleted messages of a stored day.
pub open spec fn deleted_of_day() -> spec_fn((i64, ActView)) -> u32 {
    |p: (i64, ActView)| p.1.1
}

/// The deleted messages the overview counts for a date range are the sum of
/// the deleted messages of every stored day from its From day to its To day,
/// both included.
pub proof fn law_deleted_counts_days_in_range(s: Seq<(i64, ActView)>, h: DateHandler)
    ensures
        deleted_in_range(s, h) == total_of(s.filter(day_in(h)).map_values(deleted_of_day())),
    decreases s.len(),
{
    reveal(Seq::filter);
    let pred = day_in(h);
    let f = deleted_of_day();
    if s.len() > 0 {
        law_deleted_counts_days_in_range(s.drop_last(), h);
        let fs = s.drop_last().filter(pred);
        let ms = fs.map_values(f);
        if pred(s.last()) {
            assert(s.filter(pred) == fs.push(s.last()));
            assert(fs.push(s.last()).map_values(f) =~= ms.push(s.last().1.1));
            assert(ms.push(s.last().1.1).drop_last() =~= ms);
        } else {
            assert(s.filter(pred) == fs);
        }
    } else {
        assert(s.filter(pred).map_values(f) =~= Seq::<u32>::empty());
    }
}

/// The channels a chart counts: every channel when nothing is selected or
/// "all channels" (entry 0) is; otherwise exactly the channels of the
/// selected entries (entry `i` names channel `i - 1`), each of them.
pub proof fn law_counted_channels_are_the_selected(channels: Seq<Channel>, selected: Seq<usize>)
    requires
        selection_valid(channels, selected),
    ensures
        (selected.len() == 0 || selected.contains(0usize)) ==> forall|c: i64|
            counted_channels(channels, selected).contains(c) <==> exists|j: int| 0 <= j < channels.len() && #[trigger] channels[j].channel_id == c,
        !(selected.len() == 0 || selected.contains(0usize)) ==> forall|i: int|
            0 <= i < selected.len() ==> counted_channels(channels, selected).contains(#[trigger] channels[selected[i] - 1].channel_id),
        !(selected.len() == 0 || selected.contains(0usize)) ==> forall|c: i64|
            #[trigger] counted_channels(channels, selected).contains(c) ==> exists|i: int|
                0 <= i < selected.len() && 1 <= selected[i] && channels[selected[i] - 1].channel_id == c,
{
    if !(selected.len() == 0 || selected.contains(0usize)) {
        assert forall|i: int| 0 <= i < selected.len() implies counted_channels(channels, selected).contains(
            #[trigger] channels[selected[i] - 1].channel_id,
        ) by {}
        assert forall|c: i64| #[trigger] counted_channels(channels, selected).contains(c) implies exists|i: int|
            0 <= i < selected.len() && 1 <= selected[i] && channels[selected[i] - 1].channel_id == c by {
            let i = choose|i: int| 0 <= i < selected.len() && channels[selected[i] - 1].channel_id == c;
            if selected[i] == 0 {
                assert(selected.contains(0usize));
            }
        }
    }
}

/// After the user chart handles a message at the local time `l`, the
/// sightings each chart type reads hold the sender in the message's channel
/// at the bucket of that type: the hour of `l`, its day, the Monday of its
/// week and the first of its month; and no sighting any type read before is
/// lost.
pub proof fn law_user_chart_reads_its_own_bucket(
    o: UserChart,
    n: UserChart,
    m: MessageWithUser,
    l: i64,
    b0: Seq<AppEvent>,
    b1: Seq<AppEvent>,
)
    requires
        UserChart::message_counted(o, n, m, l, b0, b1),
    ensures
        n.data_for(ChartType::Hourly).contains((hour_floor(l as int) as i64, m.message.channel_id, m.sender.user_id)),
        n.data_for(ChartType::Daily).contains((day_floor(l as int) as i64, m.message.channel_id, m.sender.user_id)),
        n.data_for(ChartType::Weekly).contains(
            ((monday_of(day_of_time(l as int)) * SECONDS_PER_DAY) as i64, m.message.channel_id, m.sender.user_id),
        ),
        n.data_for(ChartType::Monthly).contains(
            ((first_of_month(day_of_time(l as int) as i32)->0 * SECONDS_PER_DAY) as i64, m.message.channel_id, m.sender.user_id),
        ),
        forall|t: ChartType, x: Sighting| #[trigger] o.data_for(t).contains(x) ==> n.data_for(t).contains(x),
{
    let c = m.message.channel_id;
    let u = m.sender.user_id;
    let t = crate::overview::bucket_times(l as int);
    assert forall|s: Seq<Sighting>, e: Sighting| !s.contains(e) implies #[trigger] s.push(e).contains(e) by {
        assert(s.push(e)[s.len() as int] == e);
    }
    assert forall|s: Seq<Sighting>, e: Sighting, x: Sighting| s.contains(x) implies #[trigger] s.push(e).contains(x) by {
        let i = choose|i: int| 0 <= i < s.len() && s[i] == x;
        assert(s.push(e)[i] == x);
    }
    assert(n.hourly_data@.contains((t.0, c, u)));
    assert(n.daily_data@.contains((t.1, c, u)));
    assert(n.weekly_data@.contains((t.2, c, u)));
    assert(n.monthly_data@.contains((t.3, c, u)));
    assert forall|k: ChartType, x: Sighting| #[trigger] o.data_for(k).contains(x) implies n.data_for(k).contains(x) by {
        match k {
            ChartType::Hourly => assert(o.hourly_data@.contains(x) ==> n.hourly_data@.contains(x)),
            ChartType::Daily => assert(o.daily_data@.contains(x) ==> n.daily_data@.contains(x)),
            ChartType::Weekly => assert(o.weekly_data@.contains(x) ==> n.weekly_data@.contains(x)),
            ChartType::Monthly => assert(o.monthly_data@.contains(x) ==> n.monthly_data@.contains(x)),
        }
    }
}

/// The (user, channel, count) items of one stored day.
pub open spec fn day_items(p: (i64, ActView)) -> Seq<(Seq<char>, i64, u32)> {
    p.1.0.map_values(|q: (i64, u32)| (p.1.2, q.0, q.1))
}

/// The items of a stored day, as a function.
pub open spec fn items_of_day() -> spec_fn((i64, ActView)) -> Seq<(Seq<char>, i64, u32)> {
    |p: (i64, ActView)| day_items(p)
}

/// The messages the overview counts for a date range are the channel counts
/// of every stored day from its From day to its To day, both included, in
/// the order the days are stored.
pub proof fn law_items_are_days_in_range(s: Seq<(i64, ActView)>, h: DateHandler)
    ensures
        items_in_range(s, h) == s.filter(day_in(h)).map_values(items_of_day()).flatten(),
{
    lemma_items_alt(s, h);
    s.filter(day_in(h)).map_values(items_of_day()).lemma_flatten_and_flatten_alt_are_equivalent();
}

proof fn lemma_items_alt(s: Seq<(i64, ActView)>, h: DateHandler)
    ensures
        items_in_range(s, h) == s.filter(day_in(h)).map_values(items_of_day()).flatten_alt(),
    decreases s.len(),
{
    reveal(Seq::filter);
    let pred = day_in(h);
    let g = items_of_day();
    if s.len() > 0 {
        lemma_items_alt(s.drop_last(), h);
        let fs = s.drop_last().filter(pred);
        let ms = fs.map_values(g);
        let (day, a) = s.last();
        if pred(s.last()) {
            assert(s.filter(pred) == fs.push(s.last()));
            assert(fs.push(s.last()).map_values(g) =~= ms.push(day_items(s.last())));
            assert(ms.push(day_items(s.last())).drop_last() =~= ms);
            assert(a.0.map_values(|p: (i64, u32)| (a.2, p.0, p.1)) =~= day_items(s.last()));
        } else {
            assert(s.filter(pred) == fs);
            assert(items_in_range(s, h) =~= items_in_range(s.drop_last(), h));
        }
    } else {
        assert(s.filter(pred).map_values(g) =~= Seq::<Seq<(Seq<char>, i64, u32)>>::empty());
    }
}

/// Whether a stored row is one of user `id` on a day within `h`.
pub open spec fn user_day_in(h: DateHandler, id: i64) -> spec_fn((i32, UserRowView)) -> bool {
    |p: (i32, UserRowView)| h.from <= p.0 <= h.to && p.1.0.2 == id
}

/// The messages of a stored row.
pub open spec fn row_messages() -> spec_fn((i32, UserRowView)) -> u32 {
    |p: (i32, UserRowView)| p.1.1.0
}

/// The words of a stored row.
pub open spec fn row_words() -> spec_fn((i32, UserRowView)) -> u32 {
    |p: (i32, UserRowView)| p.1.1.1
}

/// The characters of a stored row.
pub open spec fn row_chars() -> spec_fn((i32, UserRowView)) -> u32 {
    |p: (i32, UserRowView)| p.1.1.2
}

/// A row's averages are its words and characters per message.
pub open spec fn averages_match(r: UserRowView) -> bool {
    r.1.3 == (r.1.1 / r.1.0) as u32 && r.1.4 == (r.1.2 / r.1.0) as u32
}

/// The total of `f` over the items of `s` that `pred` keeps.
pub open spec fn kept_total<A>(s: Seq<A>, pred: spec_fn(A) -> bool, f: spec_fn(A) -> u32) -> u32 {
    total_of(s.filter(pred).map_values(f))
}

proof fn lemma_kept_total_push<A>(s: Seq<A>, pred: spec_fn(A) -> bool, f: spec_fn(A) -> u32)
    requires
        s.len() > 0,
    ensures
        kept_total(s, pred, f) == if pred(s.last()) {
            wadd(kept_total(s.drop_last(), pred, f), f(s.last()))
        } else {
            kept_total(s.drop_last(), pred, f)
        },
{
    reveal(Seq::filter);
    let fs = s.drop_last().filter(pred);
    let ms = fs.map_values(f);
    if pred(s.last()) {
        assert(s.filter(pred) == fs.push(s.last()));
        assert(fs.push(s.last()).map_values(f) =~= ms.push(f(s.last())));
        assert(ms.push(f(s.last())).drop_last() =~= ms);
    } else {
        assert(s.filter(pred) == fs);
    }
}

/// A user without a row has nothing counted in range.
proof fn lemma_no_row_no_totals(s: Seq<(i32, UserRowView)>, h: DateHandler, id: i64)
    requires
        user_row_index(user_rows(s, h), id) < 0,
    ensures
        kept_total(s, user_day_in(h, id), row_messages()) == 0,
        kept_total(s, user_day_in(h, id), row_words()) == 0,
        kept_total(s, user_day_in(h, id), row_chars()) == 0,
    decreases s.len(),
{
    reveal(Seq::filter);
    if s.len() == 0 {
        assert(s.filter(user_day_in(h, id)).map_values(row_messages()) =~= Seq::<u32>::empty());
        assert(s.filter(user_day_in(h, id)).map_values(row_words()) =~= Seq::<u32>::empty());
        assert(s.filter(user_day_in(h, id)).map_values(row_chars()) =~= Seq::<u32>::empty());
    } else {
        let acc = user_rows(s.drop_last(), h);
        let out = user_rows(s, h);
        let (d, r) = s.last();
        lemma_user_row_index(out, id);
        lemma_user_row_index(acc, id);
        lemma_user_row_index(acc, r.0.2);
        if h.spec_within_range(d as int) {
            let k = user_row_index(acc, r.0.2);
            if k >= 0 {
                assert(out[k].0.2 == r.0.2);
                assert forall|j: int| 0 <= j < acc.len() implies acc[j].0.2 != id by {
                    assert(out[j].0.2 == acc[j].0.2);
                }
            } else {
                assert(out[acc.len() as int].0.2 == r.0.2);
                assert forall|j: int| 0 <= j < acc.len() implies acc[j].0.2 != id by {
                    assert(out[j] == acc[j]);
                }
            }
            assert(r.0.2 != id);
        }
        lemma_no_row_no_totals(s.drop_last(), h, id);
        lemma_kept_total_push(s, user_day_in(h, id), row_messages());
        lemma_kept_total_push(s, user_day_in(h, id), row_words());
        lemma_kept_total_push(s, user_day_in(h, id), row_chars());
    }
}

/// Every row of the user table adds up that user's stored rows of the days in
/// range: its messages, words and characters are their sums, and its
/// averages are words and characters per message (given stored rows whose
/// averages are).
pub proof fn law_user_rows_add_up(s: Seq<(i32, UserRowView)>, h: DateHandler)
    requires
        forall|i: int| 0 <= i < s.len() ==> averages_match(#[trigger] s[i].1),
    ensures
        forall|k: int| 0 <= k < user_rows(s, h).len() ==> {
            let r = #[trigger] user_rows(s, h)[k];
            &&& r.1.0 == kept_total(s, user_day_in(h, r.0.2), row_messages())
            &&& r.1.1 == kept_total(s, user_day_in(h, r.0.2), row_words())
            &&& r.1.2 == kept_total(s, user_day_in(h, r.0.2), row_chars())
            &&& averages_match(r)
        },
    decreases s.len(),
{
    if s.len() > 0 {
        let acc = user_rows(s.drop_last(), h);
        let out = user_rows(s, h);
        let (d, r) = s.last();
        law_user_rows_add_up(s.drop_last(), h);
        law_one_row_per_user(s.drop_last(), h);
        assert forall|k: int| 0 <= k < out.len() implies {
            let q = #[trigger] out[k];
            &&& q.1.0 == kept_total(s, user_day_in(h, q.0.2), row_messages())
            &&& q.1.1 == kept_total(s, user_day_in(h, q.0.2), row_words())
            &&& q.1.2 == kept_total(s, user_day_in(h, q.0.2), row_chars())
            &&& averages_match(q)
        } by {
            let q = out[k];
            lemma_kept_total_push(s, user_day_in(h, q.0.2), row_messages());
            lemma_kept_total_push(s, user_day_in(h, q.0.2), row_words());
            lemma_kept_total_push(s, user_day_in(h, q.0.2), row_chars());
            if h.spec_within_range(d as int) {
                lemma_user_row_index(acc, r.0.2);
                let i = user_row_index(acc, r.0.2);
                if i >= 0 {
                    if k != i {
                        assert(q == acc[k]);
                        assert(acc[k].0.2 != acc[i].0.2);
                    }
                } else {
                    if k < acc.len() {
                        assert(q == acc[k]);
                    } else {
                        assert(q == r);
                        lemma_no_row_no_totals(s.drop_last(), h, r.0.2);
                        assert(averages_match(s[s.len() - 1].1));
                    }
                }
            } else {
                assert(q == acc[k]);
            }
        }
    }
}

/// A full stop, comma, question mark or exclamation mark.
pub open spec fn is_end_mark(c: char) -> bool {
    c == '.' || c == ',' || c == '?' || c == '!'
}

/// A trimmed word is the word with every trailing full stop, comma, question
/// mark and exclamation mark removed: it is a prefix of the word, what it
/// drops are only such marks, and it does not end in one.
pub proof fn law_trimmed_drops_end_marks(w: Seq<char>)
    ensures
        trimmed(w).len() <= w.len(),
        trimmed(w) == w.subrange(0, trimmed(w).len() as int),
        forall|i: int| trimmed(w).len() <= i < w.len() ==> is_end_mark(#[trigger] w[i]),
        trimmed(w).len() > 0 ==> !is_end_mark(trimmed(w).last()),
    decreases w.len(),
{
    if w.len() > 0 && (w.last() == '.' || w.last() == ',' || w.last() == '?' || w.last() == '!') {
        law_trimmed_drops_end_marks(w.drop_last());
        let t = trimmed(w.drop_last());
        assert(trimmed(w) == t);
        assert(w.drop_last().subrange(0, t.len() as int) =~= w.subrange(0, t.len() as int));
        assert forall|i: int| t.len() <= i < w.len() implies is_end_mark(#[trigger] w[i]) by {
            if i < w.len() - 1 {
                assert(w.drop_last()[i] == w[i]);
            }
        }
    } else {
        assert(trimmed(w) == w);
        assert(w.subrange(0, w.len() as int) =~= w);
    }
}

/// A word trimmed of its trailing marks.
pub open spec fn trim_word() -> spec_fn(Seq<char>) -> Seq<char> {
    |w: Seq<char>| trimmed(w)
}

/// Whether a word has a character.
pub open spec fn non_empty_word() -> spec_fn(Seq<char>) -> bool {
    |w: Seq<char>| w.len() > 0
}

/// The phrases of one word are the words, each trimmed of its trailing
/// marks, in order, leaving out those that are empty once trimmed.
pub proof fn law_single_word_phrases(words: Seq<Seq<char>>)
    ensures
        stripped_windows(words, 1) == words.map_values(trim_word()).filter(non_empty_word()),
{
    lemma_single_windows(words, words.len());
    assert(words.take(words.len() as int) =~= words);
    if words.len() == 0 {
        reveal(Seq::filter);
        assert(words.map_values(trim_word()).filter(non_empty_word()) =~= Seq::<Seq<char>>::empty());
    }
}

proof fn lemma_single_windows(words: Seq<Seq<char>>, n: nat)
    requires
        n <= words.len(),
    ensures
        windows_upto(words, 1, n) == words.take(n as int).map_values(trim_word()).filter(non_empty_word()),
    decreases n,
{
    reveal(Seq::filter);
    let f = trim_word();
    let p = non_empty_word();
    if n == 0 {
        assert(words.take(0).map_values(f) =~= Seq::<Seq<char>>::empty());
    } else {
        lemma_single_windows(words, (n - 1) as nat);
        let ws = words.subrange(n - 1, n - 1 + 1);
        let r = windows_upto(words, 1, (n - 1) as nat);
        let prev = words.take(n - 1).map_values(f);
        let cur = words.take(n as int).map_values(f);
        assert(cur =~= prev.push(trimmed(words[n - 1])));
        assert(cur.drop_last() =~= prev);
        assert(cur.last() == trimmed(words[n - 1]));
        assert(ws.len() == 1 && ws[0] == words[n - 1]);
        if trimmed(words[n - 1]).len() == 0 {
            assert(trimmed(ws[0]).len() == 0);
            assert(window_phrase(ws) is None);
        } else {
            assert(forall|i: int| 0 <= i < ws.len() ==> trimmed(#[trigger] ws[i]).len() != 0);
            let tw = ws.map_values(|w: Seq<char>| trimmed(w));
            assert(tw.len() == 1);
            assert(joined(tw) == tw[0]);
            assert(window_phrase(ws) == Some(trimmed(words[n - 1])));
        }
    }
}

/// Whether entry `i` of the stored rows is one of user `id` on a day within `h`.
pub open spec fn stored_for(s: Seq<(i32, UserRowView)>, h: DateHandler, id: i64, i: int) -> bool {
    0 <= i < s.len() && h.from <= s[i].0 <= h.to && s[i].1.0.2 == id
}

proof fn lemma_no_row_no_stored(s: Seq<(i32, UserRowView)>, h: DateHandler, id: i64)
    requires
        user_row_index(user_rows(s, h), id) < 0,
    ensures
        forall|i: int| !#[trigger] stored_for(s, h, id, i),
    decreases s.len(),
{
    if s.len() > 0 {
        let acc = user_rows(s.drop_last(), h);
        let out = user_rows(s, h);
        let (d, r) = s.last();
        lemma_user_row_index(out, id);
        lemma_user_row_index(acc, id);
        lemma_user_row_index(acc, r.0.2);
        if h.spec_within_range(d as int) {
            let k = user_row_index(acc, r.0.2);
            if k >= 0 {
                assert(out[k].0.2 == r.0.2);
                assert forall|j: int| 0 <= j < acc.len() implies acc[j].0.2 != id by {
                    assert(out[j].0.2 == acc[j].0.2);
                }
            } else {
                assert(out[acc.len() as int].0.2 == r.0.2);
                assert forall|j: int| 0 <= j < acc.len() implies acc[j].0.2 != id by {
                    assert(out[j] == acc[j]);
                }
            }
        }
        lemma_no_row_no_stored(s.drop_last(), h, id);
        assert forall|i: int| !#[trigger] stored_for(s, h, id, i) by {
            if 0 <= i < s.len() - 1 {
                assert(s[i] == s.drop_last()[i]);
                assert(!stored_for(s.drop_last(), h, id, i));
            }
        }
    }
}

/// Row `q` holds the earliest first time and the latest last time of its
/// user's stored rows of the days within `h`.
pub open spec fn first_last_seen_of(s: Seq<(i32, UserRowView)>, h: DateHandler, q: UserRowView) -> bool {
    &&& forall|i: int| #[trigger] stored_for(s, h, q.0.2, i) ==> q.2.0 <= s[i].1.2.0 && s[i].1.2.1 <= q.2.1
    &&& exists|i: int| #[trigger] stored_for(s, h, q.0.2, i) && q.2.0 == s[i].1.2.0
    &&& exists|i: int| #[trigger] stored_for(s, h, q.0.2, i) && q.2.1 == s[i].1.2.1
}

/// Every row of the user table shows when the user was first and last seen
/// within the range: the earliest first time and the latest last time of the
/// user's stored rows of the days in range.
pub proof fn law_user_rows_first_last_seen(s: Seq<(i32, UserRowView)>, h: DateHandler)
    ensures
        forall|k: int| 0 <= k < user_rows(s, h).len() ==> first_last_seen_of(s, h, #[trigger] user_rows(s, h)[k]),
    decreases s.len(),
{
    if s.len() > 0 {
        let s0 = s.drop_last();
        let acc = user_rows(s0, h);
        let out = user_rows(s, h);
        let (d, r) = s.last();
        let last = s.len() - 1;
        law_user_rows_first_last_seen(s0, h);
        law_one_row_per_user(s0, h);
        assert forall|id: i64, i: int| 0 <= i < last && #[trigger] stored_for(s, h, id, i) implies stored_for(s0, h, id, i) by {
            assert(s[i] == s0[i]);
        }
        assert forall|id: i64, i: int| #[trigger] stored_for(s0, h, id, i) implies stored_for(s, h, id, i) && s[i] == s0[i] by {}
        assert forall|k: int| 0 <= k < out.len() implies first_last_seen_of(s, h, #[trigger] out[k]) by {
            let q = out[k];
            let id = q.0.2;
            if h.spec_within_range(d as int) {
                lemma_user_row_index(acc, r.0.2);
                let j = user_row_index(acc, r.0.2);
                if j >= 0 && k == j {
                    let a = acc[j];
                    assert(a.0.2 == r.0.2);
                    assert(stored_for(s, h, id, last));
                    let i0 = choose|i: int| stored_for(s0, h, a.0.2, i) && a.2.0 == s0[i].1.2.0;
                    let i1 = choose|i: int| stored_for(s0, h, a.0.2, i) && a.2.1 == s0[i].1.2.1;
                    assert(stored_for(s, h, id, i0) && stored_for(s, h, id, i1));
                    assert forall|i: int| #[trigger] stored_for(s, h, id, i) implies q.2.0 <= s[i].1.2.0 && s[i].1.2.1 <= q.2.1 by {
                        if i < last {
                            assert(stored_for(s0, h, a.0.2, i));
                        }
                    }
                } else if j >= 0 {
                    assert(q == acc[k]);
                    assert(acc[k].0.2 != acc[j].0.2);
                    assert(!stored_for(s, h, id, last));
                    let i0 = choose|i: int| stored_for(s0, h, id, i) && q.2.0 == s0[i].1.2.0;
                    let i1 = choose|i: int| stored_for(s0, h, id, i) && q.2.1 == s0[i].1.2.1;
                    assert(stored_for(s, h, id, i0) && stored_for(s, h, id, i1));
                    assert forall|i: int| #[trigger] stored_for(s, h, id, i) implies q.2.0 <= s[i].1.2.0 && s[i].1.2.1 <= q.2.1 by {
                        if i < last {
                            assert(stored_for(s0, h, id, i));
                        }
                    }
                } else if k < acc.len() {
                    assert(q == acc[k]);
                    assert(!stored_for(s, h, id, last));
                    let i0 = choose|i: int| stored_for(s0, h, id, i) && q.2.0 == s0[i].1.2.0;
                    let i1 = choose|i: int| stored_for(s0, h, id, i) && q.2.1 == s0[i].1.2.1;
                    assert(stored_for(s, h, id, i0) && stored_for(s, h, id, i1));
                    assert forall|i: int| #[trigger] stored_for(s, h, id, i) implies q.2.0 <= s[i].1.2.0 && s[i].1.2.1 <= q.2.1 by {
                        if i < last {
                            assert(stored_for(s0, h, id, i));
                        }
                    }
                } else {
                    assert(q == r);
                    lemma_no_row_no_stored(s0, h, id);
                    assert(stored_for(s, h, id, last));
                    assert forall|i: int| #[trigger] stored_for(s, h, id, i) implies q.2.0 <= s[i].1.2.0 && s[i].1.2.1 <= q.2.1 by {
                        if i < last {
                            assert(stored_for(s0, h, id, i));
                        }
                    }
                }
            } else {
                assert(q == acc[k]);
                assert(!stored_for(s, h, id, last));
                let i0 = choose|i: int| stored_for(s0, h, id, i) && q.2.0 == s0[i].1.2.0;
                let i1 = choose|i: int| stored_for(s0, h, id, i) && q.2.1 == s0[i].1.2.1;
                assert(stored_for(s, h, id, i0) && stored_for(s, h, id, i1));
                assert forall|i: int| #[trigger] stored_for(s, h, id, i) implies q.2.0 <= s[i].1.2.0 && s[i].1.2.1 <= q.2.1 by {
                    if i < last {
                        assert(stored_for(s0, h, id, i));
                    }
                }
            }
        }
    }
}

/// Whether the points hold one in `bucket` for `user` in `channel` that is
/// deleted or not as `deleted` says.
pub open spec fn has_point(s: Seq<PointView>, bucket: i64, channel: i64, user: Seq<char>, deleted: bool) -> bool {
    exists|i: int| 0 <= i < s.len() && (#[trigger] s[i]).0 == bucket && s[i].1 == channel && s[i].2 == user && s[i].4 == deleted
}

proof fn lemma_point_recorded_has(s: Seq<PointView>, bucket: i64, channel: i64, user: Seq<char>, deleted: bool)
    ensures
        has_point(point_recorded(s, bucket, channel, user, deleted), bucket, channel, user, deleted),
{
    lemma_open_point_index(s, bucket, channel, user);
    let r = point_recorded(s, bucket, channel, user, deleted);
    let i = open_point_index(s, bucket, channel, user);
    if !deleted && i >= 0 {
        assert(r[i].0 == bucket);
    } else {
        assert(r[s.len() as int].0 == bucket);
    }
}

/// After the message chart counts a message at the local time `l`, the points
/// each chart type reads hold the message's user and channel, deleted or
/// not, at the bucket of that type: the hour of `l`, its day, the Monday of
/// its week and the first of its month.
pub proof fn law_message_chart_reads_its_own_bucket(
    o: MessageChart,
    n: MessageChart,
    m: MessageWithUser,
    l: i64,
    b0: Seq<AppEvent>,
    b1: Seq<AppEvent>,
)
    requires
        MessageChart::message_counted(o, n, m, l, b0, b1),
    ensures
        has_point(n.points_for(ChartType::Hourly), hour_floor(l as int) as i64, m.message.channel_id, m.sender.username@,
            m.message.delete_timestamp is Some),
        has_point(n.points_for(ChartType::Daily), day_floor(l as int) as i64, m.message.channel_id, m.sender.username@,
            m.message.delete_timestamp is Some),
        has_point(n.points_for(ChartType::Weekly), (monday_of(day_of_time(l as int)) * SECONDS_PER_DAY) as i64,
            m.message.channel_id, m.sender.username@, m.message.delete_timestamp is Some),
        has_point(n.points_for(ChartType::Monthly),
            (first_of_month(day_of_time(l as int) as i32)->0 * SECONDS_PER_DAY) as i64, m.message.channel_id,
            m.sender.username@, m.message.delete_timestamp is Some),
{
    let t = crate::overview::bucket_times(l as int);
    let c = m.message.channel_id;
    let u = m.sender.username@;
    let d = m.message.delete_timestamp is Some;
    lemma_point_recorded_has(points_view(o.hourly_points@), t.0, c, u, d);
    lemma_point_recorded_has(points_view(o.daily_points@), t.1, c, u, d);
    lemma_point_recorded_has(points_view(o.weekly_points@), t.2, c, u, d);
    lemma_point_recorded_has(points_view(o.monthly_points@), t.3, c, u, d);
}

/// Whether a sighting is in bucket `b`.
pub open spec fn seen_in(b: i64) -> spec_fn(Sighting) -> bool {
    |x: Sighting| x.0 == b
}

/// The "Active Users" value of a bucket is the number of sightings in it.
pub proof fn law_active_users_count_sightings(s: Seq<Sighting>, b: i64)
    ensures
        count_at(s, b) == s.filter(seen_in(b)).len(),
    decreases s.len(),
{
    reveal(Seq::filter);
    if s.len() > 0 {
        law_active_users_count_sightings(s.drop_last(), b);
    }
}

/// A phrase of several words is its first part and its last part with one
/// space between them.
pub proof fn law_phrase_joins_with_one_space(x: Seq<Seq<char>>, y: Seq<Seq<char>>)
    requires
        x.len() > 0,
        y.len() > 0,
    ensures
        joined(x + y) == joined(x) + seq![' '] + joined(y),
    decreases y.len(),
{
    let xy = x + y;
    assert(xy.drop_last() =~= x + y.drop_last());
    assert(xy.last() == y.last());
    if y.len() == 1 {
        assert(y.drop_last().len() == 0);
        assert(x + y.drop_last() =~= x);
        assert(joined(y) == y[0]);
    } else {
        law_phrase_joins_with_one_space(x, y.drop_last());
        assert(joined(xy) == joined(x + y.drop_last()) + seq![' '] + y.last());
        assert(joined(y) == joined(y.drop_last()) + seq![' '] + y.last());
        assert(joined(x) + seq![' '] + joined(y.drop_last()) + seq![' '] + y.last() =~= joined(x) + seq![' '] + (
        joined(y.drop_last()) + seq![' '] + y.last()));
    }
}

} // verus!
