//! The channel table tab: per channel, the messages, deleted messages, first and
//! last message time and the distinct users, over the selected dates.
use vstd::prelude::*;
use crate::aggregate::wadd;
use crate::calendar::{day_of_time, time_to_day, valid_time};
use crate::date_handler::DateHandler;
use crate::event_bus::EventBus;
use crate::guild_channel::Channel;
use crate::keyed::{find_key, key_index, lemma_key_index};
use crate::message_user::MessageWithUser;
use crate::overview::{published_once, reload_threshold};
use crate::response::PAGE_VALUE;
use crate::state::{AppEvent, ChannelColumn};
use crate::table_order::{int_order, order_ints, order_texts, text_order, RowOrder};

verus! {

/// The ids after adding `u` (a set: kept once).
pub open spec fn id_added(s: Seq<i64>, u: i64) -> Seq<i64> {
    if s.contains(u) {
        s
    } else {
        s.push(u)
    }
}

/// The ids after adding each of `list` in order.
pub open spec fn ids_extended(s: Seq<i64>, list: Seq<i64>) -> Seq<i64>
    decreases list.len(),
{
    if list.len() == 0 {
        s
    } else {
        id_added(ids_extended(s, list.drop_last()), list.last())
    }
}

/// Adds an id unless present.
pub fn add_id(s: &mut Vec<i64>, u: i64)
    ensures
        final(s)@ == id_added(old(s)@, u),
{
    let mut i: usize = 0;
    while i < s.len()
        invariant
            i <= s.len(),
            s@ == old(s)@,
            forall|j: int| 0 <= j < i ==> s@[j] != u,
        decreases s.len() - i,
    {
        if s[i] == u {
            assert(s@[i as int] == u);
            return;
        }
        i = i + 1;
    }
    s.push(u);
}

/// Adds each id of `list` unless present.
pub fn extend_ids(s: &mut Vec<i64>, list: &Vec<i64>)
    ensures
        final(s)@ == ids_extended(old(s)@, list@),
{
    let mut i: usize = 0;
    while i < list.len()
        invariant
            i <= list.len(),
            s@ == ids_extended(old(s)@, list@.take(i as int)),
        decreases list.len() - i,
    {
        proof {
            assert(list@.take(i + 1).drop_last() =~= list@.take(i as int));
        }
        add_id(s, list[i]);
        i = i + 1;
    }
    proof {
        assert(list@.take(list.len() as int) =~= list@);
    }
}

/// A copy of a list of ids.
pub fn copy_ids(s: &Vec<i64>) -> (r: Vec<i64>)
    ensures
        r@ == s@,
{
    let mut out: Vec<i64> = Vec::new();
    let mut i: usize = 0;
    while i < s.len()
        invariant
            i <= s.len(),
            out@ == s@.take(i as int),
        decreases s.len() - i,
    {
        out.push(s[i]);
        proof {
            assert(s@.take(i + 1) =~= s@.take(i as int).push(s@[i as int]));
        }
        i = i + 1;
    }
    proof {
        assert(s@.take(s.len() as int) =~= s@);
    }
    out
}

/// One channel's row: its messages, deleted messages, first and last message
/// time (local seconds) and the distinct users who wrote in it.
pub struct ChannelRowData {
    pub name: String,
    pub id: i64,
    pub total_message: u32,
    pub deleted_message: u32,
    pub first_message: i64,
    pub last_message: i64,
    pub unique_users: Vec<i64>,
}

/// A row as plain values.
pub type ChannelRowView = (Seq<char>, i64, u32, u32, i64, i64, Seq<i64>);

pub open spec fn channel_row_view(r: ChannelRowData) -> ChannelRowView {
    (r.name@, r.id, r.total_message, r.deleted_message, r.first_message, r.last_message, r.unique_users@)
}

impl ChannelRowData {
    /// A row with no messages, first and last seen at `date`.
    pub fn new(name: &str, id: i64, date: i64) -> (r: ChannelRowData)
        ensures
            channel_row_view(r) == (name@, id, 0u32, 0u32, date, date, Seq::<i64>::empty()),
    {
        ChannelRowData {
            name: String::from_str(name),
            id,
            total_message: 0,
            deleted_message: 0,
            first_message: date,
            last_message: date,
            unique_users: Vec::new(),
        }
    }

    /// A copy of the row.
    pub fn duplicate(&self) -> (r: ChannelRowData)
        ensures
            channel_row_view(r) == channel_row_view(*self),
    {
        ChannelRowData {
            name: self.name.clone(),
            id: self.id,
            total_message: self.total_message,
            deleted_message: self.deleted_message,
            first_message: self.first_message,
            last_message: self.last_message,
            unique_users: copy_ids(&self.unique_users),
        }
    }

    pub fn add_user(&mut self, user_id: i64)
        ensures
            final(self).unique_users@ == id_added(old(self).unique_users@, user_id),
            *final(self) == (ChannelRowData { unique_users: final(self).unique_users, ..*old(self) }),
    {
        add_id(&mut self.unique_users, user_id);
    }

    pub fn extend_user(&mut self, list: &Vec<i64>)
        ensures
            final(self).unique_users@ == ids_extended(old(self).unique_users@, list@),
            *final(self) == (ChannelRowData { unique_users: final(self).unique_users, ..*old(self) }),
    {
        extend_ids(&mut self.unique_users, list);
    }

    /// One more message (wrapping around on overflow).
    pub fn increment_total_message(&mut self)
        ensures
            *final(self) == (ChannelRowData { total_message: wadd(old(self).total_message, 1), ..*old(self) }),
    {
        self.total_message = self.total_message.wrapping_add(1);
    }

    /// One more deleted message (wrapping around on overflow).
    pub fn increment_deleted_message(&mut self)
        ensures
            *final(self) == (ChannelRowData { deleted_message: wadd(old(self).deleted_message, 1), ..*old(self) }),
    {
        self.deleted_message = self.deleted_message.wrapping_add(1);
    }

    pub fn increase_deleted_by(&mut self, amount: u32)
        ensures
            *final(self) == (ChannelRowData { deleted_message: wadd(old(self).deleted_message, amount), ..*old(self) }),
    {
        self.deleted_message = self.deleted_message.wrapping_add(amount);
    }

    pub fn increase_message_by(&mut self, amount: u32)
        ensures
            *final(self) == (ChannelRowData { total_message: wadd(old(self).total_message, amount), ..*old(self) }),
    {
        self.total_message = self.total_message.wrapping_add(amount);
    }

    pub fn set_first_message(&mut self, date: i64)
        ensures
            *final(self) == (ChannelRowData { first_message: date, ..*old(self) }),
    {
        self.first_message = date;
    }

    pub fn set_last_message(&mut self, date: i64)
        ensures
            *final(self) == (ChannelRowData { last_message: date, ..*old(self) }),
    {
        self.last_message = date;
    }
}

/// How two rows compare in a column (the table's sort order).
pub open spec fn channel_order(col: ChannelColumn, a: ChannelRowView, b: ChannelRowView) -> RowOrder {
    match col {
        ChannelColumn::Name => text_order(a.0, b.0),
        ChannelColumn::ID => int_order(a.1 as int, b.1 as int),
        ChannelColumn::TotalMessage => int_order(a.2 as int, b.2 as int),
        ChannelColumn::DeletedMessage => int_order(a.3 as int, b.3 as int),
        ChannelColumn::FirstMessage => int_order(a.4 as int, b.4 as int),
        ChannelColumn::LastMessage => int_order(a.5 as int, b.5 as int),
        ChannelColumn::UniqueUsers => int_order(a.6.len() as int, b.6.len() as int),
    }
}

/// Compares two rows in a column.
pub fn order_by(col: ChannelColumn, row_1: &ChannelRowData, row_2: &ChannelRowData) -> (r: RowOrder)
    ensures
        r == channel_order(col, channel_row_view(*row_1), channel_row_view(*row_2)),
{
    match col {
        ChannelColumn::Name => order_texts(&row_1.name, &row_2.name),
        ChannelColumn::ID => order_ints(row_1.id, row_2.id),
        ChannelColumn::TotalMessage => order_ints(row_1.total_message as i64, row_2.total_message as i64),
        ChannelColumn::DeletedMessage => order_ints(row_1.deleted_message as i64, row_2.deleted_message as i64),
        ChannelColumn::FirstMessage => order_ints(row_1.first_message, row_2.first_message),
        ChannelColumn::LastMessage => order_ints(row_1.last_message, row_2.last_message),
        ChannelColumn::UniqueUsers => {
            let a = row_1.unique_users.len();
            let b = row_2.unique_users.len();
            if a < b {
                RowOrder::Less
            } else if a == b {
                RowOrder::Equal
            } else {
                RowOrder::Greater
            }
        },
    }
}

} // verus!

verus! {

/// The stored rows as plain values: (day, row).
pub open spec fn entries_view(s: Seq<(i32, ChannelRowData)>) -> Seq<(i32, ChannelRowView)> {
    s.map_values(|e: (i32, ChannelRowData)| (e.0, channel_row_view(e.1)))
}

/// The position of the first row of channel `id` on `day`, or -1.
pub open spec fn entry_index(s: Seq<(i32, ChannelRowView)>, day: i32, id: i64) -> int
    decreases s.len(),
{
    if s.len() == 0 {
        -1
    } else if entry_index(s.drop_last(), day, id) >= 0 {
        entry_index(s.drop_last(), day, id)
    } else if s.last().0 == day && s.last().1.1 == id {
        s.len() - 1
    } else {
        -1
    }
}

pub proof fn lemma_entry_index(s: Seq<(i32, ChannelRowView)>, day: i32, id: i64)
    ensures
        -1 <= entry_index(s, day, id) < s.len(),
        entry_index(s, day, id) >= 0 ==> s[entry_index(s, day, id)].0 == day && s[entry_index(s, day, id)].1.1 == id,
        entry_index(s, day, id) >= 0 ==> forall|j: int|
            0 <= j < entry_index(s, day, id) ==> !(#[trigger] s[j].0 == day && s[j].1.1 == id),
        entry_index(s, day, id) < 0 ==> forall|j: int| 0 <= j < s.len() ==> !(#[trigger] s[j].0 == day && s[j].1.1 == id),
    decreases s.len(),
{
    if s.len() > 0 {
        let t = s.drop_last();
        lemma_entry_index(t, day, id);
        assert forall|j: int| 0 <= j < t.len() implies t[j] == s[j] by {}
    }
}

pub open spec fn min_i64(a: i64, b: i64) -> i64 {
    if a > b { b } else { a }
}

pub open spec fn max_i64(a: i64, b: i64) -> i64 {
    if a < b { b } else { a }
}

/// The stored rows after one message of `user` in channel `id` (named `name`)
/// at local time `t` on `day`: the channel's row of that day (created when
/// missing) counts the message, widens its first/last message time and adds
/// the user.
pub open spec fn channel_recorded(
    s: Seq<(i32, ChannelRowView)>,
    day: i32,
    name: Seq<char>,
    id: i64,
    t: i64,
    user: i64,
    deleted: bool,
) -> Seq<(i32, ChannelRowView)> {
    let i = entry_index(s, day, id);
    let base = if i >= 0 { s } else { s.push((day, (name, id, 0u32, 0u32, t, t, Seq::empty()))) };
    let j = if i >= 0 { i } else { s.len() as int };
    let r = base[j].1;
    base.update(
        j,
        (
            day,
            (
                r.0,
                r.1,
                if deleted { r.2 } else { wadd(r.2, 1) },
                if deleted { wadd(r.3, 1) } else { r.3 },
                min_i64(r.4, t),
                max_i64(r.5, t),
                id_added(r.6, user),
            ),
        ),
    )
}

/// The position of the row of channel `id`, or -1.
pub open spec fn row_index(s: Seq<ChannelRowView>, id: i64) -> int
    decreases s.len(),
{
    if s.len() == 0 {
        -1
    } else if row_index(s.drop_last(), id) >= 0 {
        row_index(s.drop_last(), id)
    } else if s.last().1 == id {
        s.len() - 1
    } else {
        -1
    }
}

pub proof fn lemma_row_index(s: Seq<ChannelRowView>, id: i64)
    ensures
        -1 <= row_index(s, id) < s.len(),
        row_index(s, id) >= 0 ==> s[row_index(s, id)].1 == id,
        row_index(s, id) >= 0 ==> forall|j: int| 0 <= j < row_index(s, id) ==> (#[trigger] s[j]).1 != id,
        row_index(s, id) < 0 ==> forall|j: int| 0 <= j < s.len() ==> (#[trigger] s[j]).1 != id,
    decreases s.len(),
{
    if s.len() > 0 {
        let t = s.drop_last();
        lemma_row_index(t, id);
        assert forall|j: int| 0 <= j < t.len() implies t[j] == s[j] by {}
    }
}

/// Two rows of one channel joined: counts added, times widened, users joined.
pub open spec fn rows_joined(a: ChannelRowView, r: ChannelRowView) -> ChannelRowView {
    (a.0, a.1, wadd(a.2, r.2), wadd(a.3, r.3), min_i64(a.4, r.4), max_i64(a.5, r.5), ids_extended(a.6, r.6))
}

/// The table rows: the stored rows of the days within `h`, one row per
/// channel in order of first appearance, the rows of a channel joined.
pub open spec fn channel_rows(s: Seq<(i32, ChannelRowView)>, h: DateHandler) -> Seq<ChannelRowView>
    decreases s.len(),
{
    if s.len() == 0 {
        Seq::empty()
    } else {
        let acc = channel_rows(s.drop_last(), h);
        let (d, r) = s.last();
        if !h.spec_within_range(d as int) {
            acc
        } else {
            let k = row_index(acc, r.1);
            if k >= 0 {
                acc.update(k, rows_joined(acc[k], r))
            } else {
                acc.push(r)
            }
        }
    }
}

pub open spec fn rows_view(s: Seq<ChannelRowData>) -> Seq<ChannelRowView> {
    s.map_values(|r: ChannelRowData| channel_row_view(r))
}

/// The name a channel map gives a channel.
pub open spec fn mapped_name(map: Seq<(i64, String)>, c: i64) -> Seq<char> {
    map[key_index(map, c)].1@
}

/// The channel names learned from a channel list: each channel not yet known
/// is added with its name, in list order.
pub open spec fn map_learned(map: Seq<(i64, Seq<char>)>, channels: Seq<Channel>) -> Seq<(i64, Seq<char>)>
    decreases channels.len(),
{
    if channels.len() == 0 {
        map
    } else {
        let m = map_learned(map, channels.drop_last());
        let c = channels.last();
        if key_index(m, c.channel_id) >= 0 {
            m
        } else {
            m.push((c.channel_id, c.channel_name@))
        }
    }
}

/// Learning channel names keeps every known channel and knows every
/// learned one.
pub proof fn lemma_map_learned(map: Seq<(i64, Seq<char>)>, channels: Seq<Channel>)
    ensures
        forall|k: i64| key_index(map, k) >= 0 ==> #[trigger] key_index(map_learned(map, channels), k) >= 0,
        forall|i: int| 0 <= i < channels.len() ==> key_index(map_learned(map, channels), #[trigger] channels[i].channel_id) >= 0,
    decreases channels.len(),
{
    if channels.len() > 0 {
        let d = channels.drop_last();
        let m = map_learned(map, d);
        lemma_map_learned(map, d);
        let c = channels.last();
        assert forall|k: i64| key_index(m, k) >= 0 implies #[trigger] key_index(map_learned(map, channels), k) >= 0 by {
            crate::keyed::lemma_key_index_push(m, (c.channel_id, c.channel_name@), k);
        }
        assert forall|i: int| 0 <= i < channels.len() implies key_index(
            map_learned(map, channels),
            #[trigger] channels[i].channel_id,
        ) >= 0 by {
            crate::keyed::lemma_key_index_push(m, (c.channel_id, c.channel_name@), channels[i].channel_id);
            if i < d.len() {
                assert(d[i] == channels[i]);
            }
        }
    }
}

pub open spec fn map_view(s: Seq<(i64, String)>) -> Seq<(i64, Seq<char>)> {
    s.map_values(|e: (i64, String)| (e.0, e.1@))
}

/// The channel table of one guild.
pub struct ChannelTable {
    /// One row per day and channel.
    pub channel_data: Vec<(i32, ChannelRowData)>,
    /// The rows the table shows.
    pub rows: Vec<ChannelRowData>,
    pub date_handler: DateHandler,
    pub reload_count: u64,
    pub channel_map: Vec<(i64, String)>,
}

impl ChannelTable {
    /// No data, rows or channels, the date range at its start and no reload
    /// counted.
    pub open spec fn is_fresh(&self) -> bool {
        &&& self.channel_data@.len() == 0
        &&& self.rows@.len() == 0
        &&& self.date_handler == DateHandler::spec_default()
        &&& self.reload_count == 0
        &&& self.channel_map@.len() == 0
    }
}

impl Default for ChannelTable {
    fn default() -> (r: ChannelTable)
        ensures
            r.is_fresh(),
    {
        ChannelTable {
            channel_data: Vec::new(),
            rows: Vec::new(),
            date_handler: DateHandler::default(),
            reload_count: 0,
            channel_map: Vec::new(),
        }
    }
}

impl ChannelTable {
    /// Whether the channel of a message has a known name (a message of an
    /// unknown channel cannot be counted).
    pub open spec fn knows_channel(&self, c: i64) -> bool {
        key_index(self.channel_map@, c) >= 0
    }

    /// What counting a message at the local time `local` did (see
    /// [`ChannelTable::handle_message`]).
    pub open spec fn message_counted(before: ChannelTable, after: ChannelTable, message: MessageWithUser, local: i64, bus0: Seq<AppEvent>, bus1: Seq<AppEvent>) -> bool {
        &&& ({
            let day = day_of_time(local as int) as i32;
            let c = message.message.channel_id;
            let g = message.message.guild_id;
            let (h, grew) = before.date_handler.spec_update_dates(day);
            let bus = if grew { bus0.push(AppEvent::UpdateDate(day, g)) } else { bus0 };
            &&& entries_view(after.channel_data@) =~= channel_recorded(
                entries_view(before.channel_data@),
                day,
                mapped_name(before.channel_map@, c),
                c,
                local,
                message.sender.user_id,
                message.message.delete_timestamp is Some,
            )
            &&& after.date_handler == h
            &&& bus1 =~= if after.reload_count == reload_threshold() {
                published_once(bus, AppEvent::ChannelTableNeedsReload(g))
            } else {
                bus
            }
        })
        &&& after.reload_count == vstd::wrapping::u64_specs::wrapping_add(before.reload_count, 1)
        &&& after.rows@ =~= before.rows@
        &&& after.channel_map@ =~= before.channel_map@
    }

    /// Counts a message (`local` is the local time of its event timestamp) in
    /// its channel's row of that day; a newly seen day widens the date span,
    /// which is announced with `UpdateDate`. Every [`reload_threshold`]
    /// messages the table asks to be reloaded.
    pub fn handle_message(&mut self, message: &MessageWithUser, local: i64, event_bus: &mut EventBus)
        requires
            valid_time(local as int),
            old(self).knows_channel(message.message.channel_id),
        ensures
            ChannelTable::message_counted(*old(self), *final(self), *message, local, old(event_bus)@, final(event_bus)@),
    {
        self.reload_count = self.reload_count.wrapping_add(1);
        let user_id = message.sender.user_id;
        let guild_id = message.message.guild_id;
        let channel_id = message.message.channel_id;
        let deleted = message.message.delete_timestamp.is_some();
        proof {
            lemma_key_index(self.channel_map@, channel_id);
        }
        let k = find_key(&self.channel_map, channel_id).unwrap();
        let day = time_to_day(local);
        let ghost s = entries_view(self.channel_data@);
        proof {
            lemma_entry_index(s, day, channel_id);
        }
        let mut idx: usize = 0;
        while idx < self.channel_data.len() && !(self.channel_data[idx].0 == day
            && self.channel_data[idx].1.id == channel_id)
            invariant
                s == entries_view(self.channel_data@),
                idx <= self.channel_data.len(),
                forall|j: int| 0 <= j < idx ==> !(#[trigger] s[j].0 == day && s[j].1.1 == channel_id),
            decreases self.channel_data.len() - idx,
        {
            idx = idx + 1;
        }
        proof {
            if idx < self.channel_data.len() {
                assert(s[idx as int].0 == day && s[idx as int].1.1 == channel_id);
                assert(entry_index(s, day, channel_id) == idx as int);
            } else {
                assert(entry_index(s, day, channel_id) < 0);
            }
        }
        if idx == self.channel_data.len() {
            let row = ChannelRowData::new(self.channel_map[k].1.as_str(), channel_id, local);
            self.channel_data.push((day, row));
            proof {
                assert(entries_view(self.channel_data@) =~= s.push(
                    (day, (mapped_name(self.channel_map@, channel_id), channel_id, 0u32, 0u32, local, local, Seq::<i64>::empty())),
                ));
            }
        }
        let ghost base = entries_view(self.channel_data@);
        let (d, mut row) = self.channel_data.remove(idx);
        if row.first_message > local {
            row.set_first_message(local);
        }
        if row.last_message < local {
            row.set_last_message(local);
        }
        if self.date_handler.update_dates(day) {
            event_bus.publish(AppEvent::UpdateDate(day, guild_id));
        }
        if deleted {
            row.increment_deleted_message();
        } else {
            row.increment_total_message();
        }
        row.add_user(user_id);
        self.channel_data.insert(idx, (d, row));
        proof {
            assert(entries_view(self.channel_data@) =~= base.update(idx as int, (day, channel_row_view(row))));
        }
        if self.reload_count == PAGE_VALUE * 5 {
            event_bus.publish_if_needed(AppEvent::ChannelTableNeedsReload(guild_id));
        }
    }

    /// Rebuilds the table rows from the stored rows of the selected dates (see
    /// [`channel_rows`]) and clears the reload counter.
    pub fn create_rows(&mut self)
        ensures
            rows_view(final(self).rows@) == channel_rows(entries_view(old(self).channel_data@), old(self).date_handler),
            final(self).reload_count == 0,
            final(self).channel_data@ == old(self).channel_data@,
            final(self).date_handler == old(self).date_handler,
            final(self).channel_map@ == old(self).channel_map@,
    {
        self.reload_count = 0;
        let ghost s = entries_view(self.channel_data@);
        let h = self.date_handler;
        let mut rows: Vec<ChannelRowData> = Vec::new();
        let mut i: usize = 0;
        while i < self.channel_data.len()
            invariant
                s == entries_view(self.channel_data@),
                h == self.date_handler,
                i <= self.channel_data.len(),
                rows_view(rows@) == channel_rows(s.take(i as int), h),
            decreases self.channel_data.len() - i,
        {
            proof {
                assert(s.take(i + 1).drop_last() =~= s.take(i as int));
                assert(s.take(i + 1).last() == s[i as int]);
            }
            let d = self.channel_data[i].0;
            if h.within_range(d) {
                let r = &self.channel_data[i].1;
                let ghost acc = rows_view(rows@);
                proof {
                    lemma_row_index(acc, r.id);
                }
                let mut k: usize = 0;
                while k < rows.len() && rows[k].id != r.id
                    invariant
                        acc == rows_view(rows@),
                        k <= rows.len(),
                        forall|j: int| 0 <= j < k ==> (#[trigger] acc[j]).1 != r.id,
                    decreases rows.len() - k,
                {
                    k = k + 1;
                }
                if k < rows.len() {
                    proof {
                        assert(acc[k as int].1 == r.id);
                        assert(row_index(acc, r.id) == k as int);
                    }
                    let mut target = rows.remove(k);
                    if target.first_message > r.first_message {
                        target.set_first_message(r.first_message);
                    }
                    if target.last_message < r.last_message {
                        target.set_last_message(r.last_message);
                    }
                    target.increase_message_by(r.total_message);
                    target.increase_deleted_by(r.deleted_message);
                    target.extend_user(&r.unique_users);
                    rows.insert(k, target);
                    proof {
                        assert(rows_view(rows@) =~= acc.update(k as int, rows_joined(acc[k as int], channel_row_view(*r))));
                    }
                } else {
                    proof {
                        assert(row_index(acc, r.id) < 0);
                    }
                    rows.push(r.duplicate());
                    proof {
                        assert(rows_view(rows@) =~= acc.push(channel_row_view(*r)));
                    }
                }
            }
            i = i + 1;
        }
        proof {
            assert(s.take(s.len() as int) =~= s);
        }
        self.rows = rows;
    }

    pub fn set_date_handler(&mut self, handler: DateHandler)
        ensures
            *final(self) == (ChannelTable { date_handler: handler, ..*old(self) }),
    {
        self.date_handler = handler;
    }

    /// Learns the names of the channels not known yet.
    pub fn set_channel_id_map(&mut self, channel_list: Vec<Channel>)
        ensures
            map_view(final(self).channel_map@) == map_learned(map_view(old(self).channel_map@), channel_list@),
            final(self).channel_data@ == old(self).channel_data@,
            final(self).rows@ == old(self).rows@,
            final(self).date_handler == old(self).date_handler,
            final(self).reload_count == old(self).reload_count,
    {
        let mut map: Vec<(i64, String)> = Vec::new();
        std::mem::swap(&mut map, &mut self.channel_map);
        let ghost m0 = map_view(map@);
        let mut i: usize = 0;
        while i < channel_list.len()
            invariant
                i <= channel_list.len(),
                map_view(map@) == map_learned(m0, channel_list@.take(i as int)),
            decreases channel_list.len() - i,
        {
            proof {
                assert(channel_list@.take(i + 1).drop_last() =~= channel_list@.take(i as int));
                assert(channel_list@.take(i + 1).last() == channel_list@[i as int]);
                lemma_key_index(map@, channel_list@[i as int].channel_id);
                lemma_key_index(map_view(map@), channel_list@[i as int].channel_id);
                assert forall|j: int| 0 <= j < map@.len() implies (#[trigger] map@[j]).0 == map_view(map@)[j].0 by {}
            }
            let c = &channel_list[i];
            let known = find_key(&map, c.channel_id);
            proof {
                let mv = map_view(map@);
                if key_index(map@, c.channel_id) >= 0 {
                    let q = key_index(map@, c.channel_id);
                    assert(mv[q].0 == c.channel_id);
                } else {
                    assert(forall|j: int| 0 <= j < mv.len() ==> mv[j].0 != c.channel_id);
                }
            }
            if known.is_none() {
                let ghost before = map_view(map@);
                map.push((c.channel_id, c.channel_name.clone()));
                proof {
                    assert(map_view(map@) =~= before.push((c.channel_id, c.channel_name@)));
                }
            }
            i = i + 1;
        }
        proof {
            assert(channel_list@.take(channel_list.len() as int) =~= channel_list@);
        }
        self.channel_map = map;
    }
}

} // verus!
