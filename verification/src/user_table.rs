//! The user table tab: per user, the messages, words and characters written,
//! their averages per message, and the first and last time the user was seen.
use vstd::prelude::*;
use crate::aggregate::wadd;
use crate::calendar::{day_of_time, time_to_day, valid_time};
use crate::channel_table::{max_i64, min_i64};
use crate::date_handler::DateHandler;
use crate::event_bus::EventBus;
use crate::message_user::MessageWithUser;
use crate::response::PAGE_VALUE;
use crate::state::{AppEvent, UserColumn};
use crate::table_order::{int_order, order_ints, order_texts, text_order, RowOrder};
use crate::text::{word_count, words_in};

verus! {

/// Whether a table's selected cells are to be copied.
#[derive(Default)]
pub struct Config {
    pub copy_selected: bool,
}

/// One user's row.
pub struct UserRowData {
    pub name: String,
    pub username: String,
    pub id: i64,
    pub total_message: u32,
    pub total_word: u32,
    pub total_char: u32,
    pub average_word: u32,
    pub average_char: u32,
    pub first_seen: i64,
    pub last_seen: i64,
}

/// A row as plain values: (name, username, id), (messages, words, characters,
/// average words, average characters), (first seen, last seen).
pub type UserRowView = ((Seq<char>, Seq<char>, i64), (u32, u32, u32, u32, u32), (i64, i64));

pub open spec fn user_row_view(r: UserRowData) -> UserRowView {
    (
        (r.name@, r.username@, r.id),
        (r.total_message, r.total_word, r.total_char, r.average_word, r.average_char),
        (r.first_seen, r.last_seen),
    )
}

impl UserRowData {
    /// A row with no messages, first and last seen at `date`.
    pub fn new(name: &str, username: &str, id: i64, date: i64) -> (r: UserRowData)
        ensures
            user_row_view(r) == ((name@, username@, id), (0u32, 0u32, 0u32, 0u32, 0u32), (date, date)),
    {
        UserRowData {
            name: String::from_str(name),
            username: String::from_str(username),
            id,
            total_message: 0,
            total_word: 0,
            total_char: 0,
            average_word: 0,
            average_char: 0,
            first_seen: date,
            last_seen: date,
        }
    }

    /// A copy of the row.
    pub fn duplicate(&self) -> (r: UserRowData)
        ensures
            user_row_view(r) == user_row_view(*self),
    {
        UserRowData {
            name: self.name.clone(),
            username: self.username.clone(),
            id: self.id,
            total_message: self.total_message,
            total_word: self.total_word,
            total_char: self.total_char,
            average_word: self.average_word,
            average_char: self.average_char,
            first_seen: self.first_seen,
            last_seen: self.last_seen,
        }
    }

    /// One more message (wrapping around on overflow).
    pub fn increment_total_message(&mut self)
        ensures
            *final(self) == (UserRowData { total_message: wadd(old(self).total_message, 1), ..*old(self) }),
    {
        self.total_message = self.total_message.wrapping_add(1);
    }

    /// `amount` more messages (wrapping around on overflow).
    pub fn increase_message_by(&mut self, amount: u32)
        ensures
            *final(self) == (UserRowData { total_message: wadd(old(self).total_message, amount), ..*old(self) }),
    {
        self.total_message = self.total_message.wrapping_add(amount);
    }

    /// `word_num` more words; the average per message follows.
    pub fn increment_total_word(&mut self, word_num: u32)
        requires
            old(self).total_message > 0,
        ensures
            *final(self) == (UserRowData {
                total_word: wadd(old(self).total_word, word_num),
                average_word: (wadd(old(self).total_word, word_num) / old(self).total_message) as u32,
                ..*old(self)
            }),
    {
        self.total_word = self.total_word.wrapping_add(word_num);
        self.average_word = self.total_word / self.total_message;
    }

    /// `char_num` more characters; the average per message follows.
    pub fn increment_total_char(&mut self, char_num: u32)
        requires
            old(self).total_message > 0,
        ensures
            *final(self) == (UserRowData {
                total_char: wadd(old(self).total_char, char_num),
                average_char: (wadd(old(self).total_char, char_num) / old(self).total_message) as u32,
                ..*old(self)
            }),
    {
        self.total_char = self.total_char.wrapping_add(char_num);
        self.average_char = self.total_char / self.total_message;
    }

    pub fn set_first_seen(&mut self, date: i64)
        ensures
            *final(self) == (UserRowData { first_seen: date, ..*old(self) }),
    {
        self.first_seen = date;
    }

    pub fn set_last_seen(&mut self, date: i64)
        ensures
            *final(self) == (UserRowData { last_seen: date, ..*old(self) }),
    {
        self.last_seen = date;
    }
}

/// How two rows compare in a column (the table's sort order).
pub open spec fn user_order(col: UserColumn, a: UserRowView, b: UserRowView) -> RowOrder {
    match col {
        UserColumn::Name => text_order(a.0.0, b.0.0),
        UserColumn::Username => text_order(a.0.1, b.0.1),
        UserColumn::UserID => int_order(a.0.2 as int, b.0.2 as int),
        UserColumn::TotalMessage => int_order(a.1.0 as int, b.1.0 as int),
        UserColumn::TotalWord => int_order(a.1.1 as int, b.1.1 as int),
        UserColumn::TotalChar => int_order(a.1.2 as int, b.1.2 as int),
        UserColumn::AverageWord => int_order(a.1.3 as int, b.1.3 as int),
        UserColumn::AverageChar => int_order(a.1.4 as int, b.1.4 as int),
        UserColumn::FirstMessageSeen => int_order(a.2.0 as int, b.2.0 as int),
        UserColumn::LastMessageSeen => int_order(a.2.1 as int, b.2.1 as int),
        _ => RowOrder::Equal,
    }
}

/// Compares two rows in a column; the columns this table does not fill compare equal.
pub fn order_by(col: UserColumn, row_1: &UserRowData, row_2: &UserRowData) -> (r: RowOrder)
    ensures
        r == user_order(col, user_row_view(*row_1), user_row_view(*row_2)),
{
    match col {
        UserColumn::Name => order_texts(&row_1.name, &row_2.name),
        UserColumn::Username => order_texts(&row_1.username, &row_2.username),
        UserColumn::UserID => order_ints(row_1.id, row_2.id),
        UserColumn::TotalMessage => order_ints(row_1.total_message as i64, row_2.total_message as i64),
        UserColumn::TotalWord => order_ints(row_1.total_word as i64, row_2.total_word as i64),
        UserColumn::TotalChar => order_ints(row_1.total_char as i64, row_2.total_char as i64),
        UserColumn::AverageWord => order_ints(row_1.average_word as i64, row_2.average_word as i64),
        UserColumn::AverageChar => order_ints(row_1.average_char as i64, row_2.average_char as i64),
        UserColumn::FirstMessageSeen => order_ints(row_1.first_seen, row_2.first_seen),
        UserColumn::LastMessageSeen => order_ints(row_1.last_seen, row_2.last_seen),
        _ => RowOrder::Equal,
    }
}

} // verus!

verus! {

/// The text of a message (empty when it has none).
pub open spec fn content_of(c: Option<String>) -> Seq<char> {
    match c {
        Some(s) => s@,
        None => Seq::empty(),
    }
}

/// The length in bytes (UTF-8) of a text.
pub open spec fn byte_len(s: Seq<char>) -> nat {
    vstd::utf8::encode_utf8(s).len()
}

/// The stored rows as plain values: (day, row).
pub open spec fn user_entries_view(s: Seq<(i32, UserRowData)>) -> Seq<(i32, UserRowView)> {
    s.map_values(|e: (i32, UserRowData)| (e.0, user_row_view(e.1)))
}

/// The position of the first row of user `id` on `day`, or -1.
pub open spec fn user_entry_index(s: Seq<(i32, UserRowView)>, day: i32, id: i64) -> int
    decreases s.len(),
{
    if s.len() == 0 {
        -1
    } else if user_entry_index(s.drop_last(), day, id) >= 0 {
        user_entry_index(s.drop_last(), day, id)
    } else if s.last().0 == day && s.last().1.0.2 == id {
        s.len() - 1
    } else {
        -1
    }
}

pub proof fn lemma_user_entry_index(s: Seq<(i32, UserRowView)>, day: i32, id: i64)
    ensures
        -1 <= user_entry_index(s, day, id) < s.len(),
        user_entry_index(s, day, id) >= 0 ==> s[user_entry_index(s, day, id)].0 == day
            && s[user_entry_index(s, day, id)].1.0.2 == id,
        user_entry_index(s, day, id) < 0 ==> forall|j: int|
            0 <= j < s.len() ==> !(#[trigger] s[j].0 == day && s[j].1.0.2 == id),
    decreases s.len(),
{
    if s.len() > 0 {
        let t = s.drop_last();
        lemma_user_entry_index(t, day, id);
        assert forall|j: int| 0 <= j < t.len() implies t[j] == s[j] by {}
    }
}

/// A row after one more message of `words` words and `chars` characters at `t`.
pub open spec fn message_counted(r: UserRowView, t: i64, words: u32, chars: u32) -> UserRowView {
    let tm = wadd(r.1.0, 1);
    let tw = wadd(r.1.1, words);
    let tc = wadd(r.1.2, chars);
    (r.0, (tm, tw, tc, (tw / tm) as u32, (tc / tm) as u32), (min_i64(r.2.0, t), max_i64(r.2.1, t)))
}

/// The stored rows after one message of the user `id` (shown as `name` and
/// `username`) at `t` on `day`: the user's row of that day (created when
/// missing) counts it.
pub open spec fn user_recorded(
    s: Seq<(i32, UserRowView)>,
    day: i32,
    name: Seq<char>,
    username: Seq<char>,
    id: i64,
    t: i64,
    words: u32,
    chars: u32,
) -> Seq<(i32, UserRowView)> {
    let i = user_entry_index(s, day, id);
    let base = if i >= 0 {
        s
    } else {
        s.push((day, ((name, username, id), (0u32, 0u32, 0u32, 0u32, 0u32), (t, t))))
    };
    let j = if i >= 0 { i } else { s.len() as int };
    base.update(j, (day, message_counted(base[j].1, t, words, chars)))
}

/// The position of the row of user `id`, or -1.
pub open spec fn user_row_index(s: Seq<UserRowView>, id: i64) -> int
    decreases s.len(),
{
    if s.len() == 0 {
        -1
    } else if user_row_index(s.drop_last(), id) >= 0 {
        user_row_index(s.drop_last(), id)
    } else if s.last().0.2 == id {
        s.len() - 1
    } else {
        -1
    }
}

pub proof fn lemma_user_row_index(s: Seq<UserRowView>, id: i64)
    ensures
        -1 <= user_row_index(s, id) < s.len(),
        user_row_index(s, id) >= 0 ==> s[user_row_index(s, id)].0.2 == id,
        user_row_index(s, id) < 0 ==> forall|j: int| 0 <= j < s.len() ==> (#[trigger] s[j]).0.2 != id,
    decreases s.len(),
{
    if s.len() > 0 {
        let t = s.drop_last();
        lemma_user_row_index(t, id);
        assert forall|j: int| 0 <= j < t.len() implies t[j] == s[j] by {}
    }
}

/// Two rows of one user joined: counts added, averages recomputed, times widened.
pub open spec fn user_rows_joined(a: UserRowView, r: UserRowView) -> UserRowView {
    let tm = wadd(a.1.0, r.1.0);
    let tw = wadd(a.1.1, r.1.1);
    let tc = wadd(a.1.2, r.1.2);
    (a.0, (tm, tw, tc, (tw / tm) as u32, (tc / tm) as u32), (min_i64(a.2.0, r.2.0), max_i64(a.2.1, r.2.1)))
}

/// The table rows: the stored rows of the days within `h`, one row per user in
/// order of first appearance, the rows of a user joined.
pub open spec fn user_rows(s: Seq<(i32, UserRowView)>, h: DateHandler) -> Seq<UserRowView>
    decreases s.len(),
{
    if s.len() == 0 {
        Seq::empty()
    } else {
        let acc = user_rows(s.drop_last(), h);
        let (d, r) = s.last();
        if !h.spec_within_range(d as int) {
            acc
        } else {
            let k = user_row_index(acc, r.0.2);
            if k >= 0 {
                acc.update(k, user_rows_joined(acc[k], r))
            } else {
                acc.push(r)
            }
        }
    }
}

/// The messages of the stored rows within `h` (plain sum).
pub open spec fn messages_within(s: Seq<(i32, UserRowView)>, h: DateHandler) -> int
    decreases s.len(),
{
    if s.len() == 0 {
        0
    } else {
        messages_within(s.drop_last(), h) + if h.spec_within_range(s.last().0 as int) {
            s.last().1.1.0 as int
        } else {
            0
        }
    }
}

pub open spec fn user_rows_view(s: Seq<UserRowData>) -> Seq<UserRowView> {
    s.map_values(|r: UserRowData| user_row_view(r))
}

/// The user table of one guild.
pub struct UserTable {
    /// One row per day and user.
    pub user_data: Vec<(i32, UserRowData)>,
    /// The rows the table shows.
    pub rows: Vec<UserRowData>,
    pub date_handler: DateHandler,
    pub total_message: u32,
    pub reload_count: u64,
}

impl UserTable {
    /// No data or rows, no message counted, the date range at its start and
    /// no reload counted.
    pub open spec fn is_fresh(&self) -> bool {
        &&& self.user_data@.len() == 0
        &&& self.rows@.len() == 0
        &&& self.date_handler == DateHandler::spec_default()
        &&& self.total_message == 0
        &&& self.reload_count == 0
    }
}

impl Default for UserTable {
    fn default() -> (r: UserTable)
        ensures
            r.wf(),
            r.is_fresh(),
    {
        UserTable {
            user_data: Vec::new(),
            rows: Vec::new(),
            date_handler: DateHandler::default(),
            total_message: 0,
            reload_count: 0,
        }
    }
}

impl UserTable {
    /// Every stored row counts at least one message.
    pub open spec fn wf(&self) -> bool {
        forall|i: int| 0 <= i < self.user_data@.len() ==> #[trigger] self.user_data@[i].1.total_message >= 1
    }

    /// Room for one more message of user `id` on `day`.
    pub open spec fn can_count(&self, day: i32, id: i64) -> bool {
        let s = user_entries_view(self.user_data@);
        user_entry_index(s, day, id) >= 0 ==> s[user_entry_index(s, day, id)].1.1.0 < u32::MAX
    }

    /// What counting `message` did: its sender's row of the message's day
    /// gained it, the date span widened to its day (announced with
    /// `UpdateDate` when it grew), and every 15000th message rebuilt the rows.
    pub open spec fn message_handled(
        before: UserTable,
        after: UserTable,
        message: MessageWithUser,
        bus0: Seq<AppEvent>,
        bus1: Seq<AppEvent>,
    ) -> bool {
        let t = message.message.message_timestamp;
        let day = day_of_time(t as int) as i32;
        let (h, grew) = before.date_handler.spec_update_dates(day);
        let text = content_of(message.message.message_content);
        let name = match message.sender.global_name {
            Some(g) => g@,
            None => message.sender.username@,
        };
        let recorded = user_recorded(
            user_entries_view(before.user_data@),
            day,
            name,
            message.sender.username@,
            message.sender.user_id,
            t,
            words_in(text) as u32,
            (byte_len(text) as usize) as u32,
        );
        &&& user_entries_view(after.user_data@) =~= recorded
        &&& after.date_handler == h
        &&& bus1 =~= if grew {
            bus0.push(AppEvent::UpdateDate(day, message.message.guild_id))
        } else {
            bus0
        }
        &&& wadd64u(before.reload_count) == (15000u64) ==> user_rows_view(after.rows@)
            =~= user_rows(recorded, h) && after.reload_count == 0 && after.total_message == messages_within(recorded, h)
        &&& wadd64u(before.reload_count) != (15000u64) ==> after.rows@ =~= before.rows@
            && after.reload_count == wadd64u(before.reload_count)
            && after.total_message == before.total_message
    }

    /// Counts a message sent at `message_timestamp` (read as a UTC wall-clock
    /// time) in its sender's row of that day: messages, words, characters (in
    /// bytes), first and last time seen. A newly seen day widens the date span,
    /// which is announced with `UpdateDate`; every 15000 messages the rows are
    /// rebuilt.
    #[verifier::spinoff_prover]
    #[verifier::rlimit(50)]
    pub fn handle_message(&mut self, message: MessageWithUser, event_bus: &mut EventBus)
        requires
            old(self).wf(),
            valid_time(message.message.message_timestamp as int),
            old(self).can_count(
                day_of_time(message.message.message_timestamp as int) as i32,
                message.sender.user_id,
            ),
            wadd64u(old(self).reload_count) == 15000u64 ==> messages_within(
                user_entries_view(old(self).user_data@),
                old(self).date_handler.spec_update_dates(day_of_time(message.message.message_timestamp as int) as i32).0,
            ) < u32::MAX,
        ensures
            final(self).wf(),
            UserTable::message_handled(*old(self), *final(self), message, old(event_bus)@, final(event_bus)@),
    {
        self.reload_count = self.reload_count.wrapping_add(1);
        let t = message.message.message_timestamp;
        let day = time_to_day(t);
        let user_id = message.sender.user_id;
        let text = match &message.message.message_content {
            Some(s) => s.as_str(),
            None => "",
        };
        proof {
            reveal_strlit("");
        }
        let words = word_count(text) as u32;
        let chars = text.len() as u32;
        let ghost s = user_entries_view(self.user_data@);
        proof {
            lemma_user_entry_index(s, day, user_id);
        }
        let mut idx: usize = 0;
        while idx < self.user_data.len() && !(self.user_data[idx].0 == day && self.user_data[idx].1.id == user_id)
            invariant
                s == user_entries_view(self.user_data@),
                idx <= self.user_data.len(),
                forall|j: int| 0 <= j < idx ==> !(#[trigger] s[j].0 == day && s[j].1.0.2 == user_id),
            decreases self.user_data.len() - idx,
        {
            idx = idx + 1;
        }
        proof {
            if idx < self.user_data.len() {
                assert(s[idx as int].0 == day && s[idx as int].1.0.2 == user_id);
                lemma_first_user_entry(s, day, user_id, idx as int);
            } else {
                assert(user_entry_index(s, day, user_id) < 0);
            }
        }
        if idx == self.user_data.len() {
            let name = match &message.sender.global_name {
                Some(g) => g.as_str(),
                None => message.sender.username.as_str(),
            };
            let row = UserRowData::new(name, message.sender.username.as_str(), user_id, t);
            self.user_data.push((day, row));
        }
        let ghost base = user_entries_view(self.user_data@);
        let ghost stored = self.user_data@;
        let (d, mut row) = self.user_data.remove(idx);
        if row.first_seen > t {
            row.set_first_seen(t);
        }
        if row.last_seen < t {
            row.set_last_seen(t);
        }
        if self.date_handler.update_dates(day) {
            event_bus.publish(AppEvent::UpdateDate(day, message.message.guild_id));
        }
        row.increment_total_message();
        row.increment_total_word(words);
        row.increment_total_char(chars);
        self.user_data.insert(idx, (d, row));
        proof {
            assert(user_entries_view(self.user_data@) =~= base.update(idx as int, (day, user_row_view(row))));
            assert forall|i: int| 0 <= i < self.user_data@.len() implies #[trigger] self.user_data@[i].1.total_message >= 1 by {
                if i != idx as int {
                    assert(self.user_data@[i] == stored[i]);
                }
            }
        }
        if self.reload_count == PAGE_VALUE * 3 {
            proof {
                lemma_messages_update(base, idx as int, (day, user_row_view(row)), self.date_handler);
                if idx == old(self).user_data.len() {
                    lemma_messages_push(s, (day, base[idx as int].1), self.date_handler);
                    assert(base =~= s.push((day, base[idx as int].1)));
                } else {
                    assert(base == s);
                }
            }
            self.create_rows();
        }
    }
}

proof fn lemma_messages_update(s: Seq<(i32, UserRowView)>, j: int, e: (i32, UserRowView), h: DateHandler)
    requires
        0 <= j < s.len(),
    ensures
        messages_within(s.update(j, e), h) == messages_within(s, h) - (if h.spec_within_range(s[j].0 as int) {
            s[j].1.1.0 as int
        } else {
            0
        }) + (if h.spec_within_range(e.0 as int) {
            e.1.1.0 as int
        } else {
            0
        }),
    decreases s.len(),
{
    let t = s.update(j, e);
    if j < s.len() - 1 {
        lemma_messages_update(s.drop_last(), j, e, h);
        assert(t.drop_last() =~= s.drop_last().update(j, e));
    } else {
        assert(t.drop_last() =~= s.drop_last());
    }
}

proof fn lemma_messages_push(s: Seq<(i32, UserRowView)>, e: (i32, UserRowView), h: DateHandler)
    ensures
        messages_within(s.push(e), h) == messages_within(s, h) + (if h.spec_within_range(e.0 as int) {
            e.1.1.0 as int
        } else {
            0
        }),
{
    assert(s.push(e).drop_last() =~= s);
}

/// The first matching entry is the first in the list.
proof fn lemma_first_user_entry(s: Seq<(i32, UserRowView)>, day: i32, id: i64, i: int)
    requires
        0 <= i < s.len(),
        s[i].0 == day && s[i].1.0.2 == id,
        forall|j: int| 0 <= j < i ==> !(#[trigger] s[j].0 == day && s[j].1.0.2 == id),
    ensures
        user_entry_index(s, day, id) == i,
    decreases s.len(),
{
    if i < s.len() - 1 {
        lemma_first_user_entry(s.drop_last(), day, id, i);
    } else {
        lemma_user_entry_index(s.drop_last(), day, id);
        if user_entry_index(s.drop_last(), day, id) >= 0 {
            let q = user_entry_index(s.drop_last(), day, id);
            assert(s.drop_last()[q] == s[q]);
        }
    }
}

/// Wrapping increment of the reload counter.
pub open spec fn wadd64u(a: u64) -> u64 {
    vstd::wrapping::u64_specs::wrapping_add(a, 1)
}

} // verus!

verus! {

pub proof fn lemma_messages_prefix(s: Seq<(i32, UserRowView)>, h: DateHandler, i: int)
    requires
        0 <= i <= s.len(),
    ensures
        0 <= messages_within(s.take(i), h) <= messages_within(s, h),
    decreases s.len() - i,
{
    if i < s.len() {
        lemma_messages_prefix(s, h, i + 1);
        assert(s.take(i + 1).drop_last() =~= s.take(i));
    } else {
        assert(s.take(i) =~= s);
    }
    lemma_messages_nonneg(s.take(i), h);
}

pub proof fn lemma_messages_nonneg(s: Seq<(i32, UserRowView)>, h: DateHandler)
    ensures
        messages_within(s, h) >= 0,
    decreases s.len(),
{
    if s.len() > 0 {
        lemma_messages_nonneg(s.drop_last(), h);
    }
}

impl UserTable {
    /// Rebuilds the table rows from the stored rows of the selected dates (see
    /// [`user_rows`]), sums their messages and clears the reload counter. The
    /// message total is a `u32`, so at most `u32::MAX` messages can be summed.
    pub fn create_rows(&mut self)
        requires
            old(self).wf(),
            messages_within(user_entries_view(old(self).user_data@), old(self).date_handler) <= u32::MAX,
        ensures
            final(self).wf(),
            user_rows_view(final(self).rows@) == user_rows(user_entries_view(old(self).user_data@), old(self).date_handler),
            final(self).total_message == messages_within(user_entries_view(old(self).user_data@), old(self).date_handler),
            final(self).reload_count == 0,
            final(self).user_data@ == old(self).user_data@,
            final(self).date_handler == old(self).date_handler,
    {
        self.reload_count = 0;
        let ghost s = user_entries_view(self.user_data@);
        let h = self.date_handler;
        let mut rows: Vec<UserRowData> = Vec::new();
        let mut total: u32 = 0;
        let mut i: usize = 0;
        while i < self.user_data.len()
            invariant
                s == user_entries_view(self.user_data@),
                h == self.date_handler,
                self.wf(),
                messages_within(s, h) <= u32::MAX,
                i <= self.user_data.len(),
                user_rows_view(rows@) == user_rows(s.take(i as int), h),
                total == messages_within(s.take(i as int), h),
                forall|k: int| 0 <= k < rows@.len() ==> 1 <= #[trigger] rows@[k].total_message <= messages_within(
                    s.take(i as int),
                    h,
                ),
            decreases self.user_data.len() - i,
        {
            proof {
                assert(s.take(i + 1).drop_last() =~= s.take(i as int));
                assert(s.take(i + 1).last() == s[i as int]);
                lemma_messages_prefix(s, h, i + 1);
                lemma_messages_prefix(s, h, i as int);
                assert(self.user_data@[i as int].1.total_message >= 1);
            }
            let d = self.user_data[i].0;
            if h.within_range(d) {
                let r = &self.user_data[i].1;
                total = total + r.total_message;
                let ghost acc = user_rows_view(rows@);
                let ghost before = rows@;
                proof {
                    lemma_user_row_index(acc, r.id);
                }
                let mut k: usize = 0;
                while k < rows.len() && rows[k].id != r.id
                    invariant
                        acc == user_rows_view(rows@),
                        k <= rows.len(),
                        forall|j: int| 0 <= j < k ==> (#[trigger] acc[j]).0.2 != r.id,
                    decreases rows.len() - k,
                {
                    k = k + 1;
                }
                if k < rows.len() {
                    proof {
                        assert(acc[k as int].0.2 == r.id);
                        lemma_first_user_row(acc, r.id, k as int);
                    }
                    let mut target = rows.remove(k);
                    if target.first_seen > r.first_seen {
                        target.set_first_seen(r.first_seen);
                    }
                    if target.last_seen < r.last_seen {
                        target.set_last_seen(r.last_seen);
                    }
                    target.increase_message_by(r.total_message);
                    target.increment_total_word(r.total_word);
                    target.increment_total_char(r.total_char);
                    rows.insert(k, target);
                    proof {
                        assert(user_rows_view(rows@) =~= acc.update(k as int, user_rows_joined(acc[k as int], user_row_view(*r))));
                        assert forall|q: int| 0 <= q < rows@.len() implies 1 <= #[trigger] rows@[q].total_message
                            <= messages_within(s.take(i + 1), h) by {
                            if q != k as int {
                                assert(rows@[q] == before[q]);
                            }
                        }
                    }
                } else {
                    proof {
                        assert(user_row_index(acc, r.id) < 0);
                    }
                    rows.push(r.duplicate());
                    proof {
                        assert(user_rows_view(rows@) =~= acc.push(user_row_view(*r)));
                        assert forall|q: int| 0 <= q < rows@.len() implies 1 <= #[trigger] rows@[q].total_message
                            <= messages_within(s.take(i + 1), h) by {
                            if q < before.len() {
                                assert(rows@[q] == before[q]);
                            }
                        }
                    }
                }
            }
            i = i + 1;
        }
        proof {
            assert(s.take(s.len() as int) =~= s);
        }
        self.rows = rows;
        self.total_message = total;
    }
}

/// The first row of a user is the first in the list.
proof fn lemma_first_user_row(s: Seq<UserRowView>, id: i64, i: int)
    requires
        0 <= i < s.len(),
        s[i].0.2 == id,
        forall|j: int| 0 <= j < i ==> (#[trigger] s[j]).0.2 != id,
    ensures
        user_row_index(s, id) == i,
    decreases s.len(),
{
    if i < s.len() - 1 {
        lemma_first_user_row(s.drop_last(), id, i);
    } else {
        lemma_user_row_index(s.drop_last(), id);
        if user_row_index(s.drop_last(), id) >= 0 {
            let q = user_row_index(s.drop_last(), id);
            assert(s.drop_last()[q] == s[q]);
        }
    }
}

} // verus!

verus! {

impl UserTable {
    pub fn set_date_handler(&mut self, handler: DateHandler)
        ensures
            *final(self) == (UserTable { date_handler: handler, ..*old(self) }),
    {
        self.date_handler = handler;
    }

    /// Whether the messages of the selected dates fit the `u32` total.
    pub fn rows_fit(&self) -> (r: bool)
        ensures
            r == (messages_within(user_entries_view(self.user_data@), self.date_handler) <= u32::MAX),
    {
        self.messages_at_most(self.date_handler, 4294967295u64)
    }

    /// Whether the stored messages of the dates within `h` are at most `bound`.
    pub fn messages_at_most(&self, h: DateHandler, bound: u64) -> (r: bool)
        requires
            bound <= u32::MAX,
        ensures
            r == (messages_within(user_entries_view(self.user_data@), h) <= bound),
    {
        let ghost s = user_entries_view(self.user_data@);
        let mut sum: u64 = 0;
        let mut i: usize = 0;
        proof {
            assert(s.take(0) =~= Seq::<(i32, UserRowView)>::empty());
        }
        while i < self.user_data.len()
            invariant
                s == user_entries_view(self.user_data@),
                bound <= u32::MAX,
                i <= self.user_data.len(),
                sum == messages_within(s.take(i as int), h),
                sum <= bound,
            decreases self.user_data.len() - i,
        {
            proof {
                assert(s.take(i + 1).drop_last() =~= s.take(i as int));
                assert(s.take(i + 1).last() == s[i as int]);
            }
            if h.within_range(self.user_data[i].0) {
                sum = sum + self.user_data[i].1.total_message as u64;
                if sum > bound {
                    proof {
                        lemma_messages_prefix(s, h, i + 1);
                    }
                    return false;
                }
            }
            i = i + 1;
        }
        proof {
            assert(s.take(s.len() as int) =~= s);
        }
        true
    }

    /// Rebuilds the rows when their message total fits (see
    /// [`UserTable::create_rows`]); returns whether it did. Without it,
    /// nothing changes.
    pub fn try_create_rows(&mut self) -> (r: bool)
        requires
            old(self).wf(),
        ensures
            final(self).wf(),
            r == (messages_within(user_entries_view(old(self).user_data@), old(self).date_handler) <= u32::MAX),
            r ==> user_rows_view(final(self).rows@) == user_rows(user_entries_view(old(self).user_data@), old(self).date_handler)
                && final(self).total_message == messages_within(user_entries_view(old(self).user_data@), old(self).date_handler)
                && final(self).reload_count == 0,
            !r ==> *final(self) == *old(self),
            final(self).user_data@ == old(self).user_data@,
            final(self).date_handler == old(self).date_handler,
    {
        if self.rows_fit() {
            self.create_rows();
            true
        } else {
            false
        }
    }
}

} // verus!

verus! {

impl UserTable {
    /// Whether [`UserTable::handle_message`] can count this message: its time
    /// can be represented, its sender's row of the day has room, and a rebuild
    /// it would start can sum its rows.
    pub open spec fn can_handle(&self, message: MessageWithUser) -> bool {
        let t = message.message.message_timestamp;
        let day = day_of_time(t as int) as i32;
        &&& valid_time(t as int)
        &&& self.can_count(day, message.sender.user_id)
        &&& wadd64u(self.reload_count) == 15000u64 ==> messages_within(
            user_entries_view(self.user_data@),
            self.date_handler.spec_update_dates(day).0,
        ) < u32::MAX
    }

    /// Counts the message when it can be counted (see [`UserTable::can_handle`]);
    /// returns whether it did. Without it, nothing changes.
    pub fn try_handle_message(&mut self, message: MessageWithUser, event_bus: &mut EventBus) -> (r: bool)
        requires
            old(self).wf(),
        ensures
            final(self).wf(),
            r == old(self).can_handle(message),
            r ==> UserTable::message_handled(*old(self), *final(self), message, old(event_bus)@, final(event_bus)@),
            !r ==> *final(self) == *old(self) && final(event_bus)@ == old(event_bus)@,
    {
        let t = message.message.message_timestamp;
        if t < -96465293i64 * 86400 || t >= 95026237i64 * 86400 {
            return false;
        }
        let day = time_to_day(t);
        let ghost s = user_entries_view(self.user_data@);
        proof {
            lemma_user_entry_index(s, day, message.sender.user_id);
        }
        let mut idx: usize = 0;
        while idx < self.user_data.len() && !(self.user_data[idx].0 == day
            && self.user_data[idx].1.id == message.sender.user_id)
            invariant
                s == user_entries_view(self.user_data@),
                idx <= self.user_data.len(),
                forall|j: int| 0 <= j < idx ==> !(#[trigger] s[j].0 == day && s[j].1.0.2 == message.sender.user_id),
            decreases self.user_data.len() - idx,
        {
            idx = idx + 1;
        }
        if idx < self.user_data.len() {
            proof {
                lemma_first_user_entry(s, day, message.sender.user_id, idx as int);
            }
            if self.user_data[idx].1.total_message == u32::MAX {
                return false;
            }
        } else {
            assert(user_entry_index(s, day, message.sender.user_id) < 0);
        }
        if self.reload_count.wrapping_add(1) == 15000 {
            let mut h = self.date_handler;
            h.update_dates(day);
            if !self.messages_at_most(h, 4294967294u64) {
                return false;
            }
        }
        self.handle_message(message, event_bus);
        true
    }
}

} // verus!
