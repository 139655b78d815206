//! The common words tab: how often each phrase of a chosen number of words
//! occurs in the messages of the selected dates and channels.
use vstd::prelude::*;
use crate::aggregate::{add_to_name, named_view, sums_by_name, wadd};
use crate::calendar::{day_of_time, time_to_day, valid_time};
use crate::chart_buckets::{counted_channel_ids, counted_channels, list_contains, selection_valid};
use crate::date_handler::DateHandler;
use crate::event_bus::EventBus;
use crate::guild_channel::Channel;
use crate::message_user::MessageWithUser;
use crate::overview::{published_once, reload_threshold};
use crate::response::PAGE_VALUE;
use crate::state::{AppEvent, WordColumn};
use crate::table_order::{int_order, order_ints, order_texts, text_order, RowOrder};
use crate::text::{append_string, chars_of, push_char, string_from_chars};

verus! {

/// Characters trimmed from the end of a word.
pub open spec fn trailing_mark(c: char) -> bool {
    c == '.' || c == ',' || c == '?' || c == '!'
}

/// A word without its trailing marks.
pub open spec fn trimmed(w: Seq<char>) -> Seq<char>
    decreases w.len(),
{
    if w.len() > 0 && trailing_mark(w.last()) {
        trimmed(w.drop_last())
    } else {
        w
    }
}

/// Words joined with single spaces.
pub open spec fn joined(ws: Seq<Seq<char>>) -> Seq<char>
    decreases ws.len(),
{
    if ws.len() == 0 {
        Seq::empty()
    } else if ws.len() == 1 {
        ws[0]
    } else {
        joined(ws.drop_last()) + seq![' '] + ws.last()
    }
}

/// The phrase of a window of words: the trimmed words joined; none when a
/// word is empty once trimmed.
pub open spec fn window_phrase(ws: Seq<Seq<char>>) -> Option<Seq<char>> {
    if exists|i: int| 0 <= i < ws.len() && trimmed(#[trigger] ws[i]).len() == 0 {
        None
    } else {
        Some(joined(ws.map_values(|w: Seq<char>| trimmed(w))))
    }
}

/// The phrases of the first `n` windows of `size` consecutive words.
pub open spec fn windows_upto(words: Seq<Seq<char>>, size: nat, n: nat) -> Seq<Seq<char>>
    decreases n,
{
    if n == 0 {
        Seq::empty()
    } else {
        let r = windows_upto(words, size, (n - 1) as nat);
        match window_phrase(words.subrange(n - 1, n - 1 + size)) {
            Some(p) => r.push(p),
            None => r,
        }
    }
}

/// The phrases of all windows of `size` consecutive words, in order.
pub open spec fn stripped_windows(words: Seq<Seq<char>>, size: nat) -> Seq<Seq<char>> {
    if words.len() < size {
        Seq::empty()
    } else {
        windows_upto(words, size, (words.len() - size + 1) as nat)
    }
}

pub open spec fn strs_view(v: Seq<&str>) -> Seq<Seq<char>> {
    v.map_values(|s: &str| s@)
}

pub open spec fn strings_view(v: Seq<String>) -> Seq<Seq<char>> {
    v.map_values(|s: String| s@)
}

/// A word without its trailing marks.
fn trim_marks(w: &str) -> (r: Vec<char>)
    ensures
        r@ == trimmed(w@),
{
    let mut cs = chars_of(w);
    while cs.len() > 0 && (cs[cs.len() - 1] == '.' || cs[cs.len() - 1] == ',' || cs[cs.len() - 1] == '?'
        || cs[cs.len() - 1] == '!')
        invariant
            trimmed(cs@) == trimmed(w@),
        decreases cs.len(),
    {
        cs.pop();
    }
    cs
}

/// The phrases of all windows of `window_size` consecutive words: each word
/// trimmed of trailing `.`, `,`, `?` and `!`, the words joined by spaces; a
/// window holding a word that is empty once trimmed is skipped.
pub fn get_stripped_windows(content: Vec<&str>, window_size: usize) -> (r: Vec<String>)
    requires
        window_size > 0,
    ensures
        strings_view(r@) == stripped_windows(strs_view(content@), window_size as nat),
{
    let ghost words = strs_view(content@);
    let mut out: Vec<String> = Vec::new();
    if content.len() < window_size {
        return out;
    }
    let n = content.len() - window_size + 1;
    let mut i: usize = 0;
    while i < n
        invariant
            words == strs_view(content@),
            window_size > 0,
            n == content.len() - window_size + 1,
            i <= n,
            strings_view(out@) == windows_upto(words, window_size as nat, i as nat),
        decreases n - i,
    {
        let ghost ws = words.subrange(i as int, i + window_size);
        let mut phrase = String::new();
        let mut ok = true;
        let mut j: usize = 0;
        while j < window_size && ok
            invariant
                words == strs_view(content@),
                ws == words.subrange(i as int, i + window_size),
                i + window_size <= content.len(),
                j <= window_size,
                ok ==> forall|q: int| 0 <= q < j ==> trimmed(#[trigger] ws[q]).len() > 0,
                ok ==> phrase@ == joined(ws.take(j as int).map_values(|w: Seq<char>| trimmed(w))),
                !ok ==> exists|q: int| 0 <= q < ws.len() && trimmed(#[trigger] ws[q]).len() == 0,
            decreases window_size - j, (if ok { 1int } else { 0int }),
        {
            let t = trim_marks(content[i + j]);
            assert(ws[j as int] == content@[i + j]@);
            if t.len() == 0 {
                ok = false;
            } else {
                let ghost before = phrase@;
                if j > 0 {
                    push_char(&mut phrase, ' ');
                }
                let piece = string_from_chars(&t, 0, t.len());
                append_string(&mut phrase, &piece);
                proof {
                    let f = |w: Seq<char>| trimmed(w);
                    let m1 = ws.take(j + 1).map_values(f);
                    assert(m1.drop_last() =~= ws.take(j as int).map_values(f));
                    assert(m1.last() == trimmed(ws[j as int]));
                    assert(t@.subrange(0, t.len() as int) =~= t@);
                    if j > 0 {
                        assert(phrase@ =~= before + seq![' '] + trimmed(ws[j as int]));
                    } else {
                        assert(m1.len() == 1);
                        assert(phrase@ =~= trimmed(ws[j as int]));
                    }
                }
                j = j + 1;
            }
        }
        proof {
            assert(words.subrange(i as int, i + window_size) == ws);
            if ok {
                assert(ws.take(window_size as int) =~= ws);
                assert(window_phrase(ws) == Some(phrase@));
            } else {
                assert(window_phrase(ws) is None);
            }
        }
        if ok {
            let ghost before = strings_view(out@);
            out.push(phrase);
            assert(strings_view(out@) =~= before.push(phrase@));
        }
        i = i + 1;
    }
    out
}

} // verus!

verus! {

/// The words of a text split at spaces, empty pieces left out
/// (`split(' ').filter(|s| !s.is_empty())`).
pub open spec fn space_split(s: Seq<char>) -> Seq<Seq<char>>
    decreases s.len(),
{
    if s.len() == 0 {
        Seq::empty()
    } else {
        let r = space_split(s.drop_last());
        let c = s.last();
        if c == ' ' {
            r
        } else if s.len() >= 2 && s[s.len() - 2] != ' ' {
            r.update(r.len() - 1, r.last().push(c))
        } else {
            r.push(seq![c])
        }
    }
}

pub proof fn lemma_space_split_last(s: Seq<char>)
    requires
        s.len() > 0,
        s.last() != ' ',
    ensures
        space_split(s).len() > 0,
    decreases s.len(),
{
    if s.len() >= 2 && s[s.len() - 2] != ' ' {
        lemma_space_split_last(s.drop_last());
    }
}

/// Splits a text at spaces (see [`space_split`]).
pub fn split_words(s: &str) -> (r: Vec<String>)
    ensures
        strings_view(r@) == space_split(s@),
{
    let cs = chars_of(s);
    let mut out: Vec<String> = Vec::new();
    let mut cur = String::new();
    let mut i: usize = 0;
    while i < cs.len()
        invariant
            cs@ == s@,
            i <= cs.len(),
            cur@.len() == 0 ==> strings_view(out@) == space_split(cs@.take(i as int)),
            cur@.len() > 0 ==> strings_view(out@).push(cur@) == space_split(cs@.take(i as int)),
            cur@.len() > 0 ==> i > 0 && cs@[i - 1] != ' ',
            cur@.len() == 0 ==> (i == 0 || cs@[i - 1] == ' '),
        decreases cs.len() - i,
    {
        let ghost p = cs@.take(i as int);
        let ghost q = cs@.take(i + 1);
        proof {
            assert(q.drop_last() =~= p);
            assert(q.last() == cs@[i as int]);
            if i > 0 {
                assert(q[q.len() - 2] == cs@[i - 1]);
            }
        }
        let c = cs[i];
        if c == ' ' {
            if !cur.as_str().is_empty() {
                let ghost before = strings_view(out@);
                let piece = cur;
                cur = String::new();
                out.push(piece);
                assert(strings_view(out@) =~= before.push(piece@));
            }
        } else {
            let ghost before = cur@;
            push_char(&mut cur, c);
            proof {
                if before.len() > 0 {
                    let r = space_split(p);
                    lemma_space_split_last(p);
                    assert(r == strings_view(out@).push(before));
                    assert(strings_view(out@).push(cur@) =~= r.update(r.len() - 1, r.last().push(c)));
                } else {
                    assert(before =~= Seq::<char>::empty());
                    assert(cur@ =~= seq![c]);
                    assert(strings_view(out@).push(cur@) =~= space_split(p).push(seq![c]));
                }
            }
        }
        i = i + 1;
    }
    proof {
        assert(cs@.take(cs.len() as int) =~= cs@);
    }
    if !cur.as_str().is_empty() {
        let ghost before = strings_view(out@);
        out.push(cur);
        assert(strings_view(out@) =~= before.push(cur@));
    }
    out
}

} // verus!

verus! {

/// Whether a table's selected cells are to be copied.
#[derive(Default)]
pub struct Config {
    pub copy_selected: bool,
}

/// A phrase and how often it occurs.
pub struct WordRowData {
    pub phrase: String,
    pub hits: u32,
}

impl WordRowData {
    /// A phrase not counted yet.
    pub fn new(phrase: String) -> (r: WordRowData)
        ensures
            r.phrase@ == phrase@,
            r.hits == 0,
    {
        WordRowData { phrase, hits: 0 }
    }

    /// One more occurrence (wrapping around on overflow).
    pub fn increase_hits(&mut self)
        ensures
            final(self).phrase@ == old(self).phrase@,
            final(self).hits == wadd(old(self).hits, 1),
    {
        self.hits = self.hits.wrapping_add(1);
    }
}

/// How two rows compare in a column (the table's sort order).
pub open spec fn word_order(col: WordColumn, a: (Seq<char>, u32), b: (Seq<char>, u32)) -> RowOrder {
    match col {
        WordColumn::Phrase => text_order(a.0, b.0),
        WordColumn::Hits => int_order(a.1 as int, b.1 as int),
    }
}

/// Compares two rows in a column.
pub fn order_by(col: WordColumn, row_1: &WordRowData, row_2: &WordRowData) -> (r: RowOrder)
    ensures
        r == word_order(col, (row_1.phrase@, row_1.hits), (row_2.phrase@, row_2.hits)),
{
    match col {
        WordColumn::Phrase => order_texts(&row_1.phrase, &row_2.phrase),
        WordColumn::Hits => order_ints(row_1.hits as i64, row_2.hits as i64),
    }
}

/// A stored message text: (day, channel, text).
pub type StoredText = (i32, i64, Seq<char>);

pub open spec fn texts_view(s: Seq<(i32, i64, String)>) -> Seq<StoredText> {
    s.map_values(|e: (i32, i64, String)| (e.0, e.1, e.2@))
}

/// Every phrase of the stored texts of the days within `h` and the counted
/// channels, each with one hit, in order.
pub open spec fn phrase_hits(s: Seq<StoredText>, h: DateHandler, counted: Set<i64>, size: nat) -> Seq<(Seq<char>, u32)>
    decreases s.len(),
{
    if s.len() == 0 {
        Seq::empty()
    } else {
        let r = phrase_hits(s.drop_last(), h, counted, size);
        let (d, c, t) = s.last();
        if h.spec_within_range(d as int) && counted.contains(c) {
            r + stripped_windows(space_split(t), size).map_values(|p: Seq<char>| (p, 1u32))
        } else {
            r
        }
    }
}

pub open spec fn word_rows_view(s: Seq<WordRowData>) -> Seq<(Seq<char>, u32)> {
    s.map_values(|r: WordRowData| (r.phrase@, r.hits))
}

/// The common words table of one guild.
pub struct WordTable {
    /// The rows the table shows.
    pub rows: Vec<WordRowData>,
    pub date_handler: DateHandler,
    pub reload_count: u64,
    /// The number of words in a phrase.
    pub window_size: usize,
    /// The stripped texts of the messages: (day, channel, text).
    pub stripped_contents: Vec<(i32, i64, String)>,
    pub channels: Vec<Channel>,
    pub selected_channels: Vec<usize>,
}

impl WordTable {
    /// No rows, texts or channels, phrases of one word, the date range at its
    /// start and no reload counted.
    pub open spec fn is_fresh(&self) -> bool {
        &&& self.rows@.len() == 0
        &&& self.date_handler == DateHandler::spec_default()
        &&& self.reload_count == 0
        &&& self.window_size == 1
        &&& self.stripped_contents@.len() == 0
        &&& self.channels@.len() == 0
        &&& self.selected_channels@.len() == 0
    }
}

impl Default for WordTable {
    fn default() -> (r: WordTable)
        ensures
            r.wf(),
            r.is_fresh(),
    {
        WordTable {
            rows: Vec::new(),
            date_handler: DateHandler::default(),
            reload_count: 0,
            window_size: 1,
            stripped_contents: Vec::new(),
            channels: Vec::new(),
            selected_channels: Vec::new(),
        }
    }
}

impl WordTable {
    /// Phrases hold at least one word.
    pub open spec fn wf(&self) -> bool {
        self.window_size > 0
    }

    /// What storing a message sent at the local time `local` did (see
    /// [`WordTable::handle_message`]).
    pub open spec fn message_stored(before: WordTable, after: WordTable, message: MessageWithUser, local: i64, bus0: Seq<AppEvent>, bus1: Seq<AppEvent>) -> bool {
        &&& after.rows@ =~= before.rows@
        &&& after.date_handler == before.date_handler
        &&& after.window_size == before.window_size
        &&& after.channels@ =~= before.channels@
        &&& after.selected_channels@ =~= before.selected_channels@
        &&& (message.message.delete_timestamp is Some || message.message.stripped_content is None) ==> {
            &&& texts_view(after.stripped_contents@) =~= texts_view(before.stripped_contents@)
            &&& after.reload_count == before.reload_count
            &&& bus1 =~= bus0
        }
        &&& (message.message.delete_timestamp is None && message.message.stripped_content is Some) ==> {
            &&& texts_view(after.stripped_contents@) =~= texts_view(before.stripped_contents@).push(
                (
                    day_of_time(local as int) as i32,
                    message.message.channel_id,
                    message.message.stripped_content->0@,
                ),
            )
            &&& after.reload_count == vstd::wrapping::u64_specs::wrapping_add(before.reload_count, 1)
            &&& bus1 =~= if after.reload_count >= reload_threshold() {
                published_once(bus0, AppEvent::WordTableNeedsReload(message.message.guild_id))
            } else {
                bus0
            }
        }
    }

    /// Stores the stripped text of a message (`local` is the local time of its
    /// sending) unless the message was deleted or has no stripped text. From
    /// [`reload_threshold`] stored messages on, the table asks to be reloaded.
    pub fn handle_message(&mut self, message: &MessageWithUser, local: i64, event_bus: &mut EventBus)
        requires
            valid_time(local as int),
        ensures
            WordTable::message_stored(*old(self), *final(self), *message, local, old(event_bus)@, final(event_bus)@),
    {
        if message.message.delete_timestamp.is_some() {
            return;
        }
        let text = match &message.message.stripped_content {
            Some(t) => t.clone(),
            None => {
                return;
            },
        };
        self.reload_count = self.reload_count.wrapping_add(1);
        let day = time_to_day(local);
        let ghost before = texts_view(self.stripped_contents@);
        self.stripped_contents.push((day, message.message.channel_id, text));
        assert(texts_view(self.stripped_contents@) =~= before.push(
            (day, message.message.channel_id, message.message.stripped_content->0@),
        ));
        if self.reload_count >= PAGE_VALUE * 5 {
            event_bus.publish_if_needed(AppEvent::WordTableNeedsReload(message.message.guild_id));
        }
    }

    /// Rebuilds the rows: every phrase of `window_size` words of the stored
    /// texts of the selected dates and channels, with its number of
    /// occurrences, phrases in order of first occurrence.
    pub fn create_rows(&mut self)
        requires
            old(self).wf(),
            selection_valid(old(self).channels@, old(self).selected_channels@),
        ensures
            final(self).wf(),
            word_rows_view(final(self).rows@) == sums_by_name(
                phrase_hits(
                    texts_view(old(self).stripped_contents@),
                    old(self).date_handler,
                    counted_channels(old(self).channels@, old(self).selected_channels@),
                    old(self).window_size as nat,
                ),
            ),
            final(self).reload_count == 0,
            final(self).stripped_contents@ == old(self).stripped_contents@,
            final(self).date_handler == old(self).date_handler,
            final(self).window_size == old(self).window_size,
            final(self).channels@ == old(self).channels@,
            final(self).selected_channels@ == old(self).selected_channels@,
    {
        self.reload_count = 0;
        let counted = counted_channel_ids(&self.channels, &self.selected_channels);
        let ghost sel = counted_channels(self.channels@, self.selected_channels@);
        let ghost s = texts_view(self.stripped_contents@);
        let h = self.date_handler;
        let size = self.window_size;
        let mut acc: Vec<(String, u32)> = Vec::new();
        let mut i: usize = 0;
        while i < self.stripped_contents.len()
            invariant
                s == texts_view(self.stripped_contents@),
                h == self.date_handler,
                size == self.window_size,
                size > 0,
                sel == counted_channels(self.channels@, self.selected_channels@),
                forall|c: i64| counted@.contains(c) <==> sel.contains(c),
                i <= self.stripped_contents.len(),
                named_view(acc@) == sums_by_name(phrase_hits(s.take(i as int), h, sel, size as nat)),
            decreases self.stripped_contents.len() - i,
        {
            proof {
                assert(s.take(i + 1).drop_last() =~= s.take(i as int));
                assert(s.take(i + 1).last() == s[i as int]);
            }
            let d = self.stripped_contents[i].0;
            let c = self.stripped_contents[i].1;
            if h.within_range(d) && list_contains(&counted, c) {
                let words = split_words(self.stripped_contents[i].2.as_str());
                let mut refs: Vec<&str> = Vec::new();
                let mut k: usize = 0;
                while k < words.len()
                    invariant
                        k <= words.len(),
                        strs_view(refs@) == strings_view(words@).take(k as int),
                    decreases words.len() - k,
                {
                    refs.push(words[k].as_str());
                    proof {
                        assert(strings_view(words@).take(k + 1) =~= strings_view(words@).take(k as int).push(words@[k as int]@));
                        assert(strs_view(refs@) =~= strings_view(words@).take(k + 1));
                    }
                    k = k + 1;
                }
                proof {
                    assert(strings_view(words@).take(words.len() as int) =~= strings_view(words@));
                }
                let phrases = get_stripped_windows(refs, size);
                let ghost base = phrase_hits(s.take(i as int), h, sel, size as nat);
                let ghost items = strings_view(phrases@).map_values(|p: Seq<char>| (p, 1u32));
                let mut j: usize = 0;
                while j < phrases.len()
                    invariant
                        j <= phrases.len(),
                        items == strings_view(phrases@).map_values(|p: Seq<char>| (p, 1u32)),
                        named_view(acc@) == sums_by_name(base + items.take(j as int)),
                    decreases phrases.len() - j,
                {
                    proof {
                        assert((base + items.take(j + 1)).drop_last() =~= base + items.take(j as int));
                        assert((base + items.take(j + 1)).last() == (phrases@[j as int]@, 1u32));
                    }
                    add_to_name(&mut acc, &phrases[j], 1);
                    j = j + 1;
                }
                proof {
                    assert(items.take(phrases.len() as int) =~= items);
                }
            }
            i = i + 1;
        }
        proof {
            assert(s.take(s.len() as int) =~= s);
        }
        let mut rows: Vec<WordRowData> = Vec::new();
        let mut k: usize = 0;
        while k < acc.len()
            invariant
                k <= acc.len(),
                word_rows_view(rows@) == named_view(acc@).take(k as int),
            decreases acc.len() - k,
        {
            let ghost before = word_rows_view(rows@);
            rows.push(WordRowData { phrase: acc[k].0.clone(), hits: acc[k].1 });
            proof {
                assert(word_rows_view(rows@) =~= before.push((acc@[k as int].0@, acc@[k as int].1)));
                assert(named_view(acc@).take(k + 1) =~= named_view(acc@).take(k as int).push(named_view(acc@)[k as int]));
            }
            k = k + 1;
        }
        proof {
            assert(named_view(acc@).take(acc.len() as int) =~= named_view(acc@));
        }
        self.rows = rows;
    }

    pub fn set_date_handler(&mut self, handler: DateHandler)
        ensures
            *final(self) == (WordTable { date_handler: handler, ..*old(self) }),
    {
        self.date_handler = handler;
    }

    pub fn set_channels(&mut self, channels: Vec<Channel>)
        ensures
            *final(self) == (WordTable { channels, ..*old(self) }),
    {
        self.channels = channels;
    }

    pub fn set_selected_channels(&mut self, selected: Vec<usize>)
        ensures
            *final(self) == (WordTable { selected_channels: selected, ..*old(self) }),
    {
        self.selected_channels = selected;
    }

    /// Sets the number of words in a phrase (the slider, 1 to 20); a change
    /// asks for a reload.
    pub fn set_window_size(&mut self, size: usize, guild_id: i64, event_bus: &mut EventBus)
        requires
            1 <= size <= 20,
        ensures
            *final(self) == (WordTable { window_size: size, ..*old(self) }),
            final(event_bus)@ == if size != old(self).window_size {
                old(event_bus)@.push(AppEvent::WordTableNeedsReload(guild_id))
            } else {
                old(event_bus)@
            },
    {
        if size != self.window_size {
            self.window_size = size;
            event_bus.publish(AppEvent::WordTableNeedsReload(guild_id));
        }
    }
}

} // verus!

verus! {

impl WordTable {
    /// Rebuilds the rows when the channel selection is valid (see
    /// [`WordTable::create_rows`]); returns whether it did. Without it,
    /// nothing changes.
    pub fn try_create_rows(&mut self) -> (r: bool)
        requires
            old(self).wf(),
        ensures
            final(self).wf(),
            r == selection_valid(old(self).channels@, old(self).selected_channels@),
            r ==> word_rows_view(final(self).rows@) == sums_by_name(
                phrase_hits(
                    texts_view(old(self).stripped_contents@),
                    old(self).date_handler,
                    counted_channels(old(self).channels@, old(self).selected_channels@),
                    old(self).window_size as nat,
                ),
            ) && final(self).reload_count == 0,
            !r ==> *final(self) == *old(self),
            final(self).stripped_contents@ == old(self).stripped_contents@,
            final(self).date_handler == old(self).date_handler,
            final(self).window_size == old(self).window_size,
            final(self).channels@ == old(self).channels@,
            final(self).selected_channels@ == old(self).selected_channels@,
    {
        if crate::message_chart::selection_ok(&self.channels, &self.selected_channels) {
            self.create_rows();
            true
        } else {
            false
        }
    }
}

} // verus!
