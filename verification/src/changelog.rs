//! The change log shown on the start screen, read from the project's
//! CHANGELOG text.
use vstd::prelude::*;
use crate::text::{append_string, chars_of, push_char, replace_char, replaced, string_from_chars};

verus! {

/// The lines of a text: the pieces between line breaks (`split("\n")`).
pub open spec fn split_lines(s: Seq<char>) -> Seq<Seq<char>>
    decreases s.len(),
{
    if s.len() == 0 {
        seq![Seq::empty()]
    } else {
        let r = split_lines(s.drop_last());
        if s.last() == '\n' {
            r.push(Seq::empty())
        } else {
            r.update(r.len() - 1, r.last().push(s.last()))
        }
    }
}

pub proof fn lemma_split_lines_len(s: Seq<char>)
    ensures
        split_lines(s).len() >= 1,
    decreases s.len(),
{
    if s.len() > 0 {
        lemma_split_lines_len(s.drop_last());
    }
}

/// `s` with every occurrence of `pat`, left to right, removed.
pub open spec fn without(s: Seq<char>, pat: Seq<char>) -> Seq<char>
    decreases s.len(),
{
    if pat.len() > 0 && s.len() >= pat.len() && s.take(pat.len() as int) == pat {
        without(s.skip(pat.len() as int), pat)
    } else if s.len() == 0 {
        Seq::empty()
    } else {
        seq![s[0]] + without(s.drop_first(), pat)
    }
}

/// One entry of the change log: a version header and its lines.
pub struct ChangeLog {
    pub header: String,
    pub normal_text: String,
}

/// The reading state: the entries so far, the entry being read, and whether a
/// header was seen.
pub type LogState = (Seq<(Seq<char>, Seq<char>)>, (Seq<char>, Seq<char>), bool);

/// Reads one line: an empty line is skipped; a line starting with `##` starts
/// a new entry (the entry being read is kept when a header was seen before)
/// whose header is the line without `## `; any other line, with `*` shown as
/// `•`, is added to the entry's text.
pub open spec fn log_step(st: LogState, line: Seq<char>) -> LogState {
    if line.len() == 0 {
        st
    } else if line.len() >= 2 && line[0] == '#' && line[1] == '#' {
        let logs = if st.2 { st.0.push(st.1) } else { st.0 };
        let cur = if st.2 { (Seq::<char>::empty(), Seq::<char>::empty()) } else { st.1 };
        (logs, (without(line, "## "@), cur.1), true)
    } else {
        (st.0, (st.1.0, st.1.1 + replaced(line, '*', "•"@) + seq!['\n']), st.2)
    }
}

/// The state after reading the lines in order.
pub open spec fn log_read(lines: Seq<Seq<char>>) -> LogState
    decreases lines.len(),
{
    if lines.len() == 0 {
        (Seq::empty(), (Seq::empty(), Seq::empty()), false)
    } else {
        log_step(log_read(lines.drop_last()), lines.last())
    }
}

/// The change log entries of a CHANGELOG text: its lines after the first are
/// read in order (see [`log_step`]), and the last entry is kept.
pub open spec fn change_log_of(text: Seq<char>) -> Seq<(Seq<char>, Seq<char>)> {
    let st = log_read(split_lines(text).drop_first());
    st.0.push(st.1)
}

pub open spec fn logs_view(s: Seq<ChangeLog>) -> Seq<(Seq<char>, Seq<char>)> {
    s.map_values(|c: ChangeLog| (c.header@, c.normal_text@))
}

/// Splits a text into its lines (see [`split_lines`]).
fn lines_of(text: &str) -> (r: Vec<Vec<char>>)
    ensures
        r@.map_values(|l: Vec<char>| l@) == split_lines(text@),
{
    let cs = chars_of(text);
    let mut out: Vec<Vec<char>> = Vec::new();
    let mut cur: Vec<char> = Vec::new();
    let mut i: usize = 0;
    proof {
        assert(cs@.take(0) =~= Seq::<char>::empty());
    }
    while i < cs.len()
        invariant
            cs@ == text@,
            i <= cs.len(),
            out@.map_values(|l: Vec<char>| l@).push(cur@) == split_lines(cs@.take(i as int)),
        decreases cs.len() - i,
    {
        proof {
            assert(cs@.take(i + 1).drop_last() =~= cs@.take(i as int));
            assert(cs@.take(i + 1).last() == cs@[i as int]);
        }
        let ghost before = out@.map_values(|l: Vec<char>| l@);
        let ghost cur_before = cur@;
        if cs[i] == '\n' {
            let done = cur;
            cur = Vec::new();
            out.push(done);
            proof {
                assert(out@.map_values(|l: Vec<char>| l@) =~= before.push(cur_before));
                assert(out@.map_values(|l: Vec<char>| l@).push(cur@) =~= before.push(cur_before).push(Seq::empty()));
            }
        } else {
            cur.push(cs[i]);
            proof {
                let r = before.push(cur_before);
                assert(r.update(r.len() - 1, r.last().push(cs@[i as int])) =~= before.push(cur@));
            }
        }
        i = i + 1;
    }
    proof {
        assert(cs@.take(cs.len() as int) =~= cs@);
    }
    let ghost before = out@.map_values(|l: Vec<char>| l@);
    let ghost last = cur@;
    out.push(cur);
    proof {
        assert(out@.map_values(|l: Vec<char>| l@) =~= before.push(last));
    }
    out
}

/// `line` with every `## ` removed (see [`without`]).
fn strip_marks(line: &Vec<char>) -> (r: String)
    ensures
        r@ == without(line@, "## "@),
{
    proof {
        reveal_strlit("## ");
    }
    let mut out = String::new();
    let mut i: usize = 0;
    proof {
        assert(line@.skip(0) =~= line@);
        assert(out@ + without(line@, "## "@) =~= without(line@, "## "@));
    }
    while i < line.len()
        invariant
            i <= line.len(),
            "## "@ == seq!['#', '#', ' '],
            out@ + without(line@.skip(i as int), "## "@) == without(line@, "## "@),
        decreases line.len() - i,
    {
        let ghost rest = line@.skip(i as int);
        if line.len() - i >= 3 && line[i] == '#' && line[i + 1] == '#' && line[i + 2] == ' ' {
            proof {
                assert(rest.take(3) =~= seq!['#', '#', ' ']);
                assert(rest.skip(3) =~= line@.skip(i + 3));
            }
            i = i + 3;
        } else {
            proof {
                if rest.len() >= 3 && rest.take(3) == "## "@ {
                    assert(rest.take(3)[0] == line@[i as int]);
                    assert(rest.take(3)[1] == line@[i + 1]);
                    assert(rest.take(3)[2] == line@[i + 2]);
                }
                assert(rest.drop_first() =~= line@.skip(i + 1));
                assert(rest[0] == line@[i as int]);
            }
            let ghost before = out@;
            push_char(&mut out, line[i]);
            proof {
                assert(out@ + without(line@.skip(i + 1), "## "@) =~= before + (seq![line@[i as int]] + without(
                    line@.skip(i + 1),
                    "## "@,
                )));
            }
            i = i + 1;
        }
    }
    proof {
        assert(line@.skip(line.len() as int).len() == 0);
        assert(out@ + Seq::<char>::empty() =~= out@);
    }
    out
}

/// Reads the change log entries of a CHANGELOG text (see [`change_log_of`]).
pub fn get_change_log(text: &str) -> (r: Vec<ChangeLog>)
    ensures
        logs_view(r@) == change_log_of(text@),
{
    let lines = lines_of(text);
    let ghost ls = lines@.map_values(|l: Vec<char>| l@);
    proof {
        lemma_split_lines_len(text@);
    }
    let mut logs: Vec<ChangeLog> = Vec::new();
    let mut header = String::new();
    let mut body = String::new();
    let mut header_found = false;
    let mut i: usize = 1;
    proof {
        assert(ls.drop_first().take(0) =~= Seq::<Seq<char>>::empty());
    }
    while i < lines.len()
        invariant
            ls == lines@.map_values(|l: Vec<char>| l@),
            ls.len() >= 1,
            1 <= i <= lines.len(),
            log_read(ls.drop_first().take(i - 1)) == (logs_view(logs@), (header@, body@), header_found),
        decreases lines.len() - i,
    {
        proof {
            let d = ls.drop_first();
            assert(d.take(i as int).drop_last() =~= d.take(i - 1));
            assert(d.take(i as int).last() == ls[i as int]);
            assert(ls[i as int] == lines@[i as int]@);
        }
        let line = &lines[i];
        if line.len() == 0 {
        } else if line.len() >= 2 && line[0] == '#' && line[1] == '#' {
            if header_found {
                let ghost before = logs_view(logs@);
                let entry = ChangeLog { header, normal_text: body };
                logs.push(entry);
                assert(logs_view(logs@) =~= before.push((entry.header@, entry.normal_text@)));
                header = String::new();
                body = String::new();
            } else {
                header_found = true;
            }
            header = strip_marks(line);
        } else {
            let piece = string_from_chars(line, 0, line.len());
            proof {
                assert(line@.subrange(0, line.len() as int) =~= line@);
            }
            let shown = replace_char(piece.as_str(), '*', "•");
            append_string(&mut body, &shown);
            push_char(&mut body, '\n');
        }
        i = i + 1;
    }
    proof {
        assert(ls.drop_first().take(lines.len() - 1) =~= ls.drop_first());
    }
    let ghost before = logs_view(logs@);
    let entry = ChangeLog { header, normal_text: body };
    logs.push(entry);
    assert(logs_view(logs@) =~= before.push((entry.header@, entry.normal_text@)));
    logs
}

} // verus!
