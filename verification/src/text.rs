//! Character-level text helpers used by the formatting and word statistics.
use vstd::prelude::*;

verus! {

broadcast use vstd::string::group_string_axioms;

/// The characters of `s`, in order.
pub fn chars_of(s: &str) -> (r: Vec<char>)
    ensures
        r@ == s@,
{
    let mut out: Vec<char> = Vec::new();
    for c in it: s.chars()
        invariant
            it.seq() == s@,
            out@ == it.seq().take(it.index() as int),
    {
        out.push(c);
    }
    assert(out@ == s@);
    out
}

} // verus!

verus! {

/// Appends one character (`String::push`).
#[verifier::external_body]
pub(crate) fn push_char(s: &mut String, c: char)
    ensures
        final(s)@ == old(s)@.push(c),
{
    s.push(c);
}

/// A string holding `cs[lo..hi]`.
pub fn string_from_chars(cs: &Vec<char>, lo: usize, hi: usize) -> (r: String)
    requires
        lo <= hi <= cs.len(),
    ensures
        r@ == cs@.subrange(lo as int, hi as int),
{
    let mut out = String::new();
    let mut i = lo;
    while i < hi
        invariant
            lo <= i <= hi <= cs.len(),
            out@ == cs@.subrange(lo as int, i as int),
        decreases hi - i,
    {
        push_char(&mut out, cs[i]);
        assert(cs@.subrange(lo as int, i + 1) == cs@.subrange(lo as int, i as int).push(cs@[i as int]));
        i = i + 1;
    }
    out
}

/// Whether two strings hold the same characters.
pub fn same_text(a: &str, b: &str) -> (r: bool)
    ensures
        r == (a@ == b@),
{
    let x = chars_of(a);
    let y = chars_of(b);
    if x.len() != y.len() {
        return false;
    }
    let mut i: usize = 0;
    while i < x.len()
        invariant
            x@ == a@,
            y@ == b@,
            x.len() == y.len(),
            i <= x.len(),
            forall|j: int| 0 <= j < i ==> x@[j] == y@[j],
        decreases x.len() - i,
    {
        if x[i] != y[i] {
            return false;
        }
        i = i + 1;
    }
    assert(x@ =~= y@);
    true
}

/// `s` with every occurrence of `c` replaced by `rep`.
pub open spec fn replaced(s: Seq<char>, c: char, rep: Seq<char>) -> Seq<char>
    decreases s.len(),
{
    if s.len() == 0 {
        Seq::empty()
    } else {
        replaced(s.drop_last(), c, rep) + (if s.last() == c {
            rep
        } else {
            seq![s.last()]
        })
    }
}

/// `str::replace` with a single character pattern.
pub fn replace_char(s: &str, c: char, rep: &str) -> (r: String)
    ensures
        r@ == replaced(s@, c, rep@),
{
    let cs = chars_of(s);
    let mut out = String::new();
    let mut i: usize = 0;
    while i < cs.len()
        invariant
            cs@ == s@,
            i <= cs.len(),
            out@ == replaced(cs@.subrange(0, i as int), c, rep@),
        decreases cs.len() - i,
    {
        let ghost before = cs@.subrange(0, i as int);
        assert(cs@.subrange(0, i + 1).drop_last() == before);
        if cs[i] == c {
            out.append(rep);
        } else {
            push_char(&mut out, cs[i]);
        }
        i = i + 1;
    }
    assert(cs@.subrange(0, cs.len() as int) == s@);
    out
}

/// Appends a copy of a `String` to another.
pub fn append_string(s: &mut String, t: &String)
    ensures
        final(s)@ == old(s)@ + t@,
{
    s.append(t.as_str());
}

} // verus!

verus! {

/// The character of a decimal digit.
pub open spec fn digit_char(d: nat) -> char {
    if d == 0 { '0' } else if d == 1 { '1' } else if d == 2 { '2' } else if d == 3 { '3' }
    else if d == 4 { '4' } else if d == 5 { '5' } else if d == 6 { '6' } else if d == 7 { '7' }
    else if d == 8 { '8' } else { '9' }
}

/// The decimal digits of `n`, most significant first.
pub open spec fn digits_of(n: nat) -> Seq<char>
    decreases n,
{
    if n < 10 {
        seq![digit_char(n)]
    } else {
        digits_of(n / 10).push(digit_char(n % 10))
    }
}

/// The decimal text of `n` (`i64::to_string`): a minus sign before the digits
/// of a negative number.
pub open spec fn decimal_of(n: int) -> Seq<char> {
    if n < 0 {
        seq!['-'] + digits_of((-n) as nat)
    } else {
        digits_of(n as nat)
    }
}

fn digit(d: u64) -> (c: char)
    requires
        d < 10,
    ensures
        c == digit_char(d as nat),
{
    if d == 0 { '0' } else if d == 1 { '1' } else if d == 2 { '2' } else if d == 3 { '3' }
    else if d == 4 { '4' } else if d == 5 { '5' } else if d == 6 { '6' } else if d == 7 { '7' }
    else if d == 8 { '8' } else { '9' }
}

fn push_digits(s: &mut String, n: u64)
    ensures
        final(s)@ == old(s)@ + digits_of(n as nat),
    decreases n,
{
    if n >= 10 {
        push_digits(s, n / 10);
    }
    push_char(s, digit(n % 10));
    proof {
        if n >= 10 {
            assert(old(s)@ + digits_of(n as nat) =~= (old(s)@ + digits_of((n / 10) as nat)).push(digit_char((n % 10) as nat)));
        } else {
            assert(old(s)@ + digits_of(n as nat) =~= old(s)@.push(digit_char(n as nat)));
        }
    }
}

/// The decimal text of `n` (see [`decimal_of`]).
pub fn decimal_text(n: i64) -> (r: String)
    ensures
        r@ == decimal_of(n as int),
{
    let mut s = String::new();
    if n < 0 {
        push_char(&mut s, '-');
        let mag: u64 = (-(n + 1)) as u64 + 1;
        push_digits(&mut s, mag);
        assert(s@ =~= seq!['-'] + digits_of((-n) as nat));
    } else {
        push_digits(&mut s, n as u64);
        assert(s@ =~= digits_of(n as nat));
    }
    s
}

} // verus!

verus! {

/// The characters with the Unicode `White_Space` property (what
/// `char::is_whitespace` tests).
pub open spec fn white_space(c: char) -> bool {
    ('\u{9}' <= c && c <= '\u{d}') || c == ' ' || c == '\u{85}' || c == '\u{a0}' || c == '\u{1680}'
        || ('\u{2000}' <= c && c <= '\u{200a}') || c == '\u{2028}' || c == '\u{2029}' || c == '\u{202f}'
        || c == '\u{205f}' || c == '\u{3000}'
}

/// Whether a character is white space.
pub fn is_white_space(c: char) -> (r: bool)
    ensures
        r == white_space(c),
{
    ('\u{9}' <= c && c <= '\u{d}') || c == ' ' || c == '\u{85}' || c == '\u{a0}' || c == '\u{1680}'
        || ('\u{2000}' <= c && c <= '\u{200a}') || c == '\u{2028}' || c == '\u{2029}' || c == '\u{202f}'
        || c == '\u{205f}' || c == '\u{3000}'
}

/// The number of words: maximal runs of characters that are not white space
/// (what `str::split_whitespace` yields).
pub open spec fn words_in(s: Seq<char>) -> nat
    decreases s.len(),
{
    if s.len() == 0 {
        0
    } else {
        words_in(s.drop_last()) + if !white_space(s.last()) && (s.len() == 1 || white_space(s[s.len() - 2])) {
            1nat
        } else {
            0nat
        }
    }
}

/// Counts the words of a text (see [`words_in`]).
pub fn word_count(s: &str) -> (r: usize)
    ensures
        r == words_in(s@),
{
    let cs = chars_of(s);
    let mut n: usize = 0;
    let mut i: usize = 0;
    while i < cs.len()
        invariant
            cs@ == s@,
            i <= cs.len(),
            n == words_in(cs@.take(i as int)),
            n <= i,
        decreases cs.len() - i,
    {
        proof {
            let t = cs@.take(i + 1);
            assert(t.drop_last() =~= cs@.take(i as int));
            assert(t.last() == cs@[i as int]);
            if i > 0 {
                assert(t[t.len() - 2] == cs@[i - 1]);
            }
        }
        if !is_white_space(cs[i]) && (i == 0 || is_white_space(cs[i - 1])) {
            n = n + 1;
        }
        i = i + 1;
    }
    proof {
        assert(cs@.take(cs.len() as int) =~= cs@);
    }
    n
}

} // verus!

verus! {

/// The decimal text of an unsigned number (`u64::to_string`).
pub fn unsigned_text(n: u64) -> (r: String)
    ensures
        r@ == digits_of(n as nat),
{
    let mut s = String::new();
    push_digits(&mut s, n);
    assert(s@ =~= digits_of(n as nat));
    s
}

} // verus!
