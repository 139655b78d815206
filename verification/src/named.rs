//! Lists of `(name, value)` pairs kept sorted by name, like a `BTreeMap<String, _>`:
//! names compare character by character (code point order, the order of `String`).
use vstd::prelude::*;
use crate::aggregate::{name_index, lemma_name_index};

verus! {

/// `a` comes before `b`.
pub open spec fn name_lt(a: Seq<char>, b: Seq<char>) -> bool
    decreases a.len(),
{
    if a.len() == 0 {
        b.len() > 0
    } else if b.len() == 0 {
        false
    } else if a[0] != b[0] {
        a[0] < b[0]
    } else {
        name_lt(a.drop_first(), b.drop_first())
    }
}

pub proof fn lemma_name_lt_order(a: Seq<char>, b: Seq<char>)
    ensures
        !(name_lt(a, b) && name_lt(b, a)),
        a != b ==> name_lt(a, b) || name_lt(b, a),
        !name_lt(a, a),
    decreases a.len(),
{
    if a.len() > 0 && b.len() > 0 && a[0] == b[0] {
        lemma_name_lt_order(a.drop_first(), b.drop_first());
        if a != b {
            assert(a.drop_first() != b.drop_first()) by {
                if a.drop_first() == b.drop_first() {
                    assert(a =~= seq![a[0]] + a.drop_first());
                    assert(b =~= seq![b[0]] + b.drop_first());
                }
            }
        }
    } else if a.len() == 0 && b.len() == 0 {
        assert(a =~= b);
    }
    if a.len() > 0 {
        lemma_name_lt_order(a.drop_first(), a.drop_first());
    }
}

pub proof fn lemma_name_lt_trans(a: Seq<char>, b: Seq<char>, c: Seq<char>)
    requires
        name_lt(a, b),
        name_lt(b, c),
    ensures
        name_lt(a, c),
    decreases a.len(),
{
    if a.len() > 0 && b.len() > 0 && c.len() > 0 && a[0] == b[0] && b[0] == c[0] {
        lemma_name_lt_trans(a.drop_first(), b.drop_first(), c.drop_first());
    }
}

/// Whether `a` comes before `b`.
pub fn text_lt(a: &String, b: &String) -> (r: bool)
    ensures
        r == name_lt(a@, b@),
{
    let x = crate::text::chars_of(a.as_str());
    let y = crate::text::chars_of(b.as_str());
    let mut i: usize = 0;
    proof {
        assert(a@.skip(0) =~= a@);
        assert(b@.skip(0) =~= b@);
    }
    while i < x.len() && i < y.len() && x[i] == y[i]
        invariant
            x@ == a@,
            y@ == b@,
            i <= x.len(),
            i <= y.len(),
            name_lt(a@, b@) == name_lt(a@.skip(i as int), b@.skip(i as int)),
        decreases x.len() - i,
    {
        proof {
            assert(a@.skip(i as int)[0] == x@[i as int]);
            assert(b@.skip(i as int)[0] == y@[i as int]);
            assert(a@.skip(i as int).drop_first() =~= a@.skip(i + 1));
            assert(b@.skip(i as int).drop_first() =~= b@.skip(i + 1));
        }
        i = i + 1;
    }
    proof {
        if i < x.len() {
            assert(a@.skip(i as int)[0] == x@[i as int]);
        }
        if i < y.len() {
            assert(b@.skip(i as int)[0] == y@[i as int]);
        }
    }
    if i == x.len() {
        i < y.len()
    } else if i == y.len() {
        false
    } else {
        x[i] < y[i]
    }
}

/// Names strictly increase along the list.
pub open spec fn sorted_names<V>(s: Seq<(Seq<char>, V)>) -> bool {
    forall|i: int, j: int| 0 <= i < j < s.len() ==> name_lt(s[i].0, s[j].0)
}

/// Where a new name belongs: the number of names before it.
pub open spec fn name_position<V>(s: Seq<(Seq<char>, V)>, n: Seq<char>) -> int
    decreases s.len(),
{
    if s.len() == 0 {
        0
    } else if name_lt(s.last().0, n) {
        s.len() as int
    } else {
        name_position(s.drop_last(), n)
    }
}

/// The sorted list with `(n, v)` added when `n` is absent.
pub open spec fn named_insert_absent<V>(s: Seq<(Seq<char>, V)>, n: Seq<char>, v: V) -> Seq<(Seq<char>, V)> {
    if name_index(s, n) >= 0 {
        s
    } else {
        s.insert(name_position(s, n), (n, v))
    }
}

pub proof fn lemma_name_position<V>(s: Seq<(Seq<char>, V)>, n: Seq<char>)
    requires
        sorted_names(s),
        name_index(s, n) < 0,
    ensures
        0 <= name_position(s, n) <= s.len(),
        forall|j: int| 0 <= j < name_position(s, n) ==> name_lt(s[j].0, n),
        forall|j: int| name_position(s, n) <= j < s.len() ==> name_lt(n, s[j].0),
    decreases s.len(),
{
    lemma_name_index(s, n);
    if s.len() > 0 {
        let t = s.drop_last();
        assert forall|j: int| 0 <= j < t.len() implies t[j] == s[j] by {}
        lemma_name_index(t, n);
        if name_index(t, n) >= 0 {
            assert(s[name_index(t, n)].0 == n);
        }
        lemma_name_lt_order(s.last().0, n);
        if !name_lt(s.last().0, n) {
            lemma_name_position(t, n);
            assert forall|j: int| name_position(s, n) <= j < s.len() implies name_lt(n, s[j].0) by {
                if j < s.len() - 1 {
                } else {
                    assert(s[j].0 != n);
                }
            }
        } else {
            assert forall|j: int| 0 <= j < s.len() implies name_lt(s[j].0, n) by {
                if j < s.len() - 1 {
                    lemma_name_lt_trans(s[j].0, s.last().0, n);
                }
            }
        }
    }
}

/// The deep view of a named list.
pub open spec fn names_view<V>(s: Seq<(String, V)>) -> Seq<(Seq<char>, V)> {
    s.map_values(|p: (String, V)| (p.0@, p.1))
}

/// Finds `name` in a named list.
pub fn find_name<V>(list: &Vec<(String, V)>, name: &String) -> (r: Option<usize>)
    ensures
        r is None <==> name_index(names_view(list@), name@) < 0,
        r matches Some(i) ==> i == name_index(names_view(list@), name@),
{
    let ghost s = names_view(list@);
    proof {
        lemma_name_index(s, name@);
    }
    let mut i: usize = 0;
    while i < list.len()
        invariant
            s == names_view(list@),
            i <= list.len(),
            forall|j: int| 0 <= j < i ==> s[j].0 != name@,
            -1 <= name_index(s, name@) < s.len(),
            name_index(s, name@) >= 0 ==> s[name_index(s, name@)].0 == name@,
            name_index(s, name@) >= 0 ==> forall|j: int| 0 <= j < name_index(s, name@) ==> s[j].0 != name@,
            name_index(s, name@) < 0 ==> forall|j: int| 0 <= j < s.len() ==> s[j].0 != name@,
        decreases list.len() - i,
    {
        if list[i].0 == *name {
            assert(s[i as int].0 == name@);
            return Some(i);
        }
        i = i + 1;
    }
    None
}

/// Makes sure `name` is present, adding `(name, v)` at its sorted place when it is
/// absent; returns the position of `name`.
pub fn ensure_name<V>(list: &mut Vec<(String, V)>, name: &String, v: V) -> (r: usize)
    requires
        sorted_names(names_view(old(list)@)),
    ensures
        names_view(final(list)@) == named_insert_absent(names_view(old(list)@), name@, v),
        sorted_names(names_view(final(list)@)),
        r < final(list)@.len(),
        final(list)@[r as int].0@ == name@,
        name_index(names_view(old(list)@), name@) >= 0 ==> final(list)@ == old(list)@,
{
    let ghost s = names_view(list@);
    match find_name(list, name) {
        Some(i) => {
            proof {
                lemma_name_index(s, name@);
            }
            i
        },
        None => {
            proof {
                lemma_name_position(s, name@);
            }
            let mut pos: usize = list.len();
            while pos > 0 && text_lt(name, &list[pos - 1].0)
                invariant
                    pos <= list.len(),
                    list@ == old(list)@,
                    s == names_view(list@),
                    sorted_names(s),
                    name_index(s, name@) < 0,
                    forall|j: int| pos <= j < s.len() ==> name_lt(name@, s[j].0),
                    name_position(s, name@) <= pos,
                    forall|j: int| 0 <= j < name_position(s, name@) ==> name_lt(s[j].0, name@),
                decreases pos,
            {
                proof {
                    if pos - 1 < name_position(s, name@) {
                        lemma_name_lt_order(s[pos - 1].0, name@);
                    }
                }
                pos = pos - 1;
            }
            assert(pos == name_position(s, name@)) by {
                if pos > name_position(s, name@) {
                    assert(name_lt(s[pos - 1].0, name@));
                    lemma_name_lt_order(s[pos - 1].0, name@);
                }
            }
            let ghost before = list@;
            list.insert(pos, (name.clone(), v));
            proof {
                let t = names_view(list@);
                assert(t =~= s.insert(pos as int, (name@, v)));
                assert forall|i: int, j: int| 0 <= i < j < t.len() implies name_lt(t[i].0, t[j].0) by {
                    if i < pos as int && j > pos as int {
                        lemma_name_lt_trans(t[i].0, name@, t[j].0);
                    }
                }
            }
            pos
        },
    }
}


/// Two lists with the same names at the same places.
pub open spec fn same_names<V, W>(a: Seq<(Seq<char>, V)>, b: Seq<(Seq<char>, W)>) -> bool {
    a.len() == b.len() && forall|i: int| 0 <= i < a.len() ==> #[trigger] a[i].0 == b[i].0
}

pub proof fn lemma_same_names<V, W>(a: Seq<(Seq<char>, V)>, b: Seq<(Seq<char>, W)>, n: Seq<char>)
    requires
        same_names(a, b),
    ensures
        name_index(a, n) == name_index(b, n),
        name_position(a, n) == name_position(b, n),
        sorted_names(a) == sorted_names(b),
    decreases a.len(),
{
    if a.len() > 0 {
        assert(same_names(a.drop_last(), b.drop_last()));
        lemma_same_names(a.drop_last(), b.drop_last(), n);
        assert(a.last().0 == b.last().0);
    }
    if sorted_names(a) {
        assert forall|i: int, j: int| 0 <= i < j < b.len() implies name_lt(b[i].0, b[j].0) by {
            assert(a[i].0 == b[i].0 && a[j].0 == b[j].0);
        }
    }
    if sorted_names(b) {
        assert forall|i: int, j: int| 0 <= i < j < a.len() implies name_lt(a[i].0, a[j].0) by {
            assert(a[i].0 == b[i].0 && a[j].0 == b[j].0);
        }
    }
}

/// The list without the pair named `n`.
pub open spec fn named_removed<V>(s: Seq<(Seq<char>, V)>, n: Seq<char>) -> Seq<(Seq<char>, V)> {
    if name_index(s, n) >= 0 {
        s.remove(name_index(s, n))
    } else {
        s
    }
}

/// Removes the pair named `name`, if present.
pub fn remove_name<V>(list: &mut Vec<(String, V)>, name: &String)
    requires
        sorted_names(names_view(old(list)@)),
    ensures
        names_view(final(list)@) == named_removed(names_view(old(list)@), name@),
        sorted_names(names_view(final(list)@)),
        name_index(names_view(old(list)@), name@) >= 0 ==> final(list)@ == old(list)@.remove(
            name_index(names_view(old(list)@), name@),
        ),
        name_index(names_view(old(list)@), name@) < 0 ==> final(list)@ == old(list)@,
{
    let ghost s = names_view(list@);
    match find_name(list, name) {
        Some(i) => {
            proof {
                lemma_name_index(s, name@);
            }
            list.remove(i);
            proof {
                let t = names_view(list@);
                assert(t =~= s.remove(i as int));
                assert forall|a: int, b: int| 0 <= a < b < t.len() implies name_lt(t[a].0, t[b].0) by {
                    if a >= i {
                        assert(t[a] == s[a + 1] && t[b] == s[b + 1]);
                    } else if b >= i {
                        assert(t[a] == s[a] && t[b] == s[b + 1]);
                    }
                }
            }
        },
        None => {},
    }
}

} // verus!
