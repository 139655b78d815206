//! Lists of `(key, value)` pairs used as small maps: lookup by key, and lists kept
//! sorted by strictly increasing keys (ordered maps).
use vstd::prelude::*;

verus! {

/// The position of the first pair with key `k`, or -1.
pub open spec fn key_index<V>(s: Seq<(i64, V)>, k: i64) -> int
    decreases s.len(),
{
    if s.len() == 0 {
        -1
    } else if key_index(s.drop_last(), k) >= 0 {
        key_index(s.drop_last(), k)
    } else if s.last().0 == k {
        s.len() - 1
    } else {
        -1
    }
}

pub proof fn lemma_key_index<V>(s: Seq<(i64, V)>, k: i64)
    ensures
        -1 <= key_index(s, k) < s.len(),
        key_index(s, k) >= 0 ==> s[key_index(s, k)].0 == k,
        key_index(s, k) >= 0 ==> forall|j: int| 0 <= j < key_index(s, k) ==> s[j].0 != k,
        key_index(s, k) < 0 ==> forall|j: int| 0 <= j < s.len() ==> s[j].0 != k,
    decreases s.len(),
{
    if s.len() > 0 {
        let t = s.drop_last();
        lemma_key_index(t, k);
        assert forall|j: int| 0 <= j < t.len() implies t[j] == s[j] by {}
    }
}

/// Adding an entry at the end keeps where every key already there is found,
/// and finds the new key at the end when it was not there.
pub proof fn lemma_key_index_push<V>(s: Seq<(i64, V)>, e: (i64, V), x: i64)
    ensures
        key_index(s, x) >= 0 ==> key_index(s.push(e), x) == key_index(s, x),
        key_index(s, x) < 0 ==> key_index(s.push(e), x) == if x == e.0 { s.len() as int } else { -1 },
{
    assert(s.push(e).drop_last() =~= s);
}

/// Changing the value found at a key keeps where the key is found.
pub proof fn lemma_key_index_update<V>(s: Seq<(i64, V)>, k: i64, v: V)
    requires
        key_index(s, k) >= 0,
    ensures
        key_index(s.update(key_index(s, k), (k, v)), k) == key_index(s, k),
    decreases s.len(),
{
    let i = key_index(s, k);
    let u = s.update(i, (k, v));
    lemma_key_index(s, k);
    let t = s.drop_last();
    if key_index(t, k) >= 0 {
        lemma_key_index(t, k);
        assert(key_index(t, k) == i);
        lemma_key_index_update(t, k, v);
        assert(u.drop_last() =~= t.update(i, (k, v)));
    } else {
        assert(i == s.len() - 1);
        assert(u.drop_last() =~= t);
        assert(u.last().0 == k);
    }
}

/// Keys strictly increase along the list.
pub open spec fn sorted_keys<V>(s: Seq<(i64, V)>) -> bool {
    forall|i: int, j: int| 0 <= i < j < s.len() ==> s[i].0 < s[j].0
}

/// Finds the position of key `k`.
pub fn find_key<V>(v: &Vec<(i64, V)>, k: i64) -> (r: Option<usize>)
    ensures
        r is None <==> key_index(v@, k) < 0,
        r matches Some(i) ==> i == key_index(v@, k),
{
    proof {
        lemma_key_index(v@, k);
    }
    let mut i: usize = 0;
    while i < v.len()
        invariant
            i <= v.len(),
            forall|j: int| 0 <= j < i ==> v@[j].0 != k,
            -1 <= key_index(v@, k) < v@.len(),
            key_index(v@, k) >= 0 ==> v@[key_index(v@, k)].0 == k,
            key_index(v@, k) >= 0 ==> forall|j: int| 0 <= j < key_index(v@, k) ==> v@[j].0 != k,
            key_index(v@, k) < 0 ==> forall|j: int| 0 <= j < v@.len() ==> v@[j].0 != k,
        decreases v.len() - i,
    {
        if v[i].0 == k {
            return Some(i);
        }
        i = i + 1;
    }
    None
}

/// Where a new key `k` belongs in a sorted list: the number of keys below it.
pub open spec fn insert_position<V>(s: Seq<(i64, V)>, k: i64) -> int
    decreases s.len(),
{
    if s.len() == 0 {
        0
    } else if s.last().0 < k {
        s.len() as int
    } else {
        insert_position(s.drop_last(), k)
    }
}

/// The sorted list with `(k, v)` added when `k` is absent.
pub open spec fn sorted_insert_absent<V>(s: Seq<(i64, V)>, k: i64, v: V) -> Seq<(i64, V)> {
    if key_index(s, k) >= 0 {
        s
    } else {
        s.insert(insert_position(s, k), (k, v))
    }
}

pub proof fn lemma_insert_position<V>(s: Seq<(i64, V)>, k: i64)
    requires
        sorted_keys(s),
        key_index(s, k) < 0,
    ensures
        0 <= insert_position(s, k) <= s.len(),
        forall|j: int| 0 <= j < insert_position(s, k) ==> s[j].0 < k,
        forall|j: int| insert_position(s, k) <= j < s.len() ==> s[j].0 > k,
    decreases s.len(),
{
    lemma_key_index(s, k);
    if s.len() > 0 {
        let t = s.drop_last();
        assert forall|j: int| 0 <= j < t.len() implies t[j] == s[j] by {}
        lemma_key_index(t, k);
        if key_index(t, k) >= 0 {
            assert(s[key_index(t, k)].0 == k);
        }
        if !(s.last().0 < k) {
            lemma_insert_position(t, k);
        }
    }
}

/// Makes sure key `k` is present in a sorted list, adding `(k, v)` at its
/// sorted place when it is absent; returns the position of `k`.
pub fn ensure_sorted_key<V>(list: &mut Vec<(i64, V)>, k: i64, v: V) -> (r: usize)
    requires
        sorted_keys(old(list)@),
    ensures
        final(list)@ == sorted_insert_absent(old(list)@, k, v),
        sorted_keys(final(list)@),
        r < final(list)@.len(),
        final(list)@[r as int].0 == k,
        key_index(final(list)@, k) == r,
        key_index(old(list)@, k) >= 0 ==> r == key_index(old(list)@, k),
        key_index(old(list)@, k) < 0 ==> final(list)@[r as int] == (k, v),
{
    proof {
        lemma_key_index(list@, k);
    }
    match find_key(list, k) {
        Some(i) => {
            i
        },
        None => {
            proof {
                lemma_insert_position(list@, k);
            }
            let mut pos: usize = list.len();
            while pos > 0 && list[pos - 1].0 > k
                invariant
                    pos <= list.len(),
                    list@ == old(list)@,
                    sorted_keys(list@),
                    key_index(list@, k) < 0,
                    forall|j: int| pos <= j < list.len() ==> list@[j].0 > k,
                    insert_position(list@, k) <= pos,
                    forall|j: int| 0 <= j < insert_position(list@, k) ==> list@[j].0 < k,
                    forall|j: int| insert_position(list@, k) <= j < list@.len() ==> list@[j].0 > k,
                decreases pos,
            {
                pos = pos - 1;
            }
            assert(pos == insert_position(list@, k)) by {
                if pos > insert_position(list@, k) {
                    assert(list@[pos - 1].0 > k);
                }
            }
            let ghost before = list@;
            list.insert(pos, (k, v));
            proof {
                assert forall|i: int, j: int| 0 <= i < j < list@.len() implies list@[i].0 < list@[j].0 by {
                    if i < pos as int && j > pos as int {
                        assert(list@[j] == before[j - 1]);
                    } else if i > pos as int {
                        assert(list@[i] == before[i - 1]);
                        assert(list@[j] == before[j - 1]);
                    } else if j < pos as int {
                        assert(list@[i] == before[i]);
                    }
                }
                assert(list@[pos as int] == (k, v));
                lemma_key_index(list@, k);
                lemma_key_index(before, k);
                let q = key_index(list@, k);
                if q != pos as int {
                    if q >= 0 && q < pos as int {
                        assert(list@[q] == before[q]);
                    }
                    assert(q >= 0);
                }
                assert(key_index(list@, k) == pos as int);
            }
            pos
        },
    }
}

} // verus!

verus! {

/// The first pair with key `k` is the first in the list.
pub proof fn lemma_first_key<V>(s: Seq<(i64, V)>, k: i64, i: int)
    requires
        0 <= i < s.len(),
        s[i].0 == k,
        forall|j: int| 0 <= j < i ==> (#[trigger] s[j]).0 != k,
    ensures
        key_index(s, k) == i,
    decreases s.len(),
{
    if i < s.len() - 1 {
        lemma_first_key(s.drop_last(), k, i);
    } else {
        lemma_key_index(s.drop_last(), k);
        if key_index(s.drop_last(), k) >= 0 {
            let q = key_index(s.drop_last(), k);
            assert(s.drop_last()[q] == s[q]);
        }
    }
}

} // verus!
