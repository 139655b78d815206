//! Summing message counts per key and picking the largest total.
use vstd::prelude::*;
use crate::keyed::{key_index, lemma_key_index, find_key};

verus! {

/// Wrapping addition of message counts.
pub open spec fn wadd(a: u32, b: u32) -> u32 {
    vstd::wrapping::u32_specs::wrapping_add(a, b)
}

/// The per-key totals of `items`, keys in order of first appearance.
pub open spec fn sums_by_key(items: Seq<(i64, u32)>) -> Seq<(i64, u32)>
    decreases items.len(),
{
    if items.len() == 0 {
        Seq::empty()
    } else {
        let acc = sums_by_key(items.drop_last());
        let (k, v) = items.last();
        let i = key_index(acc, k);
        if i >= 0 {
            acc.update(i, (k, wadd(acc[i].1, v)))
        } else {
            acc.push((k, v))
        }
    }
}

/// The position of the first pair whose name is `name`, or -1.
pub open spec fn name_index<V>(s: Seq<(Seq<char>, V)>, name: Seq<char>) -> int
    decreases s.len(),
{
    if s.len() == 0 {
        -1
    } else if name_index(s.drop_last(), name) >= 0 {
        name_index(s.drop_last(), name)
    } else if s.last().0 == name {
        s.len() - 1
    } else {
        -1
    }
}

pub proof fn lemma_name_index<V>(s: Seq<(Seq<char>, V)>, name: Seq<char>)
    ensures
        -1 <= name_index(s, name) < s.len(),
        name_index(s, name) >= 0 ==> s[name_index(s, name)].0 == name,
        name_index(s, name) >= 0 ==> forall|j: int| 0 <= j < name_index(s, name) ==> s[j].0 != name,
        name_index(s, name) < 0 ==> forall|j: int| 0 <= j < s.len() ==> s[j].0 != name,
    decreases s.len(),
{
    if s.len() > 0 {
        let t = s.drop_last();
        lemma_name_index(t, name);
        assert forall|j: int| 0 <= j < t.len() implies t[j] == s[j] by {}
    }
}

/// The per-name totals of `items`, names in order of first appearance.
pub open spec fn sums_by_name(items: Seq<(Seq<char>, u32)>) -> Seq<(Seq<char>, u32)>
    decreases items.len(),
{
    if items.len() == 0 {
        Seq::empty()
    } else {
        let acc = sums_by_name(items.drop_last());
        let (k, v) = items.last();
        let i = name_index(acc, k);
        if i >= 0 {
            acc.update(i, (k, wadd(acc[i].1, v)))
        } else {
            acc.push((k, v))
        }
    }
}

/// The wrapping total of the values.
pub open spec fn total_of(items: Seq<u32>) -> u32
    decreases items.len(),
{
    if items.len() == 0 {
        0
    } else {
        wadd(total_of(items.drop_last()), items.last())
    }
}

/// Entry `i` holds the first of the largest values.
pub open spec fn is_max_at<K>(s: Seq<(K, u32)>, i: int) -> bool {
    &&& 0 <= i < s.len()
    &&& forall|j: int| 0 <= j < s.len() ==> s[j].1 <= s[i].1
    &&& forall|j: int| 0 <= j < i ==> s[j].1 < s[i].1
}

/// At most one position is the first of the largest values, so a result
/// described by [`is_max_at`] is fixed.
pub proof fn lemma_is_max_at_unique<K>(s: Seq<(K, u32)>, i: int, j: int)
    requires
        is_max_at(s, i),
        is_max_at(s, j),
    ensures
        i == j,
{
    if i < j {
        assert(s[i].1 < s[j].1);
        assert(s[i].1 >= s[j].1);
    } else if j < i {
        assert(s[j].1 < s[i].1);
        assert(s[j].1 >= s[i].1);
    }
}

/// The position of the first largest value, `None` when there is none.
pub fn argmax<K>(v: &Vec<(K, u32)>) -> (r: Option<usize>)
    ensures
        r is None <==> v@.len() == 0,
        r matches Some(i) ==> is_max_at(v@, i as int),
{
    if v.len() == 0 {
        return None;
    }
    let mut best: usize = 0;
    let mut i: usize = 1;
    while i < v.len()
        invariant
            1 <= i <= v.len(),
            best < i,
            forall|j: int| 0 <= j < i ==> v@[j].1 <= v@[best as int].1,
            forall|j: int| 0 <= j < best ==> v@[j].1 < v@[best as int].1,
        decreases v.len() - i,
    {
        if v[i].1 > v[best].1 {
            best = i;
        }
        i = i + 1;
    }
    Some(best)
}

/// Adds `v` to the total of `k` (a new key starts at `v`).
pub fn add_to_key(acc: &mut Vec<(i64, u32)>, k: i64, v: u32)
    ensures
        final(acc)@ == ({
            let i = key_index(old(acc)@, k);
            if i >= 0 {
                old(acc)@.update(i, (k, wadd(old(acc)@[i].1, v)))
            } else {
                old(acc)@.push((k, v))
            }
        }),
{
    proof {
        lemma_key_index(acc@, k);
    }
    match find_key(acc, k) {
        Some(i) => {
            let cur = acc[i].1;
            acc.set(i, (k, cur.wrapping_add(v)));
        },
        None => {
            acc.push((k, v));
        },
    }
}

/// The deep view of a list of named totals.
pub open spec fn named_view(s: Seq<(String, u32)>) -> Seq<(Seq<char>, u32)> {
    s.map_values(|p: (String, u32)| (p.0@, p.1))
}

/// Adds `v` to the total of `name` (a new name starts at `v`).
pub fn add_to_name(acc: &mut Vec<(String, u32)>, name: &String, v: u32)
    ensures
        named_view(final(acc)@) == ({
            let s = named_view(old(acc)@);
            let i = name_index(s, name@);
            if i >= 0 {
                s.update(i, (name@, wadd(s[i].1, v)))
            } else {
                s.push((name@, v))
            }
        }),
{
    let ghost s = named_view(acc@);
    proof {
        lemma_name_index(s, name@);
    }
    let mut i: usize = 0;
    while i < acc.len()
        invariant
            s == named_view(acc@),
            acc@ == old(acc)@,
            i <= acc.len(),
            forall|j: int| 0 <= j < i ==> s[j].0 != name@,
        decreases acc.len() - i,
    {
        if acc[i].0 == *name {
            proof {
                assert(s[i as int].0 == name@);
                assert(name_index(s, name@) == i as int) by {
                    lemma_name_index(s, name@);
                }
            }
            let cur = acc[i].1;
            acc.set(i, (name.clone(), cur.wrapping_add(v)));
            proof {
                assert(named_view(acc@) =~= s.update(i as int, (name@, wadd(s[i as int].1, v))));
            }
            return;
        }
        i = i + 1;
    }
    proof {
        assert(name_index(s, name@) < 0);
    }
    acc.push((name.clone(), v));
    assert(named_view(acc@) =~= s.push((name@, v)));
}

} // verus!
