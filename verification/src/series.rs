//! Chart series: insertion-ordered maps from a time (seconds) to a value, held in
//! an `indexmap::IndexMap`.
use vstd::prelude::*;
use indexmap::IndexMap;

verus! {

#[verifier::external_type_specification]
#[verifier::external_body]
#[verifier::reject_recursive_types(K)]
#[verifier::reject_recursive_types(V)]
#[verifier::reject_recursive_types(S)]
pub struct ExIndexMap<K, V, S>(IndexMap<K, V, S>);

/// The key-value pairs of a series, in the map's order.
pub uninterp spec fn series_entries(m: IndexMap<i64, i64>) -> Seq<(i64, i64)>;

/// The position of the first entry with key `k`, or -1.
pub open spec fn position_of(s: Seq<(i64, i64)>, k: i64) -> int
    decreases s.len(),
{
    if s.len() == 0 {
        -1
    } else if position_of(s.drop_last(), k) >= 0 {
        position_of(s.drop_last(), k)
    } else if s.last().0 == k {
        s.len() - 1
    } else {
        -1
    }
}

/// The value stored under `k`.
pub open spec fn lookup(s: Seq<(i64, i64)>, k: i64) -> Option<i64> {
    if position_of(s, k) >= 0 {
        Some(s[position_of(s, k)].1)
    } else {
        None
    }
}

/// `IndexMap::insert`: an existing key keeps its place and takes the new value;
/// a new key goes last.
pub open spec fn inserted(s: Seq<(i64, i64)>, k: i64, v: i64) -> Seq<(i64, i64)> {
    if position_of(s, k) >= 0 {
        s.update(position_of(s, k), (k, v))
    } else {
        s.push((k, v))
    }
}

pub proof fn lemma_position_of(s: Seq<(i64, i64)>, k: i64)
    ensures
        -1 <= position_of(s, k) < s.len(),
        position_of(s, k) >= 0 ==> s[position_of(s, k)].0 == k,
        position_of(s, k) >= 0 ==> forall|j: int| 0 <= j < position_of(s, k) ==> s[j].0 != k,
        position_of(s, k) < 0 ==> forall|j: int| 0 <= j < s.len() ==> s[j].0 != k,
    decreases s.len(),
{
    if s.len() > 0 {
        let t = s.drop_last();
        lemma_position_of(t, k);
        assert forall|j: int| 0 <= j < t.len() implies t[j] == s[j] by {}
    }
}

/// `IndexMap::new`. Claimed: the map is empty.
#[verifier::external_body]
pub(crate) fn series_new() -> (r: IndexMap<i64, i64>)
    ensures
        series_entries(r) == Seq::<(i64, i64)>::empty(),
{
    IndexMap::new()
}

/// `IndexMap::insert`. Claimed, as its documentation states: an existing key
/// keeps its position and takes the new value; a new key is added last.
#[verifier::external_body]
pub(crate) fn series_insert(m: &mut IndexMap<i64, i64>, k: i64, v: i64)
    ensures
        series_entries(*final(m)) == inserted(series_entries(*old(m)), k, v),
{
    m.insert(k, v);
}

/// `IndexMap::get`. Claimed: the value stored under `k`, if any.
#[verifier::external_body]
pub(crate) fn series_get(m: &IndexMap<i64, i64>, k: i64) -> (r: Option<i64>)
    ensures
        r == lookup(series_entries(*m), k),
{
    m.get(&k).copied()
}

/// `IndexMap::get_index_of`. Claimed: the position of `k`, if present.
#[verifier::external_body]
pub(crate) fn series_index_of(m: &IndexMap<i64, i64>, k: i64) -> (r: Option<usize>)
    ensures
        r == (if position_of(series_entries(*m), k) >= 0 {
            Some(position_of(series_entries(*m), k) as usize)
        } else {
            None::<usize>
        }),
{
    m.get_index_of(&k)
}

/// `IndexMap::get_index`. Claimed: the entry at position `i`, if `i` is in range.
#[verifier::external_body]
pub(crate) fn series_get_index(m: &IndexMap<i64, i64>, i: usize) -> (r: Option<(i64, i64)>)
    ensures
        r == (if i < series_entries(*m).len() {
            Some(series_entries(*m)[i as int])
        } else {
            None::<(i64, i64)>
        }),
{
    match m.get_index(i) {
        Some((k, v)) => Some((*k, *v)),
        None => None,
    }
}

/// `IndexMap::len`. Claimed: the number of entries.
#[verifier::external_body]
pub(crate) fn series_len(m: &IndexMap<i64, i64>) -> (r: usize)
    ensures
        r == series_entries(*m).len(),
{
    m.len()
}

/// Stores `v` under `k` only when `k` is new (`entry(k).or_insert(v)`).
pub fn series_insert_absent(m: &mut IndexMap<i64, i64>, k: i64, v: i64)
    ensures
        series_entries(*final(m)) == if lookup(series_entries(*old(m)), k) is Some {
            series_entries(*old(m))
        } else {
            series_entries(*old(m)).push((k, v))
        },
{
    if series_get(m, k).is_none() {
        series_insert(m, k, v);
        proof {
            lemma_position_of(series_entries(*old(m)), k);
        }
    }
}

} // verus!

verus! {

/// Adds one to the value under `k` (starting from 0 when `k` is new), wrapping
/// around on overflow; returns the new value.
pub fn series_increment(m: &mut IndexMap<i64, i64>, k: i64) -> (r: i64)
    ensures
        r == vstd::wrapping::i64_specs::wrapping_add(
            match lookup(series_entries(*old(m)), k) {
                Some(v) => v,
                None => 0,
            },
            1,
        ),
        series_entries(*final(m)) == inserted(series_entries(*old(m)), k, r),
{
    let current = match series_get(m, k) {
        Some(v) => v,
        None => 0,
    };
    let updated = current.wrapping_add(1);
    series_insert(m, k, updated);
    updated
}

} // verus!
