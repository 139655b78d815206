//! The member count, join and leave series of the overview chart: one series per
//! bucket size, with the gaps between consecutive data points filled in.
use vstd::prelude::*;
use indexmap::IndexMap;
use crate::calendar::{day_of_time, first_of_month, day_floor, valid_time, MAX_DAY, SECONDS_PER_DAY};
use crate::series::{inserted, lookup, lemma_position_of, position_of, series_entries, series_insert_absent};

verus! {

/// `e` with `(k, v)` added last when `k` is absent (`entry(k).or_insert(v)`).
pub open spec fn insert_absent(e: Seq<(i64, i64)>, k: i64, v: i64) -> Seq<(i64, i64)> {
    if lookup(e, k) is Some {
        e
    } else {
        e.push((k, v))
    }
}

/// The keys `last + step`, `last + 2 step`, ..., `last + n step`, each added with
/// value `v` when absent, in that order.
pub open spec fn filled(e: Seq<(i64, i64)>, last: int, step: int, n: nat, v: i64) -> Seq<(i64, i64)>
    decreases n,
{
    if n == 0 {
        e
    } else {
        insert_absent(filled(e, last, step, (n - 1) as nat, v), (last + n * step) as i64, v)
    }
}

/// How many whole steps lie between `last` and `cur` (none when `cur` is not later).
pub open spec fn missing_steps(last: int, cur: int, step: int) -> nat {
    if cur > last {
        ((cur - last) / step) as nat
    } else {
        0
    }
}

/// The series after filling the gap between the previous point `last` (if any)
/// and `cur`, repeating the value the series holds at `last`.
pub open spec fn gap_filled(
    e: Seq<(i64, i64)>,
    last: Option<i64>,
    from: Seq<(i64, i64)>,
    cur: i64,
    step: int,
) -> Seq<(i64, i64)> {
    match last {
        None => e,
        Some(l) => filled(e, l as int, step, missing_steps(l as int, cur as int, step), lookup(from, l)->0),
    }
}

/// The time of day of a local time.
pub open spec fn time_of_day(s: int) -> int {
    s - day_floor(s)
}

/// The month start that follows `ongoing`: 45 days later, moved to the first
/// of that month, at the same time of day; `None` when that lies beyond the
/// last date chrono represents or does not move forward.
pub open spec fn next_month_start(ongoing: int) -> Option<int> {
    let d = day_of_time(ongoing) + 45;
    if d > MAX_DAY {
        None
    } else {
        match first_of_month(d as i32) {
            None => None,
            Some(f) => {
                let next = f * SECONDS_PER_DAY + time_of_day(ongoing);
                if next <= ongoing {
                    None
                } else {
                    Some(next)
                }
            },
        }
    }
}

/// The monthly series after adding every month start after `ongoing` up to
/// `target`, each with value `v` when absent.
pub open spec fn months_filled(e: Seq<(i64, i64)>, ongoing: int, target: int, v: i64) -> Seq<(i64, i64)>
    decreases (if target > ongoing { target - ongoing } else { 0 }),
{
    if target > ongoing {
        match next_month_start(ongoing) {
            None => e,
            Some(next) => if next > ongoing {
                months_filled(insert_absent(e, next as i64, v), next, target, v)
            } else {
                e
            },
        }
    } else {
        e
    }
}

/// Every key of the series is a time whose date chrono represents.
pub open spec fn keys_valid(e: Seq<(i64, i64)>) -> bool {
    forall|i: int| 0 <= i < e.len() ==> valid_time(#[trigger] e[i].0 as int)
}

pub proof fn lemma_insert_absent_keys(e: Seq<(i64, i64)>, k: i64, v: i64)
    requires
        keys_valid(e),
        valid_time(k as int),
    ensures
        keys_valid(insert_absent(e, k, v)),
        lookup(insert_absent(e, k, v), k) is Some,
        forall|j: i64| lookup(e, j) is Some ==> lookup(insert_absent(e, k, v), j) is Some,
{
    lemma_position_of(e, k);
    let r = insert_absent(e, k, v);
    if lookup(e, k) is None {
        assert(r.drop_last() == e);
        assert forall|j: i64| lookup(e, j) is Some implies lookup(r, j) is Some by {
            lemma_position_of(e, j);
            assert(position_of(r, j) == position_of(e, j));
        }
    }
}

pub proof fn lemma_inserted_keeps(e: Seq<(i64, i64)>, k: i64, v: i64)
    ensures
        lookup(inserted(e, k, v), k) == Some(v),
        forall|j: i64| lookup(e, j) is Some ==> lookup(inserted(e, k, v), j) is Some,
        keys_valid(e) && valid_time(k as int) ==> keys_valid(inserted(e, k, v)),
{
    lemma_position_of(e, k);
    let r = inserted(e, k, v);
    if position_of(e, k) >= 0 {
        let p = position_of(e, k);
        assert forall|j: int| 0 <= j < r.len() implies r[j].0 == e[j].0 by {}
        lemma_same_keys_lookup(e, r);
        lemma_position_of(r, k);
        assert(position_of(r, k) == p) by {
            lemma_same_keys_position(e, r, k);
        }
    } else {
        assert(r.drop_last() == e);
        assert forall|j: i64| lookup(e, j) is Some implies lookup(r, j) is Some by {
            lemma_position_of(e, j);
        }
        lemma_position_of(r, k);
    }
}

pub proof fn lemma_same_keys_position(a: Seq<(i64, i64)>, b: Seq<(i64, i64)>, k: i64)
    requires
        a.len() == b.len(),
        forall|j: int| 0 <= j < a.len() ==> a[j].0 == b[j].0,
    ensures
        position_of(a, k) == position_of(b, k),
    decreases a.len(),
{
    if a.len() > 0 {
        lemma_same_keys_position(a.drop_last(), b.drop_last(), k);
    }
}

pub proof fn lemma_same_keys_lookup(a: Seq<(i64, i64)>, b: Seq<(i64, i64)>)
    requires
        a.len() == b.len(),
        forall|j: int| 0 <= j < a.len() ==> a[j].0 == b[j].0,
    ensures
        forall|k: i64| (lookup(a, k) is Some) == (lookup(b, k) is Some),
{
    assert forall|k: i64| (lookup(a, k) is Some) == (lookup(b, k) is Some) by {
        lemma_same_keys_position(a, b, k);
    }
}

/// Adds the keys `last + step, ..., last + n step` (value `v` when absent).
pub fn fill_steps(m: &mut IndexMap<i64, i64>, last: i64, step: i64, n: i64, v: i64)
    requires
        step > 0,
        n >= 0,
        keys_valid(series_entries(*old(m))),
        valid_time(last as int),
        valid_time(last + n * step),
    ensures
        series_entries(*final(m)) == filled(series_entries(*old(m)), last as int, step as int, n as nat, v),
        keys_valid(series_entries(*final(m))),
        forall|j: i64| lookup(series_entries(*old(m)), j) is Some ==> lookup(series_entries(*final(m)), j) is Some,
{
    let mut i: i64 = 0;
    let mut ongoing: i64 = last;
    while i < n
        invariant
            0 <= i <= n,
            step > 0,
            ongoing == last + i * step,
            valid_time(last as int),
            valid_time(last + n * step),
            series_entries(*m) == filled(series_entries(*old(m)), last as int, step as int, i as nat, v),
            keys_valid(series_entries(*m)),
            forall|j: i64| lookup(series_entries(*old(m)), j) is Some ==> lookup(series_entries(*m), j) is Some,
        decreases n - i,
    {
        proof {
            vstd::arithmetic::mul::lemma_mul_inequality(i + 1, n as int, step as int);
            vstd::arithmetic::mul::lemma_mul_is_distributive_add_other_way(step as int, i as int, 1);
        }
        let to_add = ongoing + step;
        proof {
            lemma_insert_absent_keys(series_entries(*m), to_add, v);
        }
        series_insert_absent(m, to_add, v);
        ongoing = to_add;
        i = i + 1;
    }
}

} // verus!
