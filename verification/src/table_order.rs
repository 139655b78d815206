//! Comparing table rows by a column, for sorting the tables.
use vstd::prelude::*;
use crate::named::{lemma_name_lt_order, name_lt, text_lt};

verus! {

/// How two rows compare.
#[derive(PartialEq, Eq, Structural, Clone, Copy, Debug)]
pub enum RowOrder {
    Less,
    Equal,
    Greater,
}

/// The order of two integers.
pub open spec fn int_order(a: int, b: int) -> RowOrder {
    if a < b {
        RowOrder::Less
    } else if a == b {
        RowOrder::Equal
    } else {
        RowOrder::Greater
    }
}

/// The order of two texts, character by character.
pub open spec fn text_order(a: Seq<char>, b: Seq<char>) -> RowOrder {
    if name_lt(a, b) {
        RowOrder::Less
    } else if a == b {
        RowOrder::Equal
    } else {
        RowOrder::Greater
    }
}

/// Compares two integers.
pub fn order_ints(a: i64, b: i64) -> (r: RowOrder)
    ensures
        r == int_order(a as int, b as int),
{
    if a < b {
        RowOrder::Less
    } else if a == b {
        RowOrder::Equal
    } else {
        RowOrder::Greater
    }
}

/// Compares two texts (the order of `String`).
pub fn order_texts(a: &String, b: &String) -> (r: RowOrder)
    ensures
        r == text_order(a@, b@),
        r == RowOrder::Greater <==> name_lt(b@, a@),
{
    proof {
        lemma_name_lt_order(a@, b@);
    }
    if text_lt(a, b) {
        RowOrder::Less
    } else if crate::text::same_text(a.as_str(), b.as_str()) {
        RowOrder::Equal
    } else {
        RowOrder::Greater
    }
}

} // verus!
