//! The texts of the overview's summary cards.
use vstd::prelude::*;
use crate::text::{append_string, decimal_of, decimal_text};

verus! {

/// What a summary card shows.
#[derive(Clone, Copy, Debug, PartialEq, Eq, Structural)]
pub enum CardType {
    TotalMessage,
    UniqueUser,
    DeletedMessage,
    MemberCount,
    MemberJoin,
    MemberLeave,
}

impl CardType {
    pub open spec fn spec_header(&self) -> Seq<char> {
        match self {
            CardType::TotalMessage => "Total Messages"@,
            CardType::UniqueUser => "Unique Users"@,
            CardType::DeletedMessage => "Deleted Messages"@,
            CardType::MemberCount => "Member Count"@,
            CardType::MemberJoin => "Member Joins"@,
            CardType::MemberLeave => "Member Leaves"@,
        }
    }

    /// The card's title.
    pub fn header(&self) -> (r: &'static str)
        ensures
            r@ == self.spec_header(),
    {
        match self {
            CardType::TotalMessage => "Total Messages",
            CardType::UniqueUser => "Unique Users",
            CardType::DeletedMessage => "Deleted Messages",
            CardType::MemberCount => "Member Count",
            CardType::MemberJoin => "Member Joins",
            CardType::MemberLeave => "Member Leaves",
        }
    }

    pub open spec fn spec_hover_intro(&self) -> Seq<char> {
        match self {
            CardType::TotalMessage => "Total message gotten within the selected date: "@,
            CardType::UniqueUser => "Total unique users gotten within the selected date: "@,
            CardType::DeletedMessage => "Deleted message gotten within the selected date: "@,
            CardType::MemberCount => "The final member count at the end of the selected date: "@,
            CardType::MemberJoin => "The number of new members within the selected date: "@,
            CardType::MemberLeave => "The number of member leaves within the selected date: "@,
        }
    }

    fn hover_intro(&self) -> (r: &'static str)
        ensures
            r@ == self.spec_hover_intro(),
    {
        match self {
            CardType::TotalMessage => "Total message gotten within the selected date: ",
            CardType::UniqueUser => "Total unique users gotten within the selected date: ",
            CardType::DeletedMessage => "Deleted message gotten within the selected date: ",
            CardType::MemberCount => "The final member count at the end of the selected date: ",
            CardType::MemberJoin => "The number of new members within the selected date: ",
            CardType::MemberLeave => "The number of member leaves within the selected date: ",
        }
    }

    pub open spec fn spec_compare_intro(&self) -> Seq<char> {
        match self {
            CardType::TotalMessage => "\nTotal message gotten within the compare date: "@,
            CardType::DeletedMessage => "\nDeleted message gotten within the compare date: "@,
            CardType::UniqueUser => "\nUnique members within the compare date: "@,
            CardType::MemberCount => "\nThe final member count at the end of the compare date: "@,
            CardType::MemberJoin => "\nThe number of new members within the compare date: "@,
            CardType::MemberLeave => "\nThe number of members leaves within the compare date: "@,
        }
    }

    fn compare_intro(&self) -> (r: &'static str)
        ensures
            r@ == self.spec_compare_intro(),
    {
        match self {
            CardType::TotalMessage => "\nTotal message gotten within the compare date: ",
            CardType::DeletedMessage => "\nDeleted message gotten within the compare date: ",
            CardType::UniqueUser => "\nUnique members within the compare date: ",
            CardType::MemberCount => "\nThe final member count at the end of the compare date: ",
            CardType::MemberJoin => "\nThe number of new members within the compare date: ",
            CardType::MemberLeave => "\nThe number of members leaves within the compare date: ",
        }
    }

    /// The card's hover text: what the number is, and what the compared number
    /// is when comparing.
    pub fn hover_text(&self, number: u32, compare_num: Option<u32>) -> (r: String)
        ensures
            r@ == self.spec_hover_intro() + decimal_of(number as int) + match compare_num {
                Some(c) => self.spec_compare_intro() + decimal_of(c as int),
                None => Seq::empty(),
            },
    {
        let mut s = String::from_str(self.hover_intro());
        append_string(&mut s, &decimal_text(number as i64));
        match compare_num {
            Some(c) => {
                append_string(&mut s, &String::from_str(self.compare_intro()));
                append_string(&mut s, &decimal_text(c as i64));
            },
            None => {
                assert(s@ =~= s@ + Seq::<char>::empty());
            },
        }
        s
    }
}

} // verus!
