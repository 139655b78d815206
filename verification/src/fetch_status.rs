//! Tracks which kinds of guild data have been fully fetched from the server.
use vstd::prelude::*;

verus! {

/// Which of the three paged data kinds (messages, member counts, member
/// activities) have been fully received, and the last page seen for each.
#[derive(Clone, Copy)]
pub struct FetchStatus {
    pub messages: bool,
    pub counts: bool,
    pub activities: bool,
    pub messages_page: u64,
    pub counts_page: u64,
    pub activities_page: u64,
}

impl FetchStatus {
    /// Nothing fetched, no page seen.
    pub open spec fn spec_initial() -> FetchStatus {
        FetchStatus {
            messages: false,
            counts: false,
            activities: false,
            messages_page: 0,
            counts_page: 0,
            activities_page: 0,
        }
    }

    pub fn new() -> (r: FetchStatus)
        ensures
            r == FetchStatus::spec_initial(),
    {
        FetchStatus {
            messages: false,
            counts: false,
            activities: false,
            messages_page: 0,
            counts_page: 0,
            activities_page: 0,
        }
    }

    pub fn messages_done(&mut self)
        ensures
            *final(self) == (FetchStatus { messages: true, ..*old(self) }),
    {
        self.messages = true;
    }

    pub fn counts_done(&mut self)
        ensures
            *final(self) == (FetchStatus { counts: true, ..*old(self) }),
    {
        self.counts = true;
    }

    pub fn activities_done(&mut self)
        ensures
            *final(self) == (FetchStatus { activities: true, ..*old(self) }),
    {
        self.activities = true;
    }

    pub open spec fn spec_all_done(&self) -> bool {
        self.messages && self.counts && self.activities
    }

    pub fn all_done(&self) -> (r: bool)
        ensures
            r == self.spec_all_done(),
    {
        self.messages && self.counts && self.activities
    }

    pub fn messages(&self) -> (r: bool)
        ensures
            r == self.messages,
    {
        self.messages
    }

    pub fn counts(&self) -> (r: bool)
        ensures
            r == self.counts,
    {
        self.counts
    }

    pub fn activities(&self) -> (r: bool)
        ensures
            r == self.activities,
    {
        self.activities
    }

    pub fn set_messages_page(&mut self, page: u64)
        ensures
            *final(self) == (FetchStatus { messages_page: page, ..*old(self) }),
    {
        self.messages_page = page;
    }

    pub fn set_counts_page(&mut self, page: u64)
        ensures
            *final(self) == (FetchStatus { counts_page: page, ..*old(self) }),
    {
        self.counts_page = page;
    }

    pub fn set_activities_page(&mut self, page: u64)
        ensures
            *final(self) == (FetchStatus { activities_page: page, ..*old(self) }),
    {
        self.activities_page = page;
    }

    /// Messages started arriving (a page was seen) but are not complete.
    pub open spec fn spec_partial_messages(&self) -> bool {
        !self.messages && self.messages_page != 0
    }

    pub open spec fn spec_partial_counts(&self) -> bool {
        !self.counts && self.counts_page != 0
    }

    pub open spec fn spec_partial_activities(&self) -> bool {
        !self.activities && self.activities_page != 0
    }

    pub fn partial_messages(&self) -> (r: bool)
        ensures
            r == self.spec_partial_messages(),
    {
        !self.messages() && self.messages_page != 0
    }

    pub fn partial_counts(&self) -> (r: bool)
        ensures
            r == self.spec_partial_counts(),
    {
        !self.counts() && self.counts_page != 0
    }

    pub fn partial_activities(&self) -> (r: bool)
        ensures
            r == self.spec_partial_activities(),
    {
        !self.activities() && self.activities_page != 0
    }

    pub open spec fn spec_no_partial(&self) -> bool {
        !self.spec_partial_messages() && !self.spec_partial_counts()
            && !self.spec_partial_activities()
    }

    pub fn no_partial(&self) -> (r: bool)
        ensures
            r == self.spec_no_partial(),
    {
        !self.partial_messages() && !self.partial_counts() && !self.partial_activities()
    }
}

} // verus!

verus! {

impl Default for FetchStatus {
    fn default() -> (r: FetchStatus)
        ensures
            r == FetchStatus::spec_initial(),
    {
        FetchStatus::new()
    }
}

} // verus!
