//! The selected From/To date range of a guild, and the span of dates that hold data.
use vstd::prelude::*;

verus! {

/// Dates are days counted from 1970-01-01.
#[derive(Clone, Copy, Debug, PartialEq, Eq, Structural)]
pub struct DateHandler {
    /// The From date currently selected.
    pub from: i32,
    /// The To date currently selected.
    pub to: i32,
    /// The From date as last acknowledged.
    pub last_from: Option<i32>,
    /// The To date as last acknowledged.
    pub last_to: Option<i32>,
    /// The oldest date with at least one data point.
    pub start: Option<i32>,
    /// The newest date with at least one data point.
    pub end: Option<i32>,
}

impl Default for DateHandler {
    /// Both dates on 1970-01-01, nothing acknowledged, no data seen.
    fn default() -> (r: DateHandler)
        ensures
            r == DateHandler::spec_default(),
    {
        DateHandler { from: 0, to: 0, last_from: None, last_to: None, start: None, end: None }
    }
}

impl DateHandler {
    pub open spec fn spec_default() -> DateHandler {
        DateHandler { from: 0, to: 0, last_from: None, last_to: None, start: None, end: None }
    }

    /// Mutable access to the From date.
    pub fn from(&mut self) -> (r: &mut i32)
        ensures
            *r == old(self).from,
            *final(self) == (DateHandler { from: *final(r), ..*old(self) }),
    {
        &mut self.from
    }

    /// Mutable access to the To date.
    pub fn to(&mut self) -> (r: &mut i32)
        ensures
            *r == old(self).to,
            *final(self) == (DateHandler { to: *final(r), ..*old(self) }),
    {
        &mut self.to
    }

    /// The handler after acknowledging an edit of the dates, and whether an edit
    /// was found: a changed From date is acknowledged first (pulled back to To
    /// when it passed it), else a changed To date (pushed up to From when it
    /// fell before it).
    pub open spec fn spec_check_date_change(self) -> (DateHandler, bool) {
        if self.last_from is Some && self.last_from->0 != self.from {
            let from = if self.from > self.to { self.to } else { self.from };
            (DateHandler { from, last_from: Some(from), ..self }, true)
        } else if self.last_to is Some && self.last_to->0 != self.to {
            let to = if self.to < self.from { self.from } else { self.to };
            (DateHandler { to, last_to: Some(to), ..self }, true)
        } else {
            (self, false)
        }
    }

    /// Whether the current From and To dates have changed since last acknowledged.
    pub fn check_date_change(&mut self) -> (r: bool)
        ensures
            (*final(self), r) == old(self).spec_check_date_change(),
    {
        if let Some(d) = self.last_from {
            if d != self.from {
                if self.from > self.to {
                    self.from = self.to;
                }
                self.last_from = Some(self.from);
                return true;
            }
        }
        if let Some(d) = self.last_to {
            if d != self.to {
                if self.to < self.from {
                    self.to = self.from;
                }
                self.last_to = Some(self.to);
                return true;
            }
        }
        false
    }

    pub open spec fn spec_reset_dates(self) -> DateHandler {
        let from = match self.start {
            Some(d) => d,
            None => 0,
        };
        let to = match self.end {
            Some(d) => d,
            None => 0,
        };
        DateHandler { from, to, last_from: Some(from), last_to: Some(to), ..self }
    }

    /// Resets the range to the oldest and the newest date with data.
    pub fn reset_dates(&mut self)
        ensures
            *final(self) == old(self).spec_reset_dates(),
    {
        self.from = match self.start {
            Some(d) => d,
            None => 0,
        };
        self.to = match self.end {
            Some(d) => d,
            None => 0,
        };
        self.last_from = Some(self.from);
        self.last_to = Some(self.to);
    }

    /// The handler after seeing data on `date`, and whether the data span grew.
    pub open spec fn spec_update_dates(self, date: i32) -> (DateHandler, bool) {
        let new_start = self.start is None || self.start->0 > date;
        let new_end = self.end is None || self.end->0 < date;
        let h1 = if new_start {
            DateHandler { from: date, start: Some(date), last_from: Some(date), ..self }
        } else {
            self
        };
        let h2 = if new_end {
            DateHandler { to: date, end: Some(date), last_to: Some(date), ..h1 }
        } else {
            h1
        };
        (h2, new_start || new_end)
    }

    /// Widens the data span to hold `date`; a new oldest date becomes the From
    /// date and a new newest date the To date.
    pub fn update_dates(&mut self, date: i32) -> (r: bool)
        ensures
            (*final(self), r) == old(self).spec_update_dates(date),
    {
        let mut needs_update = false;
        let older = match self.start {
            None => true,
            Some(current) => current > date,
        };
        if older {
            self.from = date;
            self.start = Some(date);
            self.last_from = Some(date);
            needs_update = true;
        }
        let newer = match self.end {
            None => true,
            Some(current) => current < date,
        };
        if newer {
            self.to = date;
            self.end = Some(date);
            self.last_to = Some(date);
            needs_update = true;
        }
        needs_update
    }

    pub open spec fn spec_within_range(self, date: int) -> bool {
        self.from <= date <= self.to
    }

    /// Whether `date` lies within the selected range (both ends included).
    pub fn within_range(&self, date: i32) -> (r: bool)
        ensures
            r == self.spec_within_range(date as int),
    {
        date >= self.from && date <= self.to
    }

    /// Whether `date` lies before the selected To date.
    pub fn before_to_range(&self, date: i32) -> (r: bool)
        ensures
            r == (date < self.to),
    {
        date < self.to
    }
}

} // verus!
