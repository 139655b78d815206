//! Moving the selected date range forward and backward by a day, a week, a month or a year.
use vstd::prelude::*;
use crate::calendar::{add_days, add_months, sub_days, sub_months, months_earlier, months_later, valid_day, MAX_DAY, MIN_DAY};
use crate::date_handler::DateHandler;
use crate::state::NavigationType;

verus! {

#[derive(Clone, Copy)]
pub struct DateNavigator {
    pub nav_type: NavigationType,
    pub handler: DateHandler,
}

/// The (From, To) range after one step forward by `months` months: when From is
/// not yet `months` before To it becomes so; otherwise both move on by `months`.
pub open spec fn months_forward(from: i32, to: i32, months: u32) -> Option<(i32, i32)> {
    match months_earlier(to, months) {
        None => None,
        Some(target) => if from != target {
            Some((target, to))
        } else {
            match months_later(to, months) {
                None => None,
                Some(new_to) => match months_earlier(new_to, months) {
                    None => None,
                    Some(new_from) => Some((new_from, new_to)),
                },
            }
        },
    }
}

/// The (From, To) range after one step backward by `months` months: when To is
/// not yet `months` after From it becomes so; otherwise both move back by `months`.
pub open spec fn months_backward(from: i32, to: i32, months: u32) -> Option<(i32, i32)> {
    match months_later(from, months) {
        None => None,
        Some(target) => if to != target {
            Some((from, target))
        } else {
            match months_earlier(from, months) {
                None => None,
                Some(new_from) => match months_later(new_from, months) {
                    None => None,
                    Some(new_to) => Some((new_from, new_to)),
                },
            }
        },
    }
}

/// The (From, To) range after one step forward by `len + 1` days (a day or a week).
pub open spec fn days_forward(from: i32, to: i32, len: int) -> Option<(i32, i32)> {
    if to - len < MIN_DAY {
        None
    } else if from != to - len {
        Some(((to - len) as i32, to))
    } else if to + len > MAX_DAY {
        None
    } else {
        Some((to, (to + len) as i32))
    }
}

/// The (From, To) range after one step backward by `len + 1` days (a day or a week).
pub open spec fn days_backward(from: i32, to: i32, len: int) -> Option<(i32, i32)> {
    if from + len > MAX_DAY {
        None
    } else if to != from + len {
        Some((from, (from + len) as i32))
    } else if from - len < MIN_DAY {
        None
    } else {
        Some(((from - len) as i32, from))
    }
}

impl DateNavigator {
    pub open spec fn valid(&self) -> bool {
        valid_day(self.handler.from as int) && valid_day(self.handler.to as int)
    }

    /// The (From, To) range one step forward, `None` when a date it needs is out of range.
    pub open spec fn spec_next(&self) -> Option<(i32, i32)> {
        let from = self.handler.from;
        let to = self.handler.to;
        match self.nav_type {
            NavigationType::Day => if from != to {
                Some((to, to))
            } else if to + 1 > MAX_DAY {
                None
            } else {
                Some(((to + 1) as i32, (to + 1) as i32))
            },
            NavigationType::Week => days_forward(from, to, 6),
            NavigationType::Month => months_forward(from, to, 1),
            NavigationType::Year => months_forward(from, to, 12),
        }
    }

    /// The (From, To) range one step backward, `None` when a date it needs is out of range.
    pub open spec fn spec_previous(&self) -> Option<(i32, i32)> {
        let from = self.handler.from;
        let to = self.handler.to;
        match self.nav_type {
            NavigationType::Day => if from != to {
                Some((from, from))
            } else if from - 1 < MIN_DAY {
                None
            } else {
                Some(((from - 1) as i32, (from - 1) as i32))
            },
            NavigationType::Week => days_backward(from, to, 6),
            NavigationType::Month => months_backward(from, to, 1),
            NavigationType::Year => months_backward(from, to, 12),
        }
    }

    /// Mutable access to the date handler.
    pub fn handler(&mut self) -> (r: &mut DateHandler)
        ensures
            *r == old(self).handler,
            *final(self) == (DateNavigator { handler: *final(r), ..*old(self) }),
    {
        &mut self.handler
    }

    /// A copy of the date handler.
    pub fn handler_i(&self) -> (r: DateHandler)
        ensures
            r == self.handler,
    {
        self.handler
    }

    /// The name of the current step.
    pub fn nav_name(&self) -> (r: &'static str)
        ensures
            r@ == self.nav_type.spec_label(),
    {
        self.nav_type.label()
    }

    fn months_step_forward(from: i32, to: i32, months: u32) -> (r: Option<(i32, i32)>)
        ensures
            r == months_forward(from, to, months),
    {
        let target = match sub_months(to, months) {
            Some(t) => t,
            None => return None,
        };
        if from != target {
            return Some((target, to));
        }
        let new_to = match add_months(to, months) {
            Some(t) => t,
            None => return None,
        };
        match sub_months(new_to, months) {
            Some(new_from) => Some((new_from, new_to)),
            None => None,
        }
    }

    fn months_step_backward(from: i32, to: i32, months: u32) -> (r: Option<(i32, i32)>)
        ensures
            r == months_backward(from, to, months),
    {
        let target = match add_months(from, months) {
            Some(t) => t,
            None => return None,
        };
        if to != target {
            return Some((from, target));
        }
        let new_from = match sub_months(from, months) {
            Some(t) => t,
            None => return None,
        };
        match add_months(new_from, months) {
            Some(new_to) => Some((new_from, new_to)),
            None => None,
        }
    }

    fn days_step_forward(from: i32, to: i32, len: u32) -> (r: Option<(i32, i32)>)
        requires
            valid_day(from as int),
            valid_day(to as int),
        ensures
            r == days_forward(from, to, len as int),
    {
        let target = match sub_days(to, len) {
            Some(t) => t,
            None => return None,
        };
        if from != target {
            return Some((target, to));
        }
        match add_days(to, len) {
            Some(new_to) => Some((to, new_to)),
            None => None,
        }
    }

    fn days_step_backward(from: i32, to: i32, len: u32) -> (r: Option<(i32, i32)>)
        requires
            valid_day(from as int),
            valid_day(to as int),
        ensures
            r == days_backward(from, to, len as int),
    {
        let target = match add_days(from, len) {
            Some(t) => t,
            None => return None,
        };
        if to != target {
            return Some((from, target));
        }
        match sub_days(from, len) {
            Some(new_from) => Some((new_from, from)),
            None => None,
        }
    }

    /// The range one step forward (see [`Self::spec_next`]).
    pub fn next_range(&self) -> (r: Option<(i32, i32)>)
        requires
            self.valid(),
        ensures
            r == self.spec_next(),
    {
        let from = self.handler.from;
        let to = self.handler.to;
        match self.nav_type {
            NavigationType::Day => {
                if from != to {
                    Some((to, to))
                } else {
                    match add_days(to, 1) {
                        Some(d) => Some((d, d)),
                        None => None,
                    }
                }
            },
            NavigationType::Week => Self::days_step_forward(from, to, 6),
            NavigationType::Month => Self::months_step_forward(from, to, 1),
            NavigationType::Year => Self::months_step_forward(from, to, 12),
        }
    }

    /// The range one step backward (see [`Self::spec_previous`]).
    pub fn previous_range(&self) -> (r: Option<(i32, i32)>)
        requires
            self.valid(),
        ensures
            r == self.spec_previous(),
    {
        let from = self.handler.from;
        let to = self.handler.to;
        match self.nav_type {
            NavigationType::Day => {
                if from != to {
                    Some((from, from))
                } else {
                    match sub_days(from, 1) {
                        Some(d) => Some((d, d)),
                        None => None,
                    }
                }
            },
            NavigationType::Week => Self::days_step_backward(from, to, 6),
            NavigationType::Month => Self::months_step_backward(from, to, 1),
            NavigationType::Year => Self::months_step_backward(from, to, 12),
        }
    }

    /// Moves the range one step forward; the step must stay within the dates
    /// chrono represents.
    pub fn go_next(&mut self)
        requires
            old(self).valid(),
            old(self).spec_next() is Some,
        ensures
            final(self).nav_type == old(self).nav_type,
            final(self).handler == (DateHandler {
                from: old(self).spec_next().unwrap().0,
                to: old(self).spec_next().unwrap().1,
                ..old(self).handler
            }),
    {
        if let Some((from, to)) = self.next_range() {
            self.handler.from = from;
            self.handler.to = to;
        }
    }

    /// Moves the range one step backward; the step must stay within the dates
    /// chrono represents.
    pub fn go_previous(&mut self)
        requires
            old(self).valid(),
            old(self).spec_previous() is Some,
        ensures
            final(self).nav_type == old(self).nav_type,
            final(self).handler == (DateHandler {
                from: old(self).spec_previous().unwrap().0,
                to: old(self).spec_previous().unwrap().1,
                ..old(self).handler
            }),
    {
        if let Some((from, to)) = self.previous_range() {
            self.handler.from = from;
            self.handler.to = to;
        }
    }

    /// Moves the range one step forward when the step stays within range, and
    /// says whether it moved; the navigator is unchanged otherwise.
    pub fn try_go_next(&mut self) -> (moved: bool)
        requires
            old(self).valid(),
        ensures
            moved == old(self).spec_next() is Some,
            moved ==> final(self).handler == (DateHandler {
                from: old(self).spec_next().unwrap().0,
                to: old(self).spec_next().unwrap().1,
                ..old(self).handler
            }),
            !moved ==> *final(self) == *old(self),
            final(self).nav_type == old(self).nav_type,
    {
        match self.next_range() {
            Some((from, to)) => {
                self.handler.from = from;
                self.handler.to = to;
                true
            },
            None => false,
        }
    }

    /// Moves the range one step backward when the step stays within range, and
    /// says whether it moved; the navigator is unchanged otherwise.
    pub fn try_go_previous(&mut self) -> (moved: bool)
        requires
            old(self).valid(),
        ensures
            moved == old(self).spec_previous() is Some,
            moved ==> final(self).handler == (DateHandler {
                from: old(self).spec_previous().unwrap().0,
                to: old(self).spec_previous().unwrap().1,
                ..old(self).handler
            }),
            !moved ==> *final(self) == *old(self),
            final(self).nav_type == old(self).nav_type,
    {
        match self.previous_range() {
            Some((from, to)) => {
                self.handler.from = from;
                self.handler.to = to;
                true
            },
            None => false,
        }
    }
}

impl Default for DateNavigator {
    fn default() -> (r: DateNavigator)
        ensures
            r.nav_type == NavigationType::Day,
            r.handler == DateHandler::spec_default(),
    {
        DateNavigator { nav_type: NavigationType::Day, handler: DateHandler::default() }
    }
}

} // verus!
