use funnel::calendar::{add_days, day_start, hour_start, sub_days, time_to_day};
use funnel::member_data::MemberCount;
use funnel::overview::{bucket_times_of, Overview};
use funnel::date_handler::DateHandler;
use funnel::date_navigator::DateNavigator;
use funnel::state::NavigationType;

// Days from 1970-01-01.
const JAN_1_2024: i32 = 19723;
const JAN_31_2024: i32 = 19753;
const FEB_1_2024: i32 = 19754;
const FEB_29_2024: i32 = 19782;
const JAN_1_2023: i32 = 19358;

#[test]
fn add_and_sub_days_move_by_whole_days() {
    assert_eq!(add_days(JAN_1_2024, 31), Some(FEB_1_2024));
    assert_eq!(sub_days(FEB_1_2024, 31), Some(JAN_1_2024));
    assert_eq!(add_days(95026236, 1), None);
    assert_eq!(sub_days(-96465293, 1), None);
}

#[test]
fn month_navigation_clamps_to_the_last_day_of_a_shorter_month() {
    // Back from 2024-01-31..2024-02-29: 2023-12-31..2024-01-31.
    let n = DateNavigator { nav_type: NavigationType::Month, handler: handler(JAN_31_2024, FEB_29_2024) };
    assert_eq!(n.previous_range(), Some((JAN_31_2024 - 31, JAN_31_2024)));
}

#[test]
fn year_navigation_moves_twelve_months() {
    let n = DateNavigator { nav_type: NavigationType::Year, handler: handler(JAN_1_2023, JAN_1_2024) };
    assert_eq!(n.next_range(), Some((JAN_1_2024, JAN_1_2024 + 366)));
    assert_eq!(n.previous_range(), Some((JAN_1_2023 - 365, JAN_1_2023)));
}

#[test]
fn buckets_start_at_the_hour_day_monday_and_first_of_the_month() {
    // 2024-02-29 (a Thursday) at 13:20.
    let s = FEB_29_2024 as i64 * 86_400 + 13 * 3_600 + 20 * 60;
    let (hour, day, week, month) = bucket_times_of(s);
    assert_eq!(hour, FEB_29_2024 as i64 * 86_400 + 13 * 3_600);
    assert_eq!(day, FEB_29_2024 as i64 * 86_400);
    assert_eq!(week, (FEB_29_2024 - 3) as i64 * 86_400);
    assert_eq!(month, FEB_1_2024 as i64 * 86_400);
    // 2024-01-07 was a Sunday: its week started on Monday 2024-01-01.
    let (_, _, week, month) = bucket_times_of((JAN_1_2024 + 6) as i64 * 86_400);
    assert_eq!(week, JAN_1_2024 as i64 * 86_400);
    assert_eq!(month, JAN_1_2024 as i64 * 86_400);
}

#[test]
fn member_counts_need_a_date_that_exists_in_the_first_counts_year() {
    let mut o = Overview::default();
    let count = MemberCount { count_timestamp: 0, guild_id: 1, total_members: 5 };
    o.handle_member_data(count, JAN_1_2023 as i64 * 86_400 + 3_600);
    assert!(o.member_count_ready(FEB_29_2024 - 1));
    // The 29th of February does not exist in 2023.
    assert!(!o.member_count_ready(FEB_29_2024));
    assert!(o.member_count_ready(JAN_1_2024));
}

#[test]
fn floors_of_a_local_time() {
    let s = JAN_1_2024 as i64 * 86_400 + 5 * 3_600 + 17 * 60 + 3;
    assert_eq!(time_to_day(s), JAN_1_2024);
    assert_eq!(hour_start(s), JAN_1_2024 as i64 * 86_400 + 5 * 3_600);
    assert_eq!(day_start(s), JAN_1_2024 as i64 * 86_400);
    // Before 1970 the day is still the one that holds the time.
    assert_eq!(time_to_day(-1), -1);
    assert_eq!(day_start(-1), -86_400);
}

fn handler(from: i32, to: i32) -> DateHandler {
    DateHandler { from, to, last_from: Some(from), last_to: Some(to), start: None, end: None }
}

#[test]
fn update_dates_widens_the_span() {
    let mut h = DateHandler::default();
    assert!(h.update_dates(10));
    assert_eq!((h.from, h.to, h.start, h.end), (10, 10, Some(10), Some(10)));
    assert!(h.update_dates(5));
    assert_eq!((h.from, h.to, h.start, h.end), (5, 10, Some(5), Some(10)));
    assert!(!h.update_dates(7));
    assert!(h.update_dates(12));
    assert_eq!((h.from, h.to, h.start, h.end), (5, 12, Some(5), Some(12)));
}

#[test]
fn check_date_change_pulls_from_back_to_to() {
    let mut h = handler(10, 20);
    assert!(!h.check_date_change());
    *h.from() = 25;
    assert!(h.check_date_change());
    assert_eq!((h.from, h.to), (20, 20));
    *h.to() = 15;
    assert!(h.check_date_change());
    assert_eq!((h.from, h.to), (20, 20));
}

#[test]
fn reset_dates_selects_the_whole_span() {
    let mut h = handler(10, 12);
    h.start = Some(3);
    h.end = Some(40);
    h.reset_dates();
    assert_eq!((h.from, h.to, h.last_from, h.last_to), (3, 40, Some(3), Some(40)));
    assert!(h.within_range(3) && h.within_range(40) && !h.within_range(41));
    assert!(h.before_to_range(39) && !h.before_to_range(40));
}

#[test]
fn day_forward_then_back_returns() {
    let mut n = DateNavigator { nav_type: NavigationType::Day, handler: handler(100, 100) };
    n.go_next();
    assert_eq!((n.handler.from, n.handler.to), (101, 101));
    n.go_previous();
    assert_eq!((n.handler.from, n.handler.to), (100, 100));
}

#[test]
fn day_step_first_collapses_a_longer_range() {
    let n = DateNavigator { nav_type: NavigationType::Day, handler: handler(90, 100) };
    assert_eq!(n.next_range(), Some((100, 100)));
    assert_eq!(n.previous_range(), Some((90, 90)));
}

#[test]
fn week_forward_then_back_returns() {
    let mut n = DateNavigator { nav_type: NavigationType::Week, handler: handler(94, 100) };
    assert_eq!(n.next_range(), Some((100, 106)));
    n.go_next();
    n.go_previous();
    assert_eq!((n.handler.from, n.handler.to), (94, 100));
}

#[test]
fn month_step_moves_a_month() {
    let n = DateNavigator { nav_type: NavigationType::Month, handler: handler(JAN_1_2024, FEB_1_2024) };
    assert_eq!(n.next_range(), Some((FEB_1_2024, FEB_1_2024 + 29)));
    let m = DateNavigator { nav_type: NavigationType::Month, handler: handler(JAN_31_2024, FEB_29_2024) };
    assert_eq!(m.next_range(), Some((JAN_31_2024 - 2, FEB_29_2024)));
}

#[test]
fn navigation_refuses_to_leave_the_calendar() {
    let mut n = DateNavigator { nav_type: NavigationType::Day, handler: handler(95026236, 95026236) };
    assert_eq!(n.next_range(), None);
    assert!(!n.try_go_next());
    assert_eq!((n.handler.from, n.handler.to), (95026236, 95026236));
    assert!(n.try_go_previous());
    assert_eq!((n.handler.from, n.handler.to), (95026235, 95026235));
}
