//! The reporting windows, counted from the last trading day.

use crate::analysis::calendar::{
    first_of_month, first_of_year, is_calendar_day, last_weekday, month_start,
    previous_weekday, weekday, weekday_at_or_before, weekday_number, year_start,
};
use vstd::prelude::*;

verus! {

/// The windows that a performance report covers.
#[derive(Debug, Clone, Copy, PartialEq, Eq, Structural)]
pub enum PerformanceKind {
    Total,
    Today,
    YearToDate,
    MonthToDate,
    WeekToDate,
    YearToYear,
    MonthToMonth,
}

/// One reporting window: it begins at the end of day `start` and ends at the
/// end of day `end`, or now where `end` is `None`.
#[derive(Debug, Clone, Copy, PartialEq, Eq, Structural)]
pub struct Job {
    pub kind: PerformanceKind,
    pub start: i32,
    pub end: Option<i32>,
}

/// A reporting window with its days as mathematical integers.
pub struct JobView {
    pub kind: PerformanceKind,
    pub start: int,
    pub end: Option<int>,
}

impl View for Job {
    type V = JobView;

    open spec fn view(&self) -> JobView {
        JobView {
            kind: self.kind,
            start: self.start as int,
            end: match self.end {
                Some(e) => Some(e as int),
                None => None,
            },
        }
    }
}

/// The views of a list of windows.
pub open spec fn job_views(jobs: Seq<Job>) -> Seq<JobView> {
    Seq::new(jobs.len(), |i: int| jobs[i]@)
}

/// The most that is reported of full calendar months.
pub const MONTH_JOBS: usize = 12;

/// The day from which transactions are known: that of the first
/// transaction, or the first day of the year of `prev_day` where there is
/// no transaction.
pub open spec fn first_day(prev_day: int, first_transaction: Option<int>) -> int {
    match first_transaction {
        Some(d) => d,
        None => year_start(prev_day),
    }
}

/// The last Friday that is not after `prev_day`.
pub open spec fn week_anchor(prev_day: int) -> int {
    prev_day - (weekday_number(prev_day) - 5 + 7) % 7
}

/// The full calendar years that end on `end` or before, latest first, as
/// far as transactions are known before their end.
pub open spec fn year_jobs(end: int, first: int) -> Seq<JobView>
    decreases end - first,
{
    if first < end {
        let before = year_start(end) - 1;
        let job = JobView { kind: PerformanceKind::YearToYear, start: before, end: Some(end) };
        if first < before < end {
            seq![job] + year_jobs(before, first)
        } else {
            seq![job]
        }
    } else {
        Seq::empty()
    }
}

/// The full calendar months that end on `end` or before, latest first, as
/// far as transactions are known before their end, and `limit` of them at
/// most.
pub open spec fn month_jobs(end: int, first: int, limit: nat) -> Seq<JobView>
    decreases limit,
{
    if limit > 0 && first < end {
        let before = month_start(end) - 1;
        seq![JobView { kind: PerformanceKind::MonthToMonth, start: before, end: Some(end) }]
            + month_jobs(before, first, (limit - 1) as nat)
    } else {
        Seq::empty()
    }
}

/// The five windows that end now.
pub open spec fn live_jobs(prev_day: int, first: int) -> Seq<JobView> {
    seq![
        JobView { kind: PerformanceKind::Total, start: first - 1, end: None },
        JobView { kind: PerformanceKind::Today, start: prev_day, end: None },
        JobView { kind: PerformanceKind::WeekToDate, start: week_anchor(prev_day), end: None },
        JobView { kind: PerformanceKind::MonthToDate, start: month_start(prev_day) - 1, end: None },
        JobView { kind: PerformanceKind::YearToDate, start: year_start(prev_day) - 1, end: None },
    ]
}

/// All windows of a report, in the order in which they are reported.
pub open spec fn jobs_for(prev_day: int, first: int) -> Seq<JobView> {
    live_jobs(prev_day, first) + year_jobs(year_start(prev_day) - 1, first) + month_jobs(
        month_start(prev_day) - 1,
        first,
        MONTH_JOBS as nat,
    )
}

/// Lists the windows of a report: the whole history, today, the week, the
/// month and the year to date, then the full calendar years and the last
/// full calendar months that lie behind.
///
/// `prev_day` is the trading day before the last one with prices;
/// `first_transaction` is the day of the earliest transaction.
pub fn enumerate_jobs(prev_day: i32, first_transaction: Option<i32>) -> (r: Vec<Job>)
    requires
        is_calendar_day(prev_day as int),
        first_transaction is Some ==> is_calendar_day(first_transaction->0 as int),
    ensures
        job_views(r@) == jobs_for(
            prev_day as int,
            first_day(
                prev_day as int,
                match first_transaction {
                    Some(d) => Some(d as int),
                    None => None,
                },
            ),
        ),
{
    let year_begin: i32 = first_of_year(prev_day);
    let month_begin: i32 = first_of_month(prev_day);
    let first: i32 = match first_transaction {
        Some(d) => d,
        None => year_begin,
    };
    let wd: u32 = weekday(prev_day);
    let from_friday: i32 = ((wd as i32) - 5 + 7) % 7;
    let mut jobs: Vec<Job> = Vec::new();
    jobs.push(Job { kind: PerformanceKind::Total, start: first - 1, end: None });
    jobs.push(Job { kind: PerformanceKind::Today, start: prev_day, end: None });
    jobs.push(Job { kind: PerformanceKind::WeekToDate, start: prev_day - from_friday, end: None });
    jobs.push(Job { kind: PerformanceKind::MonthToDate, start: month_begin - 1, end: None });
    jobs.push(Job { kind: PerformanceKind::YearToDate, start: year_begin - 1, end: None });
    assert(job_views(jobs@) =~= live_jobs(prev_day as int, first as int));

    let ghost live = job_views(jobs@);
    let ghost years = year_jobs(year_begin - 1, first as int);
    let mut end: i32 = year_begin - 1;
    while first < end
        invariant
            -400 <= first <= 3_652_059,
            -800 <= end <= 3_652_059,
            years == year_jobs(year_begin - 1, first as int),
            job_views(jobs@) + year_jobs(end as int, first as int) == live + years,
        decreases end - first + 1000,
    {
        let begin: i32 = first_of_year(end);
        let ghost before = job_views(jobs@);
        jobs.push(Job { kind: PerformanceKind::YearToYear, start: begin - 1, end: Some(end) });
        proof {
            let job = JobView {
                kind: PerformanceKind::YearToYear,
                start: begin - 1,
                end: Some(end as int),
            };
            assert(job_views(jobs@) =~= before.push(job));
            assert(before.push(job) + year_jobs(begin - 1, first as int) =~= before + year_jobs(
                end as int,
                first as int,
            ));
        }
        end = begin - 1;
    }
    assert(job_views(jobs@) =~= live + years);

    let ghost months = month_jobs(month_begin - 1, first as int, MONTH_JOBS as nat);
    let mut end: i32 = month_begin - 1;
    let mut left: usize = MONTH_JOBS;
    while left > 0 && first < end
        invariant
            -400 <= first <= 3_652_059,
            -800 <= end <= 3_652_059,
            left <= MONTH_JOBS,
            end >= -32 * (MONTH_JOBS - left) - 32,
            months == month_jobs(month_begin - 1, first as int, MONTH_JOBS as nat),
            job_views(jobs@) + month_jobs(end as int, first as int, left as nat) == live + years
                + months,
        decreases left,
    {
        let begin: i32 = first_of_month(end);
        let ghost before = job_views(jobs@);
        jobs.push(Job { kind: PerformanceKind::MonthToMonth, start: begin - 1, end: Some(end) });
        proof {
            let job = JobView {
                kind: PerformanceKind::MonthToMonth,
                start: begin - 1,
                end: Some(end as int),
            };
            assert(job_views(jobs@) =~= before.push(job));
            assert(before.push(job) + month_jobs(begin - 1, first as int, (left - 1) as nat)
                =~= before + month_jobs(end as int, first as int, left as nat));
        }
        end = begin - 1;
        left = left - 1;
    }
    assert(job_views(jobs@) =~= live + years + months);
    jobs
}

/// The window begins or ends on the day.
pub open spec fn mentions(job: Job, day: i32) -> bool {
    job.start == day || job.end == Some(day)
}

/// Tells whether a list of days holds a day.
pub fn holds_day(days: &Vec<i32>, day: i32) -> (r: bool)
    ensures
        r == days@.contains(day),
{
    let mut n: usize = 0;
    while n < days.len()
        invariant
            n <= days.len(),
            forall|i: int| 0 <= i < n ==> days[i] != day,
        decreases days.len() - n,
    {
        if days[n] == day {
            return true;
        }
        n += 1;
    }
    false
}

/// Lists the days on which the windows begin and end, each once: the days
/// for which end-of-day prices are needed.
pub fn job_days(jobs: &Vec<Job>) -> (r: Vec<i32>)
    ensures
        r@.no_duplicates(),
        forall|day: i32|
            r@.contains(day) <==> exists|j: int| 0 <= j < jobs.len() && mentions(#[trigger] jobs[j], day),
{
    let mut days: Vec<i32> = Vec::new();
    let mut n: usize = 0;
    while n < jobs.len()
        invariant
            n <= jobs.len(),
            days@.no_duplicates(),
            forall|day: i32|
                days@.contains(day) <==> exists|j: int| 0 <= j < n && mentions(#[trigger] jobs[j], day),
        decreases jobs.len() - n,
    {
        let job = jobs[n];
        let ghost before = days@;
        if !holds_day(&days, job.start) {
            days.push(job.start);
        }
        let ghost middle = days@;
        proof {
            assert forall|day: i32| middle.contains(day) <==> (before.contains(day) || day
                == job.start) by {
                if before.contains(day) {
                    let i = choose|i: int| 0 <= i < before.len() && before[i] == day;
                    assert(middle[i] == day);
                }
                if day == job.start {
                    if !before.contains(day) {
                        assert(middle[middle.len() - 1] == day);
                    }
                }
            }
        }
        match job.end {
            Some(e) => {
                if !holds_day(&days, e) {
                    days.push(e);
                }
            },
            None => {},
        }
        proof {
            let after = days@;
            assert forall|day: i32| after.contains(day) <==> (middle.contains(day) || job.end
                == Some(day)) by {
                if middle.contains(day) {
                    let i = choose|i: int| 0 <= i < middle.len() && middle[i] == day;
                    assert(after[i] == day);
                }
                if job.end == Some(day) {
                    if !middle.contains(day) {
                        assert(after[after.len() - 1] == day);
                    }
                }
            }
            assert forall|day: i32| after.contains(day) <==> exists|j: int|
                0 <= j < n + 1 && mentions(#[trigger] jobs[j], day) by {
                if after.contains(day) {
                    if before.contains(day) {
                        let j = choose|j: int| 0 <= j < n && mentions(#[trigger] jobs[j], day);
                        assert(mentions(jobs[j], day));
                    } else {
                        assert(mentions(jobs[n as int], day));
                    }
                }
                if exists|j: int| 0 <= j < n + 1 && mentions(#[trigger] jobs[j], day) {
                    let j = choose|j: int| 0 <= j < n + 1 && mentions(#[trigger] jobs[j], day);
                    if j < n {
                        assert(before.contains(day));
                    }
                }
            }
        }
        n += 1;
    }
    days
}

/// Finds the two days that a report counts from: the last trading day,
/// which is the day of the latest price, or today where there is no price,
/// moved back to a weekday; and the weekday before it.
pub fn trading_days(latest_price_day: Option<i32>, today: i32) -> (r: (i32, i32))
    requires
        is_calendar_day(today as int),
        latest_price_day is Some ==> is_calendar_day(latest_price_day->0 as int),
    ensures
        r.0 == weekday_at_or_before(
            match latest_price_day {
                Some(d) => d as int,
                None => today as int,
            },
        ),
        r.1 == weekday_at_or_before(r.0 - 1),
        1 <= weekday_number(r.0 as int) <= 5,
        1 <= weekday_number(r.1 as int) <= 5,
        r.1 < r.0,
{
    let anchor: i32 = match latest_price_day {
        Some(d) => d,
        None => today,
    };
    let current_day = last_weekday(anchor);
    let prev_day = previous_weekday(current_day);
    (current_day, prev_day)
}

} // verus!
