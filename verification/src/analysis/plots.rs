//! Chart series: where a date range is sampled, what the portfolio holds
//! and is worth at each sample, and which samples are worth drawing.

use crate::analysis::calendar::{day_of, in_calendar_reach, utc_day, SECONDS_PER_DAY};
use crate::analysis::performance::amount_of;
use crate::analysis::price::{index_of, EitherPrice};
use crate::data::{exchange_rank, preference_rank};
use crate::models::{
    transactions_in_range, HistoricalPrice, RealtimePrice, StockExchange, Transaction,
    MAX_ENTRIES, MAX_INSTANT,
};
use vstd::prelude::*;

verus! {

/// Which kind of price a chart is drawn from.
#[derive(Debug, Clone, Copy, PartialEq, Eq, Structural)]
pub enum DataSourceSelection {
    Realtime,
    Historical,
    /// Ticks for a short range, bars for a long one or where ticks are
    /// scarce.
    Automatic,
}

/// The longest range, in days, that is drawn from ticks where the choice is
/// left open: three weeks.
pub const REALTIME_RANGE_DAYS: i32 = 21;

/// The number of samples aimed at when drawing from bars.
pub const HISTORICAL_SAMPLES: i64 = 200;

/// The number of sample days under which each day is sampled twice.
pub const DENSE_SAMPLE_DAYS: usize = 150;

/// The number of samples aimed at when drawing from ticks.
pub const REALTIME_SAMPLES: i64 = 400;

/// The hour of the day at which venues open, in local time.
pub const OPENING_HOUR: u32 = 9;

/// The hour of the day at which venues close, in local time.
pub const CLOSING_HOUR: u32 = 18;

/// A chart over the range is drawn from bars: bars were asked for, or the
/// choice was left open and the range is longer than three weeks.
pub open spec fn draws_from_bars(selection: DataSourceSelection, start_day: int, end_day: int) -> bool {
    selection == DataSourceSelection::Historical || (selection == DataSourceSelection::Automatic
        && end_day - start_day > REALTIME_RANGE_DAYS)
}

/// Computes `draws_from_bars`.
pub fn uses_historical(selection: DataSourceSelection, start_day: i32, end_day: i32) -> (r: bool)
    ensures
        r == draws_from_bars(selection, start_day as int, end_day as int),
{
    match selection {
        DataSourceSelection::Historical => true,
        DataSourceSelection::Automatic => end_day as i64 - start_day as i64
            > REALTIME_RANGE_DAYS as i64,
        DataSourceSelection::Realtime => false,
    }
}

/// Ticks are too scarce to draw from: the choice was left open and there
/// are fewer than two ticks for each venue. The chart is then drawn from
/// bars.
pub fn falls_back(selection: DataSourceSelection, tick_count: usize, venue_count: usize) -> (r:
    bool)
    ensures
        r == (selection == DataSourceSelection::Automatic && tick_count < 2 * venue_count),
{
    match selection {
        DataSourceSelection::Automatic => (tick_count as u128) < 2 * (venue_count as u128),
        _ => false,
    }
}

/// The distance in seconds between two samples of a range of days: a
/// two-hundredth of the range, and a day at least.
pub open spec fn bar_interval(start_day: int, end_day: int) -> int {
    let span = (end_day - start_day) * 86_400 / 200;
    if span > 86_400 {
        span
    } else {
        86_400
    }
}

/// Computes `bar_interval`.
pub fn historical_interval(start_day: i32, end_day: i32) -> (r: i64)
    ensures
        r == bar_interval(start_day as int, end_day as int),
        r >= SECONDS_PER_DAY,
{
    let days: i64 = end_day as i64 - start_day as i64;
    if days <= 0 {
        assert(days * 86_400 / 200 <= 0) by (nonlinear_arith)
            requires
                days <= 0,
        ;
        SECONDS_PER_DAY
    } else {
        let span: i64 = days * SECONDS_PER_DAY / HISTORICAL_SAMPLES;
        if span > SECONDS_PER_DAY {
            span
        } else {
            SECONDS_PER_DAY
        }
    }
}

/// The distance in seconds between two samples of a span of instants: a
/// four-hundredth of the span, and five minutes at least, in whole
/// multiples of five minutes.
pub open spec fn tick_interval(start_time: int, end_time: int) -> int {
    let minutes = (end_time - start_time) / 24_000;
    if minutes > 5 {
        minutes / 5 * 5 * 60
    } else {
        300
    }
}

/// Computes `tick_interval`.
pub fn realtime_interval(start_time: i64, end_time: i64) -> (r: i64)
    requires
        -MAX_INSTANT <= start_time <= MAX_INSTANT,
        -MAX_INSTANT <= end_time <= MAX_INSTANT,
    ensures
        r == tick_interval(start_time as int, end_time as int),
        r >= 300,
{
    let span: i64 = end_time - start_time;
    if span <= 0 {
        300
    } else {
        let minutes: i64 = span / (REALTIME_SAMPLES * 60);
        if minutes > 5 {
            minutes / 5 * 5 * 60
        } else {
            300
        }
    }
}

/// The samples of a walk from `first` in steps of `interval`: as many as
/// stay at or before `last`.
pub open spec fn is_walk(r: Seq<i64>, first: int, interval: int, last: int) -> bool {
    &&& forall|k: int| 0 <= k < r.len() ==> (#[trigger] r[k]) == first + k * interval
    &&& forall|k: int| 0 <= k < r.len() ==> (#[trigger] r[k]) <= last
    &&& first + r.len() * interval > last
}

/// Lists the instants from `first` in steps of `interval` that are not
/// after `last`.
pub fn realtime_instants(first: i64, interval: i64, last: i64) -> (r: Vec<i64>)
    requires
        -MAX_INSTANT <= first <= MAX_INSTANT,
        -MAX_INSTANT <= last <= MAX_INSTANT,
        1 <= interval <= MAX_INSTANT,
    ensures
        is_walk(r@, first as int, interval as int, last as int),
{
    let mut out: Vec<i64> = Vec::new();
    let mut at: i64 = first;
    assert(0 * interval == 0);
    while at <= last
        invariant
            -MAX_INSTANT <= first <= MAX_INSTANT,
            -MAX_INSTANT <= last <= MAX_INSTANT,
            1 <= interval <= MAX_INSTANT,
            at == first + out.len() * interval,
            forall|k: int| 0 <= k < out.len() ==> (#[trigger] out[k]) == first + k * interval,
            forall|k: int| 0 <= k < out.len() ==> (#[trigger] out[k]) <= last,
        decreases last - at + interval,
    {
        out.push(at);
        assert((out.len() - 1) * interval + interval == out.len() * interval)
            by (nonlinear_arith);
        at = at + interval;
    }
    out
}

/// A time of day on a calendar day, in local time.
#[derive(Debug, Clone, Copy, PartialEq, Eq, Structural)]
pub struct LocalTime {
    pub day: i32,
    pub hour: u32,
}

/// The days of a walk from `first` in steps of `interval`: the days in UTC
/// of as many steps as fall on a day that is not after `end_day`.
pub open spec fn is_day_walk(r: Seq<i32>, first: int, interval: int, end_day: int) -> bool {
    &&& forall|k: int| 0 <= k < r.len() ==> (#[trigger] r[k]) == day_of(first + k * interval)
    &&& forall|k: int| 0 <= k < r.len() ==> (#[trigger] r[k]) <= end_day
    &&& day_of(first + r.len() * interval) > end_day
}

/// Lists the days in UTC of the instants from `first` in steps of
/// `interval`, as long as they are not after `end_day`.
pub fn sample_days(first: i64, interval: i64, end_day: i32) -> (r: Vec<i32>)
    requires
        -MAX_INSTANT <= first <= MAX_INSTANT,
        SECONDS_PER_DAY <= interval <= MAX_INSTANT,
        in_calendar_reach(end_day as int),
    ensures
        is_day_walk(r@, first as int, interval as int, end_day as int),
{
    let mut out: Vec<i32> = Vec::new();
    let mut at: i64 = first;
    let mut day: i32 = utc_day(at);
    assert(0 * interval == 0);
    while day <= end_day
        invariant
            -MAX_INSTANT <= first <= MAX_INSTANT,
            SECONDS_PER_DAY <= interval <= MAX_INSTANT,
            in_calendar_reach(end_day as int),
            at == first + out.len() * interval,
            day == day_of(at as int),
            -MAX_INSTANT <= at <= 20_000_000_000_000,
            forall|k: int| 0 <= k < out.len() ==> (#[trigger] out[k]) == day_of(first + k * interval),
            forall|k: int| 0 <= k < out.len() ==> (#[trigger] out[k]) <= end_day,
        decreases (end_day - 719_163 + 1) * 86_400 - at + MAX_INSTANT,
    {
        out.push(day);
        assert((out.len() - 1) * interval + interval == out.len() * interval)
            by (nonlinear_arith);
        at = at + interval;
        day = utc_day(at);
    }
    out
}

/// The local times at which a list of days is sampled: at the close of
/// each day, and at its opening too where the days are fewer than 150.
pub open spec fn day_samples(days: Seq<i32>) -> Seq<LocalTime> {
    if days.len() < DENSE_SAMPLE_DAYS {
        Seq::new(
            2 * days.len(),
            |i: int|
                LocalTime {
                    day: days[i / 2],
                    hour: if i % 2 == 0 {
                        OPENING_HOUR
                    } else {
                        CLOSING_HOUR
                    },
                },
        )
    } else {
        Seq::new(days.len(), |i: int| LocalTime { day: days[i], hour: CLOSING_HOUR })
    }
}

/// Lists the local times at which a range of days is sampled when drawing
/// from bars. `first` is 09:00 local time of the first day, as an instant.
pub fn historical_samples(first: i64, start_day: i32, end_day: i32) -> (r: Vec<LocalTime>)
    requires
        -MAX_INSTANT <= first <= MAX_INSTANT,
        in_calendar_reach(end_day as int),
    ensures
        exists|days: Seq<i32>|
            is_day_walk(
                days,
                first as int,
                bar_interval(start_day as int, end_day as int),
                end_day as int,
            ) && r@ == day_samples(days),
{
    let interval = historical_interval(start_day, end_day);
    assert(interval <= MAX_INSTANT) by {
        assert((end_day - start_day) * 86_400 / 200 <= 5_000_000_000 * 86_400 / 200);
    }
    let days = sample_days(first, interval, end_day);
    let mut out: Vec<LocalTime> = Vec::new();
    if days.len() < DENSE_SAMPLE_DAYS {
        let mut n: usize = 0;
        while n < days.len()
            invariant
                n <= days.len(),
                days.len() < DENSE_SAMPLE_DAYS,
                out.len() == 2 * n,
                forall|i: int|
                    0 <= i < 2 * n ==> (#[trigger] out[i]) == (LocalTime {
                        day: days[i / 2],
                        hour: if i % 2 == 0 {
                            OPENING_HOUR
                        } else {
                            CLOSING_HOUR
                        },
                    }),
            decreases days.len() - n,
        {
            out.push(LocalTime { day: days[n], hour: OPENING_HOUR });
            out.push(LocalTime { day: days[n], hour: CLOSING_HOUR });
            n += 1;
        }
        assert(out@ =~= day_samples(days@));
    } else {
        let mut n: usize = 0;
        while n < days.len()
            invariant
                n <= days.len(),
                out.len() == n,
                forall|i: int|
                    0 <= i < n ==> (#[trigger] out[i]) == (LocalTime {
                        day: days[i],
                        hour: CLOSING_HOUR,
                    }),
            decreases days.len() - n,
        {
            out.push(LocalTime { day: days[n], hour: CLOSING_HOUR });
            n += 1;
        }
        assert(out@ =~= day_samples(days@));
    }
    out
}

/// The second of the day at which venues open: 09:00:00.
pub const OPENING_SECOND: u32 = 32_400;

/// The second of the day at which venues close: 18:00:00.
pub const CLOSING_SECOND: u32 = 64_800;

/// The time of day, in seconds since midnight, lies in the trading hours:
/// from 09:00:00 to 18:00:00, both included.
pub open spec fn is_trading_time(second: u32) -> bool {
    OPENING_SECOND <= second <= CLOSING_SECOND
}

/// The instants of a list that fall into the trading hours, given the
/// second of the day of each in local time.
pub open spec fn in_trading_hours(instants: Seq<i64>, seconds: Seq<u32>) -> Seq<i64>
    decreases instants.len(),
{
    if instants.len() == 0 || seconds.len() != instants.len() {
        Seq::empty()
    } else {
        let rest = in_trading_hours(instants.drop_last(), seconds.drop_last());
        if is_trading_time(seconds.last()) {
            rest.push(instants.last())
        } else {
            rest
        }
    }
}

/// The instant is one of the list, and its time of day lies in the trading
/// hours.
pub open spec fn is_traded_instant(instants: Seq<i64>, seconds: Seq<u32>, instant: i64) -> bool {
    exists|i: int|
        0 <= i < instants.len() && i < seconds.len() && #[trigger] instants[i] == instant
            && is_trading_time(seconds[i])
}

/// Every instant that is kept is one of the list, and its time of day lies
/// from 09:00:00 to 18:00:00.
pub proof fn kept_instants_are_in_trading_hours(instants: Seq<i64>, seconds: Seq<u32>)
    requires
        instants.len() == seconds.len(),
    ensures
        forall|j: int|
            0 <= j < in_trading_hours(instants, seconds).len() ==> is_traded_instant(
                instants,
                seconds,
                #[trigger] in_trading_hours(instants, seconds)[j],
            ),
    decreases instants.len(),
{
    if instants.len() > 0 {
        let before = instants.drop_last();
        let early = seconds.drop_last();
        let rest = in_trading_hours(before, early);
        let all = in_trading_hours(instants, seconds);
        kept_instants_are_in_trading_hours(before, early);
        assert forall|j: int| 0 <= j < all.len() implies is_traded_instant(
            instants,
            seconds,
            #[trigger] all[j],
        ) by {
            if j < rest.len() {
                assert(all[j] == rest[j]);
                assert(is_traded_instant(before, early, rest[j]));
                let i = choose|i: int|
                    0 <= i < before.len() && i < early.len() && #[trigger] before[i] == rest[j]
                        && is_trading_time(early[i]);
                assert(instants[i] == all[j] && is_trading_time(seconds[i]));
            } else {
                let i = instants.len() - 1;
                assert(instants[i] == all[j] && is_trading_time(seconds[i]));
            }
        }
    }
}

/// Keeps the instants whose time of day lies from 09:00:00 to 18:00:00 of
/// local time, both included. `seconds` holds the second of the day of each
/// instant in local time.
pub fn keep_trading_hours(instants: &Vec<i64>, seconds: &Vec<u32>) -> (r: Vec<i64>)
    requires
        instants.len() == seconds.len(),
    ensures
        r@ == in_trading_hours(instants@, seconds@),
{
    let mut out: Vec<i64> = Vec::new();
    let mut n: usize = 0;
    while n < instants.len()
        invariant
            n <= instants.len(),
            instants.len() == seconds.len(),
            out@ == in_trading_hours(instants@.take(n as int), seconds@.take(n as int)),
        decreases instants.len() - n,
    {
        proof {
            assert(instants@.take(n as int + 1).drop_last() == instants@.take(n as int));
            assert(seconds@.take(n as int + 1).drop_last() == seconds@.take(n as int));
        }
        if OPENING_SECOND <= seconds[n] && seconds[n] <= CLOSING_SECOND {
            out.push(instants[n]);
        }
        n += 1;
    }
    proof {
        assert(instants@.take(n as int) == instants@);
        assert(seconds@.take(n as int) == seconds@);
    }
    out
}

/// Lays out bars as observations in time: each bar at its opening, then at
/// its close.
pub fn expand_bars(bars: &Vec<HistoricalPrice>) -> (r: Vec<EitherPrice>)
    ensures
        r.len() == 2 * bars.len(),
        forall|i: int|
            0 <= i < bars.len() ==> (#[trigger] r[2 * i]) == EitherPrice::HistoricalPriceOpening(
                bars[i],
            ),
        forall|i: int|
            0 <= i < bars.len() ==> (#[trigger] r[2 * i + 1]) == EitherPrice::HistoricalPrice(
                bars[i],
            ),
{
    let mut out: Vec<EitherPrice> = Vec::new();
    let mut n: usize = 0;
    while n < bars.len()
        invariant
            n <= bars.len(),
            out.len() == 2 * n,
            forall|i: int|
                0 <= i < n ==> (#[trigger] out[2 * i]) == EitherPrice::HistoricalPriceOpening(
                    bars[i],
                ),
            forall|i: int|
                0 <= i < n ==> (#[trigger] out[2 * i + 1]) == EitherPrice::HistoricalPrice(bars[i]),
        decreases bars.len() - n,
    {
        out.push(EitherPrice::HistoricalPriceOpening(bars[n]));
        out.push(EitherPrice::HistoricalPrice(bars[n]));
        n += 1;
    }
    out
}

/// Lays out ticks as observations.
pub fn wrap_ticks(ticks: &Vec<RealtimePrice>) -> (r: Vec<EitherPrice>)
    ensures
        r.len() == ticks.len(),
        forall|i: int| 0 <= i < ticks.len() ==> (#[trigger] r[i]) == EitherPrice::RealtimePrice(
            ticks[i],
        ),
{
    let mut out: Vec<EitherPrice> = Vec::new();
    let mut n: usize = 0;
    while n < ticks.len()
        invariant
            n <= ticks.len(),
            out.len() == n,
            forall|i: int| 0 <= i < n ==> (#[trigger] out[i]) == EitherPrice::RealtimePrice(
                ticks[i],
            ),
        decreases ticks.len() - n,
    {
        out.push(EitherPrice::RealtimePrice(ticks[n]));
        n += 1;
    }
    out
}

/// Venue `r` is the one from which the instrument is drawn: the venue of
/// the instrument that is preferred, and of several such the first; `None`
/// where the instrument has no venue.
pub open spec fn is_preferred_venue(
    exchanges: Seq<StockExchange>,
    isin: Seq<char>,
    r: Option<int>,
) -> bool {
    match r {
        Some(i) => {
            &&& 0 <= i < exchanges.len()
            &&& exchanges[i].isin@ == isin
            &&& forall|j: int|
                0 <= j < exchanges.len() && (#[trigger] exchanges[j]).isin@ == isin
                    ==> preference_rank(exchanges[i].code@) <= preference_rank(exchanges[j].code@)
            &&& forall|j: int|
                0 <= j < i && (#[trigger] exchanges[j]).isin@ == isin ==> preference_rank(
                    exchanges[i].code@,
                ) < preference_rank(exchanges[j].code@)
        },
        None => forall|j: int| 0 <= j < exchanges.len() ==> (#[trigger] exchanges[j]).isin@ != isin,
    }
}

/// Finds the venue from which an instrument is drawn.
pub fn preferred_exchange(exchanges: &Vec<StockExchange>, isin: &String) -> (r: Option<usize>)
    ensures
        is_preferred_venue(exchanges@, isin@, index_of(r)),
{
    let mut best: Option<usize> = None;
    let mut n: usize = 0;
    while n < exchanges.len()
        invariant
            n <= exchanges.len(),
            best is Some ==> best->0 < n,
            is_preferred_venue(
                exchanges@.take(n as int),
                isin@,
                index_of(best),
            ),
        decreases exchanges.len() - n,
    {
        let ghost before = exchanges@.take(n as int);
        let ghost after = exchanges@.take(n as int + 1);
        let ghost best_before = best;
        if exchanges[n].isin == *isin {
            match best {
                None => {
                    best = Some(n);
                },
                Some(b) => {
                    if exchange_rank(&exchanges[n].code) < exchange_rank(&exchanges[b].code) {
                        best = Some(n);
                    }
                },
            }
        }
        proof {
            assert forall|j: int| 0 <= j < n implies after[j] == before[j] by {}
            match best {
                Some(i) => {
                    assert forall|j: int|
                        0 <= j < after.len() && (#[trigger] after[j]).isin@ == isin@ implies preference_rank(
                        after[i as int].code@,
                    ) <= preference_rank(after[j].code@) by {
                        if j < n {
                            assert(before[j].isin@ == isin@);
                        }
                    }
                    assert forall|j: int|
                        0 <= j < i && (#[trigger] after[j]).isin@ == isin@ implies preference_rank(
                        after[i as int].code@,
                    ) < preference_rank(after[j].code@) by {
                        assert(before[j].isin@ == isin@);
                    }
                },
                None => {
                    assert forall|j: int| 0 <= j < after.len() implies (#[trigger] after[j]).isin@
                        != isin@ by {
                        if j < n {
                            assert(before[j].isin@ != isin@);
                        }
                    }
                },
            }
        }
        n += 1;
    }
    proof {
        assert(exchanges@.take(n as int) == exchanges@);
    }
    best
}

/// Finds the venue of each instrument. The result runs parallel to
/// `isins`.
pub fn preferred_exchanges(exchanges: &Vec<StockExchange>, isins: &Vec<String>) -> (r: Vec<
    Option<StockExchange>,
>)
    ensures
        r.len() == isins.len(),
        forall|k: int|
            0 <= k < isins.len() ==> match #[trigger] r[k] {
                Some(v) => exists|i: int|
                    is_preferred_venue(exchanges@, isins[k]@, Some(i)) && exchanges[i] == v,
                None => is_preferred_venue(exchanges@, isins[k]@, None),
            },
{
    let mut out: Vec<Option<StockExchange>> = Vec::new();
    let mut k: usize = 0;
    while k < isins.len()
        invariant
            k <= isins.len(),
            out.len() == k,
            forall|m: int|
                0 <= m < k ==> match #[trigger] out[m] {
                    Some(v) => exists|i: int|
                        is_preferred_venue(exchanges@, isins[m]@, Some(i)) && exchanges[i] == v,
                    None => is_preferred_venue(exchanges@, isins[m]@, None),
                },
        decreases isins.len() - k,
    {
        let entry = match preferred_exchange(exchanges, &isins[k]) {
            Some(i) => {
                let v = exchanges[i].clone();
                proof {
                    assert(is_preferred_venue(exchanges@, isins[k as int]@, Some(i as int)));
                    assert(exchanges@[i as int] == v);
                }
                Some(v)
            },
            None => None,
        };
        out.push(entry);
        k += 1;
    }
    out
}

/// What is held of an instrument, and what was paid for it.
pub struct Holding {
    /// Units, in millionths.
    pub units: int,
    /// Cash paid out, fees included, in minor units.
    pub invested: int,
}

/// What the transactions up to an instant leave of an instrument.
pub open spec fn held(ts: Seq<Transaction>, isin: Seq<char>, at: int) -> Holding
    decreases ts.len(),
{
    if ts.len() == 0 {
        Holding { units: 0, invested: 0 }
    } else {
        let rest = held(ts.drop_last(), isin, at);
        let t = ts.last();
        if t.isin@ == isin && t.date <= at {
            Holding { units: rest.units + t.units, invested: rest.invested - t.cash() }
        } else {
            rest
        }
    }
}

/// What is held is bounded by the number of transactions.
pub proof fn held_is_bounded(ts: Seq<Transaction>, isin: Seq<char>, at: int)
    requires
        forall|i: int| 0 <= i < ts.len() ==> (#[trigger] ts[i]).in_range(),
    ensures
        -10_000_000_000_000 * ts.len() <= held(ts, isin, at).units <= 10_000_000_000_000
            * ts.len(),
        -2_000_000_000_000_000 * ts.len() <= held(ts, isin, at).invested
            <= 2_000_000_000_000_000 * ts.len(),
    decreases ts.len(),
{
    if ts.len() > 0 {
        held_is_bounded(ts.drop_last(), isin, at);
        assert(ts.last().in_range());
    }
}

/// Computes `held`: the units, then the invested cash.
pub fn holding_at(ts: &Vec<Transaction>, isin: &String, at: i64) -> (r: (i128, i128))
    requires
        transactions_in_range(ts@),
    ensures
        r.0 == held(ts@, isin@, at as int).units,
        r.1 == held(ts@, isin@, at as int).invested,
        -10_000_000_000_000_000_000 <= r.0 <= 10_000_000_000_000_000_000,
        -2_000_000_000_000_000_000_000 <= r.1 <= 2_000_000_000_000_000_000_000,
{
    let mut units: i128 = 0;
    let mut invested: i128 = 0;
    let mut n: usize = 0;
    while n < ts.len()
        invariant
            n <= ts.len(),
            transactions_in_range(ts@),
            units == held(ts@.take(n as int), isin@, at as int).units,
            invested == held(ts@.take(n as int), isin@, at as int).invested,
        decreases ts.len() - n,
    {
        proof {
            held_is_bounded(ts@.take(n as int), isin@, at as int);
            assert(ts@.take(n as int + 1).drop_last() == ts@.take(n as int));
            assert(ts@.take(n as int + 1).last() == ts@[n as int]);
            assert(ts@[n as int].in_range());
        }
        let t = &ts[n];
        if t.isin == *isin && t.date <= at {
            units = units + t.units as i128;
            invested = invested - (t.amount as i128 + t.fees as i128);
        }
        n += 1;
    }
    proof {
        assert(ts@.take(n as int) == ts@);
        held_is_bounded(ts@, isin@, at as int);
    }
    (units, invested)
}

/// The place of the latest observation of a venue that is not after an
/// instant; of several at one instant, the last.
pub open spec fn nearest(prices: Seq<EitherPrice>, record: int, at: int) -> Option<int>
    decreases prices.len(),
{
    if prices.len() == 0 {
        None
    } else {
        let rest = nearest(prices.drop_last(), record, at);
        let p = prices.last();
        if p.record_of() == record && p.date_of() <= at && (rest is None || prices[rest->0].date_of()
            <= p.date_of()) {
            Some(prices.len() - 1)
        } else {
            rest
        }
    }
}

/// The nearest observation is one of the venue, not after the instant, and
/// no observation of the venue lies between it and the instant.
pub proof fn nearest_is_latest(prices: Seq<EitherPrice>, record: int, at: int)
    ensures
        match nearest(prices, record, at) {
            Some(i) => {
                &&& 0 <= i < prices.len()
                &&& prices[i].record_of() == record
                &&& prices[i].date_of() <= at
                &&& forall|j: int|
                    0 <= j < prices.len() && (#[trigger] prices[j]).record_of() == record
                        && prices[j].date_of() <= at ==> prices[j].date_of() <= prices[i].date_of()
            },
            None => forall|j: int|
                0 <= j < prices.len() ==> !((#[trigger] prices[j]).record_of() == record
                    && prices[j].date_of() <= at),
        },
    decreases prices.len(),
{
    if prices.len() > 0 {
        let before = prices.drop_last();
        nearest_is_latest(before, record, at);
        match nearest(prices, record, at) {
            Some(i) => {
                assert forall|j: int|
                    0 <= j < prices.len() && (#[trigger] prices[j]).record_of() == record
                        && prices[j].date_of() <= at implies prices[j].date_of()
                    <= prices[i].date_of() by {
                    if j < before.len() {
                        assert(before[j] == prices[j]);
                    }
                }
            },
            None => {
                assert forall|j: int| 0 <= j < prices.len() implies !((#[trigger] prices[j]).record_of()
                    == record && prices[j].date_of() <= at) by {
                    if j < before.len() {
                        assert(before[j] == prices[j]);
                    }
                }
            },
        }
    }
}

/// Computes `nearest`.
pub fn nearest_price(prices: &Vec<EitherPrice>, record: i32, at: i64) -> (r: Option<usize>)
    ensures
        index_of(r) == nearest(prices@, record as int, at as int),
        r is Some ==> r->0 < prices.len(),
{
    let mut found: Option<usize> = None;
    let mut n: usize = 0;
    while n < prices.len()
        invariant
            n <= prices.len(),
            found is Some ==> found->0 < n,
            index_of(found) == nearest(
                prices@.take(n as int),
                record as int,
                at as int,
            ),
        decreases prices.len() - n,
    {
        proof {
            assert(prices@.take(n as int + 1).drop_last() == prices@.take(n as int));
            assert(prices@.take(n as int + 1).last() == prices@[n as int]);
            if found is Some {
                assert(prices@.take(n as int + 1)[found->0 as int] == prices@[found->0 as int]);
            }
        }
        let p = &prices[n];
        if p.onvista_record_id() == record && p.date() <= at {
            let later = match found {
                None => true,
                Some(f) => prices[f].date() <= p.date(),
            };
            if later {
                found = Some(n);
            }
        }
        n += 1;
    }
    proof {
        assert(prices@.take(n as int) == prices@);
    }
    found
}

/// The age in seconds from which a price no longer values a position:
/// seven days.
pub const STALE_SECONDS: i64 = 604_800;

/// The price is less than seven days away from the instant.
pub open spec fn is_fresh(price: EitherPrice, at: int) -> bool {
    -STALE_SECONDS < at - price.date_of() < STALE_SECONDS
}

/// What units are worth at an instant: nothing where there are none, units
/// times price where the price is fresh, and unknown otherwise.
pub open spec fn sample_value(units: int, price: Option<EitherPrice>, at: int) -> Option<int> {
    if units == 0 {
        Some(0)
    } else if price is Some && is_fresh(price->0, at) {
        Some(units * price->0.value_of())
    } else {
        None
    }
}

/// Computes `sample_value`.
pub fn value_sample(units: i128, price: Option<EitherPrice>, at: i64) -> (r: Option<i128>)
    requires
        -10_000_000_000_000_000_000 <= units <= 10_000_000_000_000_000_000,
        price is Some ==> price->0.in_range(),
        -MAX_INSTANT <= at <= MAX_INSTANT,
    ensures
        amount_of(r) == sample_value(units as int, price, at as int),
        r is Some ==> -100_000_000_000_000_000_000_000_000_000 <= r->0
            <= 100_000_000_000_000_000_000_000_000_000,
{
    if units == 0 {
        return Some(0);
    }
    match price {
        Some(p) => {
            let age: i64 = at - p.date();
            if -STALE_SECONDS < age && age < STALE_SECONDS {
                let v = p.value();
                assert(-100_000_000_000_000_000_000_000_000_000 <= units * v
                    <= 100_000_000_000_000_000_000_000_000_000) by (nonlinear_arith)
                    requires
                        -10_000_000_000_000_000_000 <= units <= 10_000_000_000_000_000_000,
                        -10_000_000_000 <= v <= 10_000_000_000,
                ;
                Some(units * (v as i128))
            } else {
                None
            }
        },
        None => None,
    }
}

/// What decides whether two neighbouring points of a chart look alike.
#[derive(Debug, Clone, Copy, PartialEq, Eq, Structural)]
pub struct PointKey {
    /// In value units.
    pub value: Option<i128>,
    /// In minor units.
    pub invested: i128,
    pub price: Option<i64>,
    pub price_date: Option<i64>,
}

/// The difference in value from which two points differ: one minor unit.
pub const VALUE_TOLERANCE: i128 = 100_000_000;

/// The difference in invested cash from which two points differ: one minor
/// unit.
pub const INVESTED_TOLERANCE: i128 = 1;

/// Two amounts differ by less than a tolerance.
pub open spec fn close(a: int, b: int, tolerance: int) -> bool {
    -tolerance < b - a < tolerance
}

/// Computes `close`.
pub fn is_close(a: i128, b: i128, tolerance: i128) -> (r: bool)
    requires
        0 < tolerance,
    ensures
        r == close(a as int, b as int, tolerance as int),
{
    match b.checked_sub(a) {
        Some(d) => -tolerance < d && d < tolerance,
        None => false,
    }
}

/// Two optional values are both unknown, or both known and less than one
/// minor unit apart.
pub open spec fn almost_equal(a: Option<i128>, b: Option<i128>) -> bool {
    match (a, b) {
        (None, None) => true,
        (Some(x), Some(y)) => close(x as int, y as int, VALUE_TOLERANCE as int),
        _ => false,
    }
}

/// Computes `almost_equal`.
pub fn option_almost_eq(a: Option<i128>, b: Option<i128>) -> (r: bool)
    ensures
        r == almost_equal(a, b),
{
    match (a, b) {
        (None, None) => true,
        (Some(x), Some(y)) => is_close(x, y, VALUE_TOLERANCE),
        _ => false,
    }
}

/// Two points look alike: value and invested cash are less than a minor
/// unit apart, and they rest on the same price.
pub open spec fn alike(a: PointKey, b: PointKey) -> bool {
    &&& almost_equal(a.value, b.value)
    &&& close(a.invested as int, b.invested as int, INVESTED_TOLERANCE as int)
    &&& a.price == b.price
    &&& a.price_date == b.price_date
}

/// Computes `alike`.
pub fn keys_alike(a: &PointKey, b: &PointKey) -> (r: bool)
    ensures
        r == alike(*a, *b),
{
    option_almost_eq(a.value, b.value) && is_close(a.invested, b.invested, INVESTED_TOLERANCE)
        && a.price == b.price && a.price_date == b.price_date
}

/// The places of the points that are drawn: the first point, and then each
/// point that does not look like the last one drawn.
pub open spec fn kept(keys: Seq<PointKey>) -> Seq<int>
    decreases keys.len(),
{
    if keys.len() == 0 {
        Seq::empty()
    } else {
        let rest = kept(keys.drop_last());
        if rest.len() > 0 && 0 <= rest.last() < keys.len() && alike(keys[rest.last()], keys.last()) {
            rest
        } else {
            rest.push(keys.len() - 1)
        }
    }
}

/// The places that are kept are places of the list, in rising order.
pub proof fn kept_is_in_range(keys: Seq<PointKey>)
    ensures
        forall|j: int| 0 <= j < kept(keys).len() ==> 0 <= (#[trigger] kept(keys)[j]) < keys.len(),
        kept(keys).len() <= keys.len(),
        keys.len() > 0 ==> kept(keys).len() > 0 && kept(keys)[0] == 0,
    decreases keys.len(),
{
    if keys.len() > 0 {
        kept_is_in_range(keys.drop_last());
    }
}

/// Points that all look like the first one are drawn as one point.
pub proof fn alike_points_collapse(keys: Seq<PointKey>)
    requires
        keys.len() > 0,
        forall|i: int| 0 <= i < keys.len() ==> alike(keys[0], #[trigger] keys[i]),
    ensures
        kept(keys) == seq![0int],
    decreases keys.len(),
{
    if keys.len() == 1 {
        assert(kept(keys.drop_last()) =~= Seq::<int>::empty());
        assert(kept(keys) =~= seq![0int]);
    } else {
        let before = keys.drop_last();
        assert forall|i: int| 0 <= i < before.len() implies alike(before[0], #[trigger] before[i]) by {
            assert(before[i] == keys[i]);
            assert(before[0] == keys[0]);
        }
        alike_points_collapse(before);
        assert(kept(before).last() == 0);
        assert(alike(keys[0], keys[keys.len() - 1]));
    }
}

/// Calls `itertools::Itertools::dedup_by` on the keys, each with its place,
/// and collects the places that come out. Claimed: the adaptor hands out
/// the first item, holds each following item against the last one that it
/// handed out, and hands it out where the two are not alike.
#[verifier::external_body]
fn dedup_indices(keys: &Vec<PointKey>) -> (r: Vec<usize>)
    ensures
        r.len() == kept(keys@).len(),
        forall|j: int| 0 <= j < r.len() ==> (#[trigger] r[j]) == kept(keys@)[j],
{
    itertools::Itertools::dedup_by(keys.iter().enumerate(), |x, y| keys_alike(x.1, y.1))
        .map(|x| x.0)
        .collect()
}

/// The items at a list of places.
pub open spec fn picked<T>(items: Seq<T>, places: Seq<int>) -> Seq<T> {
    Seq::new(places.len(), |j: int| items[places[j]])
}

/// Keeps the points that are drawn. `keys` runs parallel to `points`.
pub fn collapse<T: Copy>(points: &Vec<T>, keys: &Vec<PointKey>) -> (r: Vec<T>)
    requires
        points.len() == keys.len(),
    ensures
        r@ == picked(points@, kept(keys@)),
{
    let places = dedup_indices(keys);
    proof {
        kept_is_in_range(keys@);
    }
    let mut out: Vec<T> = Vec::new();
    let mut j: usize = 0;
    while j < places.len()
        invariant
            j <= places.len(),
            points.len() == keys.len(),
            places.len() == kept(keys@).len(),
            forall|m: int| 0 <= m < places.len() ==> (#[trigger] places[m]) == kept(keys@)[m],
            forall|m: int| 0 <= m < kept(keys@).len() ==> 0 <= (#[trigger] kept(keys@)[m]) < keys.len(),
            out.len() == j,
            forall|m: int| 0 <= m < j ==> (#[trigger] out[m]) == points[kept(keys@)[m]],
        decreases places.len() - j,
    {
        let place = places[j];
        assert(place == kept(keys@)[j as int]);
        out.push(points[place]);
        j += 1;
    }
    proof {
        assert(out@ =~= picked(points@, kept(keys@)));
    }
    out
}

/// One point of the chart of a portfolio.
#[derive(Debug, Clone, Copy, PartialEq, Eq, Structural)]
pub struct PortfolioPlotDataPoint {
    pub date: i64,
    /// Cash paid out so far, fees included, in minor units.
    pub invested: i128,
    /// In value units; `None` where it is unknown.
    pub value: Option<i128>,
}

/// The chart of a portfolio, and the venues that its prices come from.
#[derive(Debug)]
pub struct PortfolioPlot {
    pub points: Vec<PortfolioPlotDataPoint>,
    pub exchanges: Vec<StockExchange>,
}

/// One point of the chart of an instrument.
#[derive(Debug, Clone, Copy, PartialEq, Eq, Structural)]
pub struct StockPlotDataPoint {
    pub date: i64,
    /// Units held, in millionths.
    pub units: i128,
    /// Cash paid out so far, fees included, in minor units.
    pub invested: i128,
    /// The instant of the price that values the point.
    pub price_date: Option<i64>,
    pub price: Option<i64>,
    /// In value units; `None` where it is unknown.
    pub value: Option<i128>,
}

/// The chart of an instrument, and the venue that its prices come from.
#[derive(Debug)]
pub struct StockPlot {
    pub points: Vec<StockPlotDataPoint>,
    pub exchange: StockExchange,
}

/// The price of a venue that is nearest before an instant; none where the
/// instrument has no venue.
pub open spec fn venue_price(prices: Seq<EitherPrice>, venue: Option<StockExchange>, at: int) -> Option<
    EitherPrice,
> {
    match venue {
        Some(v) => match nearest(prices, v.onvista_record_id as int, at) {
            Some(i) => Some(prices[i]),
            None => None,
        },
        None => None,
    }
}

/// What was paid for all instruments up to an instant.
pub open spec fn portfolio_invested(ts: Seq<Transaction>, isins: Seq<String>, at: int) -> int
    decreases isins.len(),
{
    if isins.len() == 0 {
        0
    } else {
        portfolio_invested(ts, isins.drop_last(), at) + held(ts, isins.last()@, at).invested
    }
}

/// What all instruments are worth at an instant: unknown as soon as one of
/// them is.
pub open spec fn portfolio_value(
    ts: Seq<Transaction>,
    isins: Seq<String>,
    venues: Seq<Option<StockExchange>>,
    prices: Seq<EitherPrice>,
    at: int,
) -> Option<int>
    decreases isins.len(),
{
    if isins.len() == 0 || venues.len() != isins.len() {
        Some(0)
    } else {
        let rest = portfolio_value(ts, isins.drop_last(), venues.drop_last(), prices, at);
        let own = sample_value(
            held(ts, isins.last()@, at).units,
            venue_price(prices, venues.last(), at),
            at,
        );
        match (rest, own) {
            (Some(a), Some(v)) => Some(a + v),
            _ => None,
        }
    }
}

/// The point is that of the portfolio at the instant.
pub open spec fn is_portfolio_point(
    r: PortfolioPlotDataPoint,
    ts: Seq<Transaction>,
    isins: Seq<String>,
    venues: Seq<Option<StockExchange>>,
    prices: Seq<EitherPrice>,
    at: i64,
) -> bool {
    &&& r.date == at
    &&& r.invested == portfolio_invested(ts, isins, at as int)
    &&& amount_of(r.value) == portfolio_value(ts, isins, venues, prices, at as int)
}

/// Every observation is in range.
pub open spec fn observations_in_range(prices: Seq<EitherPrice>) -> bool {
    forall|i: int| 0 <= i < prices.len() ==> (#[trigger] prices[i]).in_range()
}

/// Computes `observations_in_range`.
pub fn check_observations(prices: &Vec<EitherPrice>) -> (r: bool)
    ensures
        r == observations_in_range(prices@),
{
    let mut n: usize = 0;
    while n < prices.len()
        invariant
            n <= prices.len(),
            forall|i: int| 0 <= i < n ==> (#[trigger] prices[i]).in_range(),
        decreases prices.len() - n,
    {
        if !prices[n].is_in_range() {
            return false;
        }
        n += 1;
    }
    true
}

/// Every instant is in range.
pub open spec fn instants_in_range(dates: Seq<i64>) -> bool {
    forall|i: int| 0 <= i < dates.len() ==> -MAX_INSTANT <= (#[trigger] dates[i]) <= MAX_INSTANT
}

/// Computes the point of the portfolio at an instant.
pub fn portfolio_point(
    ts: &Vec<Transaction>,
    isins: &Vec<String>,
    venues: &Vec<Option<StockExchange>>,
    prices: &Vec<EitherPrice>,
    at: i64,
) -> (r: PortfolioPlotDataPoint)
    requires
        transactions_in_range(ts@),
        isins.len() <= MAX_ENTRIES,
        venues.len() == isins.len(),
        observations_in_range(prices@),
        -MAX_INSTANT <= at <= MAX_INSTANT,
    ensures
        is_portfolio_point(r, ts@, isins@, venues@, prices@, at),
{
    let mut invested: i128 = 0;
    let mut value: Option<i128> = Some(0);
    let mut k: usize = 0;
    while k < isins.len()
        invariant
            k <= isins.len(),
            transactions_in_range(ts@),
            isins.len() <= MAX_ENTRIES,
            venues.len() == isins.len(),
            observations_in_range(prices@),
            -MAX_INSTANT <= at <= MAX_INSTANT,
            invested == portfolio_invested(ts@, isins@.take(k as int), at as int),
            amount_of(value) == portfolio_value(
                ts@,
                isins@.take(k as int),
                venues@.take(k as int),
                prices@,
                at as int,
            ),
            -2_000_000_000_000_000_000_000 * k <= invested <= 2_000_000_000_000_000_000_000 * k,
            value is Some ==> -100_000_000_000_000_000_000_000_000_000 * k <= value->0
                <= 100_000_000_000_000_000_000_000_000_000 * k,
        decreases isins.len() - k,
    {
        proof {
            assert(isins@.take(k as int + 1).drop_last() == isins@.take(k as int));
            assert(venues@.take(k as int + 1).drop_last() == venues@.take(k as int));
            assert(isins@.take(k as int + 1).last() == isins@[k as int]);
            assert(venues@.take(k as int + 1).last() == venues@[k as int]);
        }
        let holding = holding_at(ts, &isins[k], at);
        let price: Option<EitherPrice> = match &venues[k] {
            Some(v) => match nearest_price(prices, v.onvista_record_id, at) {
                Some(i) => Some(prices[i]),
                None => None,
            },
            None => None,
        };
        assert(price == venue_price(prices@, venues@[k as int], at as int));
        let own = value_sample(holding.0, price, at);
        invested = invested + holding.1;
        value =
        match (value, own) {
            (Some(a), Some(v)) => Some(a + v),
            _ => None,
        };
        k += 1;
    }
    proof {
        assert(isins@.take(k as int) == isins@);
        assert(venues@.take(k as int) == venues@);
    }
    PortfolioPlotDataPoint { date: at, invested, value }
}

/// Computes the points of the portfolio at a list of instants.
pub fn portfolio_series(
    ts: &Vec<Transaction>,
    isins: &Vec<String>,
    venues: &Vec<Option<StockExchange>>,
    prices: &Vec<EitherPrice>,
    dates: &Vec<i64>,
) -> (r: Vec<PortfolioPlotDataPoint>)
    requires
        transactions_in_range(ts@),
        isins.len() <= MAX_ENTRIES,
        venues.len() == isins.len(),
        observations_in_range(prices@),
        instants_in_range(dates@),
    ensures
        r.len() == dates.len(),
        forall|i: int|
            0 <= i < dates.len() ==> is_portfolio_point(
                #[trigger] r[i],
                ts@,
                isins@,
                venues@,
                prices@,
                dates[i],
            ),
{
    let mut out: Vec<PortfolioPlotDataPoint> = Vec::new();
    let mut n: usize = 0;
    while n < dates.len()
        invariant
            n <= dates.len(),
            transactions_in_range(ts@),
            isins.len() <= MAX_ENTRIES,
            venues.len() == isins.len(),
            observations_in_range(prices@),
            instants_in_range(dates@),
            out.len() == n,
            forall|i: int|
                0 <= i < n ==> is_portfolio_point(
                    #[trigger] out[i],
                    ts@,
                    isins@,
                    venues@,
                    prices@,
                    dates[i],
                ),
        decreases dates.len() - n,
    {
        assert(-MAX_INSTANT <= dates[n as int] <= MAX_INSTANT);
        let point = portfolio_point(ts, isins, venues, prices, dates[n]);
        out.push(point);
        n += 1;
    }
    out
}

/// The keys of the points of a portfolio.
pub open spec fn portfolio_keys(points: Seq<PortfolioPlotDataPoint>) -> Seq<PointKey> {
    Seq::new(
        points.len(),
        |i: int|
            PointKey {
                value: points[i].value,
                invested: points[i].invested,
                price: None,
                price_date: None,
            },
    )
}

/// The venues that are there, in their order.
pub open spec fn listed(venues: Seq<Option<StockExchange>>) -> Seq<StockExchange>
    decreases venues.len(),
{
    if venues.len() == 0 {
        Seq::empty()
    } else {
        let rest = listed(venues.drop_last());
        match venues.last() {
            Some(v) => rest.push(v),
            None => rest,
        }
    }
}

/// Keeps the points of a portfolio that are drawn: neighbours whose value
/// and invested cash are less than a minor unit apart are drawn once.
pub fn collapse_portfolio_points(points: &Vec<PortfolioPlotDataPoint>) -> (r: Vec<
    PortfolioPlotDataPoint,
>)
    ensures
        r@ == picked(points@, kept(portfolio_keys(points@))),
{
    let mut keys: Vec<PointKey> = Vec::new();
    let mut n: usize = 0;
    while n < points.len()
        invariant
            n <= points.len(),
            keys.len() == n,
            forall|i: int| 0 <= i < n ==> (#[trigger] keys[i]) == portfolio_keys(points@)[i],
        decreases points.len() - n,
    {
        keys.push(
            PointKey {
                value: points[n].value,
                invested: points[n].invested,
                price: None,
                price_date: None,
            },
        );
        n += 1;
    }
    assert(keys@ =~= portfolio_keys(points@));
    collapse(points, &keys)
}

/// Draws the chart of a portfolio: one point for each instant, with what
/// was paid and what the instruments are worth, neighbours that look alike
/// drawn once.
///
/// `venues` runs parallel to `isins` and holds the venue from which each
/// instrument is priced; `prices` are the observations of those venues.
pub fn compute_portfolio_plot(
    ts: &Vec<Transaction>,
    isins: &Vec<String>,
    venues: &Vec<Option<StockExchange>>,
    prices: &Vec<EitherPrice>,
    dates: &Vec<i64>,
) -> (r: PortfolioPlot)
    requires
        transactions_in_range(ts@),
        isins.len() <= MAX_ENTRIES,
        venues.len() == isins.len(),
        observations_in_range(prices@),
        instants_in_range(dates@),
    ensures
        exists|series: Seq<PortfolioPlotDataPoint>|
            {
                &&& series.len() == dates.len()
                &&& forall|i: int|
                    0 <= i < dates.len() ==> is_portfolio_point(
                        #[trigger] series[i],
                        ts@,
                        isins@,
                        venues@,
                        prices@,
                        dates[i],
                    )
                &&& r.points@ == picked(series, kept(portfolio_keys(series)))
            },
        r.exchanges@ == listed(venues@),
{
    let series = portfolio_series(ts, isins, venues, prices, dates);
    let points = collapse_portfolio_points(&series);
    let mut exchanges: Vec<StockExchange> = Vec::new();
    let mut k: usize = 0;
    while k < venues.len()
        invariant
            k <= venues.len(),
            exchanges@ == listed(venues@.take(k as int)),
        decreases venues.len() - k,
    {
        proof {
            assert(venues@.take(k as int + 1).drop_last() == venues@.take(k as int));
            assert(venues@.take(k as int + 1).last() == venues@[k as int]);
        }
        match &venues[k] {
            Some(v) => {
                exchanges.push(v.clone());
            },
            None => {},
        }
        k += 1;
    }
    proof {
        assert(venues@.take(k as int) == venues@);
    }
    PortfolioPlot { points, exchanges }
}

/// Without transactions nothing was paid and nothing is held.
pub proof fn nothing_held_without_transactions(
    isins: Seq<String>,
    venues: Seq<Option<StockExchange>>,
    prices: Seq<EitherPrice>,
    at: int,
)
    ensures
        portfolio_invested(Seq::empty(), isins, at) == 0,
        portfolio_value(Seq::empty(), isins, venues, prices, at) == Some(0int),
    decreases isins.len(),
{
    if isins.len() > 0 {
        nothing_held_without_transactions(isins.drop_last(), venues.drop_last(), prices, at);
    }
}

/// The chart of a portfolio without transactions is a single point,
/// whatever the prices are: the first of its instants, with nothing paid
/// and a value of nothing.
pub proof fn portfolio_plot_without_transactions(
    isins: Seq<String>,
    venues: Seq<Option<StockExchange>>,
    prices: Seq<EitherPrice>,
    dates: Seq<i64>,
    series: Seq<PortfolioPlotDataPoint>,
)
    requires
        dates.len() > 0,
        series.len() == dates.len(),
        forall|i: int|
            0 <= i < dates.len() ==> is_portfolio_point(
                #[trigger] series[i],
                Seq::empty(),
                isins,
                venues,
                prices,
                dates[i],
            ),
    ensures
        picked(series, kept(portfolio_keys(series))) == seq![series[0]],
        series[0].invested == 0,
        series[0].value == Some(0i128),
{
    let keys = portfolio_keys(series);
    assert forall|i: int| 0 <= i < keys.len() implies alike(keys[0], #[trigger] keys[i]) by {
        nothing_held_without_transactions(isins, venues, prices, dates[i] as int);
        nothing_held_without_transactions(isins, venues, prices, dates[0] as int);
        assert(is_portfolio_point(series[i], Seq::empty(), isins, venues, prices, dates[i]));
        assert(is_portfolio_point(series[0], Seq::empty(), isins, venues, prices, dates[0]));
    }
    alike_points_collapse(keys);
    nothing_held_without_transactions(isins, venues, prices, dates[0] as int);
    assert(is_portfolio_point(series[0], Seq::empty(), isins, venues, prices, dates[0]));
    assert(picked(series, kept(keys)) =~= seq![series[0]]);
}

/// The point is that of the instrument at the instant: what is held and
/// was paid, and, where the nearest price of the venue is fresh, that price
/// and what the units are worth at it.
pub open spec fn is_stock_point(
    r: StockPlotDataPoint,
    ts: Seq<Transaction>,
    isin: Seq<char>,
    record: int,
    prices: Seq<EitherPrice>,
    at: i64,
) -> bool {
    let holding = held(ts, isin, at as int);
    let near = nearest(prices, record, at as int);
    let fresh = near is Some && is_fresh(prices[near->0], at as int);
    &&& r.date == at
    &&& r.units == holding.units
    &&& r.invested == holding.invested
    &&& r.price is Some == fresh
    &&& r.price_date is Some == fresh
    &&& fresh ==> r.price->0 == prices[near->0].value_of() && r.price_date->0
        == prices[near->0].date_of()
    &&& amount_of(r.value) == sample_value(
        holding.units,
        match near {
            Some(i) => Some(prices[i]),
            None => None,
        },
        at as int,
    )
}

/// Computes the point of an instrument at an instant.
pub fn stock_point(
    ts: &Vec<Transaction>,
    isin: &String,
    record: i32,
    prices: &Vec<EitherPrice>,
    at: i64,
) -> (r: StockPlotDataPoint)
    requires
        transactions_in_range(ts@),
        observations_in_range(prices@),
        -MAX_INSTANT <= at <= MAX_INSTANT,
    ensures
        is_stock_point(r, ts@, isin@, record as int, prices@, at),
{
    let holding = holding_at(ts, isin, at);
    let price: Option<EitherPrice> = match nearest_price(prices, record, at) {
        Some(i) => Some(prices[i]),
        None => None,
    };
    let value = value_sample(holding.0, price, at);
    let shown: Option<(i64, i64)> = match price {
        Some(p) => {
            let age: i64 = at - p.date();
            if -STALE_SECONDS < age && age < STALE_SECONDS {
                Some((p.value(), p.date()))
            } else {
                None
            }
        },
        None => None,
    };
    StockPlotDataPoint {
        date: at,
        units: holding.0,
        invested: holding.1,
        price_date: match shown {
            Some(s) => Some(s.1),
            None => None,
        },
        price: match shown {
            Some(s) => Some(s.0),
            None => None,
        },
        value,
    }
}

/// The keys of the points of an instrument.
pub open spec fn stock_keys(points: Seq<StockPlotDataPoint>) -> Seq<PointKey> {
    Seq::new(
        points.len(),
        |i: int|
            PointKey {
                value: points[i].value,
                invested: points[i].invested,
                price: points[i].price,
                price_date: points[i].price_date,
            },
    )
}

/// Keeps the points of an instrument that are drawn: neighbours that rest
/// on the same price and whose value and invested cash are less than a
/// minor unit apart are drawn once.
pub fn collapse_stock_points(points: &Vec<StockPlotDataPoint>) -> (r: Vec<StockPlotDataPoint>)
    ensures
        r@ == picked(points@, kept(stock_keys(points@))),
{
    let mut keys: Vec<PointKey> = Vec::new();
    let mut n: usize = 0;
    while n < points.len()
        invariant
            n <= points.len(),
            keys.len() == n,
            forall|i: int| 0 <= i < n ==> (#[trigger] keys[i]) == stock_keys(points@)[i],
        decreases points.len() - n,
    {
        keys.push(
            PointKey {
                value: points[n].value,
                invested: points[n].invested,
                price: points[n].price,
                price_date: points[n].price_date,
            },
        );
        n += 1;
    }
    assert(keys@ =~= stock_keys(points@));
    collapse(points, &keys)
}

/// Draws the chart of an instrument from the prices of one venue: one
/// point for each instant, neighbours that look alike drawn once.
pub fn compute_stock_plot(
    ts: &Vec<Transaction>,
    isin: &String,
    exchange: StockExchange,
    prices: &Vec<EitherPrice>,
    dates: &Vec<i64>,
) -> (r: StockPlot)
    requires
        transactions_in_range(ts@),
        observations_in_range(prices@),
        instants_in_range(dates@),
    ensures
        exists|series: Seq<StockPlotDataPoint>|
            {
                &&& series.len() == dates.len()
                &&& forall|i: int|
                    0 <= i < dates.len() ==> is_stock_point(
                        #[trigger] series[i],
                        ts@,
                        isin@,
                        exchange.onvista_record_id as int,
                        prices@,
                        dates[i],
                    )
                &&& r.points@ == picked(series, kept(stock_keys(series)))
            },
        r.exchange == exchange,
{
    let mut series: Vec<StockPlotDataPoint> = Vec::new();
    let mut n: usize = 0;
    while n < dates.len()
        invariant
            n <= dates.len(),
            transactions_in_range(ts@),
            observations_in_range(prices@),
            instants_in_range(dates@),
            series.len() == n,
            forall|i: int|
                0 <= i < n ==> is_stock_point(
                    #[trigger] series[i],
                    ts@,
                    isin@,
                    exchange.onvista_record_id as int,
                    prices@,
                    dates[i],
                ),
        decreases dates.len() - n,
    {
        assert(-MAX_INSTANT <= dates[n as int] <= MAX_INSTANT);
        let point = stock_point(ts, isin, exchange.onvista_record_id, prices, dates[n]);
        series.push(point);
        n += 1;
    }
    let points = collapse_stock_points(&series);
    StockPlot { points, exchange }
}

/// The chart of an instrument without transactions, whose points all rest
/// on one price, is a single point.
pub proof fn stock_plot_without_transactions(
    isin: Seq<char>,
    record: int,
    prices: Seq<EitherPrice>,
    dates: Seq<i64>,
    series: Seq<StockPlotDataPoint>,
)
    requires
        dates.len() > 0,
        series.len() == dates.len(),
        forall|i: int|
            0 <= i < dates.len() ==> is_stock_point(
                #[trigger] series[i],
                Seq::empty(),
                isin,
                record,
                prices,
                dates[i],
            ),
        forall|i: int|
            0 <= i < series.len() ==> (#[trigger] series[i]).price == series[0].price
                && series[i].price_date == series[0].price_date,
    ensures
        picked(series, kept(stock_keys(series))) == seq![series[0]],
{
    let keys = stock_keys(series);
    assert forall|i: int| 0 <= i < keys.len() implies alike(keys[0], #[trigger] keys[i]) by {
        assert(is_stock_point(series[i], Seq::empty(), isin, record, prices, dates[i]));
        assert(is_stock_point(series[0], Seq::empty(), isin, record, prices, dates[0]));
        assert(series[i].price == series[0].price);
    }
    alike_points_collapse(keys);
    assert(picked(series, kept(keys)) =~= seq![series[0]]);
}

} // verus!
