//! Snapshots of positions and of the portfolio at both ends of a reporting
//! window, and the reporting windows themselves.

use crate::analysis::calendar::{is_calendar_day, noon_of, noon_utc, year_start};
use crate::analysis::irr::{CashFlow, RateQuery, VALUE_SCALE};
use crate::analysis::jobs::{
    enumerate_jobs, job_days, job_views, jobs_for, mentions, Job, PerformanceKind,
};
use crate::analysis::price::{DataSource, EitherPrice};
use crate::models::{
    transactions_in_range, HistoricalPrice, RealtimePrice, Transaction, MAX_ENTRIES,
};
use vstd::prelude::*;

verus! {

/// What a run of transactions adds up to.
pub struct Sums {
    /// Units, in millionths.
    pub units: int,
    /// Cash moved, fees included, in minor units; money paid out counts
    /// negative.
    pub invested: int,
    /// Fees, in minor units.
    pub fees: int,
}

/// The transaction is about the instrument and falls on a day after `after`
/// (where one is given) and not after `upto`.
pub open spec fn counts(t: Transaction, isin: Seq<char>, after: Option<int>, upto: int) -> bool {
    &&& t.isin@ == isin
    &&& t.local_day <= upto
    &&& match after {
        Some(a) => a < t.local_day,
        None => true,
    }
}

/// The sums over the transactions that count.
pub open spec fn sums(ts: Seq<Transaction>, isin: Seq<char>, after: Option<int>, upto: int) -> Sums
    decreases ts.len(),
{
    if ts.len() == 0 {
        Sums { units: 0, invested: 0, fees: 0 }
    } else {
        let rest = sums(ts.drop_last(), isin, after, upto);
        let t = ts.last();
        if counts(t, isin, after, upto) {
            Sums {
                units: rest.units + t.units,
                invested: rest.invested + t.cash(),
                fees: rest.fees + t.fees,
            }
        } else {
            rest
        }
    }
}

/// The transactions that count, in their order.
pub open spec fn counted(
    ts: Seq<Transaction>,
    isin: Seq<char>,
    after: Option<int>,
    upto: int,
) -> Seq<Transaction>
    decreases ts.len(),
{
    if ts.len() == 0 {
        Seq::empty()
    } else {
        let rest = counted(ts.drop_last(), isin, after, upto);
        if counts(ts.last(), isin, after, upto) {
            rest.push(ts.last())
        } else {
            rest
        }
    }
}

/// The earlier of two days.
pub open spec fn earlier(a: int, b: int) -> int {
    if a <= b {
        a
    } else {
        b
    }
}

/// The sums of a list are bounded by its length.
pub proof fn sums_are_bounded(ts: Seq<Transaction>, isin: Seq<char>, after: Option<int>, upto: int)
    requires
        forall|i: int| 0 <= i < ts.len() ==> (#[trigger] ts[i]).in_range(),
    ensures
        -10_000_000_000_000 * ts.len() <= sums(ts, isin, after, upto).units <= 10_000_000_000_000
            * ts.len(),
        -2_000_000_000_000_000 * ts.len() <= sums(ts, isin, after, upto).invested
            <= 2_000_000_000_000_000 * ts.len(),
        -1_000_000_000_000_000 * ts.len() <= sums(ts, isin, after, upto).fees
            <= 1_000_000_000_000_000 * ts.len(),
        counted(ts, isin, after, upto).len() <= ts.len(),
    decreases ts.len(),
{
    if ts.len() > 0 {
        sums_are_bounded(ts.drop_last(), isin, after, upto);
        assert(ts.last().in_range());
    }
}

/// Adding up straight through to a day gives what adding up to an earlier
/// day and adding up the days after it give together.
pub proof fn sums_split(ts: Seq<Transaction>, isin: Seq<char>, split: int, end: int)
    ensures
        sums(ts, isin, None, end).units == sums(ts, isin, None, earlier(split, end)).units + sums(
            ts,
            isin,
            Some(split),
            end,
        ).units,
        sums(ts, isin, None, end).invested == sums(ts, isin, None, earlier(split, end)).invested
            + sums(ts, isin, Some(split), end).invested,
        sums(ts, isin, None, end).fees == sums(ts, isin, None, earlier(split, end)).fees + sums(
            ts,
            isin,
            Some(split),
            end,
        ).fees,
    decreases ts.len(),
{
    if ts.len() > 0 {
        sums_split(ts.drop_last(), isin, split, end);
    }
}

/// Sums as the engine holds them.
#[derive(Debug, Clone, Copy, PartialEq, Eq, Structural)]
pub struct Totals {
    pub units: i128,
    pub invested: i128,
    pub fees: i128,
}

/// Adds up the transactions of an instrument that fall on a day after
/// `after` (where one is given) and not after `upto`.
pub fn accumulate(ts: &Vec<Transaction>, isin: &String, after: Option<i32>, upto: i32) -> (r:
    Totals)
    requires
        transactions_in_range(ts@),
    ensures
        r.units == sums(ts@, isin@, day_of_option(after), upto as int).units,
        r.invested == sums(ts@, isin@, day_of_option(after), upto as int).invested,
        r.fees == sums(ts@, isin@, day_of_option(after), upto as int).fees,
{
    let mut units: i128 = 0;
    let mut invested: i128 = 0;
    let mut fees: i128 = 0;
    let mut n: usize = 0;
    let ghost lo = day_of_option(after);
    while n < ts.len()
        invariant
            n <= ts.len(),
            transactions_in_range(ts@),
            lo == day_of_option(after),
            units == sums(ts@.take(n as int), isin@, lo, upto as int).units,
            invested == sums(ts@.take(n as int), isin@, lo, upto as int).invested,
            fees == sums(ts@.take(n as int), isin@, lo, upto as int).fees,
        decreases ts.len() - n,
    {
        proof {
            sums_are_bounded(ts@.take(n as int), isin@, lo, upto as int);
            assert(ts@.take(n as int + 1).drop_last() == ts@.take(n as int));
            assert(ts@.take(n as int + 1).last() == ts@[n as int]);
            assert(ts@[n as int].in_range());
        }
        let t = &ts[n];
        let late = match after {
            Some(a) => a < t.local_day,
            None => true,
        };
        if t.isin == *isin && t.local_day <= upto && late {
            units = units + t.units as i128;
            invested = invested + (t.amount as i128 + t.fees as i128);
            fees = fees + t.fees as i128;
        }
        n += 1;
    }
    proof {
        assert(ts@.take(n as int) == ts@);
    }
    Totals { units, invested, fees }
}

/// An optional day as a mathematical integer.
pub open spec fn day_of_option(d: Option<i32>) -> Option<int> {
    match d {
        Some(x) => Some(x as int),
        None => None,
    }
}

/// Copies the transactions of an instrument that fall on a day after `after`
/// (where one is given) and not after `upto`, in their order.
pub fn select_transactions(
    ts: &Vec<Transaction>,
    isin: &String,
    after: Option<i32>,
    upto: i32,
) -> (r: Vec<Transaction>)
    ensures
        r@ == counted(ts@, isin@, day_of_option(after), upto as int),
{
    let mut out: Vec<Transaction> = Vec::new();
    let mut n: usize = 0;
    let ghost lo = day_of_option(after);
    while n < ts.len()
        invariant
            n <= ts.len(),
            lo == day_of_option(after),
            out@ == counted(ts@.take(n as int), isin@, lo, upto as int),
        decreases ts.len() - n,
    {
        proof {
            assert(ts@.take(n as int + 1).drop_last() == ts@.take(n as int));
            assert(ts@.take(n as int + 1).last() == ts@[n as int]);
        }
        let t = &ts[n];
        let late = match after {
            Some(a) => a < t.local_day,
            None => true,
        };
        if t.isin == *isin && t.local_day <= upto && late {
            out.push(t.clone());
        }
        n += 1;
    }
    proof {
        assert(ts@.take(n as int) == ts@);
    }
    out
}

/// The largest magnitude of a position's unit count.
pub const UNITS_LIMIT: i128 = 10_000_000_000_000_000_000;

/// The largest magnitude of a position's value, in value units.
pub const VALUE_LIMIT: i128 = 100_000_000_000_000_000_000_000_000_000;

/// The state of one position at the end of a day.
#[derive(Debug)]
pub struct PositionSnapshot {
    pub date: i32,
    /// Units held, in millionths.
    pub units: i128,
    /// The cash of the transactions so far, fees included, in minor units;
    /// money paid out counts negative.
    pub invested: i128,
    /// Fees so far, in minor units; they are part of `invested`.
    pub fees: i128,
    /// What the position is worth, in value units; `None` where units are
    /// held and no price is known.
    pub value: Option<i128>,
    pub data_source: Option<DataSource<EitherPrice>>,
}

/// The state of the portfolio at the end of a day.
#[derive(Debug, Clone, Copy, PartialEq, Eq, Structural)]
pub struct PortfolioSnapshot {
    pub date: i32,
    /// In minor units; money paid out counts negative.
    pub invested: i128,
    /// In minor units; they are part of `invested`.
    pub fees: i128,
    /// In value units; `None` where the value of a position is not known.
    pub value: Option<i128>,
}

/// One position over a reporting window.
#[derive(Debug)]
pub struct PositionPerformance {
    pub start: PositionSnapshot,
    pub end: PositionSnapshot,
    /// The flows whose rate of return describes the window; `None` where no
    /// rate can be asked for.
    pub irr: Option<RateQuery>,
    /// The transactions inside the window.
    pub transactions: Vec<Transaction>,
}

/// An optional amount as a mathematical integer.
pub open spec fn amount_of(v: Option<i128>) -> Option<int> {
    match v {
        Some(x) => Some(x as int),
        None => None,
    }
}

/// What a position is worth: nothing where no units are held, units times
/// price where a price is known, and unknown otherwise.
pub open spec fn valuation(units: int, price: Option<int>) -> Option<int> {
    if units == 0 {
        Some(0)
    } else {
        match price {
            Some(p) => Some(units * p),
            None => None,
        }
    }
}

/// The price of an optional bar, at its close.
pub open spec fn closing_of(p: Option<DataSource<HistoricalPrice>>) -> Option<int> {
    match p {
        Some(s) => Some(s.price.closing as int),
        None => None,
    }
}

/// The price of an optional observation.
pub open spec fn price_of(p: Option<DataSource<EitherPrice>>) -> Option<int> {
    match p {
        Some(s) => Some(s.price.value_of()),
        None => None,
    }
}

/// An optional bar as an observation of any shape.
pub open spec fn as_either(p: Option<DataSource<HistoricalPrice>>) -> Option<
    DataSource<EitherPrice>,
> {
    match p {
        Some(s) => Some(
            DataSource { price: EitherPrice::HistoricalPrice(s.price), exchange: s.exchange },
        ),
        None => None,
    }
}

/// Computes `valuation`.
pub fn value_position(units: i128, price: Option<i64>) -> (r: Option<i128>)
    requires
        -UNITS_LIMIT <= units <= UNITS_LIMIT,
        price is Some ==> -10_000_000_000 <= price->0 <= 10_000_000_000,
    ensures
        amount_of(r) == valuation(
            units as int,
            match price {
                Some(p) => Some(p as int),
                None => None,
            },
        ),
        r is Some ==> -VALUE_LIMIT <= r->0 <= VALUE_LIMIT,
{
    if units == 0 {
        Some(0)
    } else {
        match price {
            Some(p) => {
                assert(-100_000_000_000_000_000_000_000_000_000 <= units * p
                    <= 100_000_000_000_000_000_000_000_000_000) by (nonlinear_arith)
                    requires
                        -10_000_000_000_000_000_000 <= units <= 10_000_000_000_000_000_000,
                        -10_000_000_000 <= p <= 10_000_000_000,
                ;
                Some(units * (p as i128))
            },
            None => None,
        }
    }
}

/// The flow that a transaction is, in value units.
pub open spec fn flow_of(t: Transaction) -> CashFlow {
    CashFlow { time: t.date, amount: (t.cash() * VALUE_SCALE) as i128 }
}

/// The sale of a position at a price: nothing where no units are held.
pub open spec fn sale_flows(units: int, price: EitherPrice) -> Seq<CashFlow> {
    if units != 0 {
        seq![CashFlow { time: price.date_of() as i64, amount: (units * price.value_of()) as i128 }]
    } else {
        Seq::empty()
    }
}

/// The purchase of a position at a price: nothing where no units are held
/// or no price is known.
pub open spec fn purchase_flows(units: int, price: Option<EitherPrice>) -> Seq<CashFlow> {
    if units != 0 && price is Some {
        seq![
            CashFlow {
                time: price->0.date_of() as i64,
                amount: (-units * price->0.value_of()) as i128,
            },
        ]
    } else {
        Seq::empty()
    }
}

/// The flows of transactions, in their order.
pub open spec fn transaction_flows(ts: Seq<Transaction>) -> Seq<CashFlow> {
    Seq::new(ts.len(), |i: int| flow_of(ts[i]))
}

/// The shape of an optional source's price.
pub open spec fn shape_of(p: Option<DataSource<EitherPrice>>) -> Option<EitherPrice> {
    match p {
        Some(s) => Some(s.price),
        None => None,
    }
}

/// The flows of one position over a window: the position is sold at the end
/// price, it was bought at the start price, and between the two stand the
/// transactions of the window.
pub open spec fn position_flows(
    prior_units: int,
    end_units: int,
    start_price: Option<EitherPrice>,
    end_price: EitherPrice,
    relevant: Seq<Transaction>,
) -> Seq<CashFlow> {
    sale_flows(end_units, end_price) + purchase_flows(prior_units, start_price)
        + transaction_flows(relevant)
}

/// The length of a position's window in seconds: from the start price, or
/// from noon UTC of the start day where there is none, to the end price.
pub open spec fn position_period(start_price: Option<EitherPrice>, end_price: EitherPrice, start: int) -> int {
    end_price.date_of() - match start_price {
        Some(s) => s.date_of(),
        None => noon_of(start),
    }
}

/// A rate can be asked for: the position can be sold at the end, and where
/// units were held at the start, their price is known.
pub open spec fn position_has_query(
    prior_units: int,
    start_price: Option<EitherPrice>,
    end_price: Option<EitherPrice>,
) -> bool {
    !(start_price is None && prior_units != 0) && end_price is Some
}

/// Appends the flows of transactions to a list of flows.
pub fn push_transaction_flows(flows: &mut Vec<CashFlow>, ts: &Vec<Transaction>)
    requires
        forall|i: int| 0 <= i < ts.len() ==> (#[trigger] ts[i]).in_range(),
    ensures
        final(flows)@ == old(flows)@ + transaction_flows(ts@),
{
    let ghost before = flows@;
    let mut n: usize = 0;
    while n < ts.len()
        invariant
            n <= ts.len(),
            forall|i: int| 0 <= i < ts.len() ==> (#[trigger] ts[i]).in_range(),
            flows@ == before + transaction_flows(ts@.take(n as int)),
        decreases ts.len() - n,
    {
        let t = &ts[n];
        assert(t.in_range());
        let amount: i128 = (t.amount as i128 + t.fees as i128) * VALUE_SCALE;
        flows.push(CashFlow { time: t.date, amount });
        proof {
            assert(flows@ =~= before + transaction_flows(ts@.take(n as int + 1)));
        }
        n += 1;
    }
    proof {
        assert(ts@.take(n as int) == ts@);
    }
}

/// Assembles the question for a position's rate of return.
pub fn position_query(
    prior_units: i128,
    end_units: i128,
    start_price: Option<EitherPrice>,
    end_price: Option<EitherPrice>,
    relevant: &Vec<Transaction>,
    start: i32,
) -> (r: Option<RateQuery>)
    requires
        -UNITS_LIMIT <= prior_units <= UNITS_LIMIT,
        -UNITS_LIMIT <= end_units <= UNITS_LIMIT,
        start_price is Some ==> start_price->0.in_range(),
        end_price is Some ==> end_price->0.in_range(),
        forall|i: int| 0 <= i < relevant.len() ==> (#[trigger] relevant[i]).in_range(),
    ensures
        r is Some == position_has_query(prior_units as int, start_price, end_price),
        r is Some ==> r->0.flows@ == position_flows(
            prior_units as int,
            end_units as int,
            start_price,
            end_price->0,
            relevant@,
        ),
        r is Some ==> r->0.period == position_period(start_price, end_price->0, start as int),
{
    if start_price.is_none() && prior_units != 0 {
        return None;
    }
    match end_price {
        None => None,
        Some(ep) => {
            let mut flows: Vec<CashFlow> = Vec::new();
            if end_units != 0 {
                assert(-100_000_000_000_000_000_000_000_000_000 <= end_units * ep.value_of()
                    <= 100_000_000_000_000_000_000_000_000_000) by (nonlinear_arith)
                    requires
                        -10_000_000_000_000_000_000 <= end_units <= 10_000_000_000_000_000_000,
                        -10_000_000_000 <= ep.value_of() <= 10_000_000_000,
                ;
                flows.push(CashFlow { time: ep.date(), amount: end_units * (ep.value() as i128) });
            }
            assert(flows@ =~= sale_flows(end_units as int, ep));
            if prior_units != 0 {
                if let Some(sp) = start_price {
                    assert(-100_000_000_000_000_000_000_000_000_000 <= -prior_units
                        * sp.value_of() <= 100_000_000_000_000_000_000_000_000_000)
                        by (nonlinear_arith)
                        requires
                            -10_000_000_000_000_000_000 <= prior_units
                                <= 10_000_000_000_000_000_000,
                            -10_000_000_000 <= sp.value_of() <= 10_000_000_000,
                    ;
                    flows.push(
                        CashFlow { time: sp.date(), amount: -prior_units * (sp.value() as i128) },
                    );
                }
            }
            assert(flows@ =~= sale_flows(end_units as int, ep) + purchase_flows(
                prior_units as int,
                start_price,
            ));
            push_transaction_flows(&mut flows, relevant);
            let begin: i64 = match start_price {
                Some(sp) => sp.date(),
                None => noon_utc(start),
            };
            Some(RateQuery { flows, period: ep.date() - begin })
        },
    }
}

/// The observation of an optional bar, where there is one.
pub open spec fn bar_shape(p: Option<DataSource<HistoricalPrice>>) -> Option<EitherPrice> {
    match p {
        Some(s) => Some(EitherPrice::HistoricalPrice(s.price)),
        None => None,
    }
}

/// What `compute_position` returns.
pub open spec fn is_position_performance(
    r: PositionPerformance,
    isin: Seq<char>,
    ts: Seq<Transaction>,
    start_price: Option<DataSource<HistoricalPrice>>,
    end_price: Option<DataSource<EitherPrice>>,
    start: int,
    end: int,
) -> bool {
    let prior = sums(ts, isin, None, earlier(start, end));
    let through = sums(ts, isin, None, end);
    let relevant = counted(ts, isin, Some(start), end);
    &&& r.start.date == start
    &&& r.start.units == prior.units
    &&& r.start.invested == prior.invested
    &&& r.start.fees == prior.fees
    &&& amount_of(r.start.value) == valuation(prior.units, closing_of(start_price))
    &&& r.start.data_source == as_either(start_price)
    &&& r.end.date == end
    &&& r.end.units == through.units
    &&& r.end.invested == through.invested
    &&& r.end.fees == through.fees
    &&& amount_of(r.end.value) == valuation(through.units, price_of(end_price))
    &&& r.end.data_source == end_price
    &&& r.transactions@ == relevant
    &&& r.irr is Some == position_has_query(prior.units, bar_shape(start_price), shape_of(end_price))
    &&& r.irr is Some ==> {
        &&& r.irr->0.flows@ == position_flows(
            prior.units,
            through.units,
            bar_shape(start_price),
            end_price->0.price,
            relevant,
        )
        &&& r.irr->0.period == position_period(bar_shape(start_price), end_price->0.price, start)
    }
}

/// The snapshots of a position are of a size that can be added up over a
/// portfolio.
pub open spec fn snapshot_in_range(s: PositionSnapshot) -> bool {
    &&& -UNITS_LIMIT <= s.units <= UNITS_LIMIT
    &&& -2_000_000_000_000_000_000_000 <= s.invested <= 2_000_000_000_000_000_000_000
    &&& -1_000_000_000_000_000_000_000 <= s.fees <= 1_000_000_000_000_000_000_000
    &&& s.value is Some ==> -VALUE_LIMIT <= s.value->0 <= VALUE_LIMIT
    &&& s.data_source is Some ==> s.data_source->0.price.in_range()
}

/// The transactions counted for a position are in range where the list is.
pub proof fn counted_in_range(ts: Seq<Transaction>, isin: Seq<char>, after: Option<int>, upto: int)
    requires
        forall|i: int| 0 <= i < ts.len() ==> (#[trigger] ts[i]).in_range(),
    ensures
        forall|i: int|
            0 <= i < counted(ts, isin, after, upto).len() ==> (#[trigger] counted(
                ts,
                isin,
                after,
                upto,
            )[i]).in_range(),
    decreases ts.len(),
{
    if ts.len() > 0 {
        counted_in_range(ts.drop_last(), isin, after, upto);
        assert(ts.last().in_range());
        let rest = counted(ts.drop_last(), isin, after, upto);
        let all = counted(ts, isin, after, upto);
        assert forall|i: int| 0 <= i < all.len() implies (#[trigger] all[i]).in_range() by {
            if i < rest.len() {
                assert(rest[i].in_range());
                assert(all[i] == rest[i]);
            }
        }
    }
}

/// Builds the snapshots of one position at both ends of a window, and the
/// question for its rate of return.
///
/// The start snapshot adds up the transactions that fall on a day up to
/// `start` and no later than `end`; the end snapshot adds up those up to
/// `end`; the transactions of the window are those after `start` up to
/// `end`.
pub fn compute_position(
    isin: &String,
    ts: &Vec<Transaction>,
    start_price: Option<DataSource<HistoricalPrice>>,
    end_price: Option<DataSource<EitherPrice>>,
    start: i32,
    end: i32,
) -> (r: PositionPerformance)
    requires
        transactions_in_range(ts@),
        start_price is Some ==> start_price->0.price.in_range(),
        end_price is Some ==> end_price->0.price.in_range(),
    ensures
        is_position_performance(r, isin@, ts@, start_price, end_price, start as int, end as int),
        snapshot_in_range(r.start),
        snapshot_in_range(r.end),
        r.transactions.len() <= ts.len(),
        forall|i: int| 0 <= i < r.transactions.len() ==> (#[trigger] r.transactions[i]).in_range(),
{
    let first: i32 = if start <= end { start } else { end };
    let prior = accumulate(ts, isin, None, first);
    let inside = accumulate(ts, isin, Some(start), end);
    let relevant = select_transactions(ts, isin, Some(start), end);
    proof {
        sums_are_bounded(ts@, isin@, None, first as int);
        sums_are_bounded(ts@, isin@, Some(start as int), end as int);
        sums_are_bounded(ts@, isin@, None, end as int);
        sums_split(ts@, isin@, start as int, end as int);
        counted_in_range(ts@, isin@, Some(start as int), end as int);
    }
    let end_units: i128 = prior.units + inside.units;
    let start_shape: Option<EitherPrice> = match &start_price {
        Some(s) => Some(EitherPrice::HistoricalPrice(s.price)),
        None => None,
    };
    let end_shape: Option<EitherPrice> = match &end_price {
        Some(e) => Some(e.price),
        None => None,
    };
    let start_value = value_position(
        prior.units,
        match &start_price {
            Some(s) => Some(s.price.closing),
            None => None,
        },
    );
    let end_value = value_position(
        end_units,
        match &end_shape {
            Some(e) => Some(e.value()),
            None => None,
        },
    );
    let irr = position_query(prior.units, end_units, start_shape, end_shape, &relevant, start);
    let start_source = match start_price {
        Some(s) => Some(EitherPrice::wrap_historical(s)),
        None => None,
    };
    PositionPerformance {
        start: PositionSnapshot {
            date: start,
            units: prior.units,
            invested: prior.invested,
            fees: prior.fees,
            value: start_value,
            data_source: start_source,
        },
        end: PositionSnapshot {
            date: end,
            units: end_units,
            invested: prior.invested + inside.invested,
            fees: prior.fees + inside.fees,
            value: end_value,
            data_source: end_price,
        },
        irr,
        transactions: relevant,
    }
}

/// The positions of a portfolio over one window, each with its instrument.
pub type Positions = Vec<(String, PositionPerformance)>;

/// The snapshots of the positions at one end of the window.
pub open spec fn snapshots(ps: Seq<(String, PositionPerformance)>, at_end: bool) -> Seq<
    PositionSnapshot,
> {
    Seq::new(
        ps.len(),
        |i: int|
            if at_end {
                ps[i].1.end
            } else {
                ps[i].1.start
            },
    )
}

/// The invested cash of all snapshots together.
pub open spec fn total_invested(s: Seq<PositionSnapshot>) -> int
    decreases s.len(),
{
    if s.len() == 0 {
        0
    } else {
        total_invested(s.drop_last()) + s.last().invested
    }
}

/// The fees of all snapshots together.
pub open spec fn total_fees(s: Seq<PositionSnapshot>) -> int
    decreases s.len(),
{
    if s.len() == 0 {
        0
    } else {
        total_fees(s.drop_last()) + s.last().fees
    }
}

/// The value of all snapshots together: unknown as soon as one of them is.
pub open spec fn total_value(s: Seq<PositionSnapshot>) -> Option<int>
    decreases s.len(),
{
    if s.len() == 0 {
        Some(0)
    } else {
        match (total_value(s.drop_last()), s.last().value) {
            (Some(a), Some(v)) => Some(a + v),
            _ => None,
        }
    }
}

/// The value of a portfolio is unknown exactly where the value of one of
/// its positions is unknown, whatever the others are worth.
pub proof fn unknown_value_propagates(s: Seq<PositionSnapshot>)
    ensures
        total_value(s) is None <==> exists|i: int| 0 <= i < s.len() && (#[trigger] s[i]).value is None,
    decreases s.len(),
{
    if s.len() > 0 {
        let rest = s.drop_last();
        unknown_value_propagates(rest);
        if total_value(s) is None {
            if s.last().value is None {
                assert(s[s.len() - 1].value is None);
            } else {
                let i = choose|i: int| 0 <= i < rest.len() && (#[trigger] rest[i]).value is None;
                assert(s[i] == rest[i]);
            }
        }
        if exists|i: int| 0 <= i < s.len() && (#[trigger] s[i]).value is None {
            let i = choose|i: int| 0 <= i < s.len() && (#[trigger] s[i]).value is None;
            if i < rest.len() {
                assert(rest[i] == s[i]);
            }
        }
    }
}

/// The sums of a portfolio are bounded by the number of its positions.
pub proof fn totals_are_bounded(s: Seq<PositionSnapshot>)
    requires
        forall|i: int| 0 <= i < s.len() ==> snapshot_in_range(#[trigger] s[i]),
    ensures
        -2_000_000_000_000_000_000_000 * s.len() <= total_invested(s)
            <= 2_000_000_000_000_000_000_000 * s.len(),
        -1_000_000_000_000_000_000_000 * s.len() <= total_fees(s) <= 1_000_000_000_000_000_000_000
            * s.len(),
        total_value(s) is Some ==> -100_000_000_000_000_000_000_000_000_000 * s.len()
            <= total_value(s)->0 <= 100_000_000_000_000_000_000_000_000_000 * s.len(),
    decreases s.len(),
{
    if s.len() > 0 {
        totals_are_bounded(s.drop_last());
        assert(snapshot_in_range(s.last()));
    }
}

/// The positions are of a size that can be added up.
pub open spec fn positions_in_range(ps: Seq<(String, PositionPerformance)>) -> bool {
    &&& ps.len() <= MAX_ENTRIES
    &&& forall|i: int| 0 <= i < ps.len() ==> snapshot_in_range((#[trigger] ps[i]).1.start)
    &&& forall|i: int| 0 <= i < ps.len() ==> snapshot_in_range((#[trigger] ps[i]).1.end)
    &&& forall|i: int, j: int|
        0 <= i < ps.len() && 0 <= j < ps[i].1.transactions.len() ==> (
        #[trigger] ps[i].1.transactions[j]).in_range()
}

/// Adds up the snapshots of the positions at one end of the window.
pub fn portfolio_snapshot(ps: &Positions, at_end: bool, date: i32) -> (r: PortfolioSnapshot)
    requires
        positions_in_range(ps@),
    ensures
        r.date == date,
        r.invested == total_invested(snapshots(ps@, at_end)),
        r.fees == total_fees(snapshots(ps@, at_end)),
        amount_of(r.value) == total_value(snapshots(ps@, at_end)),
{
    let ghost snaps = snapshots(ps@, at_end);
    let mut invested: i128 = 0;
    let mut fees: i128 = 0;
    let mut value: Option<i128> = Some(0);
    let mut n: usize = 0;
    while n < ps.len()
        invariant
            n <= ps.len(),
            positions_in_range(ps@),
            snaps == snapshots(ps@, at_end),
            invested == total_invested(snaps.take(n as int)),
            fees == total_fees(snaps.take(n as int)),
            amount_of(value) == total_value(snaps.take(n as int)),
        decreases ps.len() - n,
    {
        proof {
            assert forall|i: int| 0 <= i < n implies snapshot_in_range(
                #[trigger] snaps.take(n as int)[i],
            ) by {
                assert(snapshot_in_range(ps@[i].1.start));
                assert(snapshot_in_range(ps@[i].1.end));
            }
            totals_are_bounded(snaps.take(n as int));
            assert(snaps.take(n as int + 1).drop_last() == snaps.take(n as int));
            assert(snaps.take(n as int + 1).last() == snaps[n as int]);
            assert(snapshot_in_range(ps@[n as int].1.start));
            assert(snapshot_in_range(ps@[n as int].1.end));
        }
        let snap = if at_end {
            &ps[n].1.end
        } else {
            &ps[n].1.start
        };
        assert(*snap == snaps[n as int]);
        invested = invested + snap.invested;
        fees = fees + snap.fees;
        value =
        match (value, snap.value) {
            (Some(a), Some(v)) => Some(a + v),
            _ => None,
        };
        n += 1;
    }
    proof {
        assert(snaps.take(n as int) == snaps);
    }
    PortfolioSnapshot { date, invested, fees, value }
}

/// The length of the window of a portfolio that holds no priced position:
/// seven days.
pub const DEFAULT_PERIOD: i64 = 604_800;

/// The flow that stands for a snapshot at one end of the window: the sale
/// of the position at the end, its purchase at the start; nothing where the
/// snapshot has no price or holds no units.
pub open spec fn snapshot_flows(p: PositionSnapshot, at_end: bool) -> Seq<CashFlow> {
    match p.data_source {
        Some(d) => if at_end {
            sale_flows(p.units as int, d.price)
        } else {
            purchase_flows(p.units as int, Some(d.price))
        },
        None => Seq::empty(),
    }
}

/// The flows that stand for the snapshots, in their order.
pub open spec fn simulated_flows(s: Seq<PositionSnapshot>, at_end: bool) -> Seq<CashFlow>
    decreases s.len(),
{
    if s.len() == 0 {
        Seq::empty()
    } else {
        simulated_flows(s.drop_last(), at_end) + snapshot_flows(s.last(), at_end)
    }
}

/// The flows of the transactions inside the window, position by position.
pub open spec fn window_flows(ps: Seq<(String, PositionPerformance)>) -> Seq<CashFlow>
    decreases ps.len(),
{
    if ps.len() == 0 {
        Seq::empty()
    } else {
        window_flows(ps.drop_last()) + transaction_flows(ps.last().1.transactions@)
    }
}

/// The instant of the earliest price among the snapshots, or of the latest
/// one; `None` where no snapshot has a price.
pub open spec fn source_edge(s: Seq<PositionSnapshot>, latest: bool) -> Option<int>
    decreases s.len(),
{
    if s.len() == 0 {
        None
    } else {
        let rest = source_edge(s.drop_last(), latest);
        match s.last().data_source {
            None => rest,
            Some(d) => {
                let t = d.price.date_of();
                match rest {
                    None => Some(t),
                    Some(r) => if (latest && t > r) || (!latest && t < r) {
                        Some(t)
                    } else {
                        Some(r)
                    },
                }
            },
        }
    }
}

/// The flows of a portfolio over a window: the sales of all positions at
/// the end, their purchases at the start, and the transactions in between.
pub open spec fn portfolio_flows(ps: Seq<(String, PositionPerformance)>) -> Seq<CashFlow> {
    simulated_flows(snapshots(ps, true), true) + simulated_flows(snapshots(ps, false), false)
        + window_flows(ps)
}

/// The length of a portfolio's window in seconds: from the earliest start
/// price to the latest end price, or seven days where one of the two is
/// missing.
pub open spec fn portfolio_period(ps: Seq<(String, PositionPerformance)>) -> int {
    match (source_edge(snapshots(ps, false), false), source_edge(snapshots(ps, true), true)) {
        (Some(first), Some(last)) => last - first,
        _ => DEFAULT_PERIOD as int,
    }
}

/// Appends the flows that stand for the snapshots at one end of the window.
pub fn push_simulated_flows(flows: &mut Vec<CashFlow>, ps: &Positions, at_end: bool)
    requires
        positions_in_range(ps@),
    ensures
        final(flows)@ == old(flows)@ + simulated_flows(snapshots(ps@, at_end), at_end),
{
    let ghost before = flows@;
    let ghost snaps = snapshots(ps@, at_end);
    let mut n: usize = 0;
    while n < ps.len()
        invariant
            n <= ps.len(),
            positions_in_range(ps@),
            snaps == snapshots(ps@, at_end),
            flows@ == before + simulated_flows(snaps.take(n as int), at_end),
        decreases ps.len() - n,
    {
        proof {
            assert(snaps.take(n as int + 1).drop_last() == snaps.take(n as int));
            assert(snaps.take(n as int + 1).last() == snaps[n as int]);
            assert(snapshot_in_range(ps@[n as int].1.start));
            assert(snapshot_in_range(ps@[n as int].1.end));
        }
        let snap = if at_end {
            &ps[n].1.end
        } else {
            &ps[n].1.start
        };
        assert(*snap == snaps[n as int]);
        let ghost mid = flows@;
        match &snap.data_source {
            Some(d) => {
                if snap.units != 0 {
                    let price = d.price.value();
                    let units = snap.units;
                    assert(-100_000_000_000_000_000_000_000_000_000 <= units * price
                        <= 100_000_000_000_000_000_000_000_000_000) by (nonlinear_arith)
                        requires
                            -10_000_000_000_000_000_000 <= units <= 10_000_000_000_000_000_000,
                            -10_000_000_000 <= price <= 10_000_000_000,
                    ;
                    assert(-100_000_000_000_000_000_000_000_000_000 <= -units * price
                        <= 100_000_000_000_000_000_000_000_000_000) by (nonlinear_arith)
                        requires
                            -10_000_000_000_000_000_000 <= units <= 10_000_000_000_000_000_000,
                            -10_000_000_000 <= price <= 10_000_000_000,
                    ;
                    let amount: i128 = if at_end {
                        units * (price as i128)
                    } else {
                        -units * (price as i128)
                    };
                    flows.push(CashFlow { time: d.price.date(), amount });
                }
            },
            None => {},
        }
        proof {
            assert(flows@ =~= mid + snapshot_flows(snaps[n as int], at_end));
            assert(flows@ =~= before + simulated_flows(snaps.take(n as int + 1), at_end));
        }
        n += 1;
    }
    proof {
        assert(snaps.take(n as int) == snaps);
    }
}

/// Appends the flows of the transactions inside the window, position by
/// position.
pub fn push_window_flows(flows: &mut Vec<CashFlow>, ps: &Positions)
    requires
        positions_in_range(ps@),
    ensures
        final(flows)@ == old(flows)@ + window_flows(ps@),
{
    let ghost before = flows@;
    let mut n: usize = 0;
    while n < ps.len()
        invariant
            n <= ps.len(),
            positions_in_range(ps@),
            flows@ == before + window_flows(ps@.take(n as int)),
        decreases ps.len() - n,
    {
        proof {
            assert(ps@.take(n as int + 1).drop_last() == ps@.take(n as int));
            assert(ps@.take(n as int + 1).last() == ps@[n as int]);
            assert forall|j: int| 0 <= j < ps@[n as int].1.transactions.len() implies (
            #[trigger] ps@[n as int].1.transactions[j]).in_range() by {}
        }
        let ghost mid = flows@;
        push_transaction_flows(flows, &ps[n].1.transactions);
        proof {
            assert(flows@ =~= before + window_flows(ps@.take(n as int + 1)));
        }
        n += 1;
    }
    proof {
        assert(ps@.take(n as int) == ps@);
    }
}

/// Finds the instant of the earliest price among the snapshots at the start
/// of the window, or of the latest one among those at its end.
pub fn find_source_edge(ps: &Positions, at_end: bool) -> (r: Option<i64>)
    requires
        positions_in_range(ps@),
    ensures
        r is Some == source_edge(snapshots(ps@, at_end), at_end) is Some,
        r is Some ==> r->0 == source_edge(snapshots(ps@, at_end), at_end)->0,
        r is Some ==> -10_000_000_000_000 <= r->0 <= 10_000_000_000_000,
{
    let ghost snaps = snapshots(ps@, at_end);
    let mut edge: Option<i64> = None;
    let mut n: usize = 0;
    while n < ps.len()
        invariant
            n <= ps.len(),
            positions_in_range(ps@),
            snaps == snapshots(ps@, at_end),
            edge is Some == source_edge(snaps.take(n as int), at_end) is Some,
            edge is Some ==> edge->0 == source_edge(snaps.take(n as int), at_end)->0,
            edge is Some ==> -10_000_000_000_000 <= edge->0 <= 10_000_000_000_000,
        decreases ps.len() - n,
    {
        proof {
            assert(snaps.take(n as int + 1).drop_last() == snaps.take(n as int));
            assert(snaps.take(n as int + 1).last() == snaps[n as int]);
            assert(snapshot_in_range(ps@[n as int].1.start));
            assert(snapshot_in_range(ps@[n as int].1.end));
        }
        let snap = if at_end {
            &ps[n].1.end
        } else {
            &ps[n].1.start
        };
        assert(*snap == snaps[n as int]);
        match &snap.data_source {
            Some(d) => {
                let t = d.price.date();
                edge =
                match edge {
                    None => Some(t),
                    Some(r) => if (at_end && t > r) || (!at_end && t < r) {
                        Some(t)
                    } else {
                        Some(r)
                    },
                };
            },
            None => {},
        }
        n += 1;
    }
    proof {
        assert(snaps.take(n as int) == snaps);
    }
    edge
}

/// Assembles the question for a portfolio's rate of return. There is one
/// exactly where the value of the portfolio is known at both ends of the
/// window.
pub fn portfolio_query(ps: &Positions) -> (r: Option<RateQuery>)
    requires
        positions_in_range(ps@),
    ensures
        r is Some == (total_value(snapshots(ps@, false)) is Some && total_value(
            snapshots(ps@, true),
        ) is Some),
        r is Some ==> r->0.flows@ == portfolio_flows(ps@),
        r is Some ==> r->0.period == portfolio_period(ps@),
{
    let start = portfolio_snapshot(ps, false, 0);
    let end = portfolio_snapshot(ps, true, 0);
    if start.value.is_none() || end.value.is_none() {
        return None;
    }
    let mut flows: Vec<CashFlow> = Vec::new();
    push_simulated_flows(&mut flows, ps, true);
    push_simulated_flows(&mut flows, ps, false);
    push_window_flows(&mut flows, ps);
    let first_purchase = find_source_edge(ps, false);
    let last_sale = find_source_edge(ps, true);
    let period: i64 = match (first_purchase, last_sale) {
        (Some(first), Some(last)) => last - first,
        _ => DEFAULT_PERIOD,
    };
    proof {
        assert(flows@ =~= portfolio_flows(ps@));
    }
    Some(RateQuery { flows, period })
}

/// The portfolio over one reporting window.
#[derive(Debug)]
pub struct PortfolioPerformance {
    pub kind: PerformanceKind,
    pub start: PortfolioSnapshot,
    pub end: PortfolioSnapshot,
    /// The flows whose rate of return describes the window; `None` where
    /// the value of the portfolio is unknown at one of its ends.
    pub irr: Option<RateQuery>,
    /// One entry for each instrument, in the order of the instruments.
    pub positions: Positions,
}

/// The bars of all instruments on one day: one row for each day of a list,
/// each row parallel to the instruments.
pub type DailyPrices = Vec<Vec<Option<DataSource<HistoricalPrice>>>>;

/// The ticks of all instruments, parallel to the instruments.
pub type CurrentPrices = Vec<Option<DataSource<RealtimePrice>>>;

/// The first place of a day in a list of days.
pub open spec fn row_of(dates: Seq<i32>, day: int) -> Option<int>
    decreases dates.len(),
{
    if dates.len() == 0 {
        None
    } else {
        match row_of(dates.drop_last(), day) {
            Some(i) => Some(i),
            None => if dates.last() == day {
                Some(dates.len() - 1)
            } else {
                None
            },
        }
    }
}

/// The first place of a day in a list of days is a place of the list, and
/// holds the day.
pub proof fn row_is_in_list(dates: Seq<i32>, day: int)
    ensures
        row_of(dates, day) is Some ==> 0 <= row_of(dates, day)->0 < dates.len() && dates[row_of(
            dates,
            day,
        )->0] == day,
    decreases dates.len(),
{
    if dates.len() > 0 {
        row_is_in_list(dates.drop_last(), day);
    }
}

/// Finds the first place of a day in a list of days.
pub fn find_row(dates: &Vec<i32>, day: i32) -> (r: Option<usize>)
    ensures
        index_as_int(r) == row_of(dates@, day as int),
        r is Some ==> r->0 < dates.len(),
{
    let mut found: Option<usize> = None;
    let mut n: usize = 0;
    while n < dates.len()
        invariant
            n <= dates.len(),
            index_as_int(found) == row_of(dates@.take(n as int), day as int),
            found is Some ==> found->0 < n,
        decreases dates.len() - n,
    {
        proof {
            assert(dates@.take(n as int + 1).drop_last() == dates@.take(n as int));
            assert(dates@.take(n as int + 1).last() == dates@[n as int]);
        }
        if found.is_none() && dates[n] == day {
            found = Some(n);
        }
        n += 1;
    }
    proof {
        assert(dates@.take(n as int) == dates@);
    }
    found
}

/// An optional place as a mathematical integer.
pub open spec fn index_as_int(r: Option<usize>) -> Option<int> {
    match r {
        Some(i) => Some(i as int),
        None => None,
    }
}

/// The bar of instrument `k` on a day: that of the day's row, or none
/// where the day has no row or the row no such place.
pub open spec fn historical_at(
    dates: Seq<i32>,
    prices: Seq<Vec<Option<DataSource<HistoricalPrice>>>>,
    day: int,
    k: int,
) -> Option<DataSource<HistoricalPrice>> {
    match row_of(dates, day) {
        Some(i) => if i < prices.len() && 0 <= k < prices[i]@.len() {
            prices[i]@[k]
        } else {
            None
        },
        None => None,
    }
}

/// An optional tick as an observation of any shape.
pub open spec fn as_realtime(p: Option<DataSource<RealtimePrice>>) -> Option<
    DataSource<EitherPrice>,
> {
    match p {
        Some(s) => Some(
            DataSource { price: EitherPrice::RealtimePrice(s.price), exchange: s.exchange },
        ),
        None => None,
    }
}

/// The price at which instrument `k` is valued at the end of a window: the
/// bar of the end day, or the current tick where the window ends now.
pub open spec fn end_price_at(
    current: Seq<Option<DataSource<RealtimePrice>>>,
    dates: Seq<i32>,
    prices: Seq<Vec<Option<DataSource<HistoricalPrice>>>>,
    end: Option<int>,
    k: int,
) -> Option<DataSource<EitherPrice>> {
    match end {
        Some(e) => as_either(historical_at(dates, prices, e, k)),
        None => if 0 <= k < current.len() {
            as_realtime(current[k])
        } else {
            None
        },
    }
}

/// The day on which a window ends: its end day, or today where it ends now.
pub open spec fn end_day(end: Option<int>, today: int) -> int {
    match end {
        Some(e) => e,
        None => today,
    }
}

/// Every bar is in range.
pub open spec fn bars_in_range(prices: Seq<Vec<Option<DataSource<HistoricalPrice>>>>) -> bool {
    forall|i: int, k: int|
        0 <= i < prices.len() && 0 <= k < prices[i]@.len() && (#[trigger] prices[i]@[k]) is Some
            ==> prices[i]@[k]->0.price.in_range()
}

/// Every tick is in range.
pub open spec fn ticks_in_range(current: Seq<Option<DataSource<RealtimePrice>>>) -> bool {
    forall|k: int|
        0 <= k < current.len() && (#[trigger] current[k]) is Some ==> current[k]->0.price.in_range()
}

/// Computes `ticks_in_range`.
pub fn check_ticks(current: &CurrentPrices) -> (r: bool)
    ensures
        r == ticks_in_range(current@),
{
    let mut k: usize = 0;
    while k < current.len()
        invariant
            k <= current.len(),
            forall|m: int|
                0 <= m < k && (#[trigger] current[m]) is Some ==> current[m]->0.price.in_range(),
        decreases current.len() - k,
    {
        match &current[k] {
            Some(d) => {
                if !d.price.is_in_range() {
                    return false;
                }
            },
            None => {},
        }
        k += 1;
    }
    true
}

/// Computes `bars_in_range`.
pub fn check_bars(prices: &DailyPrices) -> (r: bool)
    ensures
        r == bars_in_range(prices@),
{
    let mut i: usize = 0;
    while i < prices.len()
        invariant
            i <= prices.len(),
            forall|a: int, k: int|
                0 <= a < i && 0 <= k < prices[a]@.len() && (#[trigger] prices[a]@[k]) is Some
                    ==> prices[a]@[k]->0.price.in_range(),
        decreases prices.len() - i,
    {
        let row = &prices[i];
        let mut k: usize = 0;
        while k < row.len()
            invariant
                k <= row.len(),
                i < prices.len(),
                *row == prices[i as int],
                forall|m: int|
                    0 <= m < k && (#[trigger] row[m]) is Some ==> row[m]->0.price.in_range(),
            decreases row.len() - k,
        {
            match &row[k] {
                Some(d) => {
                    if !d.price.is_in_range() {
                        assert(prices[i as int]@[k as int] is Some);
                        return false;
                    }
                },
                None => {},
            }
            k += 1;
        }
        i += 1;
    }
    true
}

/// Copies the bar of instrument `k` on a day.
pub fn price_at(dates: &Vec<i32>, prices: &DailyPrices, day: i32, k: usize) -> (r: Option<
    DataSource<HistoricalPrice>,
>)
    ensures
        r == historical_at(dates@, prices@, day as int, k as int),
{
    match find_row(dates, day) {
        Some(i) => {
            if i < prices.len() && k < prices[i].len() {
                match &prices[i][k] {
                    Some(d) => Some(d.clone()),
                    None => None,
                }
            } else {
                None
            }
        },
        None => None,
    }
}

/// What `compute_performance` returns.
pub open spec fn is_portfolio_performance(
    r: PortfolioPerformance,
    ts: Seq<Transaction>,
    isins: Seq<String>,
    current: Seq<Option<DataSource<RealtimePrice>>>,
    dates: Seq<i32>,
    prices: Seq<Vec<Option<DataSource<HistoricalPrice>>>>,
    kind: PerformanceKind,
    start: int,
    end: Option<int>,
    today: int,
) -> bool {
    let starts = snapshots(r.positions@, false);
    let ends = snapshots(r.positions@, true);
    &&& r.kind == kind
    &&& r.positions.len() == isins.len()
    &&& forall|k: int|
        0 <= k < isins.len() ==> {
            &&& (#[trigger] r.positions[k]).0 == isins[k]
            &&& is_position_performance(
                r.positions[k].1,
                isins[k]@,
                ts,
                historical_at(dates, prices, start, k),
                end_price_at(current, dates, prices, end, k),
                start,
                end_day(end, today),
            )
        }
    &&& r.start.date == start
    &&& r.start.invested == total_invested(starts)
    &&& r.start.fees == total_fees(starts)
    &&& amount_of(r.start.value) == total_value(starts)
    &&& r.end.date == end_day(end, today)
    &&& r.end.invested == total_invested(ends)
    &&& r.end.fees == total_fees(ends)
    &&& amount_of(r.end.value) == total_value(ends)
    &&& r.irr is Some == (total_value(starts) is Some && total_value(ends) is Some)
    &&& r.irr is Some ==> {
        &&& r.irr->0.flows@ == portfolio_flows(r.positions@)
        &&& r.irr->0.period == portfolio_period(r.positions@)
    }
}

/// Builds the portfolio over one reporting window: each instrument's
/// position with the bar of the start day and the price of the end, and
/// their sums.
pub fn compute_performance(
    ts: &Vec<Transaction>,
    isins: &Vec<String>,
    current_prices: &CurrentPrices,
    dates: &Vec<i32>,
    prices: &DailyPrices,
    kind: PerformanceKind,
    start: i32,
    end: Option<i32>,
    today: i32,
) -> (r: PortfolioPerformance)
    requires
        transactions_in_range(ts@),
        isins.len() <= MAX_ENTRIES,
        ticks_in_range(current_prices@),
        bars_in_range(prices@),
    ensures
        is_portfolio_performance(
            r,
            ts@,
            isins@,
            current_prices@,
            dates@,
            prices@,
            kind,
            start as int,
            day_of_option(end),
            today as int,
        ),
{
    let last: i32 = match end {
        Some(e) => e,
        None => today,
    };
    let mut positions: Positions = Vec::new();
    let mut k: usize = 0;
    while k < isins.len()
        invariant
            k <= isins.len(),
            isins.len() <= MAX_ENTRIES,
            transactions_in_range(ts@),
            ticks_in_range(current_prices@),
            bars_in_range(prices@),
            last == end_day(day_of_option(end), today as int),
            positions.len() == k,
            positions_in_range(positions@),
            forall|m: int|
                0 <= m < k ==> {
                    &&& (#[trigger] positions[m]).0 == isins[m]
                    &&& is_position_performance(
                        positions[m].1,
                        isins[m]@,
                        ts@,
                        historical_at(dates@, prices@, start as int, m),
                        end_price_at(current_prices@, dates@, prices@, day_of_option(end), m),
                        start as int,
                        last as int,
                    )
                },
        decreases isins.len() - k,
    {
        let start_price = price_at(dates, prices, start, k);
        let end_price: Option<DataSource<EitherPrice>> = match end {
            Some(e) => match price_at(dates, prices, e, k) {
                Some(d) => Some(EitherPrice::wrap_historical(d)),
                None => None,
            },
            None => {
                if k < current_prices.len() {
                    match &current_prices[k] {
                        Some(d) => Some(EitherPrice::wrap_realtime(d.clone())),
                        None => None,
                    }
                } else {
                    None
                }
            },
        };
        proof {
            row_is_in_list(dates@, start as int);
            if end is Some {
                row_is_in_list(dates@, end->0 as int);
            }
            assert(end_price == end_price_at(
                current_prices@,
                dates@,
                prices@,
                day_of_option(end),
                k as int,
            ));
        }
        let position = compute_position(&isins[k], ts, start_price, end_price, start, last);
        let ghost before = positions@;
        positions.push((isins[k].clone(), position));
        proof {
            assert forall|m: int| 0 <= m < k + 1 implies {
                &&& (#[trigger] positions[m]).0 == isins[m]
                &&& is_position_performance(
                    positions[m].1,
                    isins[m]@,
                    ts@,
                    historical_at(dates@, prices@, start as int, m),
                    end_price_at(current_prices@, dates@, prices@, day_of_option(end), m),
                    start as int,
                    last as int,
                )
            } by {
                if m < k {
                    assert(positions[m] == before[m]);
                }
            }
            assert forall|i: int| 0 <= i < positions.len() implies snapshot_in_range(
                (#[trigger] positions@[i]).1.start,
            ) by {
                if i < k {
                    assert(positions@[i] == before[i]);
                }
            }
            assert forall|i: int| 0 <= i < positions.len() implies snapshot_in_range(
                (#[trigger] positions@[i]).1.end,
            ) by {
                if i < k {
                    assert(positions@[i] == before[i]);
                }
            }
            assert forall|i: int, j: int|
                0 <= i < positions.len() && 0 <= j < positions@[i].1.transactions.len() implies (
            #[trigger] positions@[i].1.transactions[j]).in_range() by {
                if i < k {
                    assert(positions@[i] == before[i]);
                    assert(before[i].1.transactions[j].in_range());
                }
            }
        }
        k += 1;
    }
    let start_snapshot = portfolio_snapshot(&positions, false, start);
    let end_snapshot = portfolio_snapshot(&positions, true, last);
    let irr = portfolio_query(&positions);
    PortfolioPerformance { kind, start: start_snapshot, end: end_snapshot, irr, positions }
}

/// Builds the report: the portfolio over each of the windows, in their
/// order.
///
/// `isins` are the instruments, `current_prices` their ticks, `dates` the
/// days for which bars were resolved and `prices` the bars of each of those
/// days; `today` is the day on which the windows that end now end.
pub fn compute(
    ts: &Vec<Transaction>,
    isins: &Vec<String>,
    current_prices: &CurrentPrices,
    jobs: &Vec<Job>,
    dates: &Vec<i32>,
    prices: &DailyPrices,
    today: i32,
) -> (r: Vec<PortfolioPerformance>)
    requires
        transactions_in_range(ts@),
        isins.len() <= MAX_ENTRIES,
        ticks_in_range(current_prices@),
        bars_in_range(prices@),
    ensures
        r.len() == jobs.len(),
        forall|j: int|
            0 <= j < jobs.len() ==> is_portfolio_performance(
                #[trigger] r[j],
                ts@,
                isins@,
                current_prices@,
                dates@,
                prices@,
                jobs[j].kind,
                jobs[j].start as int,
                day_of_option(jobs[j].end),
                today as int,
            ),
{
    let mut out: Vec<PortfolioPerformance> = Vec::new();
    let mut j: usize = 0;
    while j < jobs.len()
        invariant
            j <= jobs.len(),
            transactions_in_range(ts@),
            isins.len() <= MAX_ENTRIES,
            ticks_in_range(current_prices@),
            bars_in_range(prices@),
            out.len() == j,
            forall|m: int|
                0 <= m < j ==> is_portfolio_performance(
                    #[trigger] out[m],
                    ts@,
                    isins@,
                    current_prices@,
                    dates@,
                    prices@,
                    jobs[m].kind,
                    jobs[m].start as int,
                    day_of_option(jobs[m].end),
                    today as int,
                ),
        decreases jobs.len() - j,
    {
        let job = jobs[j];
        let performance = compute_performance(
            ts,
            isins,
            current_prices,
            dates,
            prices,
            job.kind,
            job.start,
            job.end,
            today,
        );
        out.push(performance);
        j += 1;
    }
    out
}

/// The instant of the latest tick, where there is a tick.
pub fn latest_tick(current_prices: &CurrentPrices) -> (r: Option<i64>)
    ensures
        r is None <==> forall|k: int|
            0 <= k < current_prices.len() ==> (#[trigger] current_prices[k]) is None,
        r is Some ==> exists|k: int|
            0 <= k < current_prices.len() && (#[trigger] current_prices[k]) is Some
                && current_prices[k]->0.price.date == r->0,
        r is Some ==> forall|k: int|
            0 <= k < current_prices.len() && (#[trigger] current_prices[k]) is Some
                ==> current_prices[k]->0.price.date <= r->0,
{
    let mut latest: Option<i64> = None;
    let mut n: usize = 0;
    while n < current_prices.len()
        invariant
            n <= current_prices.len(),
            latest is None <==> forall|k: int|
                0 <= k < n ==> (#[trigger] current_prices[k]) is None,
            latest is Some ==> exists|k: int|
                0 <= k < n && (#[trigger] current_prices[k]) is Some
                    && current_prices[k]->0.price.date == latest->0,
            latest is Some ==> forall|k: int|
                0 <= k < n && (#[trigger] current_prices[k]) is Some
                    ==> current_prices[k]->0.price.date <= latest->0,
        decreases current_prices.len() - n,
    {
        match &current_prices[n] {
            Some(d) => {
                let t = d.price.date;
                latest =
                match latest {
                    Some(l) => if t > l {
                        Some(t)
                    } else {
                        Some(l)
                    },
                    None => Some(t),
                };
            },
            None => {},
        }
        n += 1;
    }
    latest
}

/// Transaction `i` is the earliest of the list, and the first of those
/// that share its instant.
pub open spec fn is_earliest(ts: Seq<Transaction>, i: int) -> bool {
    &&& 0 <= i < ts.len()
    &&& forall|j: int| 0 <= j < ts.len() ==> ts[i].date <= (#[trigger] ts[j]).date
    &&& forall|j: int| 0 <= j < i ==> ts[i].date < (#[trigger] ts[j]).date
}

/// The day of the earliest transaction, where there is a transaction.
pub fn first_transaction_day(ts: &Vec<Transaction>) -> (r: Option<i32>)
    ensures
        r is None <==> ts.len() == 0,
        r is Some ==> exists|i: int| is_earliest(ts@, i) && ts[i].local_day == r->0,
{
    if ts.len() == 0 {
        return None;
    }
    let mut best: usize = 0;
    let mut n: usize = 1;
    while n < ts.len()
        invariant
            1 <= n <= ts.len(),
            best < n,
            forall|j: int| 0 <= j < n ==> ts[best as int].date <= (#[trigger] ts[j]).date,
            forall|j: int| 0 <= j < best ==> ts[best as int].date < (#[trigger] ts[j]).date,
        decreases ts.len() - n,
    {
        if ts[n].date < ts[best].date {
            best = n;
        }
        n += 1;
    }
    proof {
        assert(is_earliest(ts@, best as int));
    }
    Some(ts[best].local_day)
}

/// The instruments of a list of transactions, each once, in the order in
/// which they first appear.
pub open spec fn distinct_isins(ts: Seq<Transaction>) -> Seq<Seq<char>>
    decreases ts.len(),
{
    if ts.len() == 0 {
        Seq::empty()
    } else {
        let rest = distinct_isins(ts.drop_last());
        if rest.contains(ts.last().isin@) {
            rest
        } else {
            rest.push(ts.last().isin@)
        }
    }
}

/// The character sequences of a list of strings.
pub open spec fn string_views(list: Seq<String>) -> Seq<Seq<char>> {
    Seq::new(list.len(), |i: int| list[i]@)
}

/// Tells whether a list of strings holds a string.
pub fn holds_string(list: &Vec<String>, s: &String) -> (r: bool)
    ensures
        r == string_views(list@).contains(s@),
{
    let mut n: usize = 0;
    while n < list.len()
        invariant
            n <= list.len(),
            forall|i: int| 0 <= i < n ==> list[i]@ != s@,
        decreases list.len() - n,
    {
        if list[n] == *s {
            assert(string_views(list@)[n as int] == s@);
            return true;
        }
        n += 1;
    }
    proof {
        assert forall|i: int| 0 <= i < string_views(list@).len() implies string_views(list@)[i]
            != s@ by {
            assert(list[i]@ != s@);
        }
    }
    false
}

/// Lists the instruments of the transactions, each once, in the order in
/// which they first appear.
pub fn first_appearances(ts: &Vec<Transaction>) -> (r: Vec<String>)
    ensures
        string_views(r@) == distinct_isins(ts@),
        r.len() <= ts.len(),
{
    let mut out: Vec<String> = Vec::new();
    let mut n: usize = 0;
    while n < ts.len()
        invariant
            n <= ts.len(),
            out.len() <= n,
            string_views(out@) == distinct_isins(ts@.take(n as int)),
        decreases ts.len() - n,
    {
        proof {
            assert(ts@.take(n as int + 1).drop_last() == ts@.take(n as int));
            assert(ts@.take(n as int + 1).last() == ts@[n as int]);
        }
        if !holds_string(&out, &ts[n].isin) {
            let ghost before = string_views(out@);
            out.push(ts[n].isin.clone());
            proof {
                assert(string_views(out@) =~= before.push(ts@[n as int].isin@));
            }
        }
        n += 1;
    }
    proof {
        assert(ts@.take(n as int) == ts@);
    }
    out
}

/// String `a` is `b` or comes before it in the order of strings: the two are
/// compared character by character, by the number of the character, and a
/// string comes before those that it begins.
pub open spec fn precedes(a: Seq<char>, b: Seq<char>) -> bool
    decreases a.len(),
{
    if a.len() == 0 {
        true
    } else if b.len() == 0 {
        false
    } else if a[0] != b[0] {
        (a[0] as u32) < (b[0] as u32)
    } else {
        precedes(a.drop_first(), b.drop_first())
    }
}

/// The strings stand in rising order.
pub open spec fn ascending(list: Seq<Seq<char>>) -> bool {
    forall|i: int, j: int| 0 <= i <= j < list.len() ==> precedes(#[trigger] list[i], #[trigger] list[j])
}

/// Calls `sort` of std on the slice of strings. Claimed: the list holds
/// afterwards what it held before, as often, in rising order; strings are
/// ordered by their bytes, which is the order of their characters' numbers.
#[verifier::external_body]
fn sort_strings(list: &mut Vec<String>)
    ensures
        final(list).len() == old(list).len(),
        string_views(final(list)@).to_multiset() == string_views(old(list)@).to_multiset(),
        ascending(string_views(final(list)@)),
{
    list.sort();
}

/// Some transaction is about the instrument.
pub open spec fn is_traded(ts: Seq<Transaction>, isin: Seq<char>) -> bool {
    exists|i: int| 0 <= i < ts.len() && (#[trigger] ts[i]).isin@ == isin
}

/// The instruments of a list of transactions are those that a transaction
/// is about, each once.
pub proof fn each_instrument_once(ts: Seq<Transaction>)
    ensures
        forall|isin: Seq<char>|
            #[trigger] distinct_isins(ts).to_multiset().count(isin) == (if is_traded(ts, isin) {
                1nat
            } else {
                0nat
            }),
    decreases ts.len(),
{
    broadcast use vstd::seq_lib::group_to_multiset_ensures;

    if ts.len() == 0 {
        assert forall|isin: Seq<char>|
            #[trigger] distinct_isins(ts).to_multiset().count(isin) == (if is_traded(ts, isin) {
                1nat
            } else {
                0nat
            }) by {
            assert(!distinct_isins(ts).contains(isin));
        }
    } else {
        let before = ts.drop_last();
        let rest = distinct_isins(before);
        let last = ts.last().isin@;
        each_instrument_once(before);
        assert forall|isin: Seq<char>|
            #[trigger] distinct_isins(ts).to_multiset().count(isin) == (if is_traded(ts, isin) {
                1nat
            } else {
                0nat
            }) by {
            assert(rest.to_multiset().count(isin) == (if is_traded(before, isin) {
                1nat
            } else {
                0nat
            }));
            if is_traded(before, isin) {
                let i = choose|i: int| 0 <= i < before.len() && (#[trigger] before[i]).isin@ == isin;
                assert(ts[i].isin@ == isin);
            }
            if is_traded(ts, isin) {
                let i = choose|i: int| 0 <= i < ts.len() && (#[trigger] ts[i]).isin@ == isin;
                if i < before.len() {
                    assert(before[i].isin@ == isin);
                }
            }
            if isin == last {
                assert(ts[ts.len() - 1].isin@ == isin);
            }
            if rest.contains(last) {
                assert(rest.to_multiset().count(last) > 0);
            } else {
                assert(rest.to_multiset().count(last) == 0);
                assert(rest.push(last).to_multiset() =~= rest.to_multiset().insert(last));
            }
        }
    }
}

/// Lists the instruments of the transactions in rising order: those that a
/// transaction is about, each once, so that no two neighbours are the same.
pub fn instruments(ts: &Vec<Transaction>) -> (r: Vec<String>)
    ensures
        string_views(r@).to_multiset() == distinct_isins(ts@).to_multiset(),
        ascending(string_views(r@)),
        string_views(r@).no_duplicates(),
        forall|isin: Seq<char>|
            #[trigger] string_views(r@).to_multiset().count(isin) == (if is_traded(ts@, isin) {
                1nat
            } else {
                0nat
            }),
        r.len() <= ts.len(),
{
    let mut list = first_appearances(ts);
    sort_strings(&mut list);
    proof {
        each_instrument_once(ts@);
        string_views(list@).lemma_multiset_has_no_duplicates_conv();
    }
    list
}

/// Every transaction falls on a day that the engine works with.
pub open spec fn on_calendar_days(ts: Seq<Transaction>) -> bool {
    forall|i: int| 0 <= i < ts.len() ==> is_calendar_day((#[trigger] ts[i]).local_day as int)
}

/// Computes `on_calendar_days`.
pub fn check_days(ts: &Vec<Transaction>) -> (r: bool)
    ensures
        r == on_calendar_days(ts@),
{
    let mut n: usize = 0;
    while n < ts.len()
        invariant
            n <= ts.len(),
            forall|i: int| 0 <= i < n ==> is_calendar_day((#[trigger] ts[i]).local_day as int),
        decreases ts.len() - n,
    {
        if ts[n].local_day < 1 || ts[n].local_day > 3_652_059 {
            return false;
        }
        n += 1;
    }
    true
}

/// Plans a report: lists its windows, counted from the earliest
/// transaction, and the days for which end-of-day prices are needed.
pub fn plan(ts: &Vec<Transaction>, prev_day: i32) -> (r: (Vec<Job>, Vec<i32>))
    requires
        is_calendar_day(prev_day as int),
        on_calendar_days(ts@),
    ensures
        ts.len() == 0 ==> job_views(r.0@) == jobs_for(prev_day as int, year_start(prev_day as int)),
        ts.len() > 0 ==> exists|i: int|
            is_earliest(ts@, i) && job_views(r.0@) == jobs_for(
                prev_day as int,
                ts[i].local_day as int,
            ),
        r.1@.no_duplicates(),
        forall|day: i32|
            r.1@.contains(day) <==> exists|j: int| 0 <= j < r.0.len() && mentions(#[trigger] r.0[j], day),
{
    let first = first_transaction_day(ts);
    proof {
        if first is Some {
            let i = choose|i: int| is_earliest(ts@, i) && ts[i].local_day == first->0;
            assert(is_calendar_day(ts[i].local_day as int));
        }
    }
    let jobs = enumerate_jobs(prev_day, first);
    let days = job_days(&jobs);
    (jobs, days)
}

} // verus!
