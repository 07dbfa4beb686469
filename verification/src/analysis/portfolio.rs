//! The portfolio at a single instant: every position over its whole
//! history, valued at one price.

use crate::analysis::irr::{CashFlow, RateQuery, YEAR_SECONDS};
use crate::analysis::performance::{
    accumulate, amount_of, counted, counted_in_range, push_transaction_flows,
    select_transactions, sums, sums_are_bounded, transaction_flows, valuation, value_position,
};
use crate::analysis::price::{DataSource, Price};
use crate::models::{transactions_in_range, Transaction, MAX_ENTRIES, MAX_PRICE};
use vstd::prelude::*;

verus! {

/// One position at an instant.
#[derive(Debug)]
pub struct Position<T> {
    pub isin: String,
    /// Units held, in millionths.
    pub units: i128,
    /// The cash of the transactions, fees included, in minor units; money
    /// paid out counts negative.
    pub invested: i128,
    /// In value units; `None` where units are held and no price is known.
    pub value: Option<i128>,
    /// The flows whose yearly rate of return describes the position; `None`
    /// where there is no price to sell at.
    pub irr: Option<RateQuery>,
    pub data_source: Option<DataSource<T>>,
    /// All transactions of the instrument.
    pub transactions: Vec<Transaction>,
}

/// The portfolio at an instant.
#[derive(Debug)]
pub struct Portfolio<T> {
    /// In minor units; money paid out counts negative.
    pub invested: i128,
    /// In value units; `None` where the value of a position is unknown.
    pub value: Option<i128>,
    /// The flows whose yearly rate of return describes the portfolio;
    /// `None` where its value is unknown.
    pub irr: Option<RateQuery>,
    pub stocks: Vec<Position<T>>,
}

/// The price of an optional source.
pub open spec fn source_price<T: Price>(p: Option<DataSource<T>>) -> Option<int> {
    match p {
        Some(s) => Some(s.price.value_of()),
        None => None,
    }
}

/// The price of a source, where there is one, is in range.
pub open spec fn source_in_range<T: Price>(p: Option<DataSource<T>>) -> bool {
    p is Some ==> -MAX_PRICE <= p->0.price.value_of() <= MAX_PRICE
}

/// The sale of units at a price.
pub open spec fn sale<T: Price>(units: int, price: T) -> CashFlow {
    CashFlow { time: price.date_of() as i64, amount: (units * price.value_of()) as i128 }
}

/// The last day that a day number can name.
pub const LAST_DAY: i32 = i32::MAX;

/// What `compute_position` returns.
pub open spec fn is_position<T: Price>(
    r: Position<T>,
    isin: String,
    ts: Seq<Transaction>,
    price: Option<DataSource<T>>,
) -> bool {
    let all = sums(ts, isin@, None, LAST_DAY as int);
    let own = counted(ts, isin@, None, LAST_DAY as int);
    &&& r.isin == isin
    &&& r.units == all.units
    &&& r.invested == all.invested
    &&& amount_of(r.value) == valuation(all.units, source_price(price))
    &&& r.data_source == price
    &&& r.transactions@ == own
    &&& r.irr is Some == price is Some
    &&& r.irr is Some ==> {
        &&& r.irr->0.flows@ == transaction_flows(own).push(sale(all.units, price->0.price))
        &&& r.irr->0.period == YEAR_SECONDS
    }
}

/// The position is of a size that can be added up over a portfolio.
pub open spec fn position_in_range<T: Price>(p: Position<T>) -> bool {
    &&& -10_000_000_000_000_000_000 <= p.units <= 10_000_000_000_000_000_000
    &&& -2_000_000_000_000_000_000_000 <= p.invested <= 2_000_000_000_000_000_000_000
    &&& p.value is Some ==> -100_000_000_000_000_000_000_000_000_000 <= p.value->0
        <= 100_000_000_000_000_000_000_000_000_000
    &&& source_in_range(p.data_source)
}

/// Builds the position of one instrument from all of its transactions: the
/// units held, the cash moved, and what the units are worth at the price.
pub fn compute_position<T: Price>(
    isin: &String,
    ts: &Vec<Transaction>,
    price: Option<DataSource<T>>,
) -> (r: Position<T>)
    requires
        transactions_in_range(ts@),
        source_in_range(price),
    ensures
        is_position(r, *isin, ts@, price),
        position_in_range(r),
{
    let all = accumulate(ts, isin, None, LAST_DAY);
    let own = select_transactions(ts, isin, None, LAST_DAY);
    proof {
        sums_are_bounded(ts@, isin@, None, LAST_DAY as int);
        counted_in_range(ts@, isin@, None, LAST_DAY as int);
    }
    let quote: Option<i64> = match &price {
        Some(s) => Some(s.price.value()),
        None => None,
    };
    let value = value_position(all.units, quote);
    let irr: Option<RateQuery> = match &price {
        Some(s) => {
            let mut flows: Vec<CashFlow> = Vec::new();
            push_transaction_flows(&mut flows, &own);
            let v = s.price.value();
            let units = all.units;
            assert(-100_000_000_000_000_000_000_000_000_000 <= units * v
                <= 100_000_000_000_000_000_000_000_000_000) by (nonlinear_arith)
                requires
                    -10_000_000_000_000_000_000 <= units <= 10_000_000_000_000_000_000,
                    -10_000_000_000 <= v <= 10_000_000_000,
            ;
            flows.push(CashFlow { time: s.price.date(), amount: units * (v as i128) });
            assert(flows@ =~= transaction_flows(own@).push(sale(all.units as int, s.price)));
            Some(RateQuery { flows, period: YEAR_SECONDS })
        },
        None => None,
    };
    Position {
        isin: isin.clone(),
        units: all.units,
        invested: all.invested,
        value,
        irr,
        data_source: price,
        transactions: own,
    }
}

/// The invested cash of all positions together.
pub open spec fn invested_of<T: Price>(ps: Seq<Position<T>>) -> int
    decreases ps.len(),
{
    if ps.len() == 0 {
        0
    } else {
        invested_of(ps.drop_last()) + ps.last().invested
    }
}

/// The value of all positions together: unknown as soon as one of them is.
pub open spec fn value_of<T: Price>(ps: Seq<Position<T>>) -> Option<int>
    decreases ps.len(),
{
    if ps.len() == 0 {
        Some(0)
    } else {
        match (value_of(ps.drop_last()), ps.last().value) {
            (Some(a), Some(v)) => Some(a + v),
            _ => None,
        }
    }
}

/// The sales of the positions that have a price, in their order.
pub open spec fn sales_of<T: Price>(ps: Seq<Position<T>>) -> Seq<CashFlow>
    decreases ps.len(),
{
    if ps.len() == 0 {
        Seq::empty()
    } else {
        let rest = sales_of(ps.drop_last());
        match ps.last().data_source {
            Some(s) => rest.push(sale(ps.last().units as int, s.price)),
            None => rest,
        }
    }
}

/// The value of a portfolio is unknown exactly where the value of one of
/// its positions is unknown.
pub proof fn unknown_position_makes_portfolio_unknown<T: Price>(ps: Seq<Position<T>>)
    ensures
        value_of(ps) is None <==> exists|i: int| 0 <= i < ps.len() && (#[trigger] ps[i]).value is None,
    decreases ps.len(),
{
    if ps.len() > 0 {
        let rest = ps.drop_last();
        unknown_position_makes_portfolio_unknown(rest);
        if value_of(ps) is None {
            if ps.last().value is None {
                assert(ps[ps.len() - 1].value is None);
            } else {
                let i = choose|i: int| 0 <= i < rest.len() && (#[trigger] rest[i]).value is None;
                assert(ps[i] == rest[i]);
            }
        }
        if exists|i: int| 0 <= i < ps.len() && (#[trigger] ps[i]).value is None {
            let i = choose|i: int| 0 <= i < ps.len() && (#[trigger] ps[i]).value is None;
            if i < rest.len() {
                assert(rest[i] == ps[i]);
            }
        }
    }
}

/// The price of instrument `k`: that of its place, or none where the list
/// of prices has no such place.
pub open spec fn price_for<T: Price>(prices: Seq<Option<DataSource<T>>>, k: int) -> Option<
    DataSource<T>,
> {
    if 0 <= k < prices.len() {
        prices[k]
    } else {
        None
    }
}

/// What `compute` returns.
pub open spec fn is_portfolio<T: Price>(
    r: Portfolio<T>,
    ts: Seq<Transaction>,
    isins: Seq<String>,
    prices: Seq<Option<DataSource<T>>>,
) -> bool {
    &&& r.stocks.len() == isins.len()
    &&& forall|k: int|
        0 <= k < isins.len() ==> is_position(#[trigger] r.stocks[k], isins[k], ts, price_for(prices, k))
    &&& r.invested == invested_of(r.stocks@)
    &&& amount_of(r.value) == value_of(r.stocks@)
    &&& r.irr is Some == value_of(r.stocks@) is Some
    &&& r.irr is Some ==> {
        &&& r.irr->0.flows@ == transaction_flows(ts) + sales_of(r.stocks@)
        &&& r.irr->0.period == YEAR_SECONDS
    }
}

/// Every price of the list is in range.
pub open spec fn sources_in_range<T: Price>(prices: Seq<Option<DataSource<T>>>) -> bool {
    forall|k: int| 0 <= k < prices.len() ==> source_in_range(#[trigger] prices[k])
}

/// Builds the portfolio at an instant: the position of each instrument at
/// its price, and their sums. `prices` runs parallel to `isins`.
pub fn compute<T: Price>(
    ts: &Vec<Transaction>,
    isins: &Vec<String>,
    prices: &Vec<Option<DataSource<T>>>,
) -> (r: Portfolio<T>)
    requires
        transactions_in_range(ts@),
        isins.len() <= MAX_ENTRIES,
        sources_in_range(prices@),
    ensures
        is_portfolio(r, ts@, isins@, prices@),
{
    let mut stocks: Vec<Position<T>> = Vec::new();
    let mut invested: i128 = 0;
    let mut value: Option<i128> = Some(0);
    let mut sales: Vec<CashFlow> = Vec::new();
    let mut k: usize = 0;
    while k < isins.len()
        invariant
            k <= isins.len(),
            transactions_in_range(ts@),
            isins.len() <= MAX_ENTRIES,
            sources_in_range(prices@),
            stocks.len() == k,
            forall|m: int|
                0 <= m < k ==> is_position(
                    #[trigger] stocks[m],
                    isins[m],
                    ts@,
                    price_for(prices@, m),
                ),
            invested == invested_of(stocks@),
            amount_of(value) == value_of(stocks@),
            sales@ == sales_of(stocks@),
            -2_000_000_000_000_000_000_000 * k <= invested <= 2_000_000_000_000_000_000_000 * k,
            value is Some ==> -100_000_000_000_000_000_000_000_000_000 * k <= value->0
                <= 100_000_000_000_000_000_000_000_000_000 * k,
        decreases isins.len() - k,
    {
        let price: Option<DataSource<T>> = if k < prices.len() {
            match &prices[k] {
                Some(s) => Some(s.clone()),
                None => None,
            }
        } else {
            None
        };
        assert(price == price_for(prices@, k as int));
        assert(source_in_range(price)) by {
            if k < prices.len() {
                assert(source_in_range(prices@[k as int]));
            }
        }
        let position = compute_position(&isins[k], ts, price);
        invested = invested + position.invested;
        value =
        match (value, position.value) {
            (Some(a), Some(v)) => Some(a + v),
            _ => None,
        };
        match &position.data_source {
            Some(s) => {
                let v = s.price.value();
                let units = position.units;
                assert(-100_000_000_000_000_000_000_000_000_000 <= units * v
                    <= 100_000_000_000_000_000_000_000_000_000) by (nonlinear_arith)
                    requires
                        -10_000_000_000_000_000_000 <= units <= 10_000_000_000_000_000_000,
                        -10_000_000_000 <= v <= 10_000_000_000,
                ;
                sales.push(CashFlow { time: s.price.date(), amount: units * (v as i128) });
            },
            None => {},
        }
        let ghost before = stocks@;
        stocks.push(position);
        proof {
            assert(stocks@.drop_last() == before);
            assert forall|m: int| 0 <= m < k + 1 implies is_position(
                #[trigger] stocks[m],
                isins[m],
                ts@,
                price_for(prices@, m),
            ) by {
                if m < k {
                    assert(stocks[m] == before[m]);
                }
            }
        }
        k += 1;
    }
    let irr: Option<RateQuery> = if value.is_some() {
        let mut flows: Vec<CashFlow> = Vec::new();
        push_transaction_flows(&mut flows, ts);
        let mut n: usize = 0;
        while n < sales.len()
            invariant
                n <= sales.len(),
                flows@ == transaction_flows(ts@) + sales@.take(n as int),
            decreases sales.len() - n,
        {
            let ghost before = flows@;
            flows.push(sales[n]);
            proof {
                assert(sales@.take(n as int + 1) =~= sales@.take(n as int).push(sales@[n as int]));
                assert(flows@ =~= transaction_flows(ts@) + sales@.take(n as int + 1));
            }
            n += 1;
        }
        proof {
            assert(sales@.take(n as int) == sales@);
        }
        Some(RateQuery { flows, period: YEAR_SECONDS })
    } else {
        None
    };
    Portfolio { invested, value, irr, stocks }
}

} // verus!
