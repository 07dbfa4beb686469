use stockdb::analysis::irr::CashFlow;
use stockdb::analysis::jobs::{Job, PerformanceKind};
use stockdb::analysis::performance::{
    accumulate, check_bars, check_ticks, compute, compute_performance, compute_position,
    find_row, first_appearances, first_transaction_day, instruments, latest_tick, portfolio_query,
    portfolio_snapshot, position_query, price_at, select_transactions, value_position, Totals,
    DEFAULT_PERIOD,
};
use stockdb::analysis::price::{DataSource, EitherPrice};
use stockdb::models::{
    check_transactions, HistoricalPrice, RealtimePrice, StockExchange, Transaction,
};

const A: &str = "DE000A000001";
const B: &str = "DE000B000002";
const DAY: i64 = 86_400;
const EPOCH_DAY: i32 = 719_163;
const YEAR: i64 = 365 * DAY;

/// Noon UTC of a day counted from 1970-01-01.
fn noon(day: i32) -> i64 {
    day as i64 * DAY + 43_200
}

/// A transaction at noon of a day counted from 1970-01-01.
fn tx(isin: &str, day: i32, units: i64, amount: i64, fees: i64) -> Transaction {
    Transaction {
        id: 0,
        account_id: 1,
        isin: isin.to_string(),
        date: noon(day),
        local_day: EPOCH_DAY + day,
        units,
        amount,
        fees,
        onvista_exchange_id: None,
        comments: String::new(),
        exchange: None,
        receipt_number: None,
    }
}

fn venue(isin: &str, record: i32) -> StockExchange {
    StockExchange {
        isin: isin.to_string(),
        name: "Xetra".to_string(),
        code: "GER".to_string(),
        quality: None,
        onvista_record_id: record,
        onvista_exchange_id: None,
    }
}

/// A bar of a day counted from 1970-01-01 that closes at 18:00 UTC.
fn bar(isin: &str, record: i32, day: i32, closing: i64) -> DataSource<HistoricalPrice> {
    DataSource {
        price: HistoricalPrice {
            date: EPOCH_DAY + day,
            opens_at: day as i64 * DAY + 9 * 3600,
            closes_at: day as i64 * DAY + 18 * 3600,
            opening: closing - 10,
            closing,
            high: closing + 10,
            low: closing - 20,
            volume: 1,
            onvista_record_id: record,
        },
        exchange: venue(isin, record),
    }
}

fn tick(isin: &str, record: i32, date: i64, price: i64) -> DataSource<RealtimePrice> {
    DataSource {
        price: RealtimePrice { date, price, onvista_record_id: record },
        exchange: venue(isin, record),
    }
}

fn either(d: &DataSource<HistoricalPrice>) -> DataSource<EitherPrice> {
    EitherPrice::wrap_historical(d.clone())
}

#[test]
fn buying_ten_units_and_selling_them_a_year_later_gives_two_flows() {
    // Ten units bought for 1000 minor units; a year later they sell at 110
    // minor units each.
    let t0 = 1_000 * DAY;
    let mut bought = tx(A, 1_000, 10_000_000, -1_000, 0);
    bought.date = t0;
    let ts = vec![bought];
    let end_price = DataSource {
        price: EitherPrice::RealtimePrice(RealtimePrice {
            date: t0 + YEAR,
            price: 11_000,
            onvista_record_id: 1,
        }),
        exchange: venue(A, 1),
    };
    let r = compute_position(
        &A.to_string(),
        &ts,
        None,
        Some(end_price),
        EPOCH_DAY + 999,
        EPOCH_DAY + 1_365,
    );
    assert_eq!(r.start.units, 0);
    assert_eq!(r.start.invested, 0);
    assert_eq!(r.start.value, Some(0));
    assert!(r.start.data_source.is_none());
    assert_eq!(r.end.units, 10_000_000);
    assert_eq!(r.end.invested, -1_000);
    assert_eq!(r.end.fees, 0);
    assert_eq!(r.end.value, Some(1_100 * 100_000_000));
    assert_eq!(r.transactions.len(), 1);
    let q = r.irr.unwrap();
    assert_eq!(
        q.flows,
        vec![
            CashFlow { time: t0 + YEAR, amount: 1_100 * 100_000_000 },
            CashFlow { time: t0, amount: -1_000 * 100_000_000 },
        ]
    );
    // Without a start price the window begins at noon UTC of the start day.
    assert_eq!(q.period, t0 + YEAR - noon(999));
    assert_eq!(q.solve_period(), YEAR);
}

#[test]
fn sums_split_at_any_day() {
    let ts = vec![
        tx(A, 10, 5_000_000, -500, -5),
        tx(B, 11, 1_000_000, -100, -1),
        tx(A, 20, 2_500_000, -300, -3),
        tx(A, 30, -1_000_000, 150, -2),
        tx(A, 40, 0, 25, 0),
        tx(A, 50, 4_000_000, -450, -4),
    ];
    let isin = A.to_string();
    let end = EPOCH_DAY + 45;
    let through = accumulate(&ts, &isin, None, end);
    assert_eq!(through, Totals { units: 6_500_000, invested: -635, fees: -10 });
    for split in 0..60 {
        let split = EPOCH_DAY + split;
        let first = if split <= end { split } else { end };
        let prior = accumulate(&ts, &isin, None, first);
        let inside = accumulate(&ts, &isin, Some(split), end);
        assert_eq!(prior.units + inside.units, through.units);
        assert_eq!(prior.invested + inside.invested, through.invested);
        assert_eq!(prior.fees + inside.fees, through.fees);
    }
}

#[test]
fn accumulation_counts_fees_into_invested() {
    let ts = vec![tx(A, 10, 5_000_000, -500, -5), tx(A, 12, 1_000_000, -100, -1)];
    let r = accumulate(&ts, &A.to_string(), None, EPOCH_DAY + 12);
    assert_eq!(r, Totals { units: 6_000_000, invested: -606, fees: -6 });
    let r = accumulate(&ts, &A.to_string(), Some(EPOCH_DAY + 10), EPOCH_DAY + 12);
    assert_eq!(r, Totals { units: 1_000_000, invested: -101, fees: -1 });
    let r = accumulate(&ts, &A.to_string(), Some(EPOCH_DAY + 12), EPOCH_DAY + 12);
    assert_eq!(r, Totals { units: 0, invested: 0, fees: 0 });
    let r = accumulate(&ts, &B.to_string(), None, EPOCH_DAY + 12);
    assert_eq!(r, Totals { units: 0, invested: 0, fees: 0 });
}

#[test]
fn window_transactions_lie_after_start_and_not_after_end() {
    let ts = vec![
        tx(A, 10, 1, -1, 0),
        tx(A, 20, 2, -2, 0),
        tx(B, 25, 9, -9, 0),
        tx(A, 30, 3, -3, 0),
        tx(A, 31, 4, -4, 0),
    ];
    let r = select_transactions(&ts, &A.to_string(), Some(EPOCH_DAY + 10), EPOCH_DAY + 30);
    let units: Vec<i64> = r.iter().map(|t| t.units).collect();
    assert_eq!(units, vec![2, 3]);
    let r = select_transactions(&ts, &A.to_string(), None, EPOCH_DAY + 30);
    assert_eq!(r.len(), 3);
    assert_eq!(r[0].isin, A);
    assert_eq!(r[0].date, noon(10));
}

#[test]
fn value_is_zero_without_units_and_unknown_without_price() {
    assert_eq!(value_position(0, None), Some(0));
    assert_eq!(value_position(0, Some(5_000)), Some(0));
    assert_eq!(value_position(3_000_000, None), None);
    assert_eq!(value_position(3_000_000, Some(5_000)), Some(15_000_000_000));
    assert_eq!(value_position(-3_000_000, Some(5_000)), Some(-15_000_000_000));
}

#[test]
fn position_over_a_window_values_both_ends() {
    let ts = vec![
        tx(A, 10, 5_000_000, -500, -5),
        tx(A, 20, 2_000_000, -300, -3),
        tx(A, 99, 1_000_000, -100, -1),
    ];
    let start_bar = bar(A, 1, 15, 10_000);
    let end_bar = bar(A, 1, 30, 12_000);
    let r = compute_position(
        &A.to_string(),
        &ts,
        Some(start_bar.clone()),
        Some(either(&end_bar)),
        EPOCH_DAY + 15,
        EPOCH_DAY + 30,
    );
    assert_eq!(r.start.date, EPOCH_DAY + 15);
    assert_eq!(r.start.units, 5_000_000);
    assert_eq!(r.start.invested, -505);
    assert_eq!(r.start.fees, -5);
    assert_eq!(r.start.value, Some(50_000_000_000));
    assert_eq!(
        r.start.data_source.as_ref().unwrap().price,
        EitherPrice::HistoricalPrice(start_bar.price)
    );
    assert_eq!(r.end.date, EPOCH_DAY + 30);
    assert_eq!(r.end.units, 7_000_000);
    assert_eq!(r.end.invested, -808);
    assert_eq!(r.end.fees, -8);
    assert_eq!(r.end.value, Some(84_000_000_000));
    assert_eq!(r.transactions.len(), 1);
    assert_eq!(r.transactions[0].units, 2_000_000);
    let q = r.irr.unwrap();
    assert_eq!(
        q.flows,
        vec![
            CashFlow { time: end_bar.price.closes_at, amount: 84_000_000_000 },
            CashFlow { time: start_bar.price.closes_at, amount: -50_000_000_000 },
            CashFlow { time: noon(20), amount: -303 * 100_000_000 },
        ]
    );
    assert_eq!(q.period, 15 * DAY);
}

#[test]
fn held_units_without_start_price_leave_the_rate_unknown() {
    let ts = vec![tx(A, 10, 5_000_000, -500, -5)];
    let end_bar = bar(A, 1, 30, 12_000);
    let r = compute_position(
        &A.to_string(),
        &ts,
        None,
        Some(either(&end_bar)),
        EPOCH_DAY + 15,
        EPOCH_DAY + 30,
    );
    assert_eq!(r.start.units, 5_000_000);
    assert_eq!(r.start.invested, -505);
    assert_eq!(r.start.value, None);
    assert_eq!(r.end.value, Some(60_000_000_000));
    assert!(r.irr.is_none());
}

#[test]
fn no_end_price_leaves_value_and_rate_unknown() {
    let ts = vec![tx(A, 20, 5_000_000, -500, -5)];
    let r = compute_position(&A.to_string(), &ts, None, None, EPOCH_DAY + 15, EPOCH_DAY + 30);
    assert_eq!(r.start.value, Some(0));
    assert_eq!(r.end.units, 5_000_000);
    assert_eq!(r.end.value, None);
    assert!(r.irr.is_none());
}

#[test]
fn a_position_sold_out_is_worth_nothing_and_sells_nothing() {
    let ts = vec![tx(A, 10, 5_000_000, -500, -5), tx(A, 20, -5_000_000, 600, -5)];
    let start_bar = bar(A, 1, 15, 10_000);
    let r = compute_position(
        &A.to_string(),
        &ts,
        Some(start_bar.clone()),
        None,
        EPOCH_DAY + 15,
        EPOCH_DAY + 30,
    );
    assert_eq!(r.end.units, 0);
    assert_eq!(r.end.value, Some(0));
    assert!(r.irr.is_none());
    let end_bar = bar(A, 1, 30, 12_000);
    let r = compute_position(
        &A.to_string(),
        &ts,
        Some(start_bar.clone()),
        Some(either(&end_bar)),
        EPOCH_DAY + 15,
        EPOCH_DAY + 30,
    );
    assert_eq!(r.end.value, Some(0));
    assert_eq!(
        r.irr.unwrap().flows,
        vec![
            CashFlow { time: start_bar.price.closes_at, amount: -50_000_000_000 },
            CashFlow { time: noon(20), amount: 595 * 100_000_000 },
        ]
    );
}

#[test]
fn a_start_after_the_end_counts_nothing_beyond_the_end() {
    let ts = vec![tx(A, 10, 1_000_000, -100, 0), tx(A, 20, 2_000_000, -200, 0)];
    let r = compute_position(&A.to_string(), &ts, None, None, EPOCH_DAY + 25, EPOCH_DAY + 15);
    assert_eq!(r.start.units, 1_000_000);
    assert_eq!(r.end.units, 1_000_000);
    assert_eq!(r.transactions.len(), 0);
}

#[test]
fn query_without_flows_is_still_a_query() {
    let end = EitherPrice::RealtimePrice(RealtimePrice { date: 500, price: 1, onvista_record_id: 1 });
    let q = position_query(0, 0, None, Some(end), &Vec::new(), EPOCH_DAY).unwrap();
    assert_eq!(q.flows, Vec::<CashFlow>::new());
    assert_eq!(q.period, 500 - 43_200);
    assert!(position_query(1, 1, None, Some(end), &Vec::new(), EPOCH_DAY).is_none());
    assert!(position_query(0, 1, None, None, &Vec::new(), EPOCH_DAY).is_none());
}

#[test]
fn portfolio_value_is_unknown_when_one_position_is() {
    let ts = vec![tx(A, 10, 5_000_000, -500, -5), tx(B, 10, 1_000_000, -100, -1)];
    let isins = vec![A.to_string(), B.to_string()];
    // Only the first instrument has a bar on the end day.
    let dates = vec![EPOCH_DAY + 30];
    let prices = vec![vec![Some(bar(A, 1, 30, 12_000)), None]];
    let r = compute_performance(
        &ts,
        &isins,
        &Vec::new(),
        &dates,
        &prices,
        PerformanceKind::YearToYear,
        EPOCH_DAY + 5,
        Some(EPOCH_DAY + 30),
        EPOCH_DAY + 100,
    );
    assert_eq!(r.positions[0].1.end.value, Some(60_000_000_000));
    assert_eq!(r.positions[1].1.end.value, None);
    assert_eq!(r.end.value, None);
    assert_eq!(r.end.invested, -606);
    assert_eq!(r.end.fees, -6);
    assert_eq!(r.start.value, Some(0));
    assert!(r.irr.is_none());
}

#[test]
fn portfolio_over_a_closed_window_adds_up_its_positions() {
    let ts = vec![
        tx(A, 10, 5_000_000, -500, -5),
        tx(B, 12, 1_000_000, -100, -1),
        tx(A, 20, 2_000_000, -300, -3),
    ];
    let isins = vec![A.to_string(), B.to_string()];
    let dates = vec![EPOCH_DAY + 30, EPOCH_DAY + 15];
    let prices = vec![
        vec![Some(bar(A, 1, 30, 12_000)), Some(bar(B, 2, 29, 20_000))],
        vec![Some(bar(A, 1, 15, 10_000)), Some(bar(B, 2, 14, 15_000))],
    ];
    let r = compute_performance(
        &ts,
        &isins,
        &Vec::new(),
        &dates,
        &prices,
        PerformanceKind::MonthToMonth,
        EPOCH_DAY + 15,
        Some(EPOCH_DAY + 30),
        EPOCH_DAY + 100,
    );
    assert_eq!(r.kind, PerformanceKind::MonthToMonth);
    assert_eq!(r.positions.len(), 2);
    assert_eq!(r.positions[0].0, A);
    assert_eq!(r.positions[1].0, B);
    assert_eq!(r.start.date, EPOCH_DAY + 15);
    assert_eq!(r.start.invested, -606);
    assert_eq!(r.start.fees, -6);
    assert_eq!(r.start.value, Some(50_000_000_000 + 15_000_000_000));
    assert_eq!(r.end.date, EPOCH_DAY + 30);
    assert_eq!(r.end.invested, -909);
    assert_eq!(r.end.fees, -9);
    assert_eq!(r.end.value, Some(84_000_000_000 + 20_000_000_000));
    let q = r.irr.unwrap();
    let close = |day: i64| day * DAY + 18 * 3600;
    assert_eq!(
        q.flows,
        vec![
            CashFlow { time: close(30), amount: 84_000_000_000 },
            CashFlow { time: close(29), amount: 20_000_000_000 },
            CashFlow { time: close(15), amount: -50_000_000_000 },
            CashFlow { time: close(14), amount: -15_000_000_000 },
            CashFlow { time: noon(20), amount: -303 * 100_000_000 },
        ]
    );
    // From the earliest start price to the latest end price.
    assert_eq!(q.period, close(30) - close(14));
}

#[test]
fn a_window_that_ends_now_is_valued_at_the_ticks() {
    let ts = vec![tx(A, 10, 5_000_000, -500, -5)];
    let isins = vec![A.to_string()];
    let current = vec![Some(tick(A, 1, 40 * DAY + 100, 13_000))];
    let dates = vec![EPOCH_DAY + 15];
    let prices = vec![vec![Some(bar(A, 1, 15, 10_000))]];
    let r = compute_performance(
        &ts,
        &isins,
        &current,
        &dates,
        &prices,
        PerformanceKind::Today,
        EPOCH_DAY + 15,
        None,
        EPOCH_DAY + 40,
    );
    assert_eq!(r.end.date, EPOCH_DAY + 40);
    assert_eq!(r.end.value, Some(65_000_000_000));
    assert_eq!(
        r.positions[0].1.end.data_source.as_ref().unwrap().price,
        EitherPrice::RealtimePrice(RealtimePrice {
            date: 40 * DAY + 100,
            price: 13_000,
            onvista_record_id: 1
        })
    );
    let q = r.irr.unwrap();
    assert_eq!(q.period, 40 * DAY + 100 - (15 * DAY + 18 * 3600));
}

#[test]
fn a_portfolio_without_priced_positions_spans_seven_days() {
    assert_eq!(DEFAULT_PERIOD, 7 * DAY);
    let r = compute_performance(
        &Vec::new(),
        &vec![A.to_string()],
        &Vec::new(),
        &Vec::new(),
        &Vec::new(),
        PerformanceKind::Total,
        EPOCH_DAY,
        None,
        EPOCH_DAY + 1,
    );
    assert_eq!(r.start.value, Some(0));
    assert_eq!(r.end.value, Some(0));
    let q = r.irr.unwrap();
    assert_eq!(q.flows, Vec::<CashFlow>::new());
    assert_eq!(q.period, DEFAULT_PERIOD);
}

#[test]
fn an_empty_portfolio_is_worth_nothing() {
    let ps = Vec::new();
    let s = portfolio_snapshot(&ps, true, 7);
    assert_eq!((s.date, s.invested, s.fees, s.value), (7, 0, 0, Some(0)));
    let q = portfolio_query(&ps).unwrap();
    assert_eq!(q.period, DEFAULT_PERIOD);
}

#[test]
fn report_has_one_portfolio_for_each_window() {
    let ts = vec![tx(A, 10, 5_000_000, -500, -5)];
    let isins = vec![A.to_string()];
    let current = vec![Some(tick(A, 1, 40 * DAY, 13_000))];
    let dates = vec![EPOCH_DAY + 15, EPOCH_DAY + 30];
    let prices = vec![
        vec![Some(bar(A, 1, 15, 10_000))],
        vec![Some(bar(A, 1, 30, 12_000))],
    ];
    let jobs = vec![
        Job { kind: PerformanceKind::Total, start: EPOCH_DAY + 9, end: None },
        Job { kind: PerformanceKind::MonthToMonth, start: EPOCH_DAY + 15, end: Some(EPOCH_DAY + 30) },
    ];
    let r = compute(&ts, &isins, &current, &jobs, &dates, &prices, EPOCH_DAY + 40);
    assert_eq!(r.len(), 2);
    assert_eq!(r[0].kind, PerformanceKind::Total);
    assert_eq!(r[0].start.value, Some(0));
    assert_eq!(r[0].end.value, Some(65_000_000_000));
    assert_eq!(r[0].end.date, EPOCH_DAY + 40);
    assert_eq!(r[1].kind, PerformanceKind::MonthToMonth);
    assert_eq!(r[1].start.value, Some(50_000_000_000));
    assert_eq!(r[1].end.value, Some(60_000_000_000));
    assert_eq!(compute(&ts, &isins, &current, &Vec::new(), &dates, &prices, 0).len(), 0);
}

#[test]
fn bars_are_found_by_day_and_place() {
    let dates = vec![5, 7, 5];
    let prices = vec![vec![Some(bar(A, 1, 1, 100)), None], vec![Some(bar(A, 1, 2, 200))]];
    assert_eq!(find_row(&dates, 5), Some(0));
    assert_eq!(find_row(&dates, 7), Some(1));
    assert_eq!(find_row(&dates, 6), None);
    assert_eq!(price_at(&dates, &prices, 5, 0).unwrap().price.closing, 100);
    assert!(price_at(&dates, &prices, 5, 1).is_none());
    assert!(price_at(&dates, &prices, 5, 2).is_none());
    assert_eq!(price_at(&dates, &prices, 7, 0).unwrap().price.closing, 200);
    assert!(price_at(&dates, &prices, 7, 1).is_none());
    assert!(price_at(&dates, &prices, 6, 0).is_none());
}

#[test]
fn latest_tick_is_the_greatest_instant() {
    assert_eq!(latest_tick(&Vec::new()), None);
    assert_eq!(latest_tick(&vec![None, None]), None);
    let current = vec![Some(tick(A, 1, 50, 1)), None, Some(tick(B, 2, 70, 1)), Some(tick(B, 2, 60, 1))];
    assert_eq!(latest_tick(&current), Some(70));
}

#[test]
fn first_transaction_day_is_that_of_the_earliest_instant() {
    assert_eq!(first_transaction_day(&Vec::new()), None);
    let mut late = tx(A, 30, 1, -1, 0);
    late.local_day = 1;
    let ts = vec![late, tx(B, 10, 1, -1, 0), tx(A, 20, 1, -1, 0)];
    assert_eq!(first_transaction_day(&ts), Some(EPOCH_DAY + 10));
}

#[test]
fn instruments_come_once_each_in_rising_order() {
    let ts = vec![tx(B, 1, 1, 1, 0), tx(A, 2, 1, 1, 0), tx(B, 3, 1, 1, 0), tx(A, 4, 1, 1, 0)];
    assert_eq!(first_appearances(&ts), vec![B.to_string(), A.to_string()]);
    assert_eq!(instruments(&ts), vec![A.to_string(), B.to_string()]);
    assert_eq!(instruments(&Vec::new()), Vec::<String>::new());
    let ts = vec![
        tx("b", 1, 1, 1, 0),
        tx("B", 1, 1, 1, 0),
        tx("ab", 1, 1, 1, 0),
        tx("a", 1, 1, 1, 0),
        tx("", 1, 1, 1, 0),
        tx("ab", 1, 1, 1, 0),
        tx("\u{e9}", 1, 1, 1, 0),
        tx("z", 1, 1, 1, 0),
    ];
    let expected: Vec<String> =
        ["", "B", "a", "ab", "b", "z", "\u{e9}"].iter().map(|s| s.to_string()).collect();
    assert_eq!(instruments(&ts), expected);
}

#[test]
fn a_bar_that_closes_before_it_opens_is_out_of_range() {
    let mut b = bar(A, 1, 5, 100);
    assert!(b.price.is_in_range());
    b.price.opens_at = b.price.closes_at;
    assert!(!b.price.is_in_range());
    assert!(!check_bars(&vec![vec![Some(b)]]));
}

#[test]
fn inputs_out_of_range_are_told() {
    let good = vec![tx(A, 1, 10_000_000_000_000, -1_000_000_000_000_000, 1_000_000_000_000_000)];
    assert!(check_transactions(&good));
    assert!(!check_transactions(&vec![tx(A, 1, 10_000_000_000_001, 0, 0)]));
    assert!(!check_transactions(&vec![tx(A, 1, 0, -1_000_000_000_000_001, 0)]));
    assert!(!check_transactions(&vec![tx(A, 1, 0, 0, 1_000_000_000_000_001)]));
    let mut far = tx(A, 1, 0, 0, 0);
    far.date = 10_000_000_000_001;
    assert!(!check_transactions(&vec![tx(A, 1, 0, 0, 0), far]));
    assert!(check_ticks(&vec![None, Some(tick(A, 1, 0, 10_000_000_000))]));
    assert!(!check_ticks(&vec![None, Some(tick(A, 1, 0, 10_000_000_001))]));
    assert!(check_bars(&vec![vec![None], vec![Some(bar(A, 1, 5, 100))]]));
    assert!(!check_bars(&vec![vec![None], vec![Some(bar(A, 1, 5, 10_000_000_001))]]));
}
