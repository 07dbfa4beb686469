use stockdb::analysis::plots::{
    collapse, collapse_portfolio_points, collapse_stock_points, compute_portfolio_plot,
    compute_stock_plot, expand_bars, falls_back, historical_interval, historical_samples,
    holding_at, is_close, keep_trading_hours, keys_alike, nearest_price, option_almost_eq,
    portfolio_point, preferred_exchange, preferred_exchanges, realtime_instants,
    realtime_interval, sample_days, stock_point, uses_historical, value_sample, wrap_ticks,
    DataSourceSelection, LocalTime, PointKey, PortfolioPlotDataPoint, StockPlotDataPoint,
};
use stockdb::analysis::price::EitherPrice;
use stockdb::models::{HistoricalPrice, RealtimePrice, StockExchange, Transaction};

const A: &str = "DE000A000001";
const B: &str = "DE000B000002";
const DAY: i64 = 86_400;
const HOUR: i64 = 3_600;
const EPOCH_DAY: i32 = 719_163;

fn tx(isin: &str, date: i64, units: i64, amount: i64, fees: i64) -> Transaction {
    Transaction {
        id: 0,
        account_id: 1,
        isin: isin.to_string(),
        date,
        local_day: EPOCH_DAY + (date / DAY) as i32,
        units,
        amount,
        fees,
        onvista_exchange_id: None,
        comments: String::new(),
        exchange: None,
        receipt_number: None,
    }
}

fn venue(isin: &str, code: &str, record: i32) -> StockExchange {
    StockExchange {
        isin: isin.to_string(),
        name: code.to_string(),
        code: code.to_string(),
        quality: None,
        onvista_record_id: record,
        onvista_exchange_id: None,
    }
}

fn tick(record: i32, date: i64, price: i64) -> EitherPrice {
    EitherPrice::RealtimePrice(RealtimePrice { date, price, onvista_record_id: record })
}

fn bar(day: i32, record: i32, opening: i64, closing: i64) -> HistoricalPrice {
    HistoricalPrice {
        date: EPOCH_DAY + day,
        opens_at: day as i64 * DAY + 9 * HOUR,
        closes_at: day as i64 * DAY + 18 * HOUR,
        opening,
        closing,
        high: closing,
        low: opening,
        volume: 0,
        onvista_record_id: record,
    }
}

fn key(value: Option<i128>, invested: i128) -> PointKey {
    PointKey { value, invested, price: None, price_date: None }
}

#[test]
fn bars_are_chosen_for_long_ranges() {
    assert!(uses_historical(DataSourceSelection::Historical, 100, 100));
    assert!(!uses_historical(DataSourceSelection::Realtime, 100, 1_000));
    assert!(!uses_historical(DataSourceSelection::Automatic, 100, 121));
    assert!(uses_historical(DataSourceSelection::Automatic, 100, 122));
    assert!(!uses_historical(DataSourceSelection::Automatic, 100, 50));
    assert!(uses_historical(DataSourceSelection::Automatic, i32::MIN, i32::MAX));
}

#[test]
fn scarce_ticks_fall_back_to_bars_only_when_the_choice_is_open() {
    assert!(falls_back(DataSourceSelection::Automatic, 5, 3));
    assert!(!falls_back(DataSourceSelection::Automatic, 6, 3));
    assert!(!falls_back(DataSourceSelection::Automatic, 0, 0));
    assert!(falls_back(DataSourceSelection::Automatic, 0, 1));
    assert!(!falls_back(DataSourceSelection::Realtime, 0, 3));
    assert!(!falls_back(DataSourceSelection::Historical, 0, 3));
    assert!(falls_back(DataSourceSelection::Automatic, usize::MAX, usize::MAX));
}

#[test]
fn bars_are_sampled_a_day_apart_at_least() {
    assert_eq!(historical_interval(0, 0), DAY);
    assert_eq!(historical_interval(0, 200), DAY);
    assert_eq!(historical_interval(0, 201), 201 * 432);
    assert_eq!(historical_interval(0, 300), 129_600);
    assert_eq!(historical_interval(0, 400), 2 * DAY);
    assert_eq!(historical_interval(10, 0), DAY);
}

#[test]
fn ticks_are_sampled_in_multiples_of_five_minutes() {
    assert_eq!(realtime_interval(0, 0), 300);
    assert_eq!(realtime_interval(0, 9 * HOUR), 300);
    assert_eq!(realtime_interval(100, 0), 300);
    // 400 samples over 40 hours are six minutes apart: rounded down to five.
    assert_eq!(realtime_interval(0, 40 * HOUR), 300);
    // Ten minutes apart from 4000 minutes on.
    assert_eq!(realtime_interval(0, 4_000 * 60 - 1), 300);
    assert_eq!(realtime_interval(0, 4_000 * 60), 600);
    assert_eq!(realtime_interval(0, 21 * DAY), 75 * 60);
}

#[test]
fn instants_walk_from_first_to_last() {
    assert_eq!(realtime_instants(100, 300, 1_000), vec![100, 400, 700, 1_000]);
    assert_eq!(realtime_instants(100, 300, 999), vec![100, 400, 700]);
    assert_eq!(realtime_instants(100, 300, 100), vec![100]);
    assert_eq!(realtime_instants(100, 300, 99), Vec::<i64>::new());
}

#[test]
fn trading_hours_run_from_nine_to_six() {
    let instants = vec![1, 2, 3, 4, 5, 6, 7];
    let seconds = vec![
        9 * 3_600 - 1,
        9 * 3_600,
        12 * 3_600 + 30 * 60,
        18 * 3_600,
        18 * 3_600 + 1,
        18 * 3_600 + 5 * 60,
        0,
    ];
    assert_eq!(keep_trading_hours(&instants, &seconds), vec![2, 3, 4]);
    assert_eq!(keep_trading_hours(&Vec::new(), &Vec::new()), Vec::<i64>::new());
}

#[test]
fn days_are_sampled_in_utc() {
    // From 08:00 UTC of day 10 in steps of a day and a half.
    let first = 10 * DAY + 8 * HOUR;
    let days = sample_days(first, 129_600, EPOCH_DAY + 15);
    assert_eq!(
        days,
        vec![EPOCH_DAY + 10, EPOCH_DAY + 11, EPOCH_DAY + 13, EPOCH_DAY + 14]
    );
    assert_eq!(sample_days(first, DAY, EPOCH_DAY + 9), Vec::<i32>::new());
    assert_eq!(sample_days(first, DAY, EPOCH_DAY + 10), vec![EPOCH_DAY + 10]);
    assert_eq!(sample_days(-1, DAY, EPOCH_DAY), vec![EPOCH_DAY - 1, EPOCH_DAY]);
}

#[test]
fn short_ranges_are_sampled_twice_a_day() {
    let first = 10 * DAY + 8 * HOUR;
    let r = historical_samples(first, EPOCH_DAY + 10, EPOCH_DAY + 12);
    assert_eq!(
        r,
        vec![
            LocalTime { day: EPOCH_DAY + 10, hour: 9 },
            LocalTime { day: EPOCH_DAY + 10, hour: 18 },
            LocalTime { day: EPOCH_DAY + 11, hour: 9 },
            LocalTime { day: EPOCH_DAY + 11, hour: 18 },
            LocalTime { day: EPOCH_DAY + 12, hour: 9 },
            LocalTime { day: EPOCH_DAY + 12, hour: 18 },
        ]
    );
    let r = historical_samples(first, EPOCH_DAY + 10, EPOCH_DAY + 10 + 148);
    assert_eq!(r.len(), 2 * 149);
}

#[test]
fn long_ranges_are_sampled_once_a_day() {
    let first = 10 * DAY + 8 * HOUR;
    let r = historical_samples(first, EPOCH_DAY + 10, EPOCH_DAY + 10 + 149);
    assert_eq!(r.len(), 150);
    assert!(r.iter().all(|t| t.hour == 18));
    assert_eq!(r[0].day, EPOCH_DAY + 10);
    assert_eq!(r[149].day, EPOCH_DAY + 159);
    // Four hundred days in steps of two.
    let r = historical_samples(first, EPOCH_DAY + 10, EPOCH_DAY + 410);
    assert_eq!(r.len(), 201);
    assert_eq!(r[1], LocalTime { day: EPOCH_DAY + 12, hour: 18 });
    assert_eq!(r[200], LocalTime { day: EPOCH_DAY + 410, hour: 18 });
}

#[test]
fn bars_open_before_they_close() {
    let bars = vec![bar(1, 7, 100, 110), bar(2, 7, 111, 90)];
    assert_eq!(
        expand_bars(&bars),
        vec![
            EitherPrice::HistoricalPriceOpening(bars[0]),
            EitherPrice::HistoricalPrice(bars[0]),
            EitherPrice::HistoricalPriceOpening(bars[1]),
            EitherPrice::HistoricalPrice(bars[1]),
        ]
    );
    let ticks = vec![RealtimePrice { date: 1, price: 2, onvista_record_id: 3 }];
    assert_eq!(wrap_ticks(&ticks), vec![EitherPrice::RealtimePrice(ticks[0])]);
}

#[test]
fn the_preferred_venue_of_an_instrument_is_the_first_of_the_best() {
    let exchanges = vec![
        venue(A, "DUS", 1),
        venue(B, "GER", 2),
        venue(A, "FRA", 3),
        venue(A, "NYSE", 4),
        venue(A, "FRA", 5),
    ];
    assert_eq!(preferred_exchange(&exchanges, &A.to_string()), Some(2));
    assert_eq!(preferred_exchange(&exchanges, &B.to_string()), Some(1));
    assert_eq!(preferred_exchange(&exchanges, &"XX".to_string()), None);
    let unlisted = vec![venue(A, "NYSE", 4), venue(A, "LSE", 5)];
    assert_eq!(preferred_exchange(&unlisted, &A.to_string()), Some(0));
    let r = preferred_exchanges(&exchanges, &vec![B.to_string(), "XX".to_string(), A.to_string()]);
    assert_eq!(r.len(), 3);
    assert_eq!(r[0].as_ref().unwrap().onvista_record_id, 2);
    assert!(r[1].is_none());
    assert_eq!(r[2].as_ref().unwrap().onvista_record_id, 3);
}

#[test]
fn holdings_add_up_to_an_instant() {
    let ts = vec![
        tx(A, 100, 5_000_000, -500, -5),
        tx(B, 150, 9_000_000, -900, -9),
        tx(A, 200, -2_000_000, 300, -3),
        tx(A, 300, 1_000_000, -100, -1),
    ];
    let isin = A.to_string();
    assert_eq!(holding_at(&ts, &isin, 99), (0, 0));
    assert_eq!(holding_at(&ts, &isin, 100), (5_000_000, 505));
    assert_eq!(holding_at(&ts, &isin, 250), (3_000_000, 208));
    assert_eq!(holding_at(&ts, &isin, 1_000), (4_000_000, 309));
}

#[test]
fn the_nearest_price_is_the_latest_at_or_before() {
    let prices = vec![tick(1, 100, 10), tick(2, 150, 99), tick(1, 200, 20), tick(1, 300, 30)];
    assert_eq!(nearest_price(&prices, 1, 99), None);
    assert_eq!(nearest_price(&prices, 1, 100), Some(0));
    assert_eq!(nearest_price(&prices, 1, 199), Some(0));
    assert_eq!(nearest_price(&prices, 1, 200), Some(2));
    assert_eq!(nearest_price(&prices, 1, 5_000), Some(3));
    assert_eq!(nearest_price(&prices, 2, 5_000), Some(1));
    assert_eq!(nearest_price(&prices, 3, 5_000), None);
    // Whatever the order of the list.
    let prices = vec![tick(1, 300, 30), tick(1, 100, 10), tick(1, 200, 20), tick(1, 200, 21)];
    assert_eq!(nearest_price(&prices, 1, 250), Some(3));
    assert_eq!(nearest_price(&prices, 1, 300), Some(0));
}

#[test]
fn a_stale_price_values_nothing() {
    let p = tick(1, 1_000_000, 5_000);
    assert_eq!(value_sample(2_000_000, Some(p), 1_000_000), Some(10_000_000_000));
    assert_eq!(value_sample(2_000_000, Some(p), 1_000_000 + 7 * DAY - 1), Some(10_000_000_000));
    assert_eq!(value_sample(2_000_000, Some(p), 1_000_000 + 7 * DAY), None);
    assert_eq!(value_sample(2_000_000, Some(p), 1_000_000 - 7 * DAY + 1), Some(10_000_000_000));
    assert_eq!(value_sample(2_000_000, Some(p), 1_000_000 - 7 * DAY), None);
    assert_eq!(value_sample(2_000_000, None, 0), None);
    assert_eq!(value_sample(0, None, 0), Some(0));
    assert_eq!(value_sample(0, Some(p), 1_000_000 + 30 * DAY), Some(0));
}

#[test]
fn values_within_a_minor_unit_are_almost_equal() {
    assert!(option_almost_eq(None, None));
    assert!(!option_almost_eq(None, Some(0)));
    assert!(!option_almost_eq(Some(0), None));
    assert!(option_almost_eq(Some(5), Some(5)));
    assert!(option_almost_eq(Some(0), Some(99_999_999)));
    assert!(!option_almost_eq(Some(0), Some(100_000_000)));
    assert!(option_almost_eq(Some(0), Some(-99_999_999)));
    assert!(!option_almost_eq(Some(0), Some(-100_000_000)));
    assert!(!option_almost_eq(Some(i128::MIN), Some(i128::MAX)));
    assert!(!option_almost_eq(Some(i128::MAX), Some(i128::MIN)));
    assert!(is_close(10, 12, 3));
    assert!(!is_close(10, 13, 3));
    assert!(!is_close(13, 10, 3));
}

#[test]
fn points_are_alike_when_value_invested_and_price_agree() {
    let a = PointKey { value: Some(1_000), invested: 7, price: Some(5), price_date: Some(9) };
    assert!(keys_alike(&a, &a));
    assert!(keys_alike(&a, &PointKey { value: Some(99_000_000), ..a }));
    assert!(!keys_alike(&a, &PointKey { value: Some(200_000_000), ..a }));
    assert!(!keys_alike(&a, &PointKey { value: None, ..a }));
    assert!(!keys_alike(&a, &PointKey { invested: 8, ..a }));
    assert!(!keys_alike(&a, &PointKey { price: Some(6), ..a }));
    assert!(!keys_alike(&a, &PointKey { price: None, ..a }));
    assert!(!keys_alike(&a, &PointKey { price_date: Some(10), ..a }));
}

#[test]
fn runs_of_points_that_look_alike_are_drawn_once() {
    let keys = vec![
        key(Some(0), 0),
        key(Some(0), 0),
        key(Some(500_000_000), 0),
        key(Some(500_000_000), 0),
        key(Some(500_000_000), 5),
        key(None, 5),
        key(None, 5),
        key(Some(0), 0),
    ];
    let points: Vec<usize> = (0..keys.len()).collect();
    assert_eq!(collapse(&points, &keys), vec![0, 2, 4, 5, 7]);
    assert_eq!(collapse(&Vec::<usize>::new(), &Vec::new()), Vec::<usize>::new());
}

#[test]
fn a_point_is_held_against_the_last_one_drawn() {
    // Each value is within a minor unit of its neighbour, but the third is
    // a whole minor unit away from the first, which is the one drawn.
    let keys = vec![
        key(Some(0), 0),
        key(Some(60_000_000), 0),
        key(Some(120_000_000), 0),
        key(Some(180_000_000), 0),
        key(Some(240_000_000), 0),
    ];
    let points: Vec<usize> = (0..keys.len()).collect();
    assert_eq!(collapse(&points, &keys), vec![0, 2, 4]);
}

#[test]
fn a_plot_without_transactions_is_one_point() {
    let isins = vec![A.to_string()];
    let venues = vec![Some(venue(A, "GER", 1))];
    let prices = vec![tick(1, 0, 5_000)];
    let dates: Vec<i64> = (0..50).map(|i| i * HOUR).collect();
    let r = compute_portfolio_plot(&Vec::new(), &isins, &venues, &prices, &dates);
    assert_eq!(
        r.points,
        vec![PortfolioPlotDataPoint { date: 0, invested: 0, value: Some(0) }]
    );
    assert_eq!(r.exchanges.len(), 1);
    let r = compute_stock_plot(&Vec::new(), &A.to_string(), venue(A, "GER", 1), &prices, &dates);
    assert_eq!(
        r.points,
        vec![StockPlotDataPoint {
            date: 0,
            units: 0,
            invested: 0,
            price_date: Some(0),
            price: Some(5_000),
            value: Some(0),
        }]
    );
    assert_eq!(r.exchange.onvista_record_id, 1);
}

#[test]
fn a_plot_without_instants_has_no_points() {
    let r = compute_portfolio_plot(&Vec::new(), &Vec::new(), &Vec::new(), &Vec::new(), &Vec::new());
    assert!(r.points.is_empty());
    assert!(r.exchanges.is_empty());
}

#[test]
fn portfolio_point_adds_up_the_instruments() {
    let ts = vec![
        tx(A, 100, 5_000_000, -500, -5),
        tx(B, 150, 2_000_000, -900, -9),
        tx(A, 200, -2_000_000, 300, -3),
    ];
    let isins = vec![A.to_string(), B.to_string()];
    let venues = vec![Some(venue(A, "GER", 1)), Some(venue(B, "FRA", 2))];
    let prices = vec![tick(1, 90, 10_000), tick(2, 120, 40_000), tick(1, 180, 11_000)];
    let p = portfolio_point(&ts, &isins, &venues, &prices, 160);
    assert_eq!(
        p,
        PortfolioPlotDataPoint {
            date: 160,
            invested: 505 + 909,
            value: Some(5_000_000 * 10_000 + 2_000_000 * 40_000),
        }
    );
    let p = portfolio_point(&ts, &isins, &venues, &prices, 250);
    assert_eq!(p.invested, 208 + 909);
    assert_eq!(p.value, Some(3_000_000 * 11_000 + 2_000_000 * 40_000));
}

#[test]
fn an_instrument_without_venue_counts_as_invested_and_hides_the_value() {
    let ts = vec![tx(A, 100, 5_000_000, -500, -5), tx(B, 150, 2_000_000, -900, -9)];
    let isins = vec![A.to_string(), B.to_string()];
    let venues = vec![Some(venue(A, "GER", 1)), None];
    let prices = vec![tick(1, 90, 10_000)];
    let p = portfolio_point(&ts, &isins, &venues, &prices, 120);
    assert_eq!(p.invested, 505);
    assert_eq!(p.value, Some(50_000_000_000));
    let p = portfolio_point(&ts, &isins, &venues, &prices, 160);
    assert_eq!(p.invested, 505 + 909);
    assert_eq!(p.value, None);
    let r = compute_portfolio_plot(&ts, &isins, &venues, &prices, &vec![120, 160]);
    assert_eq!(r.exchanges.len(), 1);
    assert_eq!(r.exchanges[0].isin, A);
    assert_eq!(r.points.len(), 2);
}

#[test]
fn stock_point_shows_the_price_it_rests_on() {
    let ts = vec![tx(A, 100, 5_000_000, -500, -5)];
    let prices = vec![tick(1, 90, 10_000), tick(1, 180, 11_000)];
    let isin = A.to_string();
    assert_eq!(
        stock_point(&ts, &isin, 1, &prices, 80),
        StockPlotDataPoint {
            date: 80,
            units: 0,
            invested: 0,
            price_date: None,
            price: None,
            value: Some(0),
        }
    );
    assert_eq!(
        stock_point(&ts, &isin, 1, &prices, 200),
        StockPlotDataPoint {
            date: 200,
            units: 5_000_000,
            invested: 505,
            price_date: Some(180),
            price: Some(11_000),
            value: Some(55_000_000_000),
        }
    );
    // Seven days on the price is stale: units are held, the value unknown.
    assert_eq!(
        stock_point(&ts, &isin, 1, &prices, 180 + 7 * DAY),
        StockPlotDataPoint {
            date: 180 + 7 * DAY,
            units: 5_000_000,
            invested: 505,
            price_date: None,
            price: None,
            value: None,
        }
    );
    assert_eq!(stock_point(&ts, &isin, 9, &prices, 200).value, None);
}

#[test]
fn stock_plot_keeps_a_point_for_each_new_price() {
    let ts = vec![tx(A, 100, 5_000_000, -500, -5)];
    let prices = vec![tick(1, 90, 10_000), tick(1, 180, 10_000)];
    let dates = vec![95, 120, 150, 190, 220];
    let r = compute_stock_plot(&ts, &A.to_string(), venue(A, "GER", 1), &prices, &dates);
    let kept: Vec<i64> = r.points.iter().map(|p| p.date).collect();
    // The purchase at 100 and the new price at 180 each begin a run.
    assert_eq!(kept, vec![95, 120, 190]);
    let p = collapse_portfolio_points(&vec![
        PortfolioPlotDataPoint { date: 1, invested: 5, value: Some(7) },
        PortfolioPlotDataPoint { date: 2, invested: 5, value: Some(8) },
        PortfolioPlotDataPoint { date: 3, invested: 6, value: Some(8) },
    ]);
    assert_eq!(p.iter().map(|p| p.date).collect::<Vec<i64>>(), vec![1, 3]);
    let s = collapse_stock_points(&Vec::new());
    assert!(s.is_empty());
}
