use stockdb::analysis::irr::{
    check_iterate, check_step, earliest, offsets, CashFlow, IterateCheck, Offset, RateQuery,
    StepCheck, MAX_ITERATIONS, VALUE_SCALE, YEAR_SECONDS,
};

#[test]
fn a_year_has_365_days() {
    assert_eq!(YEAR_SECONDS, 365 * 86_400);
    assert_eq!(VALUE_SCALE, 100_000_000);
    assert_eq!(MAX_ITERATIONS, 25);
}

#[test]
fn no_flows_have_no_offsets() {
    assert_eq!(offsets(&Vec::new()), None);
    assert_eq!(earliest(&Vec::new()), None);
}

#[test]
fn offsets_count_from_the_earliest_flow() {
    let flows = vec![
        CashFlow { time: 1_000 + YEAR_SECONDS, amount: 1_100 },
        CashFlow { time: 1_000, amount: -1_000 },
        CashFlow { time: 1_500, amount: 7 },
    ];
    assert_eq!(earliest(&flows), Some(1_000));
    assert_eq!(
        offsets(&flows),
        Some(vec![
            Offset { seconds: YEAR_SECONDS as i128, amount: 1_100 },
            Offset { seconds: 0, amount: -1_000 },
            Offset { seconds: 500, amount: 7 },
        ])
    );
}

#[test]
fn offsets_span_the_whole_range_of_instants() {
    let flows = vec![
        CashFlow { time: i64::MAX, amount: 1 },
        CashFlow { time: i64::MIN, amount: 2 },
    ];
    assert_eq!(
        offsets(&flows),
        Some(vec![
            Offset { seconds: i64::MAX as i128 - i64::MIN as i128, amount: 1 },
            Offset { seconds: 0, amount: 2 },
        ])
    );
}

#[test]
fn a_single_flow_is_its_own_beginning() {
    let flows = vec![CashFlow { time: -5, amount: 3 }];
    assert_eq!(offsets(&flows), Some(vec![Offset { seconds: 0, amount: 3 }]));
}

#[test]
fn rate_is_solved_on_the_shorter_of_window_and_year() {
    let long = RateQuery { flows: Vec::new(), period: YEAR_SECONDS + 1 };
    assert_eq!(long.solve_period(), YEAR_SECONDS);
    let year = RateQuery { flows: Vec::new(), period: YEAR_SECONDS };
    assert_eq!(year.solve_period(), YEAR_SECONDS);
    let short = RateQuery { flows: Vec::new(), period: 604_800 };
    assert_eq!(short.solve_period(), 604_800);
    let backwards = RateQuery { flows: Vec::new(), period: -10 };
    assert_eq!(backwards.solve_period(), -10);
}

#[test]
fn the_limit_of_steps_is_checked_first() {
    assert_eq!(check_iterate(25, Some(true), Some(true)), IterateCheck::Exhausted);
    assert_eq!(check_iterate(25, None, None), IterateCheck::Exhausted);
    assert_eq!(check_iterate(26, Some(true), Some(false)), IterateCheck::Exhausted);
    assert_eq!(check_iterate(24, Some(true), Some(true)), IterateCheck::Converged);
    assert_eq!(check_iterate(0, Some(true), None), IterateCheck::Converged);
    assert_eq!(check_iterate(0, Some(false), Some(true)), IterateCheck::CriticalPoint);
    assert_eq!(check_iterate(24, Some(false), Some(false)), IterateCheck::Step);
}

#[test]
fn value_and_slope_are_asked_for_only_when_needed() {
    assert_eq!(check_iterate(0, None, None), IterateCheck::Evaluate);
    assert_eq!(check_iterate(0, None, Some(true)), IterateCheck::Evaluate);
    assert_eq!(check_iterate(24, Some(false), None), IterateCheck::Differentiate);
    assert_eq!(check_iterate(0, Some(true), None), IterateCheck::Converged);
}

#[test]
fn an_iterate_below_the_floor_is_raised_and_not_taken_for_divergence() {
    assert_eq!(check_step(true, true, false), (true, StepCheck::Continue));
    assert_eq!(check_step(true, false, true), (true, StepCheck::Converged));
    assert_eq!(check_step(true, true, true), (true, StepCheck::Converged));
}

#[test]
fn divergence_is_checked_before_the_length_of_the_step() {
    assert_eq!(check_step(false, true, true), (false, StepCheck::Diverged));
    assert_eq!(check_step(false, true, false), (false, StepCheck::Diverged));
    assert_eq!(check_step(false, false, true), (false, StepCheck::Converged));
    assert_eq!(check_step(false, false, false), (false, StepCheck::Continue));
}

/// Searches for the rate at which flows balance, in floating point, and
/// lets the library judge every iterate and every step.
fn search(flows: &Vec<CashFlow>, period: i64) -> Option<f64> {
    let points: Vec<(f64, f64)> = offsets(flows)?
        .iter()
        .map(|o| (o.seconds as f64 / period as f64, o.amount as f64 / 1e10))
        .collect();
    let f = |x: f64| points.iter().fold(0.0, |acc, (t, y)| acc + y * (1.0 + x).powf(-t));
    let df = |x: f64| points.iter().fold(0.0, |acc, (t, y)| acc - t * y * (1.0 + x).powf(-t - 1.0));
    let floor = -0.999_999_999;
    let mut steps: u32 = 0;
    let mut x = 0.1;
    let mut fx: Option<f64> = None;
    let mut dfx: Option<f64> = None;
    loop {
        match check_iterate(steps, fx.map(|v| v.abs() < 1e-2), dfx.map(|d| d == 0.0)) {
            IterateCheck::Exhausted | IterateCheck::CriticalPoint => return None,
            IterateCheck::Converged => return Some(x),
            IterateCheck::Evaluate => {
                fx = Some(f(x));
            }
            IterateCheck::Differentiate => {
                dfx = Some(df(x));
            }
            IterateCheck::Step => {
                let step = fx.unwrap() / dfx.unwrap();
                x -= step;
                let (raise, verdict) = check_step(x < floor, x >= 1000.0, step.abs() < 1e-6);
                if raise {
                    x = floor;
                }
                match verdict {
                    StepCheck::Diverged => return None,
                    StepCheck::Converged => return Some(x),
                    StepCheck::Continue => {}
                }
                fx = None;
                dfx = None;
                steps += 1;
            }
        }
    }
}

#[test]
fn a_gain_of_a_tenth_in_a_year_is_a_rate_of_ten_percent() {
    // 1000 minor units paid, 1100 received a year later.
    let t0 = 1_600_000_000;
    let flows = vec![
        CashFlow { time: t0 + YEAR_SECONDS, amount: 1_100 * VALUE_SCALE },
        CashFlow { time: t0, amount: -1_000 * VALUE_SCALE },
    ];
    let rate = search(&flows, YEAR_SECONDS).unwrap();
    assert!((rate - 0.10).abs() < 1e-6);
}

#[test]
fn the_search_steps_to_a_rate_away_from_its_start() {
    // 1000 minor units paid, 1440 received two years later: 20 % a year.
    let flows = vec![
        CashFlow { time: 0, amount: -1_000 * VALUE_SCALE },
        CashFlow { time: 2 * YEAR_SECONDS, amount: 1_440 * VALUE_SCALE },
    ];
    let rate = search(&flows, YEAR_SECONDS).unwrap();
    assert!((rate - 0.20).abs() < 1e-3);
    // A loss of a quarter in a year.
    let flows = vec![
        CashFlow { time: 0, amount: -1_000 * VALUE_SCALE },
        CashFlow { time: YEAR_SECONDS, amount: 750 * VALUE_SCALE },
    ];
    let rate = search(&flows, YEAR_SECONDS).unwrap();
    assert!((rate + 0.25).abs() < 1e-3);
}

#[test]
fn flows_that_never_balance_have_no_rate() {
    let flows = vec![
        CashFlow { time: 0, amount: 1_000 * VALUE_SCALE },
        CashFlow { time: YEAR_SECONDS, amount: 1_000 * VALUE_SCALE },
    ];
    assert_eq!(search(&flows, YEAR_SECONDS), None);
    assert_eq!(search(&Vec::new(), YEAR_SECONDS), None);
}
