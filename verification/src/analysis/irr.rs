//! Cash flows and the question that a rate of return answers.
//!
//! The engine assembles the flows and fixes the period over which the rate
//! compounds. Finding the rate is numerical work on real numbers and is left
//! to the caller; what this module settles of it is the order of its checks.

use vstd::prelude::*;

verus! {

/// The number of value units in one minor unit of money. A value is a unit
/// count in millionths times a price in hundredths of a minor unit.
pub const VALUE_SCALE: i128 = 100_000_000;

/// The length of a year in seconds: 365 days.
pub const YEAR_SECONDS: i64 = 31_536_000;

/// Money that moves at an instant, in value units; positive when received.
#[derive(Debug, Clone, Copy, PartialEq, Eq, Structural)]
pub struct CashFlow {
    pub time: i64,
    pub amount: i128,
}

/// The flows whose rate of return is asked for, and the length in seconds
/// of the window that they span.
#[derive(Debug)]
pub struct RateQuery {
    pub flows: Vec<CashFlow>,
    pub period: i64,
}

/// The rate is solved on the year where the window is longer than a year,
/// and on the window otherwise; it is then converted to the other scale.
pub open spec fn solves_on_year(period: int) -> bool {
    period > YEAR_SECONDS
}

impl RateQuery {
    /// The compounding period on which the rate is to be solved: the shorter
    /// of the window and the year.
    pub fn solve_period(&self) -> (r: i64)
        ensures
            r == if solves_on_year(self.period as int) {
                YEAR_SECONDS
            } else {
                self.period
            },
    {
        if self.period > YEAR_SECONDS {
            YEAR_SECONDS
        } else {
            self.period
        }
    }
}

/// A flow with its distance in seconds from the earliest flow.
#[derive(Debug, Clone, Copy, PartialEq, Eq, Structural)]
pub struct Offset {
    pub seconds: i128,
    pub amount: i128,
}

/// Flow `i` is the earliest of the list, and the first of those that share
/// its instant.
pub open spec fn is_first_flow(flows: Seq<CashFlow>, i: int) -> bool {
    &&& 0 <= i < flows.len()
    &&& forall|j: int| 0 <= j < flows.len() ==> flows[i].time <= (#[trigger] flows[j]).time
    &&& forall|j: int| 0 <= j < i ==> flows[i].time < (#[trigger] flows[j]).time
}

/// Finds the instant of the earliest flow; `None` where there is no flow.
pub fn earliest(flows: &Vec<CashFlow>) -> (r: Option<i64>)
    ensures
        r is None <==> flows.len() == 0,
        r is Some ==> exists|i: int| is_first_flow(flows@, i) && flows[i].time == r->0,
        r is Some ==> forall|j: int| 0 <= j < flows.len() ==> r->0 <= (#[trigger] flows[j]).time,
{
    if flows.len() == 0 {
        return None;
    }
    let mut best: usize = 0;
    let mut n: usize = 1;
    while n < flows.len()
        invariant
            1 <= n <= flows.len(),
            best < n,
            forall|j: int| 0 <= j < n ==> flows[best as int].time <= (#[trigger] flows[j]).time,
            forall|j: int| 0 <= j < best ==> flows[best as int].time < (#[trigger] flows[j]).time,
        decreases flows.len() - n,
    {
        if flows[n].time < flows[best].time {
            best = n;
        }
        n += 1;
    }
    proof {
        assert(is_first_flow(flows@, best as int));
    }
    Some(flows[best].time)
}

/// Measures every flow from the earliest one. There is no answer for an
/// empty list: it has no rate of return.
pub fn offsets(flows: &Vec<CashFlow>) -> (r: Option<Vec<Offset>>)
    ensures
        r is None <==> flows.len() == 0,
        r is Some ==> r->0.len() == flows.len(),
        r is Some ==> exists|first: int|
            is_first_flow(flows@, first) && forall|i: int|
                0 <= i < flows.len() ==> (#[trigger] r->0[i]).seconds == flows[i].time
                    - flows[first].time && r->0[i].amount == flows[i].amount,
        r is Some ==> forall|i: int| 0 <= i < flows.len() ==> (#[trigger] r->0[i]).seconds >= 0,
{
    match earliest(flows) {
        None => None,
        Some(begin) => {
            let ghost first = choose|i: int| is_first_flow(flows@, i) && flows[i].time == begin;
            let mut out: Vec<Offset> = Vec::new();
            let mut n: usize = 0;
            while n < flows.len()
                invariant
                    n <= flows.len(),
                    out.len() == n,
                    is_first_flow(flows@, first),
                    flows[first].time == begin,
                    forall|i: int|
                        0 <= i < n ==> (#[trigger] out[i]).seconds == flows[i].time - begin
                            && out[i].amount == flows[i].amount && out[i].seconds >= 0,
                decreases flows.len() - n,
            {
                let flow = flows[n];
                out.push(Offset { seconds: flow.time as i128 - begin as i128, amount: flow.amount });
                n += 1;
            }
            Some(out)
        },
    }
}

/// The most steps that the search for a rate takes.
pub const MAX_ITERATIONS: u32 = 25;

/// What the search does next with an iterate.
#[derive(Debug, Clone, Copy, PartialEq, Eq, Structural)]
pub enum IterateCheck {
    /// The steps are used up: there is no rate.
    Exhausted,
    /// The net present value at the iterate is to be computed.
    Evaluate,
    /// The flows balance at the iterate: it is the rate.
    Converged,
    /// The derivative at the iterate is to be computed.
    Differentiate,
    /// The slope vanishes at the iterate: there is no rate.
    CriticalPoint,
    /// A step is taken from the iterate.
    Step,
}

/// What is to be done with an iterate after `steps` steps, given what is
/// known of it: the limit of steps comes first, the value second, the
/// derivative last, and neither is asked for before it is needed.
pub open spec fn iterate_check(steps: u32, balanced: Option<bool>, flat: Option<bool>) -> IterateCheck {
    if steps >= MAX_ITERATIONS {
        IterateCheck::Exhausted
    } else {
        match balanced {
            None => IterateCheck::Evaluate,
            Some(true) => IterateCheck::Converged,
            Some(false) => match flat {
                None => IterateCheck::Differentiate,
                Some(true) => IterateCheck::CriticalPoint,
                Some(false) => IterateCheck::Step,
            },
        }
    }
}

/// Judges an iterate. `steps` counts the steps taken so far. `balanced`
/// says whether the net present value at the iterate is below the
/// tolerance, and `flat` whether its derivative there is zero; each is
/// `None` as long as it has not been computed.
pub fn check_iterate(steps: u32, balanced: Option<bool>, flat: Option<bool>) -> (r: IterateCheck)
    ensures
        r == iterate_check(steps, balanced, flat),
{
    if steps >= MAX_ITERATIONS {
        IterateCheck::Exhausted
    } else {
        match balanced {
            None => IterateCheck::Evaluate,
            Some(true) => IterateCheck::Converged,
            Some(false) => match flat {
                None => IterateCheck::Differentiate,
                Some(true) => IterateCheck::CriticalPoint,
                Some(false) => IterateCheck::Step,
            },
        }
    }
}

/// What the search does after a step.
#[derive(Debug, Clone, Copy, PartialEq, Eq, Structural)]
pub enum StepCheck {
    /// The rate ran away: there is no rate.
    Diverged,
    /// The step was too small to matter: the new iterate is the rate.
    Converged,
    /// The search goes on from the new iterate.
    Continue,
}

/// Judges a step. `below_floor` says that the new iterate fell below the
/// least rate, `at_ceiling` that it reached the bound of divergence,
/// `stalled` that the step was shorter than the tolerance. An iterate below
/// the floor is raised to the floor and is never taken for divergence; the
/// bound of divergence is checked before the length of the step.
///
/// The first component says whether the iterate is to be raised to the
/// floor.
pub fn check_step(below_floor: bool, at_ceiling: bool, stalled: bool) -> (r: (bool, StepCheck))
    ensures
        r.0 == below_floor,
        r.1 == if !below_floor && at_ceiling {
            StepCheck::Diverged
        } else if stalled {
            StepCheck::Converged
        } else {
            StepCheck::Continue
        },
{
    if !below_floor && at_ceiling {
        (below_floor, StepCheck::Diverged)
    } else if stalled {
        (below_floor, StepCheck::Converged)
    } else {
        (below_floor, StepCheck::Continue)
    }
}

} // verus!
