//! Price observations and the choice of one observation per instrument and
//! target.
//!
//! An observation counts for a target when it lies in the target's window.
//! Inside the soft window the preferred venue wins; failing that, the
//! freshest observation of the hard window is taken.

use crate::data::{exchange_rank, preference_rank};
use crate::models::{HistoricalPrice, RealtimePrice, StockExchange, MAX_INSTANT};
use vstd::prelude::*;

verus! {

/// The largest magnitude of a threshold in hours.
pub const MAX_HOURS: i64 = 1_000_000_000;

/// A price together with the venue it came from.
#[derive(Debug)]
pub struct DataSource<T> {
    pub price: T,
    pub exchange: StockExchange,
}

impl<T: Copy> Clone for DataSource<T> {
    fn clone(&self) -> (r: Self)
        ensures
            r == *self,
    {
        DataSource { price: self.price, exchange: self.exchange.clone() }
    }
}

/// What every kind of price observation offers.
pub trait Price: Copy {
    /// The price, in hundredths of a minor unit per whole unit.
    spec fn value_of(&self) -> int;

    /// The instant at which the observation counts.
    spec fn date_of(&self) -> int;

    /// The venue record that the observation belongs to.
    spec fn record_of(&self) -> int;

    /// The place in time by which windows are laid over observations: the
    /// instant of a tick, the day number of a bar.
    spec fn key_of(&self) -> int;

    fn value(&self) -> (r: i64)
        ensures
            r == self.value_of(),
    ;

    fn date(&self) -> (r: i64)
        ensures
            r == self.date_of(),
    ;

    fn onvista_record_id(&self) -> (r: i32)
        ensures
            r == self.record_of(),
    ;

    fn key(&self) -> (r: i64)
        ensures
            r == self.key_of(),
    ;
}

impl Price for RealtimePrice {
    open spec fn value_of(&self) -> int {
        self.price as int
    }

    open spec fn date_of(&self) -> int {
        self.date as int
    }

    open spec fn record_of(&self) -> int {
        self.onvista_record_id as int
    }

    open spec fn key_of(&self) -> int {
        self.date as int
    }

    fn value(&self) -> (r: i64) {
        self.price
    }

    fn date(&self) -> (r: i64) {
        self.date
    }

    fn onvista_record_id(&self) -> (r: i32) {
        self.onvista_record_id
    }

    fn key(&self) -> (r: i64) {
        self.date
    }
}

impl Price for HistoricalPrice {
    /// A bar counts with its closing price.
    open spec fn value_of(&self) -> int {
        self.closing as int
    }

    /// A bar counts at 18:00 local time of its day.
    open spec fn date_of(&self) -> int {
        self.closes_at as int
    }

    open spec fn record_of(&self) -> int {
        self.onvista_record_id as int
    }

    open spec fn key_of(&self) -> int {
        self.date as int
    }

    fn value(&self) -> (r: i64) {
        self.closing
    }

    fn date(&self) -> (r: i64) {
        self.closes_at
    }

    fn onvista_record_id(&self) -> (r: i32) {
        self.onvista_record_id
    }

    fn key(&self) -> (r: i64) {
        self.date as i64
    }
}

/// One of the three shapes of a price observation.
#[derive(Debug, Clone, Copy, PartialEq, Eq, Structural)]
pub enum EitherPrice {
    RealtimePrice(RealtimePrice),
    HistoricalPrice(HistoricalPrice),
    /// A bar taken at its opening: 09:00 local time, opening price.
    HistoricalPriceOpening(HistoricalPrice),
}

impl EitherPrice {
    pub open spec fn value_of(&self) -> int {
        match *self {
            EitherPrice::RealtimePrice(p) => p.price as int,
            EitherPrice::HistoricalPrice(p) => p.closing as int,
            EitherPrice::HistoricalPriceOpening(p) => p.opening as int,
        }
    }

    pub open spec fn date_of(&self) -> int {
        match *self {
            EitherPrice::RealtimePrice(p) => p.date as int,
            EitherPrice::HistoricalPrice(p) => p.closes_at as int,
            EitherPrice::HistoricalPriceOpening(p) => p.opens_at as int,
        }
    }

    pub open spec fn record_of(&self) -> int {
        match *self {
            EitherPrice::RealtimePrice(p) => p.onvista_record_id as int,
            EitherPrice::HistoricalPrice(p) => p.onvista_record_id as int,
            EitherPrice::HistoricalPriceOpening(p) => p.onvista_record_id as int,
        }
    }

    /// Price and instant are of a size that the engine can work with.
    pub open spec fn in_range(&self) -> bool {
        match *self {
            EitherPrice::RealtimePrice(p) => p.in_range(),
            EitherPrice::HistoricalPrice(p) => p.in_range(),
            EitherPrice::HistoricalPriceOpening(p) => p.in_range(),
        }
    }

    /// Computes `in_range`.
    pub fn is_in_range(&self) -> (r: bool)
        ensures
            r == self.in_range(),
    {
        match self {
            EitherPrice::RealtimePrice(p) => p.is_in_range(),
            EitherPrice::HistoricalPrice(p) => p.is_in_range(),
            EitherPrice::HistoricalPriceOpening(p) => p.is_in_range(),
        }
    }

    pub fn wrap_realtime(d: DataSource<RealtimePrice>) -> (r: DataSource<EitherPrice>)
        ensures
            r.price == EitherPrice::RealtimePrice(d.price),
            r.exchange == d.exchange,
    {
        DataSource { price: EitherPrice::RealtimePrice(d.price), exchange: d.exchange }
    }

    pub fn wrap_historical(d: DataSource<HistoricalPrice>) -> (r: DataSource<EitherPrice>)
        ensures
            r.price == EitherPrice::HistoricalPrice(d.price),
            r.exchange == d.exchange,
    {
        DataSource { price: EitherPrice::HistoricalPrice(d.price), exchange: d.exchange }
    }

    pub fn value(&self) -> (r: i64)
        ensures
            r == self.value_of(),
    {
        match self {
            EitherPrice::RealtimePrice(p) => p.price,
            EitherPrice::HistoricalPrice(p) => p.closing,
            EitherPrice::HistoricalPriceOpening(p) => p.opening,
        }
    }

    pub fn date(&self) -> (r: i64)
        ensures
            r == self.date_of(),
    {
        match self {
            EitherPrice::RealtimePrice(p) => p.date,
            EitherPrice::HistoricalPrice(p) => p.closes_at,
            EitherPrice::HistoricalPriceOpening(p) => p.opens_at,
        }
    }

    pub fn onvista_record_id(&self) -> (r: i32)
        ensures
            r == self.record_of(),
    {
        match self {
            EitherPrice::RealtimePrice(p) => p.onvista_record_id,
            EitherPrice::HistoricalPrice(p) => p.onvista_record_id,
            EitherPrice::HistoricalPriceOpening(p) => p.onvista_record_id,
        }
    }
}

/// The two nested spans before a target in which an observation counts.
/// Bounds are keys: instants for ticks, day numbers for bars.
#[derive(Debug, Clone, Copy, PartialEq, Eq, Structural)]
pub struct Window {
    /// The target itself; nothing later counts.
    pub upper: i64,
    /// The oldest key that counts at all.
    pub hard_lower: i64,
    /// The oldest key that takes part in the ranking by venue.
    pub soft_lower: i64,
}

/// The instant and the thresholds are of a size that a window can be laid
/// with.
pub open spec fn window_in_range(date: int, hard_threshold: int, soft_threshold: int) -> bool {
    &&& -MAX_INSTANT <= date <= MAX_INSTANT
    &&& -MAX_HOURS <= hard_threshold <= MAX_HOURS
    &&& -MAX_HOURS <= soft_threshold <= MAX_HOURS
}

impl Window {
    /// The window before an instant, with both thresholds in hours.
    pub fn before_instant(date: i64, hard_threshold: i64, soft_threshold: i64) -> (r: Window)
        requires
            window_in_range(date as int, hard_threshold as int, soft_threshold as int),
        ensures
            r.upper == date,
            r.hard_lower == date - hard_threshold * 3600,
            r.soft_lower == date - soft_threshold * 3600,
    {
        Window {
            upper: date,
            hard_lower: date - hard_threshold * 3600,
            soft_lower: date - soft_threshold * 3600,
        }
    }
}

/// Observation `i` is about the instrument and lies in the soft window.
pub open spec fn in_soft<T: Price>(
    obs: Seq<DataSource<T>>,
    isin: Seq<char>,
    w: Window,
    i: int,
) -> bool {
    &&& 0 <= i < obs.len()
    &&& obs[i].exchange.isin@ == isin
    &&& w.soft_lower <= obs[i].price.key_of() <= w.upper
}

/// Observation `i` is about the instrument and lies in the hard window.
pub open spec fn in_hard<T: Price>(
    obs: Seq<DataSource<T>>,
    isin: Seq<char>,
    w: Window,
    i: int,
) -> bool {
    &&& 0 <= i < obs.len()
    &&& obs[i].exchange.isin@ == isin
    &&& w.hard_lower <= obs[i].price.key_of() <= w.upper
}

/// Observation `i` is no staler than observation `j`; of two equally fresh
/// ones the earlier in the sequence counts as fresher.
pub open spec fn fresher<T: Price>(obs: Seq<DataSource<T>>, i: int, j: int) -> bool {
    let ki = obs[i].price.key_of();
    let kj = obs[j].price.key_of();
    ki > kj || (ki == kj && i <= j)
}

/// Observation `i` is to be taken before observation `j` in the soft
/// window: its venue is preferred, or the venues rank alike and it is the
/// fresher one.
pub open spec fn preferred<T: Price>(obs: Seq<DataSource<T>>, i: int, j: int) -> bool {
    let ri = preference_rank(obs[i].exchange.code@);
    let rj = preference_rank(obs[j].exchange.code@);
    ri < rj || (ri == rj && fresher(obs, i, j))
}

/// Some observation lies in the soft window.
pub open spec fn soft_exists<T: Price>(obs: Seq<DataSource<T>>, isin: Seq<char>, w: Window) -> bool {
    exists|i: int| in_soft(obs, isin, w, i)
}

/// Some observation lies in the hard window.
pub open spec fn hard_exists<T: Price>(obs: Seq<DataSource<T>>, isin: Seq<char>, w: Window) -> bool {
    exists|i: int| in_hard(obs, isin, w, i)
}

/// `r` is the index of the observation to take for the instrument and
/// window, or `None` where there is none to take.
pub open spec fn is_selection<T: Price>(
    obs: Seq<DataSource<T>>,
    isin: Seq<char>,
    w: Window,
    r: Option<int>,
) -> bool {
    if soft_exists(obs, isin, w) {
        &&& r is Some
        &&& in_soft(obs, isin, w, r->0)
        &&& forall|j: int| in_soft(obs, isin, w, j) ==> preferred(obs, r->0, j)
    } else if hard_exists(obs, isin, w) {
        &&& r is Some
        &&& in_hard(obs, isin, w, r->0)
        &&& forall|j: int| in_hard(obs, isin, w, j) ==> fresher(obs, r->0, j)
    } else {
        r is None
    }
}

/// An optional index as a mathematical integer.
pub open spec fn index_of(r: Option<usize>) -> Option<int> {
    match r {
        Some(i) => Some(i as int),
        None => None,
    }
}

/// At most one index is the selection.
pub proof fn selection_is_unique<T: Price>(
    obs: Seq<DataSource<T>>,
    isin: Seq<char>,
    w: Window,
    a: Option<int>,
    b: Option<int>,
)
    requires
        is_selection(obs, isin, w, a),
        is_selection(obs, isin, w, b),
    ensures
        a == b,
{
    if soft_exists(obs, isin, w) {
        assert(preferred(obs, a->0, b->0));
        assert(preferred(obs, b->0, a->0));
    } else if hard_exists(obs, isin, w) {
        assert(fresher(obs, a->0, b->0));
        assert(fresher(obs, b->0, a->0));
    }
}

/// Finds the selection for one instrument and one window.
pub fn select_index<T: Price>(obs: &Vec<DataSource<T>>, isin: &String, w: &Window) -> (r: Option<
    usize,
>)
    ensures
        is_selection(obs@, isin@, *w, index_of(r)),
{
    let mut soft: Option<usize> = None;
    let mut hard: Option<usize> = None;
    let mut n: usize = 0;
    while n < obs.len()
        invariant
            n <= obs.len(),
            match soft {
                Some(s) => {
                    &&& s < n
                    &&& in_soft(obs@, isin@, *w, s as int)
                    &&& forall|j: int|
                        0 <= j < n && in_soft(obs@, isin@, *w, j) ==> preferred(obs@, s as int, j)
                },
                None => forall|j: int| 0 <= j < n ==> !in_soft(obs@, isin@, *w, j),
            },
            match hard {
                Some(h) => {
                    &&& h < n
                    &&& in_hard(obs@, isin@, *w, h as int)
                    &&& forall|j: int|
                        0 <= j < n && in_hard(obs@, isin@, *w, j) ==> fresher(obs@, h as int, j)
                },
                None => forall|j: int| 0 <= j < n ==> !in_hard(obs@, isin@, *w, j),
            },
        decreases obs.len() - n,
    {
        let ghost soft_before = soft;
        let ghost hard_before = hard;
        let key = obs[n].price.key();
        if obs[n].exchange.isin == *isin && key <= w.upper {
            if key >= w.soft_lower {
                match soft {
                    None => {
                        soft = Some(n);
                    },
                    Some(s) => {
                        let rank_s = exchange_rank(&obs[s].exchange.code);
                        let rank_n = exchange_rank(&obs[n].exchange.code);
                        let key_s = obs[s].price.key();
                        if rank_n < rank_s || (rank_n == rank_s && key > key_s) {
                            soft = Some(n);
                        }
                    },
                }
            }
            if key >= w.hard_lower {
                match hard {
                    None => {
                        hard = Some(n);
                    },
                    Some(h) => {
                        let key_h = obs[h].price.key();
                        if key > key_h {
                            hard = Some(n);
                        }
                    },
                }
            }
        }
        proof {
            let k = n as int;
            if let Some(s) = soft {
                assert forall|j: int| 0 <= j < k + 1 && in_soft(obs@, isin@, *w, j) implies preferred(
                    obs@,
                    s as int,
                    j,
                ) by {
                    if j < k {
                        if let Some(b) = soft_before {
                            assert(preferred(obs@, b as int, j));
                        }
                    }
                }
            } else {
                assert(!in_soft(obs@, isin@, *w, k));
            }
            if let Some(h) = hard {
                assert forall|j: int| 0 <= j < k + 1 && in_hard(obs@, isin@, *w, j) implies fresher(
                    obs@,
                    h as int,
                    j,
                ) by {
                    if j < k {
                        if let Some(b) = hard_before {
                            assert(fresher(obs@, b as int, j));
                        }
                    }
                }
            } else {
                assert(!in_hard(obs@, isin@, *w, k));
            }
        }
        n += 1;
    }
    proof {
        match soft {
            Some(s) => {
                assert(in_soft(obs@, isin@, *w, s as int));
            },
            None => {
                match hard {
                    Some(h) => {
                        assert(in_hard(obs@, isin@, *w, h as int));
                    },
                    None => {},
                }
            },
        }
    }
    match soft {
        Some(s) => Some(s),
        None => hard,
    }
}

/// `e` is what the resolver hands out for the instrument and window: the
/// selected observation, or nothing where none is selected.
pub open spec fn is_resolved<T: Price>(
    obs: Seq<DataSource<T>>,
    isin: Seq<char>,
    w: Window,
    e: Option<DataSource<T>>,
) -> bool {
    match e {
        Some(d) => exists|i: int| is_selection(obs, isin, w, Some(i)) && obs[i] == d,
        None => is_selection(obs, isin, w, None::<int>),
    }
}

/// What the resolver hands out for an instrument and a window is fixed
/// by the observations: resolving for one window alone and resolving for
/// it among many give the same.
pub proof fn resolution_is_unique<T: Price>(
    obs: Seq<DataSource<T>>,
    isin: Seq<char>,
    w: Window,
    a: Option<DataSource<T>>,
    b: Option<DataSource<T>>,
)
    requires
        is_resolved(obs, isin, w, a),
        is_resolved(obs, isin, w, b),
    ensures
        a == b,
{
    match (a, b) {
        (Some(x), Some(y)) => {
            let i = choose|i: int| is_selection(obs, isin, w, Some(i)) && obs[i] == x;
            let j = choose|j: int| is_selection(obs, isin, w, Some(j)) && obs[j] == y;
            selection_is_unique(obs, isin, w, Some(i), Some(j));
        },
        (Some(x), None) => {
            let i = choose|i: int| is_selection(obs, isin, w, Some(i)) && obs[i] == x;
            selection_is_unique(obs, isin, w, Some(i), None);
        },
        (None, Some(y)) => {
            let j = choose|j: int| is_selection(obs, isin, w, Some(j)) && obs[j] == y;
            selection_is_unique(obs, isin, w, None, Some(j));
        },
        (None, None) => {},
    }
}

/// Resolves every instrument for one window. The result runs parallel to
/// `isins`.
pub fn find<T: Price>(obs: &Vec<DataSource<T>>, isins: &Vec<String>, w: &Window) -> (r: Vec<
    Option<DataSource<T>>,
>)
    ensures
        r.len() == isins.len(),
        forall|k: int| 0 <= k < isins.len() ==> is_resolved(obs@, isins[k]@, *w, #[trigger] r[k]),
{
    let mut out: Vec<Option<DataSource<T>>> = Vec::new();
    let mut k: usize = 0;
    while k < isins.len()
        invariant
            k <= isins.len(),
            out.len() == k,
            forall|m: int| 0 <= m < k ==> is_resolved(obs@, isins[m]@, *w, #[trigger] out[m]),
        decreases isins.len() - k,
    {
        let picked = select_index(obs, &isins[k], w);
        let entry = match picked {
            Some(i) => {
                let d = obs[i].clone();
                proof {
                    assert(is_selection(obs@, isins[k as int]@, *w, Some(i as int)));
                    assert(obs@[i as int] == d);
                }
                Some(d)
            },
            None => None,
        };
        out.push(entry);
        k += 1;
    }
    out
}

/// Resolves every instrument for every window. The result runs parallel to
/// `windows`, each of its rows parallel to `isins`.
pub fn find_multiple<T: Price>(
    obs: &Vec<DataSource<T>>,
    isins: &Vec<String>,
    windows: &Vec<Window>,
) -> (r: Vec<Vec<Option<DataSource<T>>>>)
    ensures
        r.len() == windows.len(),
        forall|d: int| 0 <= d < windows.len() ==> (#[trigger] r[d]).len() == isins.len(),
        forall|d: int, k: int|
            0 <= d < windows.len() && 0 <= k < isins.len() ==> is_resolved(
                obs@,
                isins[k]@,
                windows[d],
                #[trigger] r[d][k],
            ),
{
    let mut out: Vec<Vec<Option<DataSource<T>>>> = Vec::new();
    let mut d: usize = 0;
    while d < windows.len()
        invariant
            d <= windows.len(),
            out.len() == d,
            forall|e: int| 0 <= e < d ==> (#[trigger] out[e]).len() == isins.len(),
            forall|e: int, k: int|
                0 <= e < d && 0 <= k < isins.len() ==> is_resolved(
                    obs@,
                    isins[k]@,
                    windows[e],
                    #[trigger] out[e][k],
                ),
        decreases windows.len() - d,
    {
        let row = find(obs, isins, &windows[d]);
        out.push(row);
        d += 1;
    }
    out
}

/// Where an observation lies in the soft window, the selection lies there
/// too, and on a venue that is at least as preferred: an observation that
/// only the hard window reaches never displaces it.
pub proof fn soft_window_wins<T: Price>(
    obs: Seq<DataSource<T>>,
    isin: Seq<char>,
    w: Window,
    i: int,
    r: Option<int>,
)
    requires
        in_soft(obs, isin, w, i),
        is_selection(obs, isin, w, r),
    ensures
        r is Some,
        in_soft(obs, isin, w, r->0),
        preference_rank(obs[r->0].exchange.code@) <= preference_rank(obs[i].exchange.code@),
{
    assert(soft_exists(obs, isin, w));
    assert(preferred(obs, r->0, i));
}

/// Where the soft window lies inside the hard window and no observation
/// lies in the hard window, nothing is selected.
pub proof fn empty_hard_window_selects_nothing<T: Price>(
    obs: Seq<DataSource<T>>,
    isin: Seq<char>,
    w: Window,
    r: Option<int>,
)
    requires
        w.hard_lower <= w.soft_lower,
        forall|i: int| !in_hard(obs, isin, w, i),
        is_selection(obs, isin, w, r),
    ensures
        r is None,
{
    assert forall|i: int| !in_soft(obs, isin, w, i) by {
        assert(!in_hard(obs, isin, w, i));
    }
}

/// Something is selected exactly where an observation lies in one of the two
/// windows, and what is selected lies in one of them.
pub proof fn selection_lies_in_a_window<T: Price>(
    obs: Seq<DataSource<T>>,
    isin: Seq<char>,
    w: Window,
    r: Option<int>,
)
    requires
        is_selection(obs, isin, w, r),
    ensures
        r is Some <==> soft_exists(obs, isin, w) || hard_exists(obs, isin, w),
        r is Some ==> in_soft(obs, isin, w, r->0) || in_hard(obs, isin, w, r->0),
{
}

/// The windows are those before the instants, with the thresholds in hours.
pub open spec fn are_windows_before(
    windows: Seq<Window>,
    dates: Seq<i64>,
    hard_threshold: int,
    soft_threshold: int,
) -> bool {
    &&& windows.len() == dates.len()
    &&& forall|d: int|
        0 <= d < dates.len() ==> {
            &&& (#[trigger] windows[d]).upper == dates[d]
            &&& windows[d].hard_lower == dates[d] - hard_threshold * 3600
            &&& windows[d].soft_lower == dates[d] - soft_threshold * 3600
        }
}

impl RealtimePrice {
    /// Resolves every instrument for every instant from ticks. A tick may
    /// be `hard_threshold` hours old; within `soft_threshold` hours the
    /// venue decides. The result runs parallel to `dates`, each of its rows
    /// parallel to `isins`.
    pub fn find_multiple(
        obs: &Vec<DataSource<RealtimePrice>>,
        isins: &Vec<String>,
        dates: &Vec<i64>,
        hard_threshold: i64,
        soft_threshold: i64,
    ) -> (r: Vec<Vec<Option<DataSource<RealtimePrice>>>>)
        requires
            forall|d: int|
                0 <= d < dates.len() ==> window_in_range(
                    #[trigger] dates[d] as int,
                    hard_threshold as int,
                    soft_threshold as int,
                ),
        ensures
            r.len() == dates.len(),
            forall|d: int| 0 <= d < dates.len() ==> (#[trigger] r[d]).len() == isins.len(),
            exists|windows: Seq<Window>|
                {
                    &&& are_windows_before(
                        windows,
                        dates@,
                        hard_threshold as int,
                        soft_threshold as int,
                    )
                    &&& forall|d: int, k: int|
                        0 <= d < dates.len() && 0 <= k < isins.len() ==> is_resolved(
                            obs@,
                            isins[k]@,
                            windows[d],
                            #[trigger] r[d][k],
                        )
                },
    {
        let mut windows: Vec<Window> = Vec::new();
        let mut d: usize = 0;
        while d < dates.len()
            invariant
                d <= dates.len(),
                forall|e: int|
                    0 <= e < dates.len() ==> window_in_range(
                        #[trigger] dates[e] as int,
                        hard_threshold as int,
                        soft_threshold as int,
                    ),
                are_windows_before(
                    windows@,
                    dates@.take(d as int),
                    hard_threshold as int,
                    soft_threshold as int,
                ),
            decreases dates.len() - d,
        {
            assert(window_in_range(dates[d as int] as int, hard_threshold as int, soft_threshold as int));
            windows.push(Window::before_instant(dates[d], hard_threshold, soft_threshold));
            d += 1;
        }
        proof {
            assert(dates@.take(d as int) == dates@);
        }
        find_multiple(obs, isins, &windows)
    }
}

} // verus!
