//! The exponential moving average: one record for every full window of bars,
//! each smoothed with the one before.
use vstd::prelude::*;

use super::ind::Ind;
use super::sma::{closes, window_count};
use super::Calculation;
use crate::data::asset::{BarDate, GetBarDate, OHLCBar, Symbol};
use crate::data::DataError;

verus! {

/// One value of an exponential moving average, dated by the last bar of its
/// window. The value is carried as the bit pattern of an IEEE 754
/// single-precision number.
#[derive(Debug, Clone, Copy)]
pub struct EmaBar {
    pub bardate: BarDate,
    pub value: u32,
}

impl GetBarDate for EmaBar {
    open spec fn date(&self) -> BarDate {
        self.bardate
    }

    fn bardate(&self) -> (date: BarDate) {
        self.bardate
    }
}

/// The exponential moving average over a window of bars. It holds the
/// function that turns a smoothing factor, the value before and the closing
/// prices of one window into one value.
pub struct Ema<A> {
    average: A,
}

impl<A: Fn(usize, Option<u32>, &[u32]) -> u32> Ema<A> {
    /// The function that smooths one window.
    pub closed spec fn averaging(&self) -> A {
        self.average
    }

    /// The factor that the values are smoothed with: the smoothing `params.1`
    /// divided by one more than the period `params.0`, in whole numbers.
    pub open spec fn factor(params: (usize, usize)) -> int {
        params.1 as int / (1 + params.0)
    }

    /// The value before the one at position `i` of `records`, if there is one.
    pub open spec fn previous(records: Seq<EmaBar>, i: int) -> Option<u32> {
        if i == 0 {
            None
        } else {
            Some(records[i - 1].value)
        }
    }

    /// Whether the record at position `i` of `records` is dated by the last
    /// bar of the window that begins at bar `i`, and holds what `average`
    /// may give for the smoothing factor, the value before and the closing
    /// prices of that window.
    pub open spec fn smoothed(
        params: (usize, usize),
        bars: Seq<OHLCBar>,
        average: &A,
        records: Seq<EmaBar>,
        i: int,
    ) -> bool {
        &&& records[i].bardate == bars[i + params.0 - 1].bardate
        &&& exists|window: &[u32]|
            {
                &&& window@ == closes(bars.subrange(i, i + params.0))
                &&& #[trigger] call_ensures(
                    *average,
                    (Self::factor(params) as usize, Self::previous(records, i), window),
                    records[i].value,
                )
            }
    }

    /// Whether `records` is what a window of `params.0` bars makes of `bars`:
    /// one smoothed record for each full window, oldest first.
    pub open spec fn windowed(
        params: (usize, usize),
        bars: Seq<OHLCBar>,
        average: &A,
        records: Seq<EmaBar>,
    ) -> bool {
        &&& records.len() == window_count(params.0 as nat, bars.len())
        &&& forall|i: int|
            0 <= i < records.len() ==> #[trigger] Self::smoothed(params, bars, average, records, i)
    }

    /// What the moving average over windows of `params.0` bars may give for
    /// `bars`: `NotEnoughSource` if there are fewer bars than one window
    /// needs, and else the records of every full window.
    pub open spec fn averages(
        params: (usize, usize),
        bars: Seq<OHLCBar>,
        average: &A,
        out: Result<Vec<EmaBar>, DataError>,
    ) -> bool {
        if bars.len() < params.0 {
            out == Err::<Vec<EmaBar>, DataError>(DataError::NotEnoughSource)
        } else {
            out is Ok && Self::windowed(params, bars, average, out->Ok_0@)
        }
    }

    /// Whether `average` may be called on the smoothing factor of `params`,
    /// any value before and every window of `params.0` prices.
    pub open spec fn takes_windows(params: (usize, usize), average: &A) -> bool {
        forall|factor: usize, before: Option<u32>, window: &[u32]|
            factor == Self::factor(params) && window@.len() == params.0 ==> #[trigger] call_requires(
                *average,
                (factor, before, window),
            )
    }

    /// What it means for this average to be a calculation. The verifier
    /// does not see this by itself.
    pub proof fn lemma_calculation(self)
        ensures
            forall|params: &(usize, usize), bars: &[OHLCBar]| #[trigger]
                self.accepts(params, bars) == Self::takes_windows(*params, &self.averaging()),
            forall|params: &(usize, usize), bars: &[OHLCBar], out: Result<Vec<EmaBar>, DataError>|
                #[trigger] self.computes(params, bars, out) == Self::averages(
                    *params,
                    bars@,
                    &self.averaging(),
                    out,
                ),
    {
    }

    /// An indicator for `symbol` that smooths the closing prices of every
    /// window of `period` bars with `average`. The smoothing is 2 where none
    /// is given.
    pub fn new(symbol: &Symbol, period: usize, smoothing: Option<usize>, average: A) -> (indicator:
        Ind<(usize, usize), EmaBar, Ema<A>>)
        requires
            Self::takes_windows(
                (
                    period,
                    match smoothing {
                        Some(given) => given,
                        None => 2usize,
                    },
                ),
                &average,
            ),
        ensures
            indicator.symbol_view() == symbol@,
            indicator.parameters() == (
                period,
                match smoothing {
                    Some(given) => given,
                    None => 2usize,
                },
            ),
            indicator.feed() is None,
            indicator.calculation() matches Some(ema) && ema.averaging() == average,
    {
        let smoothing = match smoothing {
            Some(given) => given,
            None => 2,
        };
        Ind::new(symbol, (period, smoothing), Ema { average })
    }

    /// The smoothing factor for `params`.
    pub fn smoothing_factor(params: &(usize, usize)) -> (factor: usize)
        ensures
            factor == Self::factor(*params),
    {
        match params.0.checked_add(1) {
            Some(divisor) => params.1 / divisor,
            None => {
                assert(params.1 as int / (1 + params.0) == 0) by (nonlinear_arith)
                    requires
                        0 <= params.1 < 1 + params.0,
                ;
                0
            },
        }
    }

    /// The moving average of `bars` over windows of `params.0` bars, with the
    /// smoothing `params.1`. Fails with `NotEnoughSource` if there are fewer
    /// bars than one window needs.
    pub fn calculate(params: &(usize, usize), bars: &[OHLCBar], average: &A) -> (out: Result<
        Vec<EmaBar>,
        DataError,
    >)
        requires
            Self::takes_windows(*params, average),
        ensures
            Self::averages(*params, bars@, average, out),
    {
        let period = params.0;
        if bars.len() < period {
            return Err(DataError::NotEnoughSource);
        }
        let factor = Self::smoothing_factor(params);
        let mut before: Option<u32> = None;
        let mut window: Vec<u32> = Vec::new();
        let mut ma: Vec<EmaBar> = Vec::new();
        let mut seen: usize = 0;
        while seen < bars.len()
            invariant
                seen <= bars@.len(),
                period == params.0,
                period <= bars@.len(),
                factor == Self::factor(*params),
                Self::takes_windows(*params, average),
                before == Self::previous(ma@, ma@.len() as int),
                period == 0 ==> ma@.len() == 0 && window@.len() == seen,
                period > 0 && seen < period ==> ma@.len() == 0 && window@ == closes(
                    bars@.subrange(0, seen as int),
                ),
                period > 0 && seen >= period ==> ma@.len() == seen - period + 1 && window@
                    == closes(bars@.subrange(seen - period + 1, seen as int)),
                forall|i: int|
                    0 <= i < ma@.len() ==> #[trigger] Self::smoothed(*params, bars@, average, ma@, i),
            decreases bars@.len() - seen,
        {
            let bar = &bars[seen];
            window.push(bar.close);
            if window.len() == period {
                let given = window.as_slice();
                let value = average(factor, before, given);
                let ghost earlier = ma@;
                ma.push(EmaBar { bardate: bar.bardate, value });
                proof {
                    let last = earlier.len() as int;
                    assert(given@ =~= closes(bars@.subrange(last, last + period)));
                    assert(Self::previous(ma@, last) == before);
                    assert(call_ensures(
                        *average,
                        (Self::factor(*params) as usize, Self::previous(ma@, last), given),
                        ma@[last].value,
                    ));
                    assert(Self::smoothed(*params, bars@, average, ma@, last));
                    assert forall|i: int| 0 <= i < last implies #[trigger] Self::smoothed(
                        *params,
                        bars@,
                        average,
                        ma@,
                        i,
                    ) by {
                        assert(Self::smoothed(*params, bars@, average, earlier, i));
                        assert(ma@[i] == earlier[i]);
                        assert(Self::previous(ma@, i) == Self::previous(earlier, i));
                    }
                }
                before = Some(value);
                let _ = window.remove(0);
                proof {
                    assert(window@ =~= closes(bars@.subrange(seen + 2 - period, seen + 1)));
                }
            } else {
                proof {
                    if period > 0 {
                        assert(window@ =~= closes(bars@.subrange(0, seen + 1)));
                    }
                }
            }
            seen = seen + 1;
        }
        Ok(ma)
    }
}

impl<A: Fn(usize, Option<u32>, &[u32]) -> u32> Calculation<(usize, usize), EmaBar> for Ema<A> {
    open spec fn accepts(&self, params: &(usize, usize), bars: &[OHLCBar]) -> bool {
        Self::takes_windows(*params, &self.averaging())
    }

    open spec fn computes(
        &self,
        params: &(usize, usize),
        bars: &[OHLCBar],
        out: Result<Vec<EmaBar>, DataError>,
    ) -> bool {
        Self::averages(*params, bars@, &self.averaging(), out)
    }

    fn calculate(&self, params: &(usize, usize), bars: &[OHLCBar]) -> (out: Result<
        Vec<EmaBar>,
        DataError,
    >) {
        Ema::calculate(params, bars, &self.average)
    }
}

} // verus!
