//! The simple moving average: one record for every full window of bars.
use vstd::prelude::*;

use super::ind::Ind;
use super::Calculation;
use crate::data::asset::{BarDate, GetBarDate, OHLCBar, Symbol};
use crate::data::DataError;

verus! {

/// The closing prices of `bars`, in order.
pub open spec fn closes(bars: Seq<OHLCBar>) -> Seq<u32> {
    bars.map_values(|bar: OHLCBar| bar.close)
}

/// The number of full windows of `period` bars in a history of `bars` bars.
/// A window of no bars is never full.
pub open spec fn window_count(period: nat, bars: nat) -> nat {
    if period == 0 || bars < period {
        0
    } else {
        (bars - period + 1) as nat
    }
}

/// One value of a moving average, dated by the last bar of its window. The
/// value is carried as the bit pattern of an IEEE 754 single-precision number.
#[derive(Debug, Clone, Copy)]
pub struct SmaBar {
    pub bardate: BarDate,
    pub value: u32,
}

impl GetBarDate for SmaBar {
    open spec fn date(&self) -> BarDate {
        self.bardate
    }

    fn bardate(&self) -> (date: BarDate) {
        self.bardate
    }
}

/// The simple moving average over a window of bars. It holds the function
/// that turns the closing prices of one window into one value.
pub struct Sma<A> {
    average: A,
}

impl<A: Fn(&[u32]) -> u32> Sma<A> {
    /// The function that averages one window.
    pub closed spec fn averaging(&self) -> A {
        self.average
    }

    /// Whether the record at position `i` of `records` is dated by the last
    /// bar of the window that begins at bar `i`, and holds what `average`
    /// may give for the closing prices of that window.
    pub open spec fn averaged(
        period: usize,
        bars: Seq<OHLCBar>,
        average: &A,
        records: Seq<SmaBar>,
        i: int,
    ) -> bool {
        &&& records[i].bardate == bars[i + period - 1].bardate
        &&& exists|window: &[u32]|
            {
                &&& window@ == closes(bars.subrange(i, i + period))
                &&& #[trigger] call_ensures(*average, (window,), records[i].value)
            }
    }

    /// Whether `records` is what a window of `period` bars makes of `bars`:
    /// one averaged record for each full window, oldest first.
    pub open spec fn windowed(
        period: usize,
        bars: Seq<OHLCBar>,
        average: &A,
        records: Seq<SmaBar>,
    ) -> bool {
        &&& records.len() == window_count(period as nat, bars.len())
        &&& forall|i: int|
            0 <= i < records.len() ==> #[trigger] Self::averaged(period, bars, average, records, i)
    }

    /// What the moving average over windows of `period` bars may give for
    /// `bars`: `NotEnoughSource` if there are fewer bars than one window
    /// needs, and else the records of every full window.
    pub open spec fn averages(
        period: usize,
        bars: Seq<OHLCBar>,
        average: &A,
        out: Result<Vec<SmaBar>, DataError>,
    ) -> bool {
        if bars.len() < period {
            out == Err::<Vec<SmaBar>, DataError>(DataError::NotEnoughSource)
        } else {
            out is Ok && Self::windowed(period, bars, average, out->Ok_0@)
        }
    }

    /// Whether `average` may be called on every window of `period` prices.
    pub open spec fn takes_windows(period: usize, average: &A) -> bool {
        forall|window: &[u32]| window@.len() == period ==> call_requires(*average, (window,))
    }

    /// What it means for this average to be a calculation. The verifier
    /// does not see this by itself.
    pub proof fn lemma_calculation(self)
        ensures
            forall|params: &usize, bars: &[OHLCBar]| #[trigger]
                self.accepts(params, bars) == Self::takes_windows(*params, &self.averaging()),
            forall|params: &usize, bars: &[OHLCBar], out: Result<Vec<SmaBar>, DataError>|
                #[trigger] self.computes(params, bars, out) == Self::averages(
                    *params,
                    bars@,
                    &self.averaging(),
                    out,
                ),
    {
    }

    /// An indicator for `symbol` that averages the closing prices of every
    /// window of `period` bars with `average`.
    pub fn new(symbol: &Symbol, period: usize, average: A) -> (indicator: Ind<usize, SmaBar, Sma<A>>)
        requires
            Self::takes_windows(period, &average),
        ensures
            indicator.symbol_view() == symbol@,
            indicator.parameters() == period,
            indicator.feed() is None,
            indicator.calculation() matches Some(sma) && sma.averaging() == average,
    {
        Ind::new(symbol, period, Sma { average })
    }

    /// The moving average of `bars` over windows of `period` bars. Fails with
    /// `NotEnoughSource` if there are fewer bars than one window needs.
    pub fn calculate(period: &usize, bars: &[OHLCBar], average: &A) -> (out: Result<
        Vec<SmaBar>,
        DataError,
    >)
        requires
            Self::takes_windows(*period, average),
        ensures
            Self::averages(*period, bars@, average, out),
    {
        let period = *period;
        if bars.len() < period {
            return Err(DataError::NotEnoughSource);
        }
        let mut window: Vec<u32> = Vec::new();
        let mut ma: Vec<SmaBar> = Vec::new();
        let mut seen: usize = 0;
        while seen < bars.len()
            invariant
                seen <= bars@.len(),
                period <= bars@.len(),
                Self::takes_windows(period, average),
                period == 0 ==> ma@.len() == 0 && window@.len() == seen,
                period > 0 && seen < period ==> ma@.len() == 0 && window@ == closes(
                    bars@.subrange(0, seen as int),
                ),
                period > 0 && seen >= period ==> ma@.len() == seen - period + 1 && window@
                    == closes(bars@.subrange(seen - period + 1, seen as int)),
                forall|i: int|
                    0 <= i < ma@.len() ==> #[trigger] Self::averaged(period, bars@, average, ma@, i),
            decreases bars@.len() - seen,
        {
            let bar = &bars[seen];
            window.push(bar.close);
            if window.len() == period {
                let given = window.as_slice();
                let value = average(given);
                let ghost earlier = ma@;
                ma.push(SmaBar { bardate: bar.bardate, value });
                proof {
                    let last = earlier.len() as int;
                    assert(given@ =~= closes(bars@.subrange(last, last + period)));
                    assert(call_ensures(*average, (given,), ma@[last].value));
                    assert(Self::averaged(period, bars@, average, ma@, last));
                    assert forall|i: int| 0 <= i < last implies #[trigger] Self::averaged(
                        period,
                        bars@,
                        average,
                        ma@,
                        i,
                    ) by {
                        assert(Self::averaged(period, bars@, average, earlier, i));
                        assert(ma@[i] == earlier[i]);
                    }
                }
                let _ = window.remove(0);
                proof {
                    assert(window@ =~= closes(bars@.subrange(seen + 2 - period, seen + 1)));
                }
            } else {
                proof {
                    if period > 0 {
                        assert(window@ =~= closes(bars@.subrange(0, seen + 1)));
                    }
                }
            }
            seen = seen + 1;
        }
        Ok(ma)
    }
}

impl<A: Fn(&[u32]) -> u32> Calculation<usize, SmaBar> for Sma<A> {
    open spec fn accepts(&self, params: &usize, bars: &[OHLCBar]) -> bool {
        Self::takes_windows(*params, &self.averaging())
    }

    open spec fn computes(
        &self,
        params: &usize,
        bars: &[OHLCBar],
        out: Result<Vec<SmaBar>, DataError>,
    ) -> bool {
        Self::averages(*params, bars@, &self.averaging(), out)
    }

    fn calculate(&self, params: &usize, bars: &[OHLCBar]) -> (out: Result<Vec<SmaBar>, DataError>) {
        Sma::calculate(params, bars, &self.average)
    }
}

} // verus!
