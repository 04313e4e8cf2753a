//! Indicators: series that are computed once from a raw history and then
//! replayed like any feed.
use vstd::prelude::*;

use super::asset::{BarDate, OHLCBar, Symbol};
use super::feed::{TruncateFeed, UpdateFeed};
use super::DataError;

pub mod ema;
pub mod ind;
pub mod sma;

verus! {

/// A calculation that turns parameters and a history of raw bars, oldest
/// first, into a series of derived records, oldest first. Every function or
/// closure of that shape is one.
pub trait Calculation<P, B> {
    /// Whether the calculation may be run on `params` and `bars`.
    spec fn accepts(&self, params: &P, bars: &[OHLCBar]) -> bool;

    /// Whether the calculation may give `out` for `params` and `bars`.
    spec fn computes(&self, params: &P, bars: &[OHLCBar], out: Result<Vec<B>, DataError>) -> bool;

    /// Runs the calculation.
    fn calculate(&self, params: &P, bars: &[OHLCBar]) -> (out: Result<Vec<B>, DataError>)
        requires
            self.accepts(params, bars),
        ensures
            self.computes(params, bars, out),
    ;
}

impl<P, B, F: Fn(&P, &[OHLCBar]) -> Result<Vec<B>, DataError>> Calculation<P, B> for F {
    open spec fn accepts(&self, params: &P, bars: &[OHLCBar]) -> bool {
        call_requires(*self, (params, bars))
    }

    open spec fn computes(&self, params: &P, bars: &[OHLCBar], out: Result<Vec<B>, DataError>) -> bool {
        call_ensures(*self, (params, bars), out)
    }

    fn calculate(&self, params: &P, bars: &[OHLCBar]) -> (out: Result<Vec<B>, DataError>) {
        self(params, bars)
    }
}

/// For a function or closure, to be accepted and to compute mean what its
/// own `requires` and `ensures` say.
pub proof fn lemma_function_is_calculation<P, B, F: Fn(&P, &[OHLCBar]) -> Result<Vec<B>, DataError>>(
    function: F,
)
    ensures
        forall|params: &P, bars: &[OHLCBar]|
            #[trigger] function.accepts(params, bars) == call_requires(function, (params, bars)),
        forall|params: &P, bars: &[OHLCBar], out: Result<Vec<B>, DataError>|
            #[trigger] function.computes(params, bars, out) == call_ensures(
                function,
                (params, bars),
                out,
            ),
{
}

/// A derived series of one instrument that is filled once and then replayed.
pub trait Indicator: UpdateFeed + TruncateFeed {
    /// The text of the symbol that the indicator belongs to.
    spec fn symbol_text(&self) -> Seq<char>;

    /// Whether the calculation has not been used yet.
    spec fn fillable(&self) -> bool;

    /// Whether a call of `fill` with `bars` may turn this indicator into
    /// `next` and return `start`.
    spec fn fills_to(&self, bars: Seq<OHLCBar>, next: &Self, start: Result<BarDate, DataError>) -> bool;

    /// The symbol that the indicator belongs to.
    fn symbol(&self) -> (symbol: &Symbol)
        ensures
            symbol@ == self.symbol_text(),
    ;

    /// Runs the calculation on `bars` and keeps its result for replay.
    /// Returns the date of the first derived record. The calculation is used
    /// up by the first call, whatever it gives: every later call fails with
    /// `IndicatorAlreadyFilled` and changes nothing.
    fn fill(&mut self, bars: &[OHLCBar]) -> (start: Result<BarDate, DataError>)
        ensures
            old(self).fills_to(bars@, final(self), start),
            final(self).symbol_text() == old(self).symbol_text(),
            !final(self).fillable(),
            !old(self).fillable() ==> start == Err::<BarDate, DataError>(
                DataError::IndicatorAlreadyFilled,
            ) && *final(self) == *old(self),
    ;
}

} // verus!
