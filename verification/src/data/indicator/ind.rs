//! The general indicator: a symbol, parameters, a calculation that runs once
//! and the feed of what it computed.
use vstd::prelude::*;

use super::{Calculation, Indicator};
use crate::data::asset::{BarDate, GetBarDate, OHLCBar, Symbol};
use crate::data::feed::indicator_feed::IndicatorFeed;
use crate::data::feed::FeedView;
use crate::data::feed::{LatestFeed, SourceFeed, TruncateFeed, UpdateFeed};
use crate::data::DataError;

verus! {

/// What a calculation's outcome makes of an indicator: the feed it holds
/// afterwards, given the feed it held before, and the value that `fill`
/// returns.
pub open spec fn outcome<B: GetBarDate>(
    computed: Result<Seq<B>, DataError>,
    before: Option<FeedView<B>>,
) -> (Option<FeedView<B>>, Result<BarDate, DataError>) {
    match computed {
        Err(error) => (before, Err(error)),
        Ok(records) => if records.len() == 0 {
            (before, Err(DataError::NotEnoughSource))
        } else {
            (Some(FeedView::fresh(records)), Ok(records.first().date()))
        },
    }
}

/// The view of what a calculation returned.
pub open spec fn computed_view<B>(computed: Result<Vec<B>, DataError>) -> Result<
    Seq<B>,
    DataError,
> {
    match computed {
        Ok(records) => Ok(records@),
        Err(error) => Err(error),
    }
}

/// An indicator made of parameters and a calculation. The calculation is
/// kept until the first `fill`, which uses it up; the derived feed exists
/// once a calculation has given at least one record. Until then the
/// indicator behaves as a feed that holds nothing and has revealed nothing.
#[verifier::reject_recursive_types(P)]
#[verifier::reject_recursive_types(B)]
pub struct Ind<P, B: GetBarDate, F: Calculation<P, B>> {
    symbol: Symbol,
    params: P,
    bars: Option<IndicatorFeed<B>>,
    filler: Option<F>,
}

impl<P, B: GetBarDate, F: Calculation<P, B>> Ind<P, B, F> {
    #[verifier::type_invariant]
    spec fn well_formed(&self) -> bool {
        &&& self.bars is Some ==> self.filler is None
        &&& self.filler matches Some(filler) ==> forall|bars: &[OHLCBar]|
            filler.accepts(&self.params, bars)
    }

    /// The text of the indicator's symbol.
    pub closed spec fn symbol_view(&self) -> Seq<char> {
        self.symbol@
    }

    /// The parameters that the calculation is given.
    pub closed spec fn parameters(&self) -> P {
        self.params
    }

    /// The calculation, while it has not been used.
    pub closed spec fn calculation(&self) -> Option<F> {
        self.filler
    }

    /// The derived feed, once a calculation has given one.
    pub closed spec fn feed(&self) -> Option<FeedView<B>> {
        match self.bars {
            Some(feed) => Some(feed@),
            None => None,
        }
    }

    /// Whether `next` has the symbol, the parameters and the calculation of
    /// this indicator.
    pub open spec fn same_setup(&self, next: &Self) -> bool {
        &&& next.symbol_view() == self.symbol_view()
        &&& next.parameters() == self.parameters()
        &&& next.calculation() == self.calculation()
    }

    /// Whether the derived feed exists and has something left to reveal.
    pub open spec fn can_advance(&self) -> bool {
        self.feed() matches Some(feed) && feed.can_advance()
    }

    /// Whether `next` is this indicator after its derived feed has revealed
    /// its next record.
    pub open spec fn advances_to(&self, next: &Self) -> bool {
        &&& self.same_setup(next)
        &&& self.feed() matches Some(feed) && next.feed() == Some(feed.advance())
    }

    /// The records revealed so far, oldest first: none before the derived
    /// feed exists.
    pub open spec fn shown(&self) -> Seq<B> {
        match self.feed() {
            Some(feed) => feed.revealed,
            None => Seq::empty(),
        }
    }

    /// The pending records while none has been revealed: none before the
    /// derived feed exists.
    pub open spec fn readable(&self) -> Option<Seq<B>> {
        match self.feed() {
            Some(feed) => feed.source(),
            None => Some(Seq::empty()),
        }
    }

    /// Whether the pending records may still be cut: always before the
    /// derived feed exists, and then until it reveals a record.
    pub open spec fn can_be_cut(&self) -> bool {
        self.feed() matches Some(feed) ==> feed.untouched()
    }

    /// Whether `next` is this indicator with the pending records dated
    /// before `cutoff` removed.
    pub open spec fn cut_to(&self, cutoff: BarDate, next: &Self) -> bool {
        &&& self.same_setup(next)
        &&& next.feed() == match self.feed() {
            Some(feed) => Some(feed.truncate(cutoff)),
            None => None,
        }
    }

    /// Whether a call of `fill` with `bars` may turn this indicator into
    /// `next` and return `start`. Without a calculation nothing changes and
    /// the call fails; with one, the calculation is used up and what it may
    /// give for `bars` decides the feed and the result.
    pub open spec fn filled_to(
        &self,
        bars: Seq<OHLCBar>,
        next: &Self,
        start: Result<BarDate, DataError>,
    ) -> bool {
        match self.calculation() {
            None => start == Err::<BarDate, DataError>(DataError::IndicatorAlreadyFilled)
                && *next == *self,
            Some(filler) => {
                &&& next.symbol_view() == self.symbol_view()
                &&& next.parameters() == self.parameters()
                &&& next.calculation() is None
                &&& exists|given: &[OHLCBar], computed: Result<Vec<B>, DataError>|
                    {
                        &&& given@ == bars
                        &&& #[trigger] filler.computes(&self.parameters(), given, computed)
                        &&& (next.feed(), start) == outcome(computed_view(computed), self.feed())
                    }
            },
        }
    }

    /// What the capabilities of a feed and of an indicator mean for this
    /// indicator. The verifier sees this by itself unless the calculation
    /// is, or holds, a function or a closure.
    pub proof fn lemma_capabilities(self)
        ensures
            self.can_update() == self.can_advance(),
            forall|next: Self| #[trigger] self.updates_to(&next) == self.advances_to(&next),
            self.revealed() == self.shown(),
            self.pending() == self.readable(),
            self.can_truncate() == self.can_be_cut(),
            forall|cutoff: BarDate, next: Self| #[trigger]
                self.truncates_to(cutoff, &next) == self.cut_to(cutoff, &next),
            self.symbol_text() == self.symbol_view(),
            self.fillable() == (self.calculation() is Some),
            forall|bars: Seq<OHLCBar>, next: Self, start: Result<BarDate, DataError>| #[trigger]
                self.fills_to(bars, &next, start) == self.filled_to(bars, &next, start),
    {
    }

    /// An indicator for `symbol` that will run `filler` on `params` and the
    /// bars it is filled with. `filler` is not called here.
    pub fn new(symbol: &Symbol, params: P, filler: F) -> (indicator: Self)
        requires
            forall|bars: &[OHLCBar]| filler.accepts(&params, bars),
        ensures
            indicator.symbol_view() == symbol@,
            indicator.parameters() == params,
            indicator.calculation() == Some(filler),
            indicator.feed() is None,
    {
        Self { symbol: symbol.clone(), bars: None, filler: Some(filler), params }
    }

    /// An indicator is filled at most once: whatever the first `fill` gave,
    /// a second one fails with `IndicatorAlreadyFilled` and changes nothing.
    pub proof fn law_fill_once(
        first: Self,
        bars: Seq<OHLCBar>,
        second: Self,
        start: Result<BarDate, DataError>,
        more: Seq<OHLCBar>,
        third: Self,
        again: Result<BarDate, DataError>,
    )
        requires
            first.filled_to(bars, &second, start),
            second.filled_to(more, &third, again),
        ensures
            again == Err::<BarDate, DataError>(DataError::IndicatorAlreadyFilled),
            third == second,
    {
    }

    /// Keeps what a calculation returned: its records become the derived
    /// feed, unless it failed or gave none.
    fn install(&mut self, computed: Result<Vec<B>, DataError>) -> (start: Result<BarDate, DataError>)
        requires
            old(self).filler is None,
        ensures
            old(self).same_setup(final(self)),
            (final(self).feed(), start) == outcome(computed_view(computed), old(self).feed()),
    {
        match computed {
            Err(error) => Err(error),
            Ok(records) => {
                if records.len() == 0 {
                    Err(DataError::NotEnoughSource)
                } else {
                    let start = records[0].bardate();
                    self.bars = Some(IndicatorFeed::new(records));
                    Ok(start)
                }
            },
        }
    }
}

impl<P, B: GetBarDate, F: Calculation<P, B>> UpdateFeed for Ind<P, B, F> {
    open spec fn can_update(&self) -> bool {
        self.can_advance()
    }

    open spec fn updates_to(&self, next: &Self) -> bool {
        self.advances_to(next)
    }

    fn update(&mut self) -> (advanced: bool) {
        proof {
            use_type_invariant(&*self);
        }
        let mut slot: Option<IndicatorFeed<B>> = None;
        std::mem::swap(&mut self.bars, &mut slot);
        match slot {
            Some(mut feed) => {
                let advanced = feed.update();
                self.bars = Some(feed);
                advanced
            },
            None => false,
        }
    }
}

impl<P, B: GetBarDate, F: Calculation<P, B>> LatestFeed<B> for Ind<P, B, F> {
    open spec fn revealed(&self) -> Seq<B> {
        self.shown()
    }

    fn latest_n(&self, n: usize) -> (recent: Vec<&B>) {
        match &self.bars {
            Some(feed) => feed.latest_n(n),
            None => Vec::new(),
        }
    }

    fn latest(&self) -> (last: Option<&B>) {
        match &self.bars {
            Some(feed) => feed.latest(),
            None => None,
        }
    }
}

impl<P, B: GetBarDate, F: Calculation<P, B>> SourceFeed<B> for Ind<P, B, F> {
    open spec fn pending(&self) -> Option<Seq<B>> {
        self.readable()
    }

    fn source(&self) -> (pending: Option<&[B]>) {
        match &self.bars {
            Some(feed) => feed.source(),
            None => {
                let nothing: &[B] = &[];
                Some(nothing)
            },
        }
    }
}

impl<P, B: GetBarDate, F: Calculation<P, B>> TruncateFeed for Ind<P, B, F> {
    open spec fn can_truncate(&self) -> bool {
        self.can_be_cut()
    }

    open spec fn truncates_to(&self, cutoff: BarDate, next: &Self) -> bool {
        self.cut_to(cutoff, next)
    }

    fn truncate(&mut self, date: BarDate) -> (done: Result<(), DataError>) {
        proof {
            use_type_invariant(&*self);
        }
        let mut slot: Option<IndicatorFeed<B>> = None;
        std::mem::swap(&mut self.bars, &mut slot);
        match slot {
            Some(mut feed) => {
                let done = feed.truncate(date);
                self.bars = Some(feed);
                done
            },
            None => Ok(()),
        }
    }
}

impl<P, B: GetBarDate, F: Calculation<P, B>> Indicator for Ind<P, B, F> {
    open spec fn symbol_text(&self) -> Seq<char> {
        self.symbol_view()
    }

    open spec fn fillable(&self) -> bool {
        self.calculation() is Some
    }

    open spec fn fills_to(
        &self,
        bars: Seq<OHLCBar>,
        next: &Self,
        start: Result<BarDate, DataError>,
    ) -> bool {
        self.filled_to(bars, next, start)
    }

    fn symbol(&self) -> (symbol: &Symbol) {
        &self.symbol
    }

    fn fill(&mut self, bars: &[OHLCBar]) -> (start: Result<BarDate, DataError>) {
        proof {
            use_type_invariant(&*self);
        }
        let mut slot: Option<F> = None;
        std::mem::swap(&mut self.filler, &mut slot);
        match slot {
            None => Err(DataError::IndicatorAlreadyFilled),
            Some(filler) => {
                let computed = filler.calculate(&self.params, bars);
                let ghost shown = computed;
                let start = self.install(computed);
                proof {
                    assert(filler.computes(&old(self).parameters(), bars, shown));
                }
                start
            },
        }
    }
}

} // verus!
