//! The feed of raw bars of one instrument.
use vstd::prelude::*;

use super::data_feed::DataFeed;
use super::FeedView;
use super::{LatestFeed, SourceFeed, TruncateFeed, UpdateFeed};
use crate::data::asset::{BarDate, OHLCBar};
use crate::data::DataError;

verus! {

/// A feed of raw bars.
pub struct BarFeed(DataFeed<OHLCBar>);

impl View for BarFeed {
    type V = FeedView<OHLCBar>;

    closed spec fn view(&self) -> FeedView<OHLCBar> {
        self.0@
    }
}

impl BarFeed {
    /// A feed that holds `source`, oldest first, and has revealed nothing.
    pub fn new(source: Vec<OHLCBar>) -> (feed: Self)
        ensures
            feed@ == FeedView::fresh(source@),
    {
        Self(DataFeed::new(source))
    }

    /// The whole pending history while nothing has been revealed.
    pub(crate) fn pending_bars(&self) -> (pending: Option<&[OHLCBar]>)
        ensures
            match pending {
                Some(items) => self@.source() == Some(items@),
                None => self@.source() is None,
            },
    {
        self.0.pending_items()
    }
}

impl UpdateFeed for BarFeed {
    open spec fn can_update(&self) -> bool {
        self@.can_advance()
    }

    open spec fn updates_to(&self, next: &Self) -> bool {
        next@ == self@.advance()
    }

    fn update(&mut self) -> (advanced: bool) {
        self.0.update()
    }
}

impl LatestFeed<OHLCBar> for BarFeed {
    open spec fn revealed(&self) -> Seq<OHLCBar> {
        self@.revealed
    }

    fn latest_n(&self, n: usize) -> (recent: Vec<&OHLCBar>) {
        self.0.latest_n(n)
    }

    fn latest(&self) -> (last: Option<&OHLCBar>) {
        self.0.latest()
    }
}

impl SourceFeed<OHLCBar> for BarFeed {
    open spec fn pending(&self) -> Option<Seq<OHLCBar>> {
        self@.source()
    }

    fn source(&self) -> (pending: Option<&[OHLCBar]>) {
        self.pending_bars()
    }
}

impl TruncateFeed for BarFeed {
    open spec fn can_truncate(&self) -> bool {
        self@.untouched()
    }

    open spec fn truncates_to(&self, cutoff: BarDate, next: &Self) -> bool {
        next@ == self@.truncate(cutoff)
    }

    fn truncate(&mut self, date: BarDate) -> (done: Result<(), DataError>) {
        self.0.truncate(date)
    }
}

} // verus!
