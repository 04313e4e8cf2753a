//! The feed of the records that an indicator has computed.
use vstd::prelude::*;

use super::data_feed::DataFeed;
use super::FeedView;
use super::{LatestFeed, SourceFeed, TruncateFeed, UpdateFeed};
use crate::data::asset::{BarDate, GetBarDate};
use crate::data::DataError;

verus! {

/// A feed of derived records.
pub struct IndicatorFeed<T>(DataFeed<T>);

impl<T> View for IndicatorFeed<T> {
    type V = FeedView<T>;

    closed spec fn view(&self) -> FeedView<T> {
        self.0@
    }
}

impl<T> IndicatorFeed<T> {
    /// A feed that holds `source`, oldest first, and has revealed nothing.
    pub fn new(source: Vec<T>) -> (feed: Self)
        ensures
            feed@ == FeedView::fresh(source@),
    {
        Self(DataFeed::new(source))
    }
}

impl<T> UpdateFeed for IndicatorFeed<T> {
    open spec fn can_update(&self) -> bool {
        self@.can_advance()
    }

    open spec fn updates_to(&self, next: &Self) -> bool {
        next@ == self@.advance()
    }

    fn update(&mut self) -> (advanced: bool) {
        self.0.update()
    }
}

impl<T> LatestFeed<T> for IndicatorFeed<T> {
    open spec fn revealed(&self) -> Seq<T> {
        self@.revealed
    }

    fn latest_n(&self, n: usize) -> (recent: Vec<&T>) {
        self.0.latest_n(n)
    }

    fn latest(&self) -> (last: Option<&T>) {
        self.0.latest()
    }
}

impl<T> SourceFeed<T> for IndicatorFeed<T> {
    open spec fn pending(&self) -> Option<Seq<T>> {
        self@.source()
    }

    fn source(&self) -> (pending: Option<&[T]>) {
        self.0.source()
    }
}

impl<T: GetBarDate> TruncateFeed for IndicatorFeed<T> {
    open spec fn can_truncate(&self) -> bool {
        self@.untouched()
    }

    open spec fn truncates_to(&self, cutoff: BarDate, next: &Self) -> bool {
        next@ == self@.truncate(cutoff)
    }

    fn truncate(&mut self, date: BarDate) -> (done: Result<(), DataError>) {
        self.0.truncate(date)
    }
}

} // verus!
