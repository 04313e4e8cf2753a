//! The feed itself: one buffer and the position up to which it is revealed.
use vstd::prelude::*;

use super::{FeedView, LatestFeed, SourceFeed, TruncateFeed, UpdateFeed};
use crate::data::asset::{BarDate, GetBarDate};
use crate::data::DataError;

verus! {

/// An ordered history that is revealed one element at a time. Once an
/// element has been revealed, what is still pending can no longer be read or
/// cut.
#[derive(Debug)]
pub struct DataFeed<T> {
    items: Vec<T>,
    cursor: usize,
}

impl<T> View for DataFeed<T> {
    type V = FeedView<T>;

    closed spec fn view(&self) -> FeedView<T> {
        FeedView {
            pending: self.items@.subrange(self.cursor as int, self.items@.len() as int),
            revealed: self.items@.subrange(0, self.cursor as int),
        }
    }
}

impl<T> DataFeed<T> {
    #[verifier::type_invariant]
    spec fn cursor_in_bounds(&self) -> bool {
        self.cursor <= self.items@.len()
    }

    /// A feed that holds `source`, oldest first, and has revealed nothing.
    pub fn new(source: Vec<T>) -> (feed: Self)
        ensures
            feed@ == FeedView::fresh(source@),
    {
        let feed = DataFeed { items: source, cursor: 0 };
        assert(feed@.pending =~= source@);
        assert(feed@.revealed =~= Seq::<T>::empty());
        feed
    }

    /// The whole pending history while nothing has been revealed.
    pub(crate) fn pending_items(&self) -> (pending: Option<&[T]>)
        ensures
            match pending {
                Some(items) => self@.source() == Some(items@),
                None => self@.source() is None,
            },
    {
        proof {
            use_type_invariant(self);
        }
        if self.cursor == 0 {
            let items = self.items.as_slice();
            assert(items@ =~= self@.pending);
            Some(items)
        } else {
            None
        }
    }
}

impl<T> UpdateFeed for DataFeed<T> {
    open spec fn can_update(&self) -> bool {
        self@.can_advance()
    }

    open spec fn updates_to(&self, next: &Self) -> bool {
        next@ == self@.advance()
    }

    fn update(&mut self) -> (advanced: bool) {
        proof {
            use_type_invariant(&*self);
        }
        if self.cursor < self.items.len() {
            self.cursor = self.cursor + 1;
            proof {
                assert(self@.pending =~= old(self)@.pending.drop_first());
                assert(self@.revealed =~= old(self)@.revealed.push(old(self)@.pending.first()));
            }
            true
        } else {
            false
        }
    }
}

impl<T> LatestFeed<T> for DataFeed<T> {
    open spec fn revealed(&self) -> Seq<T> {
        self@.revealed
    }

    fn latest_n(&self, n: usize) -> (recent: Vec<&T>) {
        proof {
            use_type_invariant(self);
        }
        let count = if n <= self.cursor { n } else { self.cursor };
        let mut recent: Vec<&T> = Vec::new();
        let mut taken: usize = 0;
        while taken < count
            invariant
                taken <= count <= self.cursor <= self.items@.len(),
                recent@.len() == taken,
                forall|i: int|
                    0 <= i < taken ==> *(#[trigger] recent@[i]) == self.items@[self.cursor - 1 - i],
            decreases count - taken,
        {
            recent.push(&self.items[self.cursor - 1 - taken]);
            taken = taken + 1;
        }
        recent
    }

    fn latest(&self) -> (last: Option<&T>) {
        proof {
            use_type_invariant(self);
        }
        if self.cursor == 0 {
            None
        } else {
            Some(&self.items[self.cursor - 1])
        }
    }
}

impl<T> SourceFeed<T> for DataFeed<T> {
    open spec fn pending(&self) -> Option<Seq<T>> {
        self@.source()
    }

    fn source(&self) -> (pending: Option<&[T]>) {
        self.pending_items()
    }
}

impl<T: GetBarDate> TruncateFeed for DataFeed<T> {
    open spec fn can_truncate(&self) -> bool {
        self@.untouched()
    }

    open spec fn truncates_to(&self, cutoff: BarDate, next: &Self) -> bool {
        next@ == self@.truncate(cutoff)
    }

    fn truncate(&mut self, date: BarDate) -> (done: Result<(), DataError>) {
        proof {
            use_type_invariant(&*self);
        }
        if self.cursor != 0 {
            return Err(DataError::SourceLocked);
        }
        let mut all: Vec<T> = Vec::new();
        std::mem::swap(&mut self.items, &mut all);
        let ghost before = all@;
        let ghost keep = |item: T| date@ <= item.date()@;
        let mut kept: Vec<T> = Vec::new();
        for item in walk: all
            invariant
                walk.seq() == before,
                keep == |item: T| date@ <= item.date()@,
                kept@ == before.take(walk.index() as int).filter(keep),
        {
            proof {
                let seen = before.take(walk.index() as int);
                let more = before.take(walk.index() + 1);
                assert(more.drop_last() =~= seen);
                reveal(Seq::filter);
            }
            if !item.bardate().is_before(&date) {
                kept.push(item);
            }
        }
        self.items = kept;
        proof {
            assert(before.take(before.len() as int) =~= before);
            assert(self@.pending =~= self.items@);
            assert(old(self)@.pending =~= before);
            assert(self@.revealed =~= old(self)@.revealed);
        }
        Ok(())
    }
}

} // verus!
